//! The root of a JSON schema file: a numbered model holding one root group.

use crate::json::group::{spec_group_like, Group};
use vstd::prelude::*;

verus! {

/// A whole JSON-format model schema.
#[derive(Debug, PartialEq)]
pub struct JSONModel {
    pub id: u16,
    pub group: Group,
}

impl Clone for JSONModel {
    fn clone(&self) -> (r: Self)
        ensures
            r.id == self.id,
            spec_group_like(r.group, self.group),
    {
        JSONModel { id: self.id, group: self.group.clone() }
    }
}

} // verus!
