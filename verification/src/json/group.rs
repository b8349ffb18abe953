//! Groups of the JSON schema: a named subtree with its own points, child
//! groups, and an instance count that is either a literal integer or the
//! name of a sibling point whose decoded value supplies the count.

use crate::json::point::{spec_jpoint_like, Point};
use crate::json::ConversionError;
use crate::text::str_eq;
use vstd::prelude::*;

verus! {

/// Whether a group is an ordinary group or a synchronized one.
#[derive(Debug, Clone, Copy, PartialEq, Eq, Hash, Structural)]
pub enum GroupType {
    Group,
    Sync,
}

impl GroupType {
    /// The schema spelling of the group type.
    pub fn to_string(&self) -> (r: String)
        ensures
            *self is Group ==> r@ == "group"@,
            *self is Sync ==> r@ == "sync"@,
    {
        match *self {
            GroupType::Group => "group".to_owned(),
            GroupType::Sync => "sync".to_owned(),
        }
    }

    /// Parse the schema spelling of a group type.
    pub fn from_str(value: &str) -> (r: Result<Self, ConversionError>)
        ensures
            r is Ok <==> (value@ == "group"@ || value@ == "sync"@),
            value@ == "group"@ ==> (r matches Ok(v) && v is Group),
            value@ == "sync"@ ==> (r matches Ok(v) && v is Sync),
    {
        proof {
            reveal_strlit("group");
            reveal_strlit("sync");
            assert("group"@.len() == 5 && "sync"@.len() == 4);
            assert("group"@ != "sync"@);
        }
        if str_eq(value, "group") {
            Ok(GroupType::Group)
        } else if str_eq(value, "sync") {
            Ok(GroupType::Sync)
        } else {
            Err(ConversionError::new("invalid value"))
        }
    }
}

/// How many instances of a group follow one another: a literal number, or
/// the name of a previously decoded point that holds the number.
#[derive(Debug, PartialEq)]
pub enum GroupCount {
    String(String),
    Integer(i64),
}

impl GroupCount {
    /// The schema spelling of the count: the referenced point's name, or the
    /// literal number in decimal.
    pub fn to_string(&self) -> (r: String)
        ensures
            self matches GroupCount::String(s) ==> r@ == s@,
            self matches GroupCount::Integer(i) ==> r@ == crate::text::spec_i64_dec_chars(*i),
    {
        match self {
            GroupCount::String(s) => s.clone(),
            GroupCount::Integer(i) => crate::text::i64_to_dec_string(*i),
        }
    }
}

impl Clone for GroupCount {
    fn clone(&self) -> (r: Self)
        ensures
            r == *self,
    {
        match self {
            GroupCount::String(s) => GroupCount::String(s.clone()),
            GroupCount::Integer(v) => GroupCount::Integer(*v),
        }
    }
}

/// A named subtree of the JSON schema.
#[derive(Debug, PartialEq)]
pub struct Group {
    pub comments: Vec<String>,
    pub count: GroupCount,
    pub desc: Option<String>,
    pub detail: Option<String>,
    pub groups: Vec<Group>,
    pub label: Option<String>,
    pub name: String,
    pub notes: Option<String>,
    pub points: Vec<Point>,
    pub type_: GroupType,
}

/// Whether two schema groups carry the same contents, subtree for subtree.
pub open spec fn spec_group_like(a: Group, b: Group) -> bool
    decreases a,
{
    &&& a.comments@ == b.comments@
    &&& a.count == b.count
    &&& a.desc == b.desc
    &&& a.detail == b.detail
    &&& a.label == b.label
    &&& a.name == b.name
    &&& a.notes == b.notes
    &&& a.type_ == b.type_
    &&& a.points@.len() == b.points@.len()
    &&& forall|i: int|
        0 <= i < a.points@.len() ==> spec_jpoint_like(#[trigger] a.points@[i], b.points@[i])
    &&& a.groups@.len() == b.groups@.len()
    &&& forall|i: int|
        0 <= i < a.groups@.len() ==> spec_group_like(#[trigger] a.groups@[i], b.groups@[i])
}

impl Clone for Group {
    fn clone(&self) -> (r: Self)
        ensures
            spec_group_like(r, *self),
        decreases *self,
    {
        let mut gs: Vec<Group> = Vec::new();
        let mut i: usize = 0;
        while i < self.groups.len()
            invariant
                0 <= i <= self.groups@.len(),
                gs@.len() == i,
                forall|k: int|
                    0 <= k < i ==> spec_group_like(#[trigger] gs@[k], self.groups@[k]),
            decreases self.groups@.len() - i,
        {
            gs.push(self.groups[i].clone());
            i = i + 1;
        }
        let r = Group {
            comments: self.comments.clone(),
            count: self.count.clone(),
            desc: self.desc.clone(),
            detail: self.detail.clone(),
            groups: gs,
            label: self.label.clone(),
            name: self.name.clone(),
            notes: self.notes.clone(),
            points: self.points.clone(),
            type_: self.type_,
        };
        proof {
            assert(r.comments@ =~= self.comments@);
        }
        r
    }
}

} // verus!
