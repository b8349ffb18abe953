//! The nested JSON group schema format: a tree of named groups, each with a
//! list of points and a list of child groups, normalized elsewhere into the
//! canonical flat block/point representation.

pub mod group;
pub mod misc;
pub mod point;

use vstd::prelude::*;

verus! {

/// Error from parsing a textual schema field.
#[derive(Debug)]
pub struct ConversionError(pub String);

impl Clone for ConversionError {
    fn clone(&self) -> (r: Self)
        ensures
            r == *self,
    {
        ConversionError(self.0.clone())
    }
}

impl ConversionError {
    /// Wrap a description of what failed to parse.
    pub fn new(msg: &str) -> (r: ConversionError)
        ensures
            r.0@ == msg@,
    {
        ConversionError(msg.to_owned())
    }

    /// The description of what failed to parse.
    pub fn message(&self) -> (r: &str)
        ensures
            r@ == self.0@,
    {
        self.0.as_str()
    }
}

/// The value a symbol stands for: schema files carry either a number or a
/// short text.
#[derive(Debug, PartialEq)]
pub enum SymbolValue {
    Integer(i64),
    Text(String),
}

impl Clone for SymbolValue {
    fn clone(&self) -> (r: Self)
        ensures
            r == *self,
    {
        match self {
            SymbolValue::Integer(v) => SymbolValue::Integer(*v),
            SymbolValue::Text(s) => SymbolValue::Text(s.clone()),
        }
    }
}

/// A named code value of an enumeration or bitfield point.
#[derive(Debug, PartialEq)]
pub struct Symbol {
    pub comments: Vec<String>,
    pub desc: Option<String>,
    pub detail: Option<String>,
    pub label: Option<String>,
    pub name: String,
    pub notes: Option<String>,
    pub value: SymbolValue,
}

/// Whether two symbols carry the same contents, element for element.
pub open spec fn spec_symbol_like(a: Symbol, b: Symbol) -> bool {
    &&& a.comments@ == b.comments@
    &&& a.desc == b.desc
    &&& a.detail == b.detail
    &&& a.label == b.label
    &&& a.name == b.name
    &&& a.notes == b.notes
    &&& a.value == b.value
}

impl Clone for Symbol {
    fn clone(&self) -> (r: Self)
        ensures
            spec_symbol_like(r, *self),
    {
        let r = Symbol {
            comments: self.comments.clone(),
            desc: self.desc.clone(),
            detail: self.detail.clone(),
            label: self.label.clone(),
            name: self.name.clone(),
            notes: self.notes.clone(),
            value: self.value.clone(),
        };
        proof {
            assert(r.comments@ =~= self.comments@);
        }
        r
    }
}

} // verus!
