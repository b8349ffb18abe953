//! Points of the JSON group schema: a named field with a declared register
//! type, word size, access mode, mandatory flag, optional scale-factor
//! reference and symbol table.

use crate::json::{spec_symbol_like, ConversionError, Symbol};
use crate::text::str_eq;
use vstd::prelude::*;

verus! {

/// A single named field of a JSON schema group.
#[derive(Debug, PartialEq)]
pub struct Point {
    pub access: PointAccess,
    pub comments: Vec<String>,
    pub count: Option<i64>,
    pub desc: Option<String>,
    pub detail: Option<String>,
    pub label: Option<String>,
    pub mandatory: PointMandatory,
    pub name: String,
    pub notes: Option<String>,
    pub sf: Option<PointSf>,
    pub size: i64,
    pub static_: PointStatic,
    pub symbols: Vec<Symbol>,
    pub type_: PointType,
    pub units: Option<String>,
    pub value: Option<PointValue>,
}

/// Whether a point may be written as well as read.
#[derive(Debug, Clone, Copy, PartialEq, Eq, Hash, Structural)]
pub enum PointAccess {
    R,
    Rw,
}

impl PointAccess {
    /// The schema spelling of the access mode.
    pub fn to_string(&self) -> (r: String)
        ensures
            *self is R ==> r@ == "R"@,
            *self is Rw ==> r@ == "RW"@,
    {
        match *self {
            PointAccess::R => "R".to_owned(),
            PointAccess::Rw => "RW".to_owned(),
        }
    }

    /// Parse the schema spelling of an access mode.
    pub fn from_str(value: &str) -> (r: Result<Self, ConversionError>)
        ensures
            r is Ok <==> (value@ == "R"@ || value@ == "RW"@),
            value@ == "R"@ ==> (r matches Ok(v) && v is R),
            value@ == "RW"@ ==> (r matches Ok(v) && v is Rw),
    {
        proof {
            reveal_strlit("R");
            reveal_strlit("RW");
            assert("R"@.len() == 1 && "RW"@.len() == 2);
            assert("R"@ != "RW"@);
        }
        if str_eq(value, "R") {
            Ok(PointAccess::R)
        } else if str_eq(value, "RW") {
            Ok(PointAccess::Rw)
        } else {
            Err(ConversionError::new("invalid value"))
        }
    }
}

/// Whether a device must implement the point.
#[derive(Debug, Clone, Copy, PartialEq, Eq, Hash, Structural)]
pub enum PointMandatory {
    M,
    O,
}

impl PointMandatory {
    /// The schema spelling of the mandatory flag.
    pub fn to_string(&self) -> (r: String)
        ensures
            *self is M ==> r@ == "M"@,
            *self is O ==> r@ == "O"@,
    {
        match *self {
            PointMandatory::M => "M".to_owned(),
            PointMandatory::O => "O".to_owned(),
        }
    }

    /// Parse the schema spelling of a mandatory flag.
    pub fn from_str(value: &str) -> (r: Result<Self, ConversionError>)
        ensures
            r is Ok <==> (value@ == "M"@ || value@ == "O"@),
            value@ == "M"@ ==> (r matches Ok(v) && v is M),
            value@ == "O"@ ==> (r matches Ok(v) && v is O),
    {
        proof {
            reveal_strlit("M");
            reveal_strlit("O");
            assert("M"@[0] == 'M' && "O"@[0] == 'O');
            assert("M"@ != "O"@);
        }
        if str_eq(value, "M") {
            Ok(PointMandatory::M)
        } else if str_eq(value, "O") {
            Ok(PointMandatory::O)
        } else {
            Err(ConversionError::new("invalid value"))
        }
    }
}

/// Whether a point's value is static (fixed by the schema) or dynamic.
#[derive(Debug, Clone, Copy, PartialEq, Eq, Hash, Structural)]
pub enum PointStatic {
    D,
    S,
}

impl PointStatic {
    /// The schema spelling of the static flag.
    pub fn to_string(&self) -> (r: String)
        ensures
            *self is D ==> r@ == "D"@,
            *self is S ==> r@ == "S"@,
    {
        match *self {
            PointStatic::D => "D".to_owned(),
            PointStatic::S => "S".to_owned(),
        }
    }

    /// Parse the schema spelling of a static flag.
    pub fn from_str(value: &str) -> (r: Result<Self, ConversionError>)
        ensures
            r is Ok <==> (value@ == "D"@ || value@ == "S"@),
            value@ == "D"@ ==> (r matches Ok(v) && v is D),
            value@ == "S"@ ==> (r matches Ok(v) && v is S),
    {
        proof {
            reveal_strlit("D");
            reveal_strlit("S");
            assert("D"@[0] == 'D' && "S"@[0] == 'S');
            assert("D"@ != "S"@);
        }
        if str_eq(value, "D") {
            Ok(PointStatic::D)
        } else if str_eq(value, "S") {
            Ok(PointStatic::S)
        } else {
            Err(ConversionError::new("invalid value"))
        }
    }
}

/// A scale-factor reference: either the name of another point or a literal
/// power-of-ten exponent.
#[derive(Debug, PartialEq)]
pub enum PointSf {
    String(String),
    Integer(i64),
}

impl PointSf {
    /// The schema spelling of the reference: the point's name, or the
    /// literal exponent in decimal.
    pub fn to_string(&self) -> (r: String)
        ensures
            self matches PointSf::String(s) ==> r@ == s@,
            self matches PointSf::Integer(i) ==> r@ == crate::text::spec_i64_dec_chars(*i),
    {
        match self {
            PointSf::String(s) => s.clone(),
            PointSf::Integer(i) => crate::text::i64_to_dec_string(*i),
        }
    }
}

impl Clone for PointSf {
    fn clone(&self) -> (r: Self)
        ensures
            r == *self,
    {
        match self {
            PointSf::String(s) => PointSf::String(s.clone()),
            PointSf::Integer(v) => PointSf::Integer(*v),
        }
    }
}

/// A static point value fixed by the schema.
#[derive(Debug, PartialEq)]
pub enum PointValue {
    String(String),
    Integer(i64),
}

impl PointValue {
    /// The schema spelling of the value: the text itself, or the number in
    /// decimal.
    pub fn to_string(&self) -> (r: String)
        ensures
            self matches PointValue::String(s) ==> r@ == s@,
            self matches PointValue::Integer(i) ==> r@ == crate::text::spec_i64_dec_chars(*i),
    {
        match self {
            PointValue::String(s) => s.clone(),
            PointValue::Integer(i) => crate::text::i64_to_dec_string(*i),
        }
    }
}

impl Clone for PointValue {
    fn clone(&self) -> (r: Self)
        ensures
            r == *self,
    {
        match self {
            PointValue::String(s) => PointValue::String(s.clone()),
            PointValue::Integer(v) => PointValue::Integer(*v),
        }
    }
}

/// Whether two schema points carry the same contents, element for element.
pub open spec fn spec_jpoint_like(a: Point, b: Point) -> bool {
    &&& a.access == b.access
    &&& a.comments@ == b.comments@
    &&& a.count == b.count
    &&& a.desc == b.desc
    &&& a.detail == b.detail
    &&& a.label == b.label
    &&& a.mandatory == b.mandatory
    &&& a.name == b.name
    &&& a.notes == b.notes
    &&& a.sf == b.sf
    &&& a.size == b.size
    &&& a.static_ == b.static_
    &&& a.symbols@.len() == b.symbols@.len()
    &&& forall|i: int|
        0 <= i < a.symbols@.len() ==> spec_symbol_like(#[trigger] a.symbols@[i], b.symbols@[i])
    &&& a.type_ == b.type_
    &&& a.units == b.units
    &&& a.value == b.value
}

impl Clone for Point {
    fn clone(&self) -> (r: Self)
        ensures
            spec_jpoint_like(r, *self),
    {
        let r = Point {
            access: self.access,
            comments: self.comments.clone(),
            count: self.count,
            desc: self.desc.clone(),
            detail: self.detail.clone(),
            label: self.label.clone(),
            mandatory: self.mandatory,
            name: self.name.clone(),
            notes: self.notes.clone(),
            sf: self.sf.clone(),
            size: self.size,
            static_: self.static_,
            symbols: self.symbols.clone(),
            type_: self.type_,
            units: self.units.clone(),
            value: self.value.clone(),
        };
        proof {
            assert(r.comments@ =~= self.comments@);
        }
        r
    }
}

/// The register type of a point.
#[derive(Debug, Clone, Copy, PartialEq, Eq, Hash, Structural)]
pub enum PointType {
    Int16,
    Int32,
    Int64,
    Raw16,
    Uint16,
    Uint32,
    Uint64,
    Acc16,
    Acc32,
    Acc64,
    Bitfield16,
    Bitfield32,
    Bitfield64,
    Enum16,
    Enum32,
    Float32,
    Float64,
    String,
    Sf,
    Pad,
    Ipaddr,
    Ipv6addr,
    Eui48,
    Sunssf,
    Count,
}

impl PointType {
    /// The schema spelling of the register type.
    pub open spec fn spec_tag(self) -> Seq<char> {
        match self {
            PointType::Int16 => "int16"@,
            PointType::Int32 => "int32"@,
            PointType::Int64 => "int64"@,
            PointType::Raw16 => "raw16"@,
            PointType::Uint16 => "uint16"@,
            PointType::Uint32 => "uint32"@,
            PointType::Uint64 => "uint64"@,
            PointType::Acc16 => "acc16"@,
            PointType::Acc32 => "acc32"@,
            PointType::Acc64 => "acc64"@,
            PointType::Bitfield16 => "bitfield16"@,
            PointType::Bitfield32 => "bitfield32"@,
            PointType::Bitfield64 => "bitfield64"@,
            PointType::Enum16 => "enum16"@,
            PointType::Enum32 => "enum32"@,
            PointType::Float32 => "float32"@,
            PointType::Float64 => "float64"@,
            PointType::String => "string"@,
            PointType::Sf => "sf"@,
            PointType::Pad => "pad"@,
            PointType::Ipaddr => "ipaddr"@,
            PointType::Ipv6addr => "ipv6addr"@,
            PointType::Eui48 => "eui48"@,
            PointType::Sunssf => "sunssf"@,
            PointType::Count => "count"@,
        }
    }

    /// Whether the text is the spelling of some register type.
    pub open spec fn spec_is_known_tag(s: Seq<char>) -> bool {
        exists|t: PointType| #[trigger] t.spec_tag() == s
    }

    /// The schema spelling of the register type.
    pub fn to_string(&self) -> (r: String)
        ensures
            r@ == self.spec_tag(),
    {
        match *self {
            PointType::Int16 => "int16".to_owned(),
            PointType::Int32 => "int32".to_owned(),
            PointType::Int64 => "int64".to_owned(),
            PointType::Raw16 => "raw16".to_owned(),
            PointType::Uint16 => "uint16".to_owned(),
            PointType::Uint32 => "uint32".to_owned(),
            PointType::Uint64 => "uint64".to_owned(),
            PointType::Acc16 => "acc16".to_owned(),
            PointType::Acc32 => "acc32".to_owned(),
            PointType::Acc64 => "acc64".to_owned(),
            PointType::Bitfield16 => "bitfield16".to_owned(),
            PointType::Bitfield32 => "bitfield32".to_owned(),
            PointType::Bitfield64 => "bitfield64".to_owned(),
            PointType::Enum16 => "enum16".to_owned(),
            PointType::Enum32 => "enum32".to_owned(),
            PointType::Float32 => "float32".to_owned(),
            PointType::Float64 => "float64".to_owned(),
            PointType::String => "string".to_owned(),
            PointType::Sf => "sf".to_owned(),
            PointType::Pad => "pad".to_owned(),
            PointType::Ipaddr => "ipaddr".to_owned(),
            PointType::Ipv6addr => "ipv6addr".to_owned(),
            PointType::Eui48 => "eui48".to_owned(),
            PointType::Sunssf => "sunssf".to_owned(),
            PointType::Count => "count".to_owned(),
        }
    }

    /// Parse the schema spelling of a register type.
    pub fn from_str(value: &str) -> (r: Result<Self, ConversionError>)
        ensures
            r matches Ok(t) ==> t.spec_tag() == value@,
            r is Err ==> !Self::spec_is_known_tag(value@),
    {
        if str_eq(value, "int16") {
            Ok(PointType::Int16)
        } else if str_eq(value, "int32") {
            Ok(PointType::Int32)
        } else if str_eq(value, "int64") {
            Ok(PointType::Int64)
        } else if str_eq(value, "raw16") {
            Ok(PointType::Raw16)
        } else if str_eq(value, "uint16") {
            Ok(PointType::Uint16)
        } else if str_eq(value, "uint32") {
            Ok(PointType::Uint32)
        } else if str_eq(value, "uint64") {
            Ok(PointType::Uint64)
        } else if str_eq(value, "acc16") {
            Ok(PointType::Acc16)
        } else if str_eq(value, "acc32") {
            Ok(PointType::Acc32)
        } else if str_eq(value, "acc64") {
            Ok(PointType::Acc64)
        } else if str_eq(value, "bitfield16") {
            Ok(PointType::Bitfield16)
        } else if str_eq(value, "bitfield32") {
            Ok(PointType::Bitfield32)
        } else if str_eq(value, "bitfield64") {
            Ok(PointType::Bitfield64)
        } else if str_eq(value, "enum16") {
            Ok(PointType::Enum16)
        } else if str_eq(value, "enum32") {
            Ok(PointType::Enum32)
        } else if str_eq(value, "float32") {
            Ok(PointType::Float32)
        } else if str_eq(value, "float64") {
            Ok(PointType::Float64)
        } else if str_eq(value, "string") {
            Ok(PointType::String)
        } else if str_eq(value, "sf") {
            Ok(PointType::Sf)
        } else if str_eq(value, "pad") {
            Ok(PointType::Pad)
        } else if str_eq(value, "ipaddr") {
            Ok(PointType::Ipaddr)
        } else if str_eq(value, "ipv6addr") {
            Ok(PointType::Ipv6addr)
        } else if str_eq(value, "eui48") {
            Ok(PointType::Eui48)
        } else if str_eq(value, "sunssf") {
            Ok(PointType::Sunssf)
        } else if str_eq(value, "count") {
            Ok(PointType::Count)
        } else {
            proof {
                assert forall|t: PointType| #[trigger] t.spec_tag() != value@ by {
                    match t {
                        PointType::Int16 => assert(t.spec_tag() != value@),
                        PointType::Int32 => assert(t.spec_tag() != value@),
                        PointType::Int64 => assert(t.spec_tag() != value@),
                        PointType::Raw16 => assert(t.spec_tag() != value@),
                        PointType::Uint16 => assert(t.spec_tag() != value@),
                        PointType::Uint32 => assert(t.spec_tag() != value@),
                        PointType::Uint64 => assert(t.spec_tag() != value@),
                        PointType::Acc16 => assert(t.spec_tag() != value@),
                        PointType::Acc32 => assert(t.spec_tag() != value@),
                        PointType::Acc64 => assert(t.spec_tag() != value@),
                        PointType::Bitfield16 => assert(t.spec_tag() != value@),
                        PointType::Bitfield32 => assert(t.spec_tag() != value@),
                        PointType::Bitfield64 => assert(t.spec_tag() != value@),
                        PointType::Enum16 => assert(t.spec_tag() != value@),
                        PointType::Enum32 => assert(t.spec_tag() != value@),
                        PointType::Float32 => assert(t.spec_tag() != value@),
                        PointType::Float64 => assert(t.spec_tag() != value@),
                        PointType::String => assert(t.spec_tag() != value@),
                        PointType::Sf => assert(t.spec_tag() != value@),
                        PointType::Pad => assert(t.spec_tag() != value@),
                        PointType::Ipaddr => assert(t.spec_tag() != value@),
                        PointType::Ipv6addr => assert(t.spec_tag() != value@),
                        PointType::Eui48 => assert(t.spec_tag() != value@),
                        PointType::Sunssf => assert(t.spec_tag() != value@),
                        PointType::Count => assert(t.spec_tag() != value@),
                    }
                }
            }
            Err(ConversionError::new("invalid value"))
        }
    }
}

} // verus!
