//! The canonical in-memory model representation: a numbered model made of
//! ordered blocks, each an ordered list of typed points, together with the
//! localized strings table and the single decoded-value representation that
//! callers receive regardless of the source register encoding.

use crate::codec::{sat_add_u16, size_to_u16, spec_sat_add_u16, spec_size_u16};
use crate::json::group::{spec_group_like, Group};
use crate::json::misc::JSONModel;
use crate::json::point::{Point as JsonPoint, PointAccess, PointMandatory, PointSf, PointStatic, PointValue};
use crate::json::{ConversionError, Symbol as JsonSymbol, SymbolValue};
use crate::text::{i64_to_dec_string, spec_i64_dec_chars};
use vstd::prelude::*;

verus! {

/// An exact scaled measurement: `raw * 10^sf`, kept as the pair so that no
/// precision is lost; callers render it as a real number when they need one.
#[derive(Debug, Clone, Copy, PartialEq, Eq, Structural)]
pub struct ScaledValue {
    pub raw: i64,
    pub sf: i16,
}

/// The single decoded-value representation returned to callers.
#[derive(Debug, PartialEq)]
pub enum ValueType {
    String(String),
    Integer(i64),
    Scaled(ScaledValue),
    Boolean(bool),
    Array(Vec<String>),
    Pad,
}

/// Whether two decoded values carry the same contents.
pub open spec fn spec_value_like(a: ValueType, b: ValueType) -> bool {
    match (a, b) {
        (ValueType::String(x), ValueType::String(y)) => x == y,
        (ValueType::Integer(x), ValueType::Integer(y)) => x == y,
        (ValueType::Scaled(x), ValueType::Scaled(y)) => x == y,
        (ValueType::Boolean(x), ValueType::Boolean(y)) => x == y,
        (ValueType::Array(x), ValueType::Array(y)) => x@ == y@,
        (ValueType::Pad, ValueType::Pad) => true,
        _ => false,
    }
}

/// Whether two optional decoded values carry the same contents.
pub open spec fn spec_opt_value_like(a: Option<ValueType>, b: Option<ValueType>) -> bool {
    match (a, b) {
        (Option::None, Option::None) => true,
        (Option::Some(x), Option::Some(y)) => spec_value_like(x, y),
        _ => false,
    }
}

impl Clone for ValueType {
    fn clone(&self) -> (r: Self)
        ensures
            spec_value_like(r, *self),
    {
        match self {
            ValueType::String(s) => ValueType::String(s.clone()),
            ValueType::Integer(v) => ValueType::Integer(*v),
            ValueType::Scaled(v) => ValueType::Scaled(*v),
            ValueType::Boolean(v) => ValueType::Boolean(*v),
            ValueType::Array(v) => {
                let a = v.clone();
                proof {
                    assert(a@ =~= v@);
                }
                ValueType::Array(a)
            },
            ValueType::Pad => ValueType::Pad,
        }
    }
}

/// A point's access mode.
#[derive(Debug, Clone, Copy, PartialEq, Eq, Structural)]
pub enum Access {
    ReadOnly,
    ReadWrite,
}

/// How a caller names a point: a bare point name scoped to a model, or a
/// dotted catalog path resolved against the discovery-time catalog.
#[derive(Debug, PartialEq)]
pub enum PointIdentifier {
    Point(String),
    Catalog(String),
}

impl Clone for PointIdentifier {
    fn clone(&self) -> (r: Self)
        ensures
            r == *self,
    {
        match self {
            PointIdentifier::Point(s) => PointIdentifier::Point(s.clone()),
            PointIdentifier::Catalog(s) => PointIdentifier::Catalog(s.clone()),
        }
    }
}

/// A block selector: a repeating-block index or a block name.
#[derive(Debug, PartialEq)]
pub enum GroupIdentifier {
    Integer(u16),
    String(String),
}

impl Clone for GroupIdentifier {
    fn clone(&self) -> (r: Self)
        ensures
            r == *self,
    {
        match self {
            GroupIdentifier::Integer(v) => GroupIdentifier::Integer(*v),
            GroupIdentifier::String(s) => GroupIdentifier::String(s.clone()),
        }
    }
}

/// An optional block selector.
#[derive(Debug, PartialEq)]
pub struct OptionalGroupIdentifier(pub Option<GroupIdentifier>);

impl Clone for OptionalGroupIdentifier {
    fn clone(&self) -> (r: Self)
        ensures
            r == *self,
    {
        match &self.0 {
            Option::None => OptionalGroupIdentifier(None),
            Option::Some(g) => OptionalGroupIdentifier(Some(g.clone())),
        }
    }
}

impl From<Option<GroupIdentifier>> for OptionalGroupIdentifier {
    fn from(value: Option<GroupIdentifier>) -> (r: Self) {
        OptionalGroupIdentifier(value)
    }
}

impl vstd::std_specs::convert::FromSpecImpl<Option<GroupIdentifier>> for OptionalGroupIdentifier {
    open spec fn obeys_from_spec() -> bool {
        true
    }

    open spec fn from_spec(t: Option<GroupIdentifier>) -> Self {
        OptionalGroupIdentifier(t)
    }
}

impl From<OptionalGroupIdentifier> for Option<GroupIdentifier> {
    fn from(value: OptionalGroupIdentifier) -> (r: Self) {
        value.0
    }
}

impl vstd::std_specs::convert::FromSpecImpl<OptionalGroupIdentifier> for Option<GroupIdentifier> {
    open spec fn obeys_from_spec() -> bool {
        true
    }

    open spec fn from_spec(t: OptionalGroupIdentifier) -> Self {
        t.0
    }
}

/// A named code value used to decode enumerations and bitfields: `id` is the
/// text label, `symbol` the string-encoded numeric code.
#[derive(Debug, PartialEq)]
pub struct Symbol {
    pub id: String,
    pub symbol: String,
}

impl Clone for Symbol {
    fn clone(&self) -> (r: Self)
        ensures
            r == *self,
    {
        Symbol { id: self.id.clone(), symbol: self.symbol.clone() }
    }
}

/// Free-text description of a model, joined on by id from the localized
/// strings table; purely descriptive, never affects decode logic.
#[derive(Debug, PartialEq)]
pub struct ModelLiteral {
    pub label: Option<String>,
    pub description: Option<String>,
    pub notes: Option<String>,
}

impl Clone for ModelLiteral {
    fn clone(&self) -> (r: Self)
        ensures
            r == *self,
    {
        ModelLiteral {
            label: self.label.clone(),
            description: self.description.clone(),
            notes: self.notes.clone(),
        }
    }
}

/// Free-text description of a point.
#[derive(Debug, PartialEq)]
pub struct PointLiteral {
    pub id: String,
    pub label: Option<String>,
    pub description: Option<String>,
    pub notes: Option<String>,
}

impl Clone for PointLiteral {
    fn clone(&self) -> (r: Self)
        ensures
            r == *self,
    {
        PointLiteral {
            id: self.id.clone(),
            label: self.label.clone(),
            description: self.description.clone(),
            notes: self.notes.clone(),
        }
    }
}

/// Free-text description of a symbol.
#[derive(Debug, PartialEq)]
pub struct SymbolLiteral {
    pub id: String,
    pub label: Option<String>,
    pub description: Option<String>,
    pub notes: Option<String>,
}

impl Clone for SymbolLiteral {
    fn clone(&self) -> (r: Self)
        ensures
            r == *self,
    {
        SymbolLiteral {
            id: self.id.clone(),
            label: self.label.clone(),
            description: self.description.clone(),
            notes: self.notes.clone(),
        }
    }
}

/// One entry of the localized strings table.
#[derive(Debug, PartialEq)]
pub enum LiteralType {
    Model(ModelLiteral),
    Point(PointLiteral),
    Symbol(SymbolLiteral),
}

impl Clone for LiteralType {
    fn clone(&self) -> (r: Self)
        ensures
            r == *self,
    {
        match self {
            LiteralType::Model(l) => LiteralType::Model(l.clone()),
            LiteralType::Point(l) => LiteralType::Point(l.clone()),
            LiteralType::Symbol(l) => LiteralType::Symbol(l.clone()),
        }
    }
}

/// The localized strings table of a model file.
#[derive(Debug, PartialEq)]
pub struct Strings {
    pub id: String,
    pub locale: Option<String>,
    pub literals: Vec<LiteralType>,
}

/// Whether two strings tables carry the same contents.
pub open spec fn spec_strings_like(a: Strings, b: Strings) -> bool {
    &&& a.id == b.id
    &&& a.locale == b.locale
    &&& a.literals@ == b.literals@
}

impl Clone for Strings {
    fn clone(&self) -> (r: Self)
        ensures
            spec_strings_like(r, *self),
    {
        let r = Strings {
            id: self.id.clone(),
            locale: self.locale.clone(),
            literals: self.literals.clone(),
        };
        proof {
            assert(r.literals@ =~= self.literals@);
        }
        r
    }
}

/// A single named field within a model block, with its type, offset and
/// access mode, and the decoded value once a read has populated it.
#[derive(Debug, PartialEq)]
pub struct Point {
    pub id: String,
    pub offset: u16,
    pub type_: String,
    pub len: Option<u16>,
    pub mandatory: Option<bool>,
    pub access: Option<Access>,
    pub symbol: Option<Vec<Symbol>>,
    pub units: Option<String>,
    pub scale_factor: Option<String>,
    pub value: Option<ValueType>,
    pub literal: Option<PointLiteral>,
    pub block_id: Option<u16>,
}

/// Whether two points carry the same schema contents (everything but the
/// decoded value and the joined-on free text).
pub open spec fn spec_point_schema_like(a: Point, b: Point) -> bool {
    &&& a.id == b.id
    &&& a.offset == b.offset
    &&& a.type_ == b.type_
    &&& a.len == b.len
    &&& a.mandatory == b.mandatory
    &&& a.access == b.access
    &&& (a.symbol is Some <==> b.symbol is Some)
    &&& (a.symbol is Some ==> a.symbol->0@ == b.symbol->0@)
    &&& a.units == b.units
    &&& a.scale_factor == b.scale_factor
    &&& a.block_id == b.block_id
}

/// Whether two points carry the same schema contents (everything but the
/// decoded value).
pub open spec fn spec_point_like(a: Point, b: Point) -> bool {
    &&& spec_point_schema_like(a, b)
    &&& a.literal == b.literal
}

impl Clone for Point {
    fn clone(&self) -> (r: Self)
        ensures
            spec_point_like(r, *self),
            spec_opt_value_like(r.value, self.value),
    {
        let symbol = match &self.symbol {
            Option::None => None,
            Option::Some(v) => {
                let s = v.clone();
                proof {
                    assert(s@ =~= v@);
                }
                Some(s)
            },
        };
        let value = match &self.value {
            Option::None => None,
            Option::Some(v) => Some(v.clone()),
        };
        Point {
            id: self.id.clone(),
            offset: self.offset,
            type_: self.type_.clone(),
            len: self.len,
            mandatory: self.mandatory,
            access: self.access,
            symbol,
            units: self.units.clone(),
            scale_factor: self.scale_factor.clone(),
            value,
            literal: self.literal.clone(),
            block_id: self.block_id,
        }
    }
}

/// A model subdivision: the fixed block appears once, a repeating block a
/// variable number of times.
#[derive(Debug, PartialEq)]
pub struct Block {
    pub len: u16,
    pub type_: Option<String>,
    pub name: Option<String>,
    pub point: Vec<Point>,
}

/// Whether two blocks carry the same schema contents, point for point.
pub open spec fn spec_block_like(a: Block, b: Block) -> bool {
    &&& a.len == b.len
    &&& a.type_ == b.type_
    &&& a.name == b.name
    &&& a.point@.len() == b.point@.len()
    &&& forall|i: int|
        0 <= i < a.point@.len() ==> spec_point_like(#[trigger] a.point@[i], b.point@[i])
            && spec_opt_value_like(a.point@[i].value, b.point@[i].value)
}

impl Clone for Block {
    fn clone(&self) -> (r: Self)
        ensures
            spec_block_like(r, *self),
    {
        Block {
            len: self.len,
            type_: self.type_.clone(),
            name: self.name.clone(),
            point: self.point.clone(),
        }
    }
}

/// A numbered model: a contiguous run of blocks of typed points.
#[derive(Debug, PartialEq)]
pub struct Model {
    pub id: u16,
    pub len: u16,
    pub name: String,
    pub block: Vec<Block>,
}

/// Whether two models carry the same schema contents, block for block.
pub open spec fn spec_model_like(a: Model, b: Model) -> bool {
    &&& a.id == b.id
    &&& a.len == b.len
    &&& a.name == b.name
    &&& a.block@.len() == b.block@.len()
    &&& forall|i: int|
        0 <= i < a.block@.len() ==> spec_block_like(#[trigger] a.block@[i], b.block@[i])
}

impl Clone for Model {
    fn clone(&self) -> (r: Self)
        ensures
            spec_model_like(r, *self),
    {
        Model {
            id: self.id,
            len: self.len,
            name: self.name.clone(),
            block: self.block.clone(),
        }
    }
}

/// Which schema description format a model was resolved from.
#[derive(Debug, PartialEq)]
pub enum ModelSource {
    XML,
    Json(JSONModel),
}

/// Whether two model sources carry the same contents.
pub open spec fn spec_source_like(a: ModelSource, b: ModelSource) -> bool {
    match (a, b) {
        (ModelSource::XML, ModelSource::XML) => true,
        (ModelSource::Json(x), ModelSource::Json(y)) => x.id == y.id && spec_group_like(
            x.group,
            y.group,
        ),
        _ => false,
    }
}

impl Clone for ModelSource {
    fn clone(&self) -> (r: Self)
        ensures
            spec_source_like(r, *self),
    {
        match self {
            ModelSource::XML => ModelSource::XML,
            ModelSource::Json(j) => ModelSource::Json(j.clone()),
        }
    }
}

/// A model schema as resolved from its description file: the canonical model,
/// its strings table, and which source format it came from.
#[derive(Debug, PartialEq)]
pub struct SunSpecModels {
    pub model: Model,
    pub strings: Vec<Strings>,
    pub source: ModelSource,
}

/// Whether two resolved schemas carry the same contents.
pub open spec fn spec_models_like(a: SunSpecModels, b: SunSpecModels) -> bool {
    &&& spec_model_like(a.model, b.model)
    &&& a.strings@.len() == b.strings@.len()
    &&& forall|i: int|
        0 <= i < a.strings@.len() ==> spec_strings_like(#[trigger] a.strings@[i], b.strings@[i])
    &&& spec_source_like(a.source, b.source)
}

impl Clone for SunSpecModels {
    fn clone(&self) -> (r: Self)
        ensures
            spec_models_like(r, *self),
    {
        SunSpecModels {
            model: self.model.clone(),
            strings: self.strings.clone(),
            source: self.source.clone(),
        }
    }
}

/// Whether `(b, j)` indexes a point of the model: block `b`, point `j`.
pub open spec fn spec_valid_pos(m: Model, b: int, j: int) -> bool {
    0 <= b < m.block@.len() && 0 <= j < m.block@[b].point@.len()
}

/// Whether some point of the model bears the name.
pub open spec fn spec_has_point_named(m: Model, name: Seq<char>) -> bool {
    exists|b: int, j: int|
        spec_valid_pos(m, b, j) && (#[trigger] m.block@[b].point@[j]).id@ == name
}

/// The position of the last point in the sequence bearing the name.
pub open spec fn spec_find_last_in(points: Seq<Point>, name: Seq<char>) -> Option<int>
    decreases points.len(),
{
    if points.len() == 0 {
        None
    } else if points.last().id@ == name {
        Some(points.len() - 1)
    } else {
        spec_find_last_in(points.drop_last(), name)
    }
}

pub open spec fn spec_find_point_blocks(blocks: Seq<Block>, name: Seq<char>) -> Option<(int, int)>
    decreases blocks.len(),
{
    if blocks.len() == 0 {
        None
    } else {
        match spec_find_last_in(blocks.last().point@, name) {
            Option::Some(j) => Some((blocks.len() - 1, j)),
            Option::None => spec_find_point_blocks(blocks.drop_last(), name),
        }
    }
}

/// The position of the last point of the model (block-major order) bearing
/// the name: an identically named point in a later block shadows an earlier
/// one.
pub open spec fn spec_find_point(m: Model, name: Seq<char>) -> Option<(int, int)> {
    spec_find_point_blocks(m.block@, name)
}

proof fn lemma_find_last_in_char(points: Seq<Point>, name: Seq<char>)
    ensures
        spec_find_last_in(points, name) is Some <==> exists|j: int|
            0 <= j < points.len() && (#[trigger] points[j]).id@ == name,
        spec_find_last_in(points, name) matches Some(j) ==> 0 <= j < points.len()
            && points[j].id@ == name,
    decreases points.len(),
{
    if points.len() > 0 {
        lemma_find_last_in_char(points.drop_last(), name);
        if points.last().id@ == name {
            assert(points[points.len() - 1].id@ == name);
        } else {
            if spec_find_last_in(points, name) is Some {
                let j = spec_find_last_in(points.drop_last(), name)->0;
                assert(points.drop_last()[j] == points[j]);
            } else {
                assert forall|j: int|
                    0 <= j < points.len() implies (#[trigger] points[j]).id@ != name by {
                    if j < points.len() - 1 {
                        assert(points.drop_last()[j] == points[j]);
                    }
                }
            }
        }
    }
}

/// A point position is found exactly when the model has a point of the name,
/// and the found position bears the name.
pub proof fn lemma_find_point_names(m: Model, name: Seq<char>)
    ensures
        spec_find_point(m, name) is Some <==> spec_has_point_named(m, name),
        spec_find_point(m, name) matches Some(p) ==> spec_valid_pos(m, p.0, p.1)
            && m.block@[p.0].point@[p.1].id@ == name,
{
    lemma_find_point_blocks_names(m.block@, name);
    if spec_find_point_blocks(m.block@, name) is Some {
    } else {
        assert forall|b: int, j: int|
            spec_valid_pos(m, b, j) implies (#[trigger] m.block@[b].point@[j]).id@ != name by {}
    }
}

proof fn lemma_find_point_blocks_names(blocks: Seq<Block>, name: Seq<char>)
    ensures
        spec_find_point_blocks(blocks, name) is Some <==> exists|b: int, j: int|
            0 <= b < blocks.len() && 0 <= j < blocks[b].point@.len() && (
            #[trigger] blocks[b].point@[j]).id@ == name,
        spec_find_point_blocks(blocks, name) matches Some(p) ==> 0 <= p.0 < blocks.len() && 0
            <= p.1 < blocks[p.0].point@.len() && blocks[p.0].point@[p.1].id@ == name,
    decreases blocks.len(),
{
    if blocks.len() > 0 {
        lemma_find_point_blocks_names(blocks.drop_last(), name);
        lemma_find_last_in_char(blocks.last().point@, name);
        let n = blocks.len() - 1;
        match spec_find_last_in(blocks.last().point@, name) {
            Option::Some(j) => {
                assert(blocks[n].point@[j].id@ == name);
            },
            Option::None => {
                if spec_find_point_blocks(blocks, name) is Some {
                    let p = spec_find_point_blocks(blocks.drop_last(), name)->0;
                    assert(blocks.drop_last()[p.0] == blocks[p.0]);
                } else {
                    assert forall|b: int, j: int|
                        0 <= b < blocks.len() && 0 <= j < blocks[b].point@.len() implies (
                    #[trigger] blocks[b].point@[j]).id@ != name by {
                        if b < n {
                            assert(blocks.drop_last()[b] == blocks[b]);
                        }
                    }
                }
            },
        }
    }
}

/// Find the last point of the model (in block-major scan order) bearing the
/// name.
pub fn find_point(model: &Model, name: &str) -> (r: Option<(usize, usize)>)
    ensures
        r is None <==> spec_find_point(*model, name@) is None,
        r matches Some(p) ==> spec_find_point(*model, name@) == Some((p.0 as int, p.1 as int))
            && spec_valid_pos(*model, p.0 as int, p.1 as int)
            && model.block@[p.0 as int].point@[p.1 as int].id@ == name@,
{
    proof {
        lemma_find_point_names(*model, name@);
    }
    let ghost blocks = model.block@;
    let mut b: usize = model.block.len();
    proof {
        assert(blocks.subrange(0, b as int) =~= blocks);
    }
    while b > 0
        invariant
            blocks == model.block@,
            0 <= b <= blocks.len(),
            spec_find_point_blocks(blocks, name@) == spec_find_point_blocks(
                blocks.subrange(0, b as int),
                name@,
            ),
        decreases b,
    {
        b = b - 1;
        let points = &model.block[b].point;
        let ghost pts = points@;
        let mut j: usize = points.len();
        proof {
            assert(pts.subrange(0, j as int) =~= pts);
        }
        while j > 0
            invariant
                blocks == model.block@,
                0 <= b < blocks.len(),
                pts == blocks[b as int].point@,
                pts == points@,
                0 <= j <= pts.len(),
                spec_find_last_in(pts, name@) == spec_find_last_in(
                    pts.subrange(0, j as int),
                    name@,
                ),
                spec_find_point_blocks(blocks, name@) == spec_find_point_blocks(
                    blocks.subrange(0, b as int + 1),
                    name@,
                ),
            decreases j,
        {
            j = j - 1;
            proof {
                assert(pts.subrange(0, j as int + 1).last() == pts[j as int]);
                assert(pts.subrange(0, j as int + 1).drop_last() =~= pts.subrange(0, j as int));
            }
            if crate::text::str_eq(points[j].id.as_str(), name) {
                proof {
                    assert(spec_find_last_in(pts.subrange(0, j as int + 1), name@) == Some(
                        j as int,
                    ));
                    assert(blocks.subrange(0, b as int + 1).last() == blocks[b as int]);
                    assert(spec_find_last_in(pts, name@) == Some(j as int));
                    assert(spec_find_point_blocks(blocks.subrange(0, b as int + 1), name@) == Some(
                        (b as int, j as int),
                    ));
                }
                return Some((b, j));
            }
        }
        proof {
            assert(pts.subrange(0, 0) =~= Seq::<Point>::empty());
            assert(spec_find_last_in(pts, name@) is None);
            assert(blocks.subrange(0, b as int + 1).last() == blocks[b as int]);
            assert(blocks.subrange(0, b as int + 1).drop_last() =~= blocks.subrange(0, b as int));
        }
    }
    proof {
        assert(blocks.subrange(0, 0) =~= Seq::<Block>::empty());
    }
    None
}

/// The number of registers declared by the first `n` points of a group,
/// added up with saturation, each point's size clipped to a register count.
pub open spec fn spec_sat_size_sum(points: Seq<JsonPoint>, n: int) -> u16
    decreases n,
{
    if n <= 0 {
        0
    } else {
        spec_sat_add_u16(spec_sat_size_sum(points, n - 1), spec_size_u16(points[n - 1].size))
    }
}

/// The canonical access mode of a schema access flag.
pub open spec fn spec_access_of(a: PointAccess) -> Access {
    if a is Rw {
        Access::ReadWrite
    } else {
        Access::ReadOnly
    }
}

/// The string-encoded form of a symbol's value.
pub open spec fn spec_sym_code_chars(v: SymbolValue) -> Seq<char> {
    match v {
        SymbolValue::Integer(i) => spec_i64_dec_chars(i),
        SymbolValue::Text(t) => t@,
    }
}

/// Whether a canonical symbol is the normalization of a schema symbol.
pub open spec fn spec_is_canonical_symbol(s: Symbol, js: JsonSymbol) -> bool {
    &&& s.id == js.name
    &&& s.symbol@ == spec_sym_code_chars(js.value)
}

/// The string-encoded form of a scale-factor reference.
pub open spec fn spec_sf_chars(sf: PointSf) -> Seq<char> {
    match sf {
        PointSf::String(s) => s@,
        PointSf::Integer(i) => spec_i64_dec_chars(i),
    }
}

/// The value a static schema point carries into the canonical point.
pub open spec fn spec_static_value(jp: JsonPoint) -> Option<ValueType> {
    if jp.static_ is S {
        match jp.value {
            Option::Some(PointValue::String(s)) => Some(ValueType::String(s)),
            Option::Some(PointValue::Integer(i)) => Some(ValueType::Integer(i)),
            Option::None => None,
        }
    } else {
        None
    }
}

/// Whether a canonical point is the normalization of a schema point at the
/// given word offset.
pub open spec fn spec_is_canonical_point(p: Point, jp: JsonPoint, offset: u16) -> bool {
    &&& p.id == jp.name
    &&& p.offset == offset
    &&& p.type_@ == jp.type_.spec_tag()
    &&& p.len == Some(spec_size_u16(jp.size))
    &&& p.mandatory == Some(jp.mandatory is M)
    &&& p.access == Some(spec_access_of(jp.access))
    &&& p.symbol is Some
    &&& p.symbol->0@.len() == jp.symbols@.len()
    &&& forall|i: int|
        0 <= i < jp.symbols@.len() ==> spec_is_canonical_symbol(
            #[trigger] p.symbol->0@[i],
            jp.symbols@[i],
        )
    &&& p.units == jp.units
    &&& (p.scale_factor is Some <==> jp.sf is Some)
    &&& (jp.sf is Some ==> p.scale_factor->0@ == spec_sf_chars(jp.sf->0))
    &&& p.value == spec_static_value(jp)
    &&& p.literal is None
    &&& p.block_id is None
}

/// Whether a block is the canonical root block of a group: the first two
/// points, conventionally the model id and length header, are skipped, since
/// their address contribution is implicit in the legacy layout.
pub open spec fn spec_is_root_block(b: Block, g: Group) -> bool {
    &&& b.len == spec_sat_size_sum(g.points@, g.points@.len() as int)
    &&& b.type_ is None
    &&& b.name == Some(g.name)
    &&& b.point@.len() == if g.points@.len() >= 2 {
        g.points@.len() - 2
    } else {
        0
    }
    &&& forall|i: int|
        0 <= i < b.point@.len() ==> spec_is_canonical_point(
            #[trigger] b.point@[i],
            g.points@[i + 2],
            spec_sat_size_sum(g.points@.skip(2), i),
        )
}

/// Whether a block is the canonical block of a child group: offsets reset to
/// zero and accumulate independently within the block.
pub open spec fn spec_is_child_block(b: Block, g: Group) -> bool {
    &&& b.len == spec_sat_size_sum(g.points@, g.points@.len() as int)
    &&& b.type_ is None
    &&& b.name == Some(g.name)
    &&& b.point@.len() == g.points@.len()
    &&& forall|i: int|
        0 <= i < b.point@.len() ==> spec_is_canonical_point(
            #[trigger] b.point@[i],
            g.points@[i],
            spec_sat_size_sum(g.points@, i),
        )
}

/// Whether a resolved schema is the normalization of a JSON group schema:
/// one root block for the root group's direct points, one block per child
/// group, the model length the sum of the root group's point sizes.
pub open spec fn spec_is_normalized(m: SunSpecModels, json: JSONModel) -> bool {
    &&& m.model.id == json.id
    &&& m.model.len == spec_sat_size_sum(json.group.points@, json.group.points@.len() as int)
    &&& m.model.name == json.group.name
    &&& m.model.block@.len() == 1 + json.group.groups@.len()
    &&& spec_is_root_block(m.model.block@[0], json.group)
    &&& forall|k: int|
        0 <= k < json.group.groups@.len() ==> spec_is_child_block(
            #[trigger] m.model.block@[k + 1],
            json.group.groups@[k],
        )
    &&& m.strings@.len() == 0
    &&& (m.source matches ModelSource::Json(j) && j.id == json.id && spec_group_like(
        j.group,
        json.group,
    ))
}

/// Normalize the symbol table of a schema point.
fn canonical_symbols(syms: &Vec<JsonSymbol>) -> (r: Vec<Symbol>)
    ensures
        r@.len() == syms@.len(),
        forall|i: int|
            0 <= i < syms@.len() ==> spec_is_canonical_symbol(#[trigger] r@[i], syms@[i]),
{
    let mut out: Vec<Symbol> = Vec::new();
    let mut i: usize = 0;
    while i < syms.len()
        invariant
            0 <= i <= syms@.len(),
            out@.len() == i,
            forall|k: int|
                0 <= k < i ==> spec_is_canonical_symbol(#[trigger] out@[k], syms@[k]),
        decreases syms@.len() - i,
    {
        let code = match &syms[i].value {
            SymbolValue::Integer(v) => i64_to_dec_string(*v),
            SymbolValue::Text(t) => t.clone(),
        };
        out.push(Symbol { id: syms[i].name.clone(), symbol: code });
        i = i + 1;
    }
    out
}

/// Normalize one schema point at the given word offset.
pub(crate) fn canonical_point(jp: &JsonPoint, offset: u16) -> (r: Point)
    ensures
        spec_is_canonical_point(r, *jp, offset),
{
    let sf_string = match &jp.sf {
        Option::None => None,
        Option::Some(PointSf::String(s)) => Some(s.clone()),
        Option::Some(PointSf::Integer(i)) => Some(i64_to_dec_string(*i)),
    };
    let value = if jp.static_ == PointStatic::S {
        match &jp.value {
            Option::Some(PointValue::String(s)) => Some(ValueType::String(s.clone())),
            Option::Some(PointValue::Integer(i)) => Some(ValueType::Integer(*i)),
            Option::None => None,
        }
    } else {
        None
    };
    Point {
        id: jp.name.clone(),
        offset,
        type_: jp.type_.to_string(),
        len: Some(size_to_u16(jp.size)),
        mandatory: Some(jp.mandatory == PointMandatory::M),
        access: Some(
            if jp.access == PointAccess::Rw {
                Access::ReadWrite
            } else {
                Access::ReadOnly
            },
        ),
        symbol: Some(canonical_symbols(&jp.symbols)),
        units: jp.units.clone(),
        scale_factor: sf_string,
        value,
        literal: None,
        block_id: None,
    }
}

/// Normalize a child group into its own block, offsets starting over at zero.
fn canonical_child_block(g: &Group) -> (b: Block)
    ensures
        spec_is_child_block(b, *g),
{
    let mut points: Vec<Point> = Vec::new();
    let mut offset: u16 = 0;
    let mut j: usize = 0;
    while j < g.points.len()
        invariant
            0 <= j <= g.points@.len(),
            points@.len() == j,
            offset == spec_sat_size_sum(g.points@, j as int),
            forall|k: int|
                0 <= k < j ==> spec_is_canonical_point(
                    #[trigger] points@[k],
                    g.points@[k],
                    spec_sat_size_sum(g.points@, k),
                ),
        decreases g.points@.len() - j,
    {
        let p = canonical_point(&g.points[j], offset);
        offset = sat_add_u16(offset, size_to_u16(g.points[j].size));
        points.push(p);
        j = j + 1;
    }
    Block { len: offset, type_: None, name: Some(g.name.clone()), point: points }
}

impl SunSpecModels {
    /// Normalize a JSON group schema into the canonical flat block/point
    /// representation. The only rejected input is a schema whose root group
    /// declares no registers at all.
    pub fn from_json(json: &JSONModel) -> (r: Result<SunSpecModels, ConversionError>)
        ensures
            r is Ok <==> spec_sat_size_sum(json.group.points@, json.group.points@.len() as int)
                > 0,
            r matches Ok(m) ==> spec_is_normalized(m, *json),
    {
        let n = json.group.points.len();
        let mut model_len: u16 = 0;
        let mut i: usize = 0;
        while i < n
            invariant
                0 <= i <= n == json.group.points@.len(),
                model_len == spec_sat_size_sum(json.group.points@, i as int),
            decreases n - i,
        {
            model_len = sat_add_u16(model_len, size_to_u16(json.group.points[i].size));
            i = i + 1;
        }
        if model_len == 0 {
            return Err(ConversionError::new("model declares no registers"));
        }
        let mut points: Vec<Point> = Vec::new();
        let mut offset: u16 = 0;
        let mut i: usize = 2;
        while i < n
            invariant
                n == json.group.points@.len(),
                2 <= i,
                i <= n || i == 2,
                points@.len() == i - 2,
                offset == spec_sat_size_sum(json.group.points@.skip(2), i as int - 2),
                forall|k: int|
                    0 <= k < i - 2 ==> spec_is_canonical_point(
                        #[trigger] points@[k],
                        json.group.points@[k + 2],
                        spec_sat_size_sum(json.group.points@.skip(2), k),
                    ),
            decreases n - i,
        {
            let p = canonical_point(&json.group.points[i], offset);
            proof {
                assert(json.group.points@.skip(2)[i as int - 2] == json.group.points@[i as int]);
            }
            offset = sat_add_u16(offset, size_to_u16(json.group.points[i].size));
            points.push(p);
            i = i + 1;
        }
        let mut blocks: Vec<Block> = Vec::new();
        blocks.push(Block { len: model_len, type_: None, name: Some(json.group.name.clone()), point: points });
        let ghost root_group = json.group;
        proof {
            assert(spec_is_root_block(blocks@[0], root_group));
        }
        let mut k: usize = 0;
        while k < json.group.groups.len()
            invariant
                blocks@.len() == 1 + k,
                0 <= k <= json.group.groups@.len(),
                spec_is_root_block(blocks@[0], json.group),
                blocks@[0].len == spec_sat_size_sum(json.group.points@, json.group.points@.len() as int),
                forall|t: int|
                    0 <= t < k ==> spec_is_child_block(
                        #[trigger] blocks@[t + 1],
                        json.group.groups@[t],
                    ),
            decreases json.group.groups@.len() - k,
        {
            blocks.push(canonical_child_block(&json.group.groups[k]));
            k = k + 1;
        }
        Ok(
            SunSpecModels {
                model: Model {
                    id: json.id,
                    len: model_len,
                    name: json.group.name.clone(),
                    block: blocks,
                },
                strings: Vec::new(),
                source: ModelSource::Json(json.clone()),
            },
        )
    }
}

} // verus!
