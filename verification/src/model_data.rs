//! Per-model session state: where the model sits in the device's address
//! space, its resolved schema, and the lazily filled scale-factor cache.
//! The cache is never invalidated: a remote change to a scale-factor
//! register after first resolution will not be observed, a deliberate
//! staleness/performance tradeoff.

use crate::codec::spec_i16_of_word;
use crate::sunspec_connection::{SunSpecConn, SunSpecConnection, ADDR_OFFSET, NOT_IMPLEMENTED_I16};
use crate::sunspec_data::{ResolvedModel, SunSpecData};
use crate::sunspec_models::{
    find_point, spec_has_point_named, spec_model_like, spec_models_like, LiteralType,
    ModelLiteral, SunSpecModels,
};
use vstd::prelude::*;

verus! {

/// What working with a model's block layout can fail with.
#[derive(Debug)]
pub enum SunSpecModelDataError {
    Remainder,
    Error,
}

impl Clone for SunSpecModelDataError {
    fn clone(&self) -> (r: Self)
        ensures
            r == *self,
    {
        match self {
            SunSpecModelDataError::Remainder => SunSpecModelDataError::Remainder,
            SunSpecModelDataError::Error => SunSpecModelDataError::Error,
        }
    }
}

impl PartialEq for SunSpecModelDataError {
    fn eq(&self, other: &Self) -> (r: bool) {
        match (self, other) {
            (SunSpecModelDataError::Remainder, SunSpecModelDataError::Remainder) => true,
            (SunSpecModelDataError::Error, SunSpecModelDataError::Error) => true,
            _ => false,
        }
    }
}

impl vstd::std_specs::cmp::PartialEqSpecImpl for SunSpecModelDataError {
    open spec fn obeys_eq_spec() -> bool {
        true
    }

    open spec fn eq_spec(&self, other: &Self) -> bool {
        match (self, other) {
            (SunSpecModelDataError::Remainder, SunSpecModelDataError::Remainder) => true,
            (SunSpecModelDataError::Error, SunSpecModelDataError::Error) => true,
            _ => false,
        }
    }
}

/// One discovered model: its id, declared length in words (excluding the
/// id/length header), base address, resolved schema, and scale-factor cache.
#[derive(Debug)]
pub struct ModelData {
    pub id: u16,
    pub len: u16,
    pub address: u16,
    pub model: SunSpecModels,
    pub scale_factors: Vec<(String, i16)>,
}

impl Clone for ModelData {
    fn clone(&self) -> (r: Self)
        ensures
            r.id == self.id,
            r.len == self.len,
            r.address == self.address,
            spec_models_like(r.model, self.model),
            r.scale_factors@.len() == self.scale_factors@.len(),
            forall|i: int|
                0 <= i < self.scale_factors@.len() ==> #[trigger] r.scale_factors@[i].0@
                    == self.scale_factors@[i].0@ && r.scale_factors@[i].1
                    == self.scale_factors@[i].1,
    {
        let mut sf: Vec<(String, i16)> = Vec::new();
        let mut i: usize = 0;
        while i < self.scale_factors.len()
            invariant
                0 <= i <= self.scale_factors@.len(),
                sf@.len() == i,
                forall|k: int|
                    0 <= k < i ==> #[trigger] sf@[k].0@ == self.scale_factors@[k].0@ && sf@[k].1
                        == self.scale_factors@[k].1,
            decreases self.scale_factors@.len() - i,
        {
            let entry = &self.scale_factors[i];
            sf.push((entry.0.clone(), entry.1));
            i = i + 1;
        }
        ModelData {
            id: self.id,
            len: self.len,
            address: self.address,
            model: self.model.clone(),
            scale_factors: sf,
        }
    }
}

/// The first value cached under the name, if any.
pub open spec fn spec_cached_sf(cache: Seq<(String, i16)>, name: Seq<char>) -> Option<i16>
    decreases cache.len(),
{
    if cache.len() == 0 {
        None
    } else if cache[0].0@ == name {
        Some(cache[0].1)
    } else {
        spec_cached_sf(cache.drop_first(), name)
    }
}

proof fn lemma_cached_sf_skip(cache: Seq<(String, i16)>, name: Seq<char>, i: int)
    requires
        0 <= i <= cache.len(),
        forall|k: int| 0 <= k < i ==> (#[trigger] cache[k]).0@ != name,
    ensures
        spec_cached_sf(cache, name) == spec_cached_sf(cache.skip(i), name),
    decreases i,
{
    if i > 0 {
        assert(cache[0].0@ != name);
        lemma_cached_sf_skip(cache.drop_first(), name, i - 1);
        assert(cache.drop_first().skip(i - 1) =~= cache.skip(i));
    } else {
        assert(cache.skip(0) =~= cache);
    }
}

/// The last model-level literal of the strings table, the one whose free
/// text describes the model itself.
pub open spec fn spec_last_model_literal(lits: Seq<LiteralType>) -> Option<ModelLiteral>
    decreases lits.len(),
{
    if lits.len() == 0 {
        None
    } else {
        match lits.last() {
            LiteralType::Model(ml) => Some(ml),
            _ => spec_last_model_literal(lits.drop_last()),
        }
    }
}

impl ModelData {
    /// Record a discovered model: resolve its schema from the repository and
    /// pair it with the address where the device placed it. Fails exactly
    /// when the repository holds no schema for the id.
    pub fn new(
        data: &SunSpecData,
        id: u16,
        len: u16,
        address: u16,
        manufacturer: Option<String>,
    ) -> (r: Result<Self, SunSpecModelDataError>)
        ensures
            r is Ok <==> data.models@.contains_key(id),
            r matches Ok(md) ==> {
                &&& md.id == id
                &&& md.len == len
                &&& md.address == address
                &&& md.scale_factors@.len() == 0
                &&& spec_models_like(md.model, data.models@[id])
            },
    {
        let model = match data.get_model(id, manufacturer) {
            Some(m) => m,
            None => {
                return Err(SunSpecModelDataError::Error);
            },
        };
        Ok(
            ModelData {
                id,
                len,
                address,
                model: model.clone(),
                scale_factors: Vec::new(),
            },
        )
    }

    /// The number of block instances this model holds on the device. If the
    /// first block is repeating there is no fixed block and the model length
    /// must divide evenly into repeating instances; if a second block exists
    /// it is the repeating template and what remains after the fixed block
    /// must divide evenly; a model of one fixed block has exactly one. A
    /// length that does not divide evenly, or an empty or zero-length block
    /// layout, is an error, never a panic.
    pub fn get_block_count(&self) -> (r: Result<u16, SunSpecModelDataError>)
        ensures
            self.model.model.block@.len() == 0 ==> r == Err::<u16, SunSpecModelDataError>(
                SunSpecModelDataError::Error,
            ),
            self.model.model.block@.len() > 0 ==> {
                let first = self.model.model.block@[0];
                let repeating_first = first.type_ matches Some(t) && t@ == "repeating"@;
                if repeating_first {
                    if first.len > 0 && self.len % first.len == 0 {
                        r == Ok::<u16, SunSpecModelDataError>((self.len / first.len) as u16)
                    } else {
                        r == Err::<u16, SunSpecModelDataError>(SunSpecModelDataError::Remainder)
                    }
                } else if self.model.model.block@.len() > 1 {
                    let fixed = first.len;
                    let rep = self.model.model.block@[1].len;
                    if rep > 0 && self.len >= fixed && (self.len - fixed) % (rep as int) == 0 {
                        r == Ok::<u16, SunSpecModelDataError>(((self.len - fixed) / (rep as int)) as u16)
                    } else {
                        r == Err::<u16, SunSpecModelDataError>(SunSpecModelDataError::Remainder)
                    }
                } else {
                    r == Ok::<u16, SunSpecModelDataError>(1u16)
                }
            },
    {
        let model = &self.model.model;
        if model.block.len() == 0 {
            return Err(SunSpecModelDataError::Error);
        }
        let repeating_first = match &model.block[0].type_ {
            Some(t) => crate::text::str_eq(t.as_str(), "repeating"),
            None => false,
        };
        if repeating_first {
            let rep = model.block[0].len;
            if rep == 0 || self.len % rep != 0 {
                return Err(SunSpecModelDataError::Remainder);
            }
            Ok(self.len / rep)
        } else if model.block.len() > 1 {
            let fixed = model.block[0].len;
            let rep = model.block[1].len;
            if rep == 0 || self.len < fixed || (self.len - fixed) % rep != 0 {
                return Err(SunSpecModelDataError::Remainder);
            }
            Ok((self.len - fixed) / rep)
        } else {
            Ok(1)
        }
    }

    /// The scale factor already cached under the name, if any.
    pub fn scale_factor_cached(&self, name: &str) -> (r: Option<i16>)
        ensures
            r == spec_cached_sf(self.scale_factors@, name@),
    {
        let mut i: usize = 0;
        while i < self.scale_factors.len()
            invariant
                0 <= i <= self.scale_factors@.len(),
                forall|k: int| 0 <= k < i ==> (#[trigger] self.scale_factors@[k]).0@ != name@,
            decreases self.scale_factors@.len() - i,
        {
            let entry = &self.scale_factors[i];
            if crate::text::str_eq(entry.0.as_str(), name) {
                proof {
                    lemma_cached_sf_skip(self.scale_factors@, name@, i as int);
                    assert(self.scale_factors@.skip(i as int)[0] == self.scale_factors@[i as int]);
                }
                return Some(entry.1);
            }
            i = i + 1;
        }
        proof {
            lemma_cached_sf_skip(self.scale_factors@, name@, i as int);
        }
        None
    }

    /// For a point of this model, resolve its scale factor: answer from the
    /// cache when it holds the name, otherwise read the referenced point's
    /// signed 16-bit value from the device and memoize it. Returns nothing
    /// when the name resolves to no point, when its address falls outside
    /// the register space, or when the read fails.
    pub fn get_scale_factor<T: SunSpecConn>(
        &mut self,
        name: &str,
        conn: &mut SunSpecConnection<T>,
    ) -> (r: Option<i16>)
        ensures
            crate::sunspec_connection::spec_session_frame(*old(conn), *final(conn)),
            final(self).id == old(self).id,
            final(self).len == old(self).len,
            final(self).address == old(self).address,
            final(self).model == old(self).model,
            spec_cached_sf(old(self).scale_factors@, name@) is Some ==> r == spec_cached_sf(
                old(self).scale_factors@,
                name@,
            ) && *final(self) == *old(self) && *final(conn) == *old(conn),
            spec_cached_sf(old(self).scale_factors@, name@) is None && !spec_has_point_named(
                old(self).model.model,
                name@,
            ) ==> r is None && *final(self) == *old(self) && *final(conn) == *old(conn),
            r is None ==> *final(self) == *old(self),
            spec_cached_sf(old(self).scale_factors@, name@) is None ==> match r {
                Option::Some(v) => {
                    &&& v != spec_i16_of_word(NOT_IMPLEMENTED_I16)
                    &&& final(self).scale_factors@.len() == old(self).scale_factors@.len() + 1
                    &&& final(self).scale_factors@.last().0@ == name@
                    &&& final(self).scale_factors@.last().1 == v
                    &&& final(self).scale_factors@.subrange(
                        0,
                        old(self).scale_factors@.len() as int,
                    ) == old(self).scale_factors@
                    &&& final(self).model == old(self).model
                },
                Option::None => true,
            },
    {
        if let Some(v) = self.scale_factor_cached(name) {
            return Some(v);
        }
        let pos = match find_point(&self.model.model, name) {
            Some(p) => p,
            None => {
                return None;
            },
        };
        let point_offset = self.model.model.block[pos.0].point[pos.1].offset;
        if self.address > u16::MAX - ADDR_OFFSET || self.address + ADDR_OFFSET > u16::MAX
            - point_offset {
            return None;
        }
        let addr = ADDR_OFFSET + self.address + point_offset;
        match conn.get_i16(addr) {
            Ok(v) => {
                self.scale_factors.push((name.to_owned(), v));
                Some(v)
            },
            Err(_) => None,
        }
    }

    /// The model together with the descriptive free text that the last
    /// model-level literal of its strings table supplies; a model with no
    /// strings table resolves with no free text.
    pub fn get_resolved_model(&self) -> (r: ResolvedModel)
        ensures
            spec_model_like(r.model, self.model.model),
            self.model.strings@.len() == 0 ==> r.label is None && r.description is None
                && r.notes is None,
            self.model.strings@.len() > 0 ==> match spec_last_model_literal(
                self.model.strings@[0].literals@,
            ) {
                Option::Some(ml) => r.label == ml.label && r.description == ml.description
                    && r.notes == ml.notes,
                Option::None => r.label is None && r.description is None && r.notes is None,
            },
    {
        let mut label: Option<String> = None;
        let mut description: Option<String> = None;
        let mut notes: Option<String> = None;
        if self.model.strings.len() > 0 {
            let strings = &self.model.strings[0];
            let ghost lits = strings.literals@;
            let mut i: usize = 0;
            while i < strings.literals.len()
                invariant
                    lits == strings.literals@,
                    0 <= i <= lits.len(),
                    match spec_last_model_literal(lits.subrange(0, i as int)) {
                        Option::Some(ml) => label == ml.label && description == ml.description
                            && notes == ml.notes,
                        Option::None => label is None && description is None && notes is None,
                    },
                decreases lits.len() - i,
            {
                if let LiteralType::Model(ml) = &strings.literals[i] {
                    label = ml.label.clone();
                    description = ml.description.clone();
                    notes = ml.notes.clone();
                }
                proof {
                    assert(lits.subrange(0, i as int + 1).drop_last() =~= lits.subrange(
                        0,
                        i as int,
                    ));
                    assert(lits.subrange(0, i as int + 1).last() == lits[i as int]);
                }
                i = i + 1;
            }
            proof {
                assert(lits.subrange(0, lits.len() as int) =~= lits);
            }
        }
        ResolvedModel { model: self.model.model.clone(), label, description, notes }
    }
}

} // verus!
