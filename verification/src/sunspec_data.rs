//! The schema repository: an in-memory cache of resolved model schemas keyed
//! by model id. Loading schema description files from disk is the caller's
//! concern; the repository only holds and serves what was loaded.

use crate::sunspec_models::{spec_models_like, Model, Point, SunSpecModels, Symbol};
use std::collections::HashMap;
use vstd::prelude::*;

verus! {

broadcast use vstd::std_specs::hash::group_hash_axioms;

/// The position of the first point in the sequence bearing the name.
pub open spec fn spec_first_named(points: Seq<Point>, name: Seq<char>) -> Option<int>
    decreases points.len(),
{
    if points.len() == 0 {
        None
    } else if points[0].id@ == name {
        Some(0)
    } else {
        match spec_first_named(points.drop_first(), name) {
            Option::Some(j) => Some(j + 1),
            Option::None => None,
        }
    }
}

proof fn lemma_first_named_range(points: Seq<Point>, name: Seq<char>)
    ensures
        spec_first_named(points, name) matches Some(j) ==> 0 <= j < points.len()
            && points[j].id@ == name,
    decreases points.len(),
{
    if points.len() > 0 && points[0].id@ != name {
        lemma_first_named_range(points.drop_first(), name);
        if spec_first_named(points, name) is Some {
            let j = spec_first_named(points.drop_first(), name)->0;
            assert(points.drop_first()[j] == points[j + 1]);
        }
    }
}

proof fn lemma_first_named_skip(points: Seq<Point>, name: Seq<char>, i: int)
    requires
        0 <= i <= points.len(),
        forall|t: int| 0 <= t < i ==> (#[trigger] points[t]).id@ != name,
    ensures
        spec_first_named(points, name) is Some <==> spec_first_named(points.skip(i), name)
            is Some,
        spec_first_named(points, name) matches Some(j) ==> 0 <= j < points.len() && points[j]
            == points.skip(i)[spec_first_named(points.skip(i), name)->0],
    decreases i,
{
    if i > 0 {
        assert(points[0].id@ != name);
        lemma_first_named_skip(points.drop_first(), name, i - 1);
        assert(points.drop_first().skip(i - 1) =~= points.skip(i));
        if spec_first_named(points, name) is Some {
            let j = spec_first_named(points.drop_first(), name)->0;
            assert(points.drop_first()[j] == points[j + 1]);
            assert(spec_first_named(points.drop_first().skip(i - 1), name) == spec_first_named(
                points.skip(i),
                name,
            ));
            assert(points.drop_first()[j] == points.drop_first().skip(i - 1)[spec_first_named(
                points.drop_first().skip(i - 1),
                name,
            )->0]);
            assert(points.drop_first().skip(i - 1)[spec_first_named(points.skip(i), name)->0]
                == points.skip(i)[spec_first_named(points.skip(i), name)->0]);
        }
    } else {
        assert(points.skip(0) =~= points);
        lemma_first_named_range(points, name);
    }
}

/// The first point bearing the name within the first two blocks, the only
/// blocks a symbol lookup consults.
pub open spec fn spec_symbols_source(m: Model, name: Seq<char>) -> Option<Point> {
    if m.block.len() > 0 && spec_first_named(m.block@[0].point@, name) is Some {
        Some(m.block@[0].point@[spec_first_named(m.block@[0].point@, name)->0])
    } else if m.block.len() > 1 && spec_first_named(m.block@[1].point@, name) is Some {
        Some(m.block@[1].point@[spec_first_named(m.block@[1].point@, name)->0])
    } else {
        None
    }
}

/// A model together with the descriptive free text its strings table joins
/// onto it.
#[derive(Debug)]
pub struct ResolvedModel {
    pub model: Model,
    pub label: Option<String>,
    pub description: Option<String>,
    pub notes: Option<String>,
}

/// A repository of all known model schemas, keyed by model id.
#[derive(Debug)]
pub struct SunSpecData {
    pub models: HashMap<u16, SunSpecModels>,
}

impl SunSpecData {
    /// An empty repository.
    pub fn new() -> (r: Self)
        ensures
            r.models@ == Map::<u16, SunSpecModels>::empty(),
    {
        SunSpecData { models: HashMap::new() }
    }

    /// Whether resolving the id requires a manufacturer name: private model
    /// ids do, public ones do not.
    pub fn needs_manufacturer(id: u16) -> (r: bool)
        ensures
            r == (id >= 64200),
    {
        id >= 64200
    }

    /// Put a resolved schema into the repository under its own model id,
    /// replacing any schema already cached for that id.
    pub fn add_model(&mut self, m: SunSpecModels)
        ensures
            final(self).models@ == old(self).models@.insert(m.model.id, m),
    {
        let id = m.model.id;
        self.models.insert(id, m);
    }

    /// Retrieve a model schema from the repository. The manufacturer name
    /// disambiguates where private-id schema files live on disk; the cache
    /// itself is keyed by id alone, so it plays no part here.
    pub fn get_model(&self, id: u16, _manufacturer: Option<String>) -> (r: Option<&SunSpecModels>)
        ensures
            r is Some <==> self.models@.contains_key(id),
            r matches Some(m) ==> *m == self.models@[id],
    {
        self.models.get(&id)
    }

    /// The symbol table of the named point, looked up in the fixed block
    /// first and then in the first repeating block; points in later blocks
    /// are not consulted, and the first point of the name answers, with or
    /// without a table.
    #[verifier::loop_isolation(false)]
    pub fn get_symbols_for_point(&self, id: u16, point_name: String, mn: Option<String>) -> (r:
        Option<Vec<Symbol>>)
        ensures
            !self.models@.contains_key(id) ==> r is None,
            self.models@.contains_key(id) ==> match spec_symbols_source(
                self.models@[id].model,
                point_name@,
            ) {
                Option::Some(pt) => {
                    &&& (pt.symbol is Some ==> (r matches Some(syms) && syms@ == pt.symbol->0@))
                    &&& (pt.symbol is None ==> r is None)
                },
                Option::None => r is None,
            },
    {
        let model = match self.get_model(id, mn) {
            Some(m) => m,
            None => {
                return None;
            },
        };
        let mut b: usize = 0;
        while b < 2
            invariant
                b <= 2,
                forall|t: int|
                    0 <= t < b && t < model.model.block@.len() ==> spec_first_named(
                        (#[trigger] model.model.block@[t]).point@,
                        point_name@,
                    ) is None,
            decreases 2 - b,
        {
            if b < model.model.block.len() {
                let points = &model.model.block[b].point;
                let mut i: usize = 0;
                while i < points.len()
                    invariant
                        0 <= i <= points@.len(),
                        forall|t: int|
                            0 <= t < i ==> (#[trigger] points@[t]).id@ != point_name@,
                    decreases points@.len() - i,
                {
                    if crate::text::str_eq(points[i].id.as_str(), point_name.as_str()) {
                        proof {
                            lemma_first_named_skip(points@, point_name@, i as int);
                            assert(points@.skip(i as int)[0] == points@[i as int]);
                        }
                        return match &points[i].symbol {
                            Some(symbols) => {
                                let s = symbols.clone();
                                proof {
                                    assert(s@ =~= symbols@);
                                }
                                Some(s)
                            },
                            None => None,
                        };
                    }
                    i = i + 1;
                }
                proof {
                    lemma_first_named_skip(points@, point_name@, points@.len() as int);
                    assert(points@.skip(points@.len() as int) =~= Seq::<Point>::empty());
                }
            }
            b = b + 1;
        }
        None
    }
}

impl Default for SunSpecData {
    /// An empty repository.
    fn default() -> (r: Self)
        ensures
            r.models@ == Map::<u16, SunSpecModels>::empty(),
    {
        SunSpecData::new()
    }
}

} // verus!
