//! The registry that picks the adapter of a market.

use crate::entities::market;
use crate::strmap::StrMap;
use vstd::prelude::*;

verus! {

/// The map that a list of entries builds when they are inserted in order: of
/// two entries with one key the later stays.
pub open spec fn registry<V>(entries: Seq<(String, V)>) -> Map<Seq<char>, V>
    decreases entries.len(),
{
    if entries.len() == 0 {
        Map::empty()
    } else {
        registry(entries.drop_last()).insert(entries.last().0@, entries.last().1)
    }
}

/// `mappings` with each of `markets` mapped to `name`.
pub open spec fn mapped_to(
    mappings: Map<Seq<char>, String>,
    markets: Seq<String>,
    name: String,
) -> Map<Seq<char>, String>
    decreases markets.len(),
{
    if markets.len() == 0 {
        mappings
    } else {
        mapped_to(mappings, markets.drop_last(), name).insert(markets.last()@, name)
    }
}

/// Adapters by their names, and for each market's short name the name of the
/// adapter that serves it. Several markets may share one adapter.
pub struct RustlerJar<R> {
    rustlers: StrMap<R>,
    mappings: StrMap<String>,
}

impl<R> RustlerJar<R> {
    /// The adapters by their names.
    pub closed spec fn rustlers(&self) -> Map<Seq<char>, R> {
        self.rustlers@
    }

    /// The adapters' names by the markets' short names.
    pub closed spec fn mappings(&self) -> Map<Seq<char>, String> {
        self.mappings@
    }

    /// The adapter of the market called `short_name`: the one whose name the
    /// market is mapped to, where there is a mapping and an adapter of that
    /// name.
    pub open spec fn resolve(&self, short_name: Seq<char>) -> Option<R> {
        if self.mappings().dom().contains(short_name) && self.rustlers().dom().contains(
            self.mappings()[short_name]@,
        ) {
            Some(self.rustlers()[self.mappings()[short_name]@])
        } else {
            None
        }
    }

    /// A jar of the given adapters, each with its name, and mappings from
    /// markets' short names to adapters' names.
    pub fn new(rustlers_list: Vec<(String, R)>, mappings: Vec<(String, String)>) -> (jar: Self)
        ensures
            jar.rustlers() == registry(rustlers_list@),
            jar.mappings() == registry(mappings@),
    {
        let mut jar = RustlerJar { rustlers: StrMap::new(), mappings: StrMap::new() };
        let ghost all_rustlers = rustlers_list@;
        let ghost all_mappings = mappings@;
        for entry in it: rustlers_list
            invariant
                it.seq() == all_rustlers,
                jar.rustlers@ == registry(all_rustlers.take(it.index() as int)),
                jar.mappings@ == Map::<Seq<char>, String>::empty(),
        {
            proof {
                let i = it.index() as int;
                assert(all_rustlers.take(i + 1).drop_last() == all_rustlers.take(i));
                assert(all_rustlers.take(i + 1).last() == entry);
            }
            let (name, rustler) = entry;
            jar.rustlers.insert(name, rustler);
        }
        proof {
            assert(all_rustlers.take(all_rustlers.len() as int) == all_rustlers);
        }
        for entry in it: mappings
            invariant
                it.seq() == all_mappings,
                jar.rustlers@ == registry(all_rustlers),
                jar.mappings@ == registry(all_mappings.take(it.index() as int)),
        {
            proof {
                let i = it.index() as int;
                assert(all_mappings.take(i + 1).drop_last() == all_mappings.take(i));
                assert(all_mappings.take(i + 1).last() == entry);
            }
            let (market, name) = entry;
            jar.mappings.insert(market, name);
        }
        proof {
            assert(all_mappings.take(all_mappings.len() as int) == all_mappings);
        }
        jar
    }

    /// Puts the adapter `rustler` into the jar under `name`, in place of one
    /// of that name, and maps each of `markets` to it.
    pub fn register(&mut self, markets: &Vec<String>, name: String, rustler: R)
        ensures
            final(self).rustlers() == old(self).rustlers().insert(name@, rustler),
            final(self).mappings() == mapped_to(old(self).mappings(), markets@, name),
    {
        let ghost before = self.mappings@;
        let mut i: usize = 0;
        while i < markets.len()
            invariant
                i <= markets.len(),
                self.rustlers@ == old(self).rustlers@,
                self.mappings@ == mapped_to(before, markets@.take(i as int), name),
            decreases markets.len() - i,
        {
            proof {
                assert(markets@.take(i + 1).drop_last() == markets@.take(i as int));
                assert(markets@.take(i + 1).last() == markets@[i as int]);
            }
            self.mappings.insert(markets[i].clone(), name.clone());
            i += 1;
        }
        proof {
            assert(markets@.take(i as int) == markets@);
        }
        self.rustlers.insert(name, rustler);
    }

    /// The adapter that serves `market`, found by the market's short name;
    /// `None` where the jar has no adapter for it.
    pub fn get(&self, market: &market::Model) -> (rustler: Option<&R>)
        ensures
            match rustler {
                Some(r) => self.resolve(market.short_name@) == Some(*r),
                None => self.resolve(market.short_name@) is None,
            },
    {
        match self.get_key(market) {
            Some(name) => self.rustlers.get(name.as_str()),
            None => None,
        }
    }

    /// The adapter that serves `market`, to be changed in place; `None` where
    /// the jar has no adapter for it.
    pub fn get_mut(&mut self, market: &market::Model) -> (rustler: Option<&mut R>)
        ensures
            final(self).mappings() == old(self).mappings(),
            match rustler {
                Some(r) => old(self).resolve(market.short_name@) == Some(*r)
                    && final(self).rustlers() == old(self).rustlers().insert(
                    old(self).mappings()[market.short_name@]@,
                    *final(r),
                ),
                None => old(self).resolve(market.short_name@) is None && final(self).rustlers()
                    == old(self).rustlers(),
            },
    {
        let name = match self.get_key(market) {
            Some(name) => name.clone(),
            None => {
                return None;
            },
        };
        self.rustlers.get_mut(name.as_str())
    }

    /// The name of the adapter that `market` is mapped to.
    fn get_key(&self, market: &market::Model) -> (name: Option<&String>)
        ensures
            match name {
                Some(n) => self.mappings().dom().contains(market.short_name@) && *n
                    == self.mappings()[market.short_name@],
                None => !self.mappings().dom().contains(market.short_name@),
            },
    {
        self.mappings.get(market.short_name.as_str())
    }
}

} // verus!
