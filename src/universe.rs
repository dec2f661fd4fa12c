//! The set of valid ticker symbols, kept for a while once fetched.
//!
//! The fetch itself happens outside: a caller first asks `cached`; on a miss
//! it fetches the reference data and hands the outcome to `store`, which
//! keeps the symbols of a successful fetch and ignores a failed one.
use crate::cache::{after_get, after_set, after_set_lifespan, lookup, CacheView, TimedCache};
use crate::text::{clone_strings, string_views, to_upper, upper_of};
use vstd::prelude::*;

verus! {

/// The one key under which the universe is kept.
pub const UNIVERSE_KEY: u8 = 0;

/// The upper-case forms of `v`, in order.
pub open spec fn uppercased(v: Seq<Seq<char>>) -> Seq<Seq<char>> {
    v.map_values(|s: Seq<char>| upper_of(s))
}

/// One record of the reference data: a listed security.
pub struct Symbol {
    pub symbol: String,
    pub exchange: String,
    pub name: String,
    pub date: String,
    pub enabled: bool,
    pub issue_type: String,
    pub region: String,
    pub currency: String,
    pub iex_id: String,
    pub figi: Option<String>,
    pub cik: Option<String>,
}

/// The ticker symbols of a list of records, in order.
pub open spec fn symbol_names(v: Seq<Symbol>) -> Seq<Seq<char>> {
    v.map_values(|s: Symbol| s.symbol@)
}

/// A single-slot cache of the symbol universe.
pub struct SymbolUniverseCache {
    cache: TimedCache<u8, Vec<String>>,
}

impl View for SymbolUniverseCache {
    type V = CacheView<u8, Vec<String>>;

    closed spec fn view(&self) -> CacheView<u8, Vec<String>> {
        self.cache@
    }
}

fn uppercase_all(v: &Vec<Symbol>) -> (r: Vec<String>)
    ensures
        string_views(r@) == uppercased(symbol_names(v@)),
{
    let mut r: Vec<String> = Vec::new();
    let mut i: usize = 0;
    while i < v.len()
        invariant
            i <= v.len(),
            string_views(r@) == uppercased(symbol_names(v@.subrange(0, i as int))),
        decreases v.len() - i,
    {
        let ghost before = r@;
        let up = to_upper(v[i].symbol.as_str());
        r.push(up);
        assert(string_views(r@) =~= string_views(before).push(upper_of(v@[i as int].symbol@)));
        assert(uppercased(symbol_names(v@.subrange(0, i + 1))) =~= uppercased(
            symbol_names(v@.subrange(0, i as int)),
        ).push(upper_of(v@[i as int].symbol@)));
        i = i + 1;
    }
    assert(v@.subrange(0, i as int) =~= v@);
    r
}

impl SymbolUniverseCache {
    /// An empty cache whose entries go stale at once, until a lifespan is set.
    pub fn new() -> (r: SymbolUniverseCache)
        ensures
            r@ == (CacheView::<u8, Vec<String>> {
                entries: Map::empty(),
                lifespan: 0,
                hits: 0,
                misses: 0,
                capacity: None,
            }),
    {
        SymbolUniverseCache { cache: TimedCache::with_lifespan(0) }
    }

    /// Sets how many seconds a fetched universe is reused.
    pub fn set_symbols_lifetime(&mut self, seconds: u64)
        ensures
            final(self)@ == after_set_lifespan(old(self)@, seconds),
    {
        self.cache.cache_set_lifespan(seconds);
    }

    /// The cached universe if it is fresh at clock reading `now`.
    pub fn cached_at(&mut self, now: u64) -> (r: Option<Vec<String>>)
        ensures
            final(self)@ == after_get(old(self)@, UNIVERSE_KEY, now),
            r is Some == lookup(old(self)@, UNIVERSE_KEY, now) is Some,
            r is Some ==> string_views(r->0@) == string_views(
                lookup(old(self)@, UNIVERSE_KEY, now)->0@,
            ),
    {
        match self.cache.cache_get_at(&UNIVERSE_KEY, now) {
            Some(v) => Some(clone_strings(v)),
            None => None,
        }
    }

    /// Takes the outcome of a fetch made at clock reading `now`.  The symbols
    /// of a fetched list are stored and returned in upper case; a failed
    /// fetch leaves the cache as it was.
    pub fn store_at(&mut self, fetched: Option<Vec<Symbol>>, now: u64) -> (r: Option<Vec<String>>)
        ensures
            fetched is None ==> r is None && final(self)@ == old(self)@,
            fetched is Some ==> {
                &&& r is Some
                &&& string_views(r->0@) == uppercased(symbol_names(fetched->0@))
                &&& final(self)@ == after_set(
                    old(self)@,
                    UNIVERSE_KEY,
                    final(self)@.entries[UNIVERSE_KEY].1,
                    now,
                )
                &&& string_views(final(self)@.entries[UNIVERSE_KEY].1@) == uppercased(
                    symbol_names(fetched->0@),
                )
            },
    {
        match fetched {
            Some(list) => {
                let up = uppercase_all(&list);
                let kept = clone_strings(&up);
                self.cache.cache_set_at(UNIVERSE_KEY, kept, now);
                Some(up)
            },
            None => None,
        }
    }

    /// The cached universe if it is fresh now; see `cached_at`.
    pub fn cached(&mut self) -> (r: Option<Vec<String>>)
        ensures
            exists|now: u64|
                {
                    &&& #[trigger] after_get(old(self)@, UNIVERSE_KEY, now) == final(self)@
                    &&& r is Some == lookup(old(self)@, UNIVERSE_KEY, now) is Some
                    &&& r is Some ==> string_views(r->0@) == string_views(
                        lookup(old(self)@, UNIVERSE_KEY, now)->0@,
                    )
                },
    {
        let now = self.cache.now();
        self.cached_at(now)
    }

    /// Takes the outcome of a fetch made now; see `store_at`.
    pub fn store(&mut self, fetched: Option<Vec<Symbol>>) -> (r: Option<Vec<String>>)
        ensures
            fetched is None ==> r is None && final(self)@ == old(self)@,
            fetched is Some ==> {
                &&& r is Some
                &&& string_views(r->0@) == uppercased(symbol_names(fetched->0@))
                &&& exists|now: u64|
                    #[trigger] after_set(
                        old(self)@,
                        UNIVERSE_KEY,
                        final(self)@.entries[UNIVERSE_KEY].1,
                        now,
                    ) == final(self)@
                &&& string_views(final(self)@.entries[UNIVERSE_KEY].1@) == uppercased(
                    symbol_names(fetched->0@),
                )
            },
    {
        let now = self.cache.now();
        self.store_at(fetched, now)
    }
}

} // verus!
