//! The symbols last found in each conversation channel.
use crate::text::{clone_strings, string_views};
use std::collections::HashMap;
use vstd::prelude::*;

verus! {

/// For each channel, by its numeric id, the symbols most recently found in
/// an ordinary message there.  A newer record replaces an older one.
pub struct LastSeenSymbols {
    by_channel: HashMap<u64, Vec<String>>,
}

impl View for LastSeenSymbols {
    type V = Map<u64, Seq<Seq<char>>>;

    closed spec fn view(&self) -> Map<u64, Seq<Seq<char>>> {
        self.by_channel@.map_values(|v: Vec<String>| string_views(v@))
    }
}

impl LastSeenSymbols {
    pub fn new() -> (r: LastSeenSymbols)
        ensures
            r@ == Map::<u64, Seq<Seq<char>>>::empty(),
    {
        let r = LastSeenSymbols { by_channel: HashMap::new() };
        assert(r@ =~= Map::<u64, Seq<Seq<char>>>::empty());
        r
    }

    /// Records `symbols` as the last found in `channel`.
    pub fn record(&mut self, channel: u64, symbols: Vec<String>)
        ensures
            final(self)@ == old(self)@.insert(channel, string_views(symbols@)),
    {
        let ghost sv = string_views(symbols@);
        self.by_channel.insert(channel, symbols);
        assert(self@ =~= old(self)@.insert(channel, sv));
    }

    /// The symbols last found in `channel`, if any were recorded.
    pub fn last(&self, channel: u64) -> (r: Option<Vec<String>>)
        ensures
            r is Some == self@.contains_key(channel),
            r is Some ==> string_views(r->0@) == self@[channel],
    {
        match self.by_channel.get(&channel) {
            Some(v) => Some(clone_strings(v)),
            None => None,
        }
    }
}

} // verus!
