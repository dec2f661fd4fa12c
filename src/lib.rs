//! A quote bot's core: a cache whose entries expire, the cached universe of
//! ticker symbols, the rules that find symbols in a chat message, the
//! folding of per-symbol quote fetches into quotes and errors, and the
//! ordering of a market list by volume.
use vstd::prelude::*;

pub mod cache;
pub mod channels;
pub mod extract;
pub mod market;
pub mod quotes;
pub mod text;
pub mod universe;

verus! {

} // verus!
