//! Deciding which quotes to fetch, and folding the outcomes of the fetches
//! into quotes and per-symbol errors.
//!
//! The fetches happen outside: `plan_quotes` says which requested symbols
//! are worth fetching, and `aggregate` takes one outcome per requested
//! symbol.  A symbol that is not in the universe, or whose fetch failed,
//! becomes an error; every other one a quote.
use crate::text::{chars_of, string_views, to_upper, upper_of};
use vstd::prelude::*;

verus! {

/// Why a request for quotes yields nothing at all.
#[derive(Debug, Clone, Copy, PartialEq, Eq, Structural)]
pub enum QuoteError {
    /// The request named no symbol.
    NoSymbolsFound,
    /// The symbol universe could not be had.
    UniverseUnavailable,
}

/// `s` without its leading `$` signs.
pub open spec fn strip_dollars(s: Seq<char>) -> Seq<char>
    decreases s.len(),
{
    if s.len() > 0 && s[0] == '$' {
        strip_dollars(s.drop_first())
    } else {
        s
    }
}

/// A symbol as a command argument names it: leading `$` signs dropped, in
/// upper case.
pub fn requested_symbol(arg: &str) -> (r: String)
    ensures
        r@ == upper_of(strip_dollars(arg@)),
{
    let cs = chars_of(arg);
    let mut k: usize = 0;
    assert(arg@.subrange(0, arg@.len() as int) =~= arg@);
    while k < cs.len() && cs[k] == '$'
        invariant
            k <= cs.len(),
            cs@ == arg@,
            strip_dollars(arg@) == strip_dollars(arg@.subrange(k as int, arg@.len() as int)),
        decreases cs.len() - k,
    {
        assert(arg@.subrange(k as int, arg@.len() as int).drop_first() =~= arg@.subrange(
            k + 1,
            arg@.len() as int,
        ));
        k = k + 1;
    }
    let rest = arg.substring_char(k, cs.len());
    to_upper(rest)
}

/// Whether `s` is in the universe `u`.
pub open spec fn in_universe(u: Seq<String>, s: Seq<char>) -> bool {
    string_views(u).contains(s)
}

fn is_member(universe: &Vec<String>, s: &String) -> (r: bool)
    ensures
        r == in_universe(universe@, s@),
{
    let mut i: usize = 0;
    while i < universe.len()
        invariant
            i <= universe.len(),
            forall|k: int| 0 <= k < i ==> universe@[k]@ != s@,
        decreases universe.len() - i,
    {
        if universe[i] == *s {
            assert(string_views(universe@)[i as int] == s@);
            return true;
        }
        i = i + 1;
    }
    assert(!string_views(universe@).contains(s@)) by {
        if string_views(universe@).contains(s@) {
            let k = choose|k: int| 0 <= k < universe@.len() && string_views(universe@)[k] == s@;
            assert(universe@[k]@ == s@);
        }
    }
    false
}

/// Decides what to do with a request: which requested symbols to fetch, in
/// order, or why nothing can be done.  `universe` is `None` when the symbol
/// universe could not be had.
pub fn plan_quotes(requested: &Vec<String>, universe: Option<&Vec<String>>) -> (r: Result<
    Vec<bool>,
    QuoteError,
>)
    ensures
        requested@.len() == 0 ==> r == Err::<Vec<bool>, QuoteError>(QuoteError::NoSymbolsFound),
        requested@.len() > 0 && universe is None ==> r == Err::<Vec<bool>, QuoteError>(
            QuoteError::UniverseUnavailable,
        ),
        requested@.len() > 0 && universe is Some ==> {
            &&& r is Ok
            &&& r->Ok_0@.len() == requested@.len()
            &&& forall|i: int|
                0 <= i < requested@.len() ==> #[trigger] r->Ok_0@[i] == in_universe(
                    universe->0@,
                    requested@[i]@,
                )
        },
{
    if requested.len() == 0 {
        return Err(QuoteError::NoSymbolsFound);
    }
    match universe {
        None => Err(QuoteError::UniverseUnavailable),
        Some(u) => {
            let mut fetch: Vec<bool> = Vec::new();
            let mut i: usize = 0;
            while i < requested.len()
                invariant
                    i <= requested.len(),
                    fetch@.len() == i,
                    forall|k: int|
                        0 <= k < i ==> #[trigger] fetch@[k] == in_universe(u@, requested@[k]@),
                decreases requested.len() - i,
            {
                let known = is_member(u, &requested[i]);
                fetch.push(known);
                i = i + 1;
            }
            Ok(fetch)
        },
    }
}

/// The quotes and the per-symbol errors of one request.
pub struct Aggregation<Q> {
    /// Each quote with the symbol it was fetched for, in request order.
    pub quotes: Vec<(String, Q)>,
    /// The symbols that were not recognised or whose fetch failed, in request
    /// order.
    pub errors: Vec<String>,
}

/// Request position `i` ends in a quote: its symbol was fetched, and the
/// fetch succeeded.
pub open spec fn is_quoted<Q>(fetch: Seq<bool>, outcomes: Seq<Option<Q>>, i: int) -> bool {
    fetch[i] && outcomes[i] is Some
}

/// The quotes that the first `n` requested symbols give, in order.
pub open spec fn quotes_upto<Q>(
    requested: Seq<Seq<char>>,
    fetch: Seq<bool>,
    outcomes: Seq<Option<Q>>,
    n: nat,
) -> Seq<(Seq<char>, Q)>
    decreases n,
{
    if n == 0 {
        seq![]
    } else if is_quoted(fetch, outcomes, n - 1) {
        quotes_upto(requested, fetch, outcomes, (n - 1) as nat).push(
            (requested[n - 1], outcomes[n - 1]->0),
        )
    } else {
        quotes_upto(requested, fetch, outcomes, (n - 1) as nat)
    }
}

/// The errors that the first `n` requested symbols give, in order.
pub open spec fn errors_upto<Q>(
    requested: Seq<Seq<char>>,
    fetch: Seq<bool>,
    outcomes: Seq<Option<Q>>,
    n: nat,
) -> Seq<Seq<char>>
    decreases n,
{
    if n == 0 {
        seq![]
    } else if is_quoted(fetch, outcomes, n - 1) {
        errors_upto(requested, fetch, outcomes, (n - 1) as nat)
    } else {
        errors_upto(requested, fetch, outcomes, (n - 1) as nat).push(requested[n - 1])
    }
}

/// The symbols of a list of quotes.
pub open spec fn quote_symbols<Q>(quotes: Seq<(Seq<char>, Q)>) -> Seq<Seq<char>> {
    quotes.map_values(|p: (Seq<char>, Q)| p.0)
}

/// The views of a list of quotes.
pub open spec fn quote_views<Q>(quotes: Seq<(String, Q)>) -> Seq<(Seq<char>, Q)> {
    quotes.map_values(|p: (String, Q)| (p.0@, p.1))
}

/// Folds the outcomes of the fetches into quotes and errors.  `fetch` is
/// what `plan_quotes` decided; `outcomes[i]` is the quote fetched for
/// `requested[i]`, or `None` where the fetch failed or was not made.
pub fn aggregate<Q>(requested: &Vec<String>, fetch: &Vec<bool>, outcomes: Vec<Option<Q>>) -> (r:
    Aggregation<Q>)
    requires
        fetch@.len() == requested@.len(),
        outcomes@.len() == requested@.len(),
    ensures
        quote_views(r.quotes@) == quotes_upto(
            string_views(requested@),
            fetch@,
            outcomes@,
            requested@.len(),
        ),
        string_views(r.errors@) == errors_upto(
            string_views(requested@),
            fetch@,
            outcomes@,
            requested@.len(),
        ),
{
    let ghost all = outcomes@;
    let ghost req = string_views(requested@);
    let mut rest = outcomes;
    let mut quotes: Vec<(String, Q)> = Vec::new();
    let mut errors: Vec<String> = Vec::new();
    let mut i: usize = 0;
    while i < requested.len()
        invariant
            i <= requested.len(),
            fetch@.len() == requested@.len(),
            all.len() == requested@.len(),
            req == string_views(requested@),
            rest@ == all.subrange(i as int, all.len() as int),
            quote_views(quotes@) == quotes_upto(req, fetch@, all, i as nat),
            string_views(errors@) == errors_upto(req, fetch@, all, i as nat),
        decreases requested.len() - i,
    {
        let ghost quotes_before = quotes@;
        let ghost errors_before = errors@;
        let outcome = rest.remove(0);
        assert(outcome == all[i as int]);
        assert(rest@ =~= all.subrange(i + 1, all.len() as int));
        assert(req[i as int] == requested@[i as int]@);
        if fetch[i] {
            match outcome {
                Some(q) => {
                    quotes.push((requested[i].clone(), q));
                    assert(quote_views(quotes@) =~= quote_views(quotes_before).push(
                        (req[i as int], all[i as int]->0),
                    ));
                },
                None => {
                    errors.push(requested[i].clone());
                    assert(string_views(errors@) =~= string_views(errors_before).push(
                        req[i as int],
                    ));
                },
            }
        } else {
            errors.push(requested[i].clone());
            assert(string_views(errors@) =~= string_views(errors_before).push(req[i as int]));
        }
        i = i + 1;
    }
    Aggregation { quotes, errors }
}

proof fn lemma_push_contains<A>(a: Seq<A>, x: A, s: A)
    ensures
        a.push(x).contains(s) <==> (a.contains(s) || x == s),
{
    if a.push(x).contains(s) {
        let k = choose|k: int| 0 <= k < a.push(x).len() && a.push(x)[k] == s;
        if k < a.len() {
            assert(a[k] == s);
        }
    }
    if a.contains(s) {
        let k = choose|k: int| 0 <= k < a.len() && a[k] == s;
        assert(a.push(x)[k] == s);
    }
    assert(a.push(x)[a.len() as int] == x);
}

proof fn lemma_members_upto<Q>(
    requested: Seq<Seq<char>>,
    fetch: Seq<bool>,
    outcomes: Seq<Option<Q>>,
    n: nat,
    s: Seq<char>,
)
    requires
        n <= requested.len(),
        fetch.len() == requested.len(),
        outcomes.len() == requested.len(),
    ensures
        quote_symbols(quotes_upto(requested, fetch, outcomes, n)).contains(s) <==> exists|i: int|
            0 <= i < n && is_quoted(fetch, outcomes, i) && #[trigger] requested[i] == s,
        errors_upto(requested, fetch, outcomes, n).contains(s) <==> exists|i: int|
            0 <= i < n && !is_quoted(fetch, outcomes, i) && #[trigger] requested[i] == s,
    decreases n,
{
    if n > 0 {
        let m = (n - 1) as nat;
        lemma_members_upto(requested, fetch, outcomes, m, s);
        let qs = quote_symbols(quotes_upto(requested, fetch, outcomes, m));
        let es = errors_upto(requested, fetch, outcomes, m);
        if is_quoted(fetch, outcomes, m as int) {
            assert(quote_symbols(quotes_upto(requested, fetch, outcomes, n)) =~= qs.push(
                requested[m as int],
            ));
            lemma_push_contains(qs, requested[m as int], s);
        } else {
            lemma_push_contains(es, requested[m as int], s);
        }
    }
}

/// Every requested symbol ends in exactly one of the two lists: among the
/// quotes when it was fetched and the fetch succeeded, among the errors
/// otherwise.  Nothing else appears in either.
pub proof fn lemma_quotes_and_errors_partition<Q>(
    requested: Seq<Seq<char>>,
    fetch: Seq<bool>,
    outcomes: Seq<Option<Q>>,
)
    requires
        requested.no_duplicates(),
        fetch.len() == requested.len(),
        outcomes.len() == requested.len(),
    ensures
        forall|s: Seq<char>|
            !(#[trigger] quote_symbols(
                quotes_upto(requested, fetch, outcomes, requested.len()),
            ).contains(s) && errors_upto(requested, fetch, outcomes, requested.len()).contains(s)),
        forall|i: int|
            0 <= i < requested.len() ==> (quote_symbols(
                quotes_upto(requested, fetch, outcomes, requested.len()),
            ).contains(#[trigger] requested[i]) <==> is_quoted(fetch, outcomes, i)),
        forall|i: int|
            0 <= i < requested.len() ==> (errors_upto(
                requested,
                fetch,
                outcomes,
                requested.len(),
            ).contains(#[trigger] requested[i]) <==> !is_quoted(fetch, outcomes, i)),
        forall|s: Seq<char>|
            #[trigger] quote_symbols(quotes_upto(requested, fetch, outcomes, requested.len())).contains(
                s,
            ) ==> requested.contains(s),
        forall|s: Seq<char>|
            #[trigger] errors_upto(requested, fetch, outcomes, requested.len()).contains(s)
                ==> requested.contains(s),
{
    let n = requested.len();
    assert forall|s: Seq<char>|
        !(#[trigger] quote_symbols(quotes_upto(requested, fetch, outcomes, n)).contains(s)
            && errors_upto(requested, fetch, outcomes, n).contains(s)) by {
        lemma_members_upto(requested, fetch, outcomes, n, s);
    }
    assert forall|i: int| 0 <= i < n implies (quote_symbols(
        quotes_upto(requested, fetch, outcomes, n),
    ).contains(#[trigger] requested[i]) <==> is_quoted(fetch, outcomes, i)) by {
        lemma_members_upto(requested, fetch, outcomes, n, requested[i]);
    }
    assert forall|i: int| 0 <= i < n implies (errors_upto(
        requested,
        fetch,
        outcomes,
        n,
    ).contains(#[trigger] requested[i]) <==> !is_quoted(fetch, outcomes, i)) by {
        lemma_members_upto(requested, fetch, outcomes, n, requested[i]);
    }
    assert forall|s: Seq<char>| #[trigger]
        quote_symbols(quotes_upto(requested, fetch, outcomes, n)).contains(s) implies requested.contains(
        s,
    ) by {
        lemma_members_upto(requested, fetch, outcomes, n, s);
    }
    assert forall|s: Seq<char>| #[trigger]
        errors_upto(requested, fetch, outcomes, n).contains(s) implies requested.contains(s) by {
        lemma_members_upto(requested, fetch, outcomes, n, s);
    }
}

} // verus!
