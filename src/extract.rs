//! Finding the ticker symbols that a message mentions.
//!
//! A word that starts with `$` is a tag.  Words are compared with symbols in
//! their normal form: upper case, letters A to Z only.  Tags, when there are
//! any, decide alone; otherwise every word may match, but one-letter symbols
//! count only when nothing longer matched.
use crate::text::{chars_of, split_words, str_views, string_views, to_upper, upper_of, words_of};
use vstd::prelude::*;

verus! {

pub open spec fn is_ticker_letter(c: char) -> bool {
    'A' <= c <= 'Z'
}

/// The letters A to Z of `s`, in order.
pub open spec fn letters_of(s: Seq<char>) -> Seq<char>
    decreases s.len(),
{
    if s.len() == 0 {
        seq![]
    } else if is_ticker_letter(s.last()) {
        letters_of(s.drop_last()).push(s.last())
    } else {
        letters_of(s.drop_last())
    }
}

/// A word marked with `$`.
pub open spec fn is_tagged(w: Seq<char>) -> bool {
    w.len() > 0 && w[0] == '$'
}

/// The normal form of a word: its upper case, letters A to Z only.
pub open spec fn normalized(w: Seq<char>) -> Seq<char> {
    letters_of(upper_of(w))
}

/// The normal forms of the words of `ws` that are tags (`tagged`) or that
/// are not (`!tagged`), in order.
pub open spec fn normalized_words(ws: Seq<Seq<char>>, tagged: bool) -> Seq<Seq<char>>
    decreases ws.len(),
{
    if ws.len() == 0 {
        seq![]
    } else if is_tagged(ws.last()) == tagged {
        normalized_words(ws.drop_last(), tagged).push(normalized(ws.last()))
    } else {
        normalized_words(ws.drop_last(), tagged)
    }
}

pub open spec fn char_vec_views(v: Seq<Vec<char>>) -> Seq<Seq<char>> {
    v.map_values(|w: Vec<char>| w@)
}

/// Some member has one letter, and none has more.
pub open spec fn only_one_letter(c: Set<Seq<char>>) -> bool {
    &&& exists|x: Seq<char>| #[trigger] c.contains(x) && x.len() == 1
    &&& forall|x: Seq<char>| #[trigger] c.contains(x) ==> x.len() <= 1
}

/// The symbols of `known` that a message with the normalized tags `tagged`
/// and the other normalized words `plain` mentions.
pub open spec fn select(known: Set<Seq<char>>, tagged: Seq<Seq<char>>, plain: Seq<Seq<char>>) -> Set<
    Seq<char>,
> {
    if tagged.len() > 0 {
        known.intersect(tagged.to_set())
    } else {
        let found = known.intersect(plain.to_set());
        if only_one_letter(found) {
            found
        } else {
            found.filter(|x: Seq<char>| x.len() > 1)
        }
    }
}

/// The symbols of `known` that `text` mentions.
pub open spec fn extract(known: Set<Seq<char>>, text: Seq<char>) -> Set<Seq<char>> {
    select(
        known,
        normalized_words(words_of(text), true),
        normalized_words(words_of(text), false),
    )
}

fn same_chars(a: &Vec<char>, b: &Vec<char>) -> (r: bool)
    ensures
        r == (a@ == b@),
{
    if a.len() != b.len() {
        return false;
    }
    let mut i: usize = 0;
    while i < a.len()
        invariant
            a.len() == b.len(),
            i <= a.len(),
            a@.subrange(0, i as int) == b@.subrange(0, i as int),
        decreases a.len() - i,
    {
        if a[i] != b[i] {
            assert(a@[i as int] != b@[i as int]);
            return false;
        }
        assert(a@.subrange(0, i + 1) =~= a@.subrange(0, i as int).push(a@[i as int]));
        assert(b@.subrange(0, i + 1) =~= b@.subrange(0, i as int).push(b@[i as int]));
        i = i + 1;
    }
    assert(a@ =~= a@.subrange(0, i as int));
    assert(b@ =~= b@.subrange(0, i as int));
    true
}

fn contains_chars(pool: &Vec<Vec<char>>, w: &Vec<char>) -> (r: bool)
    ensures
        r == char_vec_views(pool@).contains(w@),
{
    let mut i: usize = 0;
    while i < pool.len()
        invariant
            i <= pool.len(),
            forall|k: int| 0 <= k < i ==> pool@[k]@ != w@,
        decreases pool.len() - i,
    {
        if same_chars(&pool[i], w) {
            assert(char_vec_views(pool@)[i as int] == w@);
            return true;
        }
        i = i + 1;
    }
    assert(!char_vec_views(pool@).contains(w@)) by {
        if char_vec_views(pool@).contains(w@) {
            let k = choose|k: int| 0 <= k < pool@.len() && char_vec_views(pool@)[k] == w@;
            assert(pool@[k]@ == w@);
        }
    }
    false
}

/// The symbols of `symbols` that `pool` holds, each once.
fn matching(symbols: &Vec<String>, pool: &Vec<Vec<char>>) -> (r: Vec<String>)
    ensures
        string_views(r@).no_duplicates(),
        string_views(r@).to_set() == string_views(symbols@).to_set().intersect(
            char_vec_views(pool@).to_set(),
        ),
{
    let ghost want = char_vec_views(pool@).to_set();
    let mut r: Vec<String> = Vec::new();
    let mut seen: Vec<Vec<char>> = Vec::new();
    let mut i: usize = 0;
    while i < symbols.len()
        invariant
            i <= symbols.len(),
            want == char_vec_views(pool@).to_set(),
            char_vec_views(seen@) == string_views(r@),
            string_views(r@).no_duplicates(),
            string_views(r@).to_set() == string_views(symbols@.subrange(0, i as int)).to_set().intersect(
                want,
            ),
        decreases symbols.len() - i,
    {
        let ghost before = r@;
        let ghost seen_before = seen@;
        let sc = chars_of(symbols[i].as_str());
        assert(string_views(symbols@.subrange(0, i + 1)) =~= string_views(
            symbols@.subrange(0, i as int),
        ).push(sc@));
        proof {
            string_views(symbols@.subrange(0, i as int)).lemma_push_to_set_commute(sc@);
        }
        if contains_chars(pool, &sc) && !contains_chars(&seen, &sc) {
            r.push(symbols[i].clone());
            seen.push(sc);
            assert(string_views(r@) =~= string_views(before).push(sc@));
            assert(char_vec_views(seen@) =~= char_vec_views(seen_before).push(sc@));
            proof {
                string_views(before).lemma_push_to_set_commute(sc@);
            }
        } else {
            proof {
                if char_vec_views(seen@).contains(sc@) {
                    assert(string_views(r@).to_set().contains(sc@));
                }
            }
        }
        assert(string_views(r@).to_set() =~= string_views(symbols@.subrange(0, i + 1)).to_set().intersect(
            want,
        ));
        i = i + 1;
    }
    assert(symbols@.subrange(0, i as int) =~= symbols@);
    r
}

/// Picks the symbols that a message mentions, from its normalized tags
/// `tagged` and its other normalized words `plain`.  Each symbol comes once.
pub fn select_symbols(symbols: &Vec<String>, tagged: &Vec<Vec<char>>, plain: &Vec<Vec<char>>) -> (r:
    Vec<String>)
    ensures
        string_views(r@).no_duplicates(),
        string_views(r@).to_set() == select(
            string_views(symbols@).to_set(),
            char_vec_views(tagged@),
            char_vec_views(plain@),
        ),
{
    if tagged.len() > 0 {
        return matching(symbols, tagged);
    }
    let found = matching(symbols, plain);
    let ghost fs = string_views(found@);
    let mut longest: usize = 0;
    let mut j: usize = 0;
    while j < found.len()
        invariant
            j <= found.len(),
            fs == string_views(found@),
            forall|k: int| 0 <= k < j ==> fs[k].len() <= longest,
            longest > 0 ==> exists|k: int| 0 <= k < j && fs[k].len() == longest,
        decreases found.len() - j,
    {
        let l = found[j].as_str().unicode_len();
        assert(fs[j as int] == found@[j as int]@);
        if l > longest {
            longest = l;
        }
        assert(longest > 0 ==> exists|k: int| 0 <= k < j + 1 && fs[k].len() == longest);
        j = j + 1;
    }
    if longest == 1 {
        assert(only_one_letter(fs.to_set())) by {
            let k = choose|k: int| 0 <= k < j && fs[k].len() == longest;
            assert(fs.to_set().contains(fs[k]));
        }
        return found;
    }
    assert(!only_one_letter(fs.to_set())) by {
        if longest > 1 {
            let k = choose|k: int| 0 <= k < j && fs[k].len() == longest;
            assert(fs.to_set().contains(fs[k]));
        }
    }
    let mut out: Vec<String> = Vec::new();
    let mut j: usize = 0;
    while j < found.len()
        invariant
            j <= found.len(),
            fs == string_views(found@),
            fs.no_duplicates(),
            string_views(out@).no_duplicates(),
            string_views(out@).to_set() == fs.subrange(0, j as int).to_set().filter(
                |x: Seq<char>| x.len() > 1,
            ),
        decreases found.len() - j,
    {
        let ghost before = out@;
        assert(fs.subrange(0, j + 1) =~= fs.subrange(0, j as int).push(fs[j as int]));
        assert(fs[j as int] == found@[j as int]@);
        proof {
            fs.subrange(0, j as int).lemma_push_to_set_commute(fs[j as int]);
        }
        if found[j].as_str().unicode_len() > 1 {
            out.push(found[j].clone());
            assert(string_views(out@) =~= string_views(before).push(fs[j as int]));
            proof {
                string_views(before).lemma_push_to_set_commute(fs[j as int]);
            }
            assert(!string_views(before).contains(fs[j as int])) by {
                if string_views(before).contains(fs[j as int]) {
                    assert(string_views(before).to_set().contains(fs[j as int]));
                    assert(fs.subrange(0, j as int).to_set().contains(fs[j as int]));
                    let k = choose|k: int| 0 <= k < j && fs.subrange(0, j as int)[k] == fs[j as int];
                    assert(fs[k] == fs[j as int]);
                }
            }
        }
        assert(string_views(out@).to_set() =~= fs.subrange(0, j + 1).to_set().filter(
            |x: Seq<char>| x.len() > 1,
        ));
        j = j + 1;
    }
    assert(fs.subrange(0, j as int) =~= fs);
    out
}

/// The normal form of `w`.
fn normalize(w: &str) -> (r: Vec<char>)
    ensures
        r@ == normalized(w@),
{
    let up = to_upper(w);
    let cs = chars_of(up.as_str());
    let mut r: Vec<char> = Vec::new();
    let mut i: usize = 0;
    while i < cs.len()
        invariant
            i <= cs.len(),
            cs@ == upper_of(w@),
            r@ == letters_of(cs@.subrange(0, i as int)),
        decreases cs.len() - i,
    {
        let c = cs[i];
        assert(cs@.subrange(0, i + 1).drop_last() =~= cs@.subrange(0, i as int));
        if 'A' <= c && c <= 'Z' {
            r.push(c);
        }
        i = i + 1;
    }
    assert(cs@.subrange(0, i as int) =~= cs@);
    r
}

/// The symbols of `symbols` that `content` mentions, each once.
pub fn _extract_stocks(symbols: &Vec<String>, content: &str) -> (r: Vec<String>)
    ensures
        string_views(r@).no_duplicates(),
        string_views(r@).to_set() == extract(string_views(symbols@).to_set(), content@),
{
    let words = split_words(content);
    let ghost ws = str_views(words@);
    let mut tagged: Vec<Vec<char>> = Vec::new();
    let mut plain: Vec<Vec<char>> = Vec::new();
    let mut i: usize = 0;
    while i < words.len()
        invariant
            i <= words.len(),
            ws == str_views(words@),
            ws == words_of(content@),
            char_vec_views(tagged@) == normalized_words(ws.subrange(0, i as int), true),
            char_vec_views(plain@) == normalized_words(ws.subrange(0, i as int), false),
        decreases words.len() - i,
    {
        let w = words[i];
        let ghost tagged_before = tagged@;
        let ghost plain_before = plain@;
        assert(ws.subrange(0, i + 1).drop_last() =~= ws.subrange(0, i as int));
        assert(ws[i as int] == w@);
        let wc = chars_of(w);
        let n = normalize(w);
        if wc.len() > 0 && wc[0] == '$' {
            tagged.push(n);
            assert(char_vec_views(tagged@) =~= char_vec_views(tagged_before).push(n@));
        } else {
            plain.push(n);
            assert(char_vec_views(plain@) =~= char_vec_views(plain_before).push(n@));
        }
        i = i + 1;
    }
    assert(ws.subrange(0, i as int) =~= ws);
    select_symbols(symbols, &tagged, &plain)
}

} // verus!
