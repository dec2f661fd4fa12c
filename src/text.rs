//! Characters, words and upper case.
use vstd::prelude::*;
use vstd::std_specs::iter::IteratorSpec;

verus! {

/// The characters with Unicode's `White_Space` property.
pub open spec fn is_white_space(c: char) -> bool {
    ||| '\u{9}' <= c <= '\u{d}'
    ||| c == ' '
    ||| c == '\u{85}'
    ||| c == '\u{a0}'
    ||| c == '\u{1680}'
    ||| '\u{2000}' <= c <= '\u{200a}'
    ||| c == '\u{2028}'
    ||| c == '\u{2029}'
    ||| c == '\u{202f}'
    ||| c == '\u{205f}'
    ||| c == '\u{3000}'
}

/// Relies on `char::is_whitespace`, which tests for Unicode's `White_Space`
/// property.
#[verifier::external_body]
fn white_space(c: char) -> (r: bool)
    ensures
        r == is_white_space(c),
{
    c.is_whitespace()
}

/// The upper-case form of a string, as `str::to_uppercase` gives it.
pub uninterp spec fn upper_of(s: Seq<char>) -> Seq<char>;

/// Relies on `str::to_uppercase`: the upper-case form of `s`, which depends
/// on the characters of `s` alone.
#[verifier::external_body]
pub(crate) fn to_upper(s: &str) -> (r: String)
    ensures
        r@ == upper_of(s@),
{
    s.to_uppercase()
}

/// The characters of `s`, in order.
pub fn chars_of(s: &str) -> (r: Vec<char>)
    ensures
        r@ == s@,
{
    broadcast use vstd::string::group_string_axioms;

    let mut it = s.chars();
    let mut r: Vec<char> = Vec::new();
    loop
        invariant
            r@ + it.remaining() == s@,
            it.decrease() is Some,
        ensures
            r@ == s@,
        decreases it.decrease()->0,
    {
        match it.next() {
            Some(c) => {
                r.push(c);
            },
            None => {
                assert(r@ + it.remaining() =~= r@);
                break ;
            },
        }
    }
    r
}

/// Splitting `s` after its last character: the words finished so far, in
/// order, and the word still being read.
pub open spec fn scan_words(s: Seq<char>) -> (Seq<Seq<char>>, Seq<char>)
    decreases s.len(),
{
    if s.len() == 0 {
        (seq![], seq![])
    } else {
        let (done, current) = scan_words(s.drop_last());
        if is_white_space(s.last()) {
            if current.len() > 0 {
                (done.push(current), seq![])
            } else {
                (done, seq![])
            }
        } else {
            (done, current.push(s.last()))
        }
    }
}

/// The maximal runs of non-white-space characters of `s`, in order.
pub open spec fn words_of(s: Seq<char>) -> Seq<Seq<char>> {
    let (done, current) = scan_words(s);
    if current.len() > 0 {
        done.push(current)
    } else {
        done
    }
}

/// The views of a sequence of string slices.
pub open spec fn str_views(v: Seq<&str>) -> Seq<Seq<char>> {
    v.map_values(|w: &str| w@)
}

/// The views of a sequence of strings.
pub open spec fn string_views(v: Seq<String>) -> Seq<Seq<char>> {
    v.map_values(|s: String| s@)
}

/// A copy of `v`.
pub fn clone_strings(v: &Vec<String>) -> (r: Vec<String>)
    ensures
        string_views(r@) == string_views(v@),
{
    let mut r: Vec<String> = Vec::new();
    let mut i: usize = 0;
    while i < v.len()
        invariant
            i <= v.len(),
            string_views(r@) == string_views(v@.subrange(0, i as int)),
        decreases v.len() - i,
    {
        let ghost before = r@;
        r.push(v[i].clone());
        assert(string_views(r@) =~= string_views(before).push(v@[i as int]@));
        assert(string_views(v@.subrange(0, i + 1)) =~= string_views(v@.subrange(0, i as int)).push(
            v@[i as int]@,
        ));
        i = i + 1;
    }
    assert(v@.subrange(0, i as int) =~= v@);
    r
}

/// Splits `content` into its white-space separated words, in order.
pub fn split_words<'a>(content: &'a str) -> (r: Vec<&'a str>)
    ensures
        str_views(r@) == words_of(content@),
{
    let chars = chars_of(content);
    let n = chars.len();
    let ghost s = content@;
    let mut r: Vec<&'a str> = Vec::new();
    let mut start: usize = 0;
    let mut i: usize = 0;
    while i < n
        invariant
            chars@ == s,
            s == content@,
            n == s.len(),
            start <= i <= n,
            scan_words(s.subrange(0, i as int)) == (str_views(r@), s.subrange(start as int, i as int)),
        decreases n - i,
    {
        let c = chars[i];
        proof {
            assert(s.subrange(0, i + 1).drop_last() =~= s.subrange(0, i as int));
        }
        if white_space(c) {
            if start < i {
                let w = content.substring_char(start, i);
                let ghost before = r@;
                r.push(w);
                assert(str_views(r@) =~= str_views(before).push(w@));
            }
            start = i + 1;
            assert(s.subrange(start as int, start as int) =~= seq![]);
        } else {
            assert(s.subrange(start as int, i + 1) =~= s.subrange(start as int, i as int).push(c));
        }
        i = i + 1;
    }
    proof {
        assert(s.subrange(0, n as int) =~= s);
    }
    if start < n {
        let w = content.substring_char(start, n);
        let ghost before = r@;
        r.push(w);
        assert(str_views(r@) =~= str_views(before).push(w@));
    }
    r
}

} // verus!
