//! Extracting a DOI from the text that a user gives: a bare DOI, a DOI URL,
//! or a `doi:` form.

use vstd::prelude::*;
use crate::text::push_char;

verus! {

/// The characters with the Unicode `White_Space` property.
pub open spec fn is_whitespace(c: char) -> bool {
    ('\u{9}' <= c && c <= '\u{d}') || c == ' ' || c == '\u{85}' || c == '\u{a0}'
        || c == '\u{1680}' || ('\u{2000}' <= c && c <= '\u{200a}') || c == '\u{2028}'
        || c == '\u{2029}' || c == '\u{202f}' || c == '\u{205f}' || c == '\u{3000}'
}

/// `s` without its whitespace.
pub open spec fn strip_whitespace(s: Seq<char>) -> Seq<char>
    decreases s.len(),
{
    if s.len() == 0 {
        Seq::empty()
    } else if is_whitespace(s.last()) {
        strip_whitespace(s.drop_last())
    } else {
        strip_whitespace(s.drop_last()).push(s.last())
    }
}

/// The first position, from `i` on, where `p` occurs in `s`.
pub open spec fn find_from(s: Seq<char>, p: Seq<char>, i: int) -> Option<int>
    decreases s.len() + 1 - i,
{
    if i < 0 || i + p.len() > s.len() {
        None
    } else if s.subrange(i, i + p.len()) == p {
        Some(i)
    } else {
        find_from(s, p, i + 1)
    }
}

/// The prefix of a DOI URL.
pub open spec fn url_prefix() -> Seq<char> {
    seq!['d', 'o', 'i', '.', 'o', 'r', 'g', '/']
}

/// The prefix of the `doi:` form.
pub open spec fn colon_prefix() -> Seq<char> {
    seq!['d', 'o', 'i', ':']
}

/// What follows the first `p` in `s`, if `p` occurs.
pub open spec fn after_first(s: Seq<char>, p: Seq<char>) -> Option<Seq<char>> {
    match find_from(s, p, 0) {
        Some(i) => Some(s.subrange(i + p.len(), s.len() as int)),
        None => None,
    }
}

/// The DOI in `arg`: with whitespace removed, what follows the first
/// `doi.org/`, else what follows the first `doi:`, else everything.
pub open spec fn doi_spec(arg: Seq<char>) -> Seq<char> {
    let s = strip_whitespace(arg);
    match after_first(s, url_prefix()) {
        Some(t) => t,
        None => match after_first(s, colon_prefix()) {
            Some(t) => t,
            None => s,
        },
    }
}

fn remove_whitespace(arg: &str) -> (r: Vec<char>)
    ensures
        r@ == strip_whitespace(arg@),
{
    let mut out: Vec<char> = Vec::new();
    let n = arg.unicode_len();
    let mut i: usize = 0;
    while i < n
        invariant
            n == arg@.len(),
            i <= n,
            out@ == strip_whitespace(arg@.subrange(0, i as int)),
        decreases n - i,
    {
        let c = arg.get_char(i);
        assert(arg@.subrange(0, i + 1).drop_last() =~= arg@.subrange(0, i as int));
        let ws = ('\u{9}' <= c && c <= '\u{d}') || c == ' ' || c == '\u{85}' || c == '\u{a0}'
            || c == '\u{1680}' || ('\u{2000}' <= c && c <= '\u{200a}') || c == '\u{2028}'
            || c == '\u{2029}' || c == '\u{202f}' || c == '\u{205f}' || c == '\u{3000}';
        if !ws {
            out.push(c);
        }
        i = i + 1;
    }
    assert(arg@.subrange(0, n as int) =~= arg@);
    out
}

fn occurs_at(s: &Vec<char>, p: &Vec<char>, i: usize) -> (r: bool)
    requires
        i + p@.len() <= s@.len(),
    ensures
        r == (s@.subrange(i as int, i + p@.len()) == p@),
{
    let n = s.len();
    let mut j: usize = 0;
    while j < p.len()
        invariant
            n == s@.len(),
            i + p@.len() <= s@.len(),
            j <= p@.len(),
            forall|k: int| 0 <= k < j ==> s@[i + k] == p@[k],
        decreases p@.len() - j,
    {
        if s[i + j] != p[j] {
            assert(s@.subrange(i as int, i + p@.len())[j as int] != p@[j as int]);
            return false;
        }
        j = j + 1;
    }
    assert(s@.subrange(i as int, i + p@.len()) =~= p@);
    true
}

fn find(s: &Vec<char>, p: &Vec<char>) -> (r: Option<usize>)
    ensures
        match r {
            Some(i) => find_from(s@, p@, 0) == Some(i as int) && i + p@.len() <= s@.len(),
            None => find_from(s@, p@, 0) is None,
        },
{
    if p.len() > s.len() {
        return None;
    }
    let last = s.len() - p.len();
    let mut i: usize = 0;
    loop
        invariant
            last + p@.len() == s@.len(),
            i <= last,
            find_from(s@, p@, 0) == find_from(s@, p@, i as int),
        decreases last - i,
    {
        if occurs_at(s, p, i) {
            return Some(i);
        }
        if i == last {
            return None;
        }
        i = i + 1;
    }
}

fn suffix_string(s: &Vec<char>, from: usize) -> (r: String)
    requires
        from <= s@.len(),
    ensures
        r@ == s@.subrange(from as int, s@.len() as int),
{
    let mut out = String::new();
    let mut i: usize = from;
    while i < s.len()
        invariant
            from <= i <= s@.len(),
            out@ == s@.subrange(from as int, i as int),
        decreases s@.len() - i,
    {
        push_char(&mut out, s[i]);
        assert(s@.subrange(from as int, i + 1) =~= s@.subrange(from as int, i as int).push(s@[i as int]));
        i = i + 1;
    }
    out
}

/// The DOI in `arg`: whitespace is removed, then what follows the first
/// `doi.org/` is returned, else what follows the first `doi:`, else the
/// whole whitespace-free text.
pub fn doi_from_url(arg: &str) -> (r: String)
    ensures
        r@ == doi_spec(arg@),
{
    let doi = remove_whitespace(arg);
    let n = doi.len();
    let url: Vec<char> = vec!['d', 'o', 'i', '.', 'o', 'r', 'g', '/'];
    let colon: Vec<char> = vec!['d', 'o', 'i', ':'];
    assert(url@ =~= url_prefix());
    assert(colon@ =~= colon_prefix());
    assert(n == doi@.len());
    if let Some(i) = find(&doi, &url) {
        return suffix_string(&doi, i + url.len());
    }
    if let Some(i) = find(&doi, &colon) {
        return suffix_string(&doi, i + colon.len());
    }
    suffix_string(&doi, 0)
}

} // verus!
