//! Shapes of field text that the library hands to biblatex. Its date
//! readers panic on some shapes and its cross-reference resolution does not
//! end on reference cycles; these checks admit only text that avoids both.

use vstd::prelude::*;
use vstd::string::StringSliceAdditionalSpecFns;

verus! {

/// Character classes: `0` ASCII digits, `1` ASCII letters, `2` spaces and
/// hyphens, `3` spaces and letters other than `x`.
pub open spec fn in_class(c: char, k: u8) -> bool {
    if k == 0 {
        '0' <= c <= '9'
    } else if k == 1 {
        ('a' <= c <= 'z') || ('A' <= c <= 'Z')
    } else if k == 2 {
        c == ' ' || c == '-'
    } else {
        c == ' ' || ((('a' <= c <= 'z') || ('A' <= c <= 'Z')) && c != 'x' && c != 'X')
    }
}

/// How many characters of class `k` follow one another from position `i`.
pub open spec fn class_run(t: Seq<char>, i: int, k: u8) -> nat
    decreases t.len() - i,
{
    if 0 <= i < t.len() && in_class(t[i], k) {
        1 + class_run(t, i + 1, k)
    } else {
        0
    }
}

pub open spec fn is_sign(c: char) -> bool {
    c == '+' || c == '-'
}

pub open spec fn is_x(c: char) -> bool {
    c == 'x' || c == 'X'
}

/// After a year ending at `j - 1`: nothing, or a hyphen, a month of one or
/// two digits, and optionally a hyphen and a day of one or two digits.
pub open spec fn month_day_ok(t: Seq<char>, j: int) -> bool {
    let ml = class_run(t, j, 0) as int;
    1 <= ml <= 2 && (j + ml == t.len() || (t[j + ml] == '-' && {
        let dl = class_run(t, j + ml + 1, 0) as int;
        1 <= dl <= 2 && j + ml + 1 + dl == t.len()
    }))
}

/// One date: an optional sign, a year of two or four digits, then an
/// optional month and day, each joined by one hyphen.
pub open spec fn datetime_ok(t: Seq<char>) -> bool {
    let y0: int = if t.len() > 0 && is_sign(t[0]) { 1 } else { 0 };
    let yl = class_run(t, y0, 0) as int;
    (yl == 2 || yl == 4) && (y0 + yl == t.len() || (t[y0 + yl] == '-' && month_day_ok(t, y0 + yl + 1)))
}

/// A date without its trailing uncertainty mark (`?`, `~` or `%`).
pub open spec fn core_of(d: Seq<char>) -> Seq<char> {
    if d.len() > 0 && (d.last() == '?' || d.last() == '~' || d.last() == '%') {
        d.drop_last()
    } else {
        d
    }
}

/// A year with its last one or two digits unknown (`19XX`, `198X`).
pub open spec fn x_ok(c: Seq<char>) -> bool {
    c.len() == 4 && ((class_run(c, 0, 0) == 2 && is_x(c[2]) && is_x(c[3]))
        || (class_run(c, 0, 0) == 3 && is_x(c[3])))
}

/// The first `/` of `t` from position `i` on.
pub open spec fn first_slash(t: Seq<char>, i: int) -> Option<int>
    decreases t.len() - i,
{
    if i < 0 || i >= t.len() {
        None
    } else if t[i] == '/' {
        Some(i)
    } else {
        first_slash(t, i + 1)
    }
}

/// One date, or a range of two dates split at the first `/`, open at one
/// end or closed.
pub open spec fn range_ok(c: Seq<char>) -> bool {
    match first_slash(c, 0) {
        None => datetime_ok(c),
        Some(p) => {
            let a = c.take(p);
            let b = c.skip(p + 1);
            (a.len() == 0 && datetime_ok(b)) || (b.len() == 0 && datetime_ok(a))
                || (datetime_ok(a) && datetime_ok(b))
        },
    }
}

/// Words of letters and spaces, without digits or `x`, which biblatex keeps
/// as raw text.
pub open spec fn is_words(d: Seq<char>) -> bool {
    class_run(d, 0, 3) == d.len()
}

/// A date field of a shape that biblatex reads without panicking.
pub open spec fn date_text_ok(d: Seq<char>) -> bool {
    is_words(d) || x_ok(core_of(d)) || range_ok(core_of(d))
}

/// A year field: an optional sign directly followed by one to four digits.
pub open spec fn year_ok(y: Seq<char>) -> bool {
    let s0: int = if y.len() > 0 && is_sign(y[0]) { 1 } else { 0 };
    let r = class_run(y, s0, 0) as int;
    1 <= r <= 4 && s0 + r == y.len()
}

/// A month field read without a day field: letters, then nothing, or a
/// digit, or spaces and hyphens followed by a day of one or two digits.
pub open spec fn month_ok(m: Seq<char>) -> bool {
    let l = class_run(m, 0, 1) as int;
    l == m.len() || in_class(m[l], 0) || {
        let k = class_run(m, l, 2) as int;
        k > 0 && l + k < m.len() && in_class(m[l + k], 0) && class_run(m, l + k, 0) <= 2
    }
}

/// The date-related fields are of shapes that biblatex reads without
/// panicking: a date field as `date_text_ok` says; or else a year as
/// `year_ok` says, with a month as `month_ok` says when no day is given.
pub open spec fn date_input_ok(
    date: Option<Seq<char>>,
    year: Option<Seq<char>>,
    month: Option<Seq<char>>,
    day: Option<Seq<char>>,
) -> bool {
    match date {
        Some(d) => date_text_ok(d),
        None => match year {
            None => true,
            Some(y) => year_ok(y) && match month {
                Some(m) => day is Some || month_ok(m),
                None => true,
            },
        },
    }
}

fn in_class_exec(c: char, k: u8) -> (r: bool)
    ensures
        r == in_class(c, k),
{
    if k == 0 {
        '0' <= c && c <= '9'
    } else if k == 1 {
        ('a' <= c && c <= 'z') || ('A' <= c && c <= 'Z')
    } else if k == 2 {
        c == ' ' || c == '-'
    } else {
        c == ' ' || ((('a' <= c && c <= 'z') || ('A' <= c && c <= 'Z')) && c != 'x' && c != 'X')
    }
}

fn run(t: &Vec<char>, i: usize, k: u8) -> (r: usize)
    requires
        i <= t@.len(),
    ensures
        r == class_run(t@, i as int, k),
        i + r <= t@.len(),
{
    let n = t.len();
    let mut j: usize = i;
    while j < n && in_class_exec(t[j], k)
        invariant
            n == t@.len(),
            i <= j <= n,
            class_run(t@, i as int, k) == (j - i) + class_run(t@, j as int, k),
        decreases n - j,
    {
        j = j + 1;
    }
    j - i
}

/// The characters of `s`, one by one.
pub fn chars_of(s: &String) -> (r: Vec<char>)
    ensures
        r@ == s@,
{
    let mut out: Vec<char> = Vec::new();
    let n = s.as_str().unicode_len();
    let mut i: usize = 0;
    while i < n
        invariant
            n == s@.len(),
            i <= n,
            out@ == s@.take(i as int),
        decreases n - i,
    {
        out.push(s.as_str().get_char(i));
        assert(s@.take(i + 1) =~= s@.take(i as int).push(s@[i as int]));
        i = i + 1;
    }
    assert(s@.take(n as int) =~= s@);
    out
}

fn sub_vec(t: &Vec<char>, a: usize, b: usize) -> (r: Vec<char>)
    requires
        a <= b <= t@.len(),
    ensures
        r@ == t@.subrange(a as int, b as int),
{
    let mut out: Vec<char> = Vec::new();
    let mut i: usize = a;
    while i < b
        invariant
            a <= i <= b <= t@.len(),
            out@ == t@.subrange(a as int, i as int),
        decreases b - i,
    {
        out.push(t[i]);
        assert(t@.subrange(a as int, i + 1) =~= t@.subrange(a as int, i as int).push(t@[i as int]));
        i = i + 1;
    }
    out
}

fn datetime_check(t: &Vec<char>) -> (r: bool)
    ensures
        r == datetime_ok(t@),
{
    let n = t.len();
    let y0: usize = if n > 0 && (t[0] == '+' || t[0] == '-') { 1 } else { 0 };
    let yl = run(t, y0, 0);
    if !(yl == 2 || yl == 4) {
        return false;
    }
    let i = y0 + yl;
    if i == n {
        return true;
    }
    if t[i] != '-' {
        return false;
    }
    let j = i + 1;
    let ml = run(t, j, 0);
    if ml < 1 || ml > 2 {
        return false;
    }
    if j + ml == n {
        return true;
    }
    if t[j + ml] != '-' {
        return false;
    }
    let dl = run(t, j + ml + 1, 0);
    1 <= dl && dl <= 2 && j + ml + 1 + dl == n
}

fn find_slash(t: &Vec<char>) -> (r: Option<usize>)
    ensures
        match r {
            Some(p) => first_slash(t@, 0) == Some(p as int) && p < t@.len(),
            None => first_slash(t@, 0) is None,
        },
{
    let mut i: usize = 0;
    while i < t.len()
        invariant
            i <= t@.len(),
            first_slash(t@, 0) == first_slash(t@, i as int),
        decreases t@.len() - i,
    {
        if t[i] == '/' {
            return Some(i);
        }
        i = i + 1;
    }
    None
}

/// Whether a date field's text is of a shape that biblatex reads without
/// panicking.
pub fn date_text_check(d: &String) -> (r: bool)
    ensures
        r == date_text_ok(d@),
{
    let full = chars_of(d);
    if run(&full, 0, 3) == full.len() {
        return true;
    }
    let n = full.len();
    let c = if n > 0 && (full[n - 1] == '?' || full[n - 1] == '~' || full[n - 1] == '%') {
        sub_vec(&full, 0, n - 1)
    } else {
        sub_vec(&full, 0, n)
    };
    assert(c@ =~= core_of(d@));
    if c.len() == 4 {
        let dr = run(&c, 0, 0);
        if (dr == 2 && (c[2] == 'x' || c[2] == 'X') && (c[3] == 'x' || c[3] == 'X'))
            || (dr == 3 && (c[3] == 'x' || c[3] == 'X')) {
            return true;
        }
    }
    match find_slash(&c) {
        None => datetime_check(&c),
        Some(p) => {
            let a = sub_vec(&c, 0, p);
            let b = sub_vec(&c, p + 1, c.len());
            assert(a@ =~= c@.take(p as int));
            assert(b@ =~= c@.skip(p + 1));
            (a.len() == 0 && datetime_check(&b)) || (b.len() == 0 && datetime_check(&a))
                || (datetime_check(&a) && datetime_check(&b))
        },
    }
}

fn year_check(y: &String) -> (r: bool)
    ensures
        r == year_ok(y@),
{
    let t = chars_of(y);
    let n = t.len();
    let s0: usize = if n > 0 && (t[0] == '+' || t[0] == '-') { 1 } else { 0 };
    let r = run(&t, s0, 0);
    1 <= r && r <= 4 && s0 + r == n
}

fn month_check(m: &String) -> (r: bool)
    ensures
        r == month_ok(m@),
{
    let t = chars_of(m);
    let n = t.len();
    let l = run(&t, 0, 1);
    if l == n {
        return true;
    }
    if in_class_exec(t[l], 0) {
        return true;
    }
    let k = run(&t, l, 2);
    k > 0 && l + k < n && in_class_exec(t[l + k], 0) && run(&t, l + k, 0) <= 2
}

/// Whether the date-related fields are of shapes that biblatex reads
/// without panicking.
pub fn date_input_check(
    date: &Option<String>,
    year: &Option<String>,
    month: &Option<String>,
    day: &Option<String>,
) -> (r: bool)
    ensures
        r == date_input_ok(opt_text(*date), opt_text(*year), opt_text(*month), opt_text(*day)),
{
    match date {
        Some(d) => date_text_check(d),
        None => match year {
            None => true,
            Some(y) => year_check(y) && match month {
                Some(m) => day.is_some() || month_check(m),
                None => true,
            },
        },
    }
}

/// The view of an optional string.
pub open spec fn opt_text(s: Option<String>) -> Option<Seq<char>> {
    match s {
        Some(v) => Some(v@),
        None => None,
    }
}

/// An ASCII byte in lower case.
pub open spec fn lower_byte(b: u8) -> u8 {
    if 65 <= b <= 90 { (b + 32) as u8 } else { b }
}

/// `w` occurs in `s` at `i`, ignoring ASCII case.
pub open spec fn word_at(s: Seq<u8>, w: Seq<u8>, i: int) -> bool {
    0 <= i && i + w.len() <= s.len() && forall|k: int| 0 <= k < w.len() ==> lower_byte(#[trigger] s[i + k]) == w[k]
}

/// `w` occurs somewhere in `s`, ignoring ASCII case.
pub open spec fn mentions(s: Seq<u8>, w: Seq<u8>) -> bool {
    exists|i: int| #[trigger] word_at(s, w, i)
}

/// The bytes of `crossref`.
pub open spec fn crossref_word() -> Seq<u8> {
    seq![99u8, 114u8, 111u8, 115u8, 115u8, 114u8, 101u8, 102u8]
}

/// The bytes of `xdata`.
pub open spec fn xdata_word() -> Seq<u8> {
    seq![120u8, 100u8, 97u8, 116u8, 97u8]
}

/// BibTeX text that names no `crossref` or `xdata`, in any case, so that
/// parsing it resolves no reference between entries.
pub open spec fn links_free(src: Seq<u8>) -> bool {
    !mentions(src, crossref_word()) && !mentions(src, xdata_word())
}

fn mentions_check(s: &[u8], w: &Vec<u8>) -> (r: bool)
    ensures
        r == mentions(s@, w@),
{
    let n = s.len();
    let m = w.len();
    if m > n {
        assert forall|i: int| !#[trigger] word_at(s@, w@, i) by {}
        return false;
    }
    let mut i: usize = 0;
    while i <= n - m
        invariant
            n == s@.len(),
            m == w@.len(),
            m <= n,
            i <= n - m + 1,
            forall|j: int| 0 <= j < i ==> !#[trigger] word_at(s@, w@, j),
        decreases n - i,
    {
        let mut k: usize = 0;
        let mut same = true;
        while k < m
            invariant
                n == s@.len(),
                m == w@.len(),
                i + m <= n,
                k <= m,
                same == forall|q: int| 0 <= q < k ==> lower_byte(#[trigger] s@[i + q]) == w@[q],
            decreases m - k,
        {
            let b = s[i + k];
            let lb: u8 = if 65 <= b && b <= 90 { b + 32 } else { b };
            if lb != w[k] {
                same = false;
            }
            k = k + 1;
        }
        if same {
            assert(word_at(s@, w@, i as int));
            return true;
        }
        i = i + 1;
    }
    assert forall|j: int| !#[trigger] word_at(s@, w@, j) by {
        if 0 <= j && j + m <= n {
            assert(j < i);
        }
    }
    false
}

/// Whether BibTeX text names no `crossref` or `xdata`.
pub fn links_free_check(src: &str) -> (r: bool)
    ensures
        r == links_free(src.spec_bytes()),
{
    let bytes = src.as_bytes();
    let crossref: Vec<u8> = vec![99u8, 114u8, 111u8, 115u8, 115u8, 114u8, 101u8, 102u8];
    let xdata: Vec<u8> = vec![120u8, 100u8, 97u8, 116u8, 97u8];
    assert(crossref@ =~= crossref_word());
    assert(xdata@ =~= xdata_word());
    !mentions_check(bytes, &crossref) && !mentions_check(bytes, &xdata)
}

} // verus!
