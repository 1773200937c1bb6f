//! Citation-key synthesis: first author's surname, without accents, followed
//! by the publication year.

use vstd::prelude::*;
use crate::text::{decimal, push_char, push_decimal};
use crate::{fails_with, CiteNoteError, ErrorKind};

verus! {

/// The unaccented base letter of a lowercase accented Latin letter; every
/// other character is its own base.
pub open spec fn base_letter(c: char) -> char {
    if c == '\u{e1}' || c == '\u{e0}' || c == '\u{e2}' || c == '\u{e4}' {
        'a'
    } else if c == '\u{e9}' || c == '\u{e8}' || c == '\u{ea}' || c == '\u{eb}' {
        'e'
    } else if c == '\u{ed}' || c == '\u{ec}' || c == '\u{ee}' || c == '\u{ef}' {
        'i'
    } else if c == '\u{f3}' || c == '\u{f2}' || c == '\u{f4}' || c == '\u{f6}' {
        'o'
    } else if c == '\u{fa}' || c == '\u{f9}' || c == '\u{fb}' || c == '\u{fc}' {
        'u'
    } else if c == '\u{f1}' {
        'n'
    } else if c == '\u{e7}' {
        'c'
    } else {
        c
    }
}

/// `s` with each character replaced by its base letter.
pub open spec fn unaccented(s: Seq<char>) -> Seq<char> {
    s.map_values(|c: char| base_letter(c))
}

/// The citation key proposed for a surname and a year.
pub open spec fn key_spec(surname: Seq<char>, year: int) -> Seq<char> {
    unaccented(surname) + decimal(year)
}

fn exec_base_letter(c: char) -> (r: char)
    ensures
        r == base_letter(c),
{
    match c {
        '\u{e1}' | '\u{e0}' | '\u{e2}' | '\u{e4}' => 'a',
        '\u{e9}' | '\u{e8}' | '\u{ea}' | '\u{eb}' => 'e',
        '\u{ed}' | '\u{ec}' | '\u{ee}' | '\u{ef}' => 'i',
        '\u{f3}' | '\u{f2}' | '\u{f4}' | '\u{f6}' => 'o',
        '\u{fa}' | '\u{f9}' | '\u{fb}' | '\u{fc}' => 'u',
        '\u{f1}' => 'n',
        '\u{e7}' => 'c',
        _ => c,
    }
}

/// Replaces each lowercase accented Latin letter of `input` by its base
/// letter; all other characters, uppercase ones included, are kept.
pub fn remove_accented_letters(input: &str) -> (r: String)
    ensures
        r@ == unaccented(input@),
{
    let mut output = String::new();
    let n = input.unicode_len();
    let mut i: usize = 0;
    while i < n
        invariant
            n == input@.len(),
            i <= n,
            output@ =~= unaccented(input@.subrange(0, i as int)),
        decreases n - i,
    {
        let c = input.get_char(i);
        push_char(&mut output, exec_base_letter(c));
        assert(input@.subrange(0, i + 1) =~= input@.subrange(0, i as int).push(c));
        i = i + 1;
    }
    assert(input@.subrange(0, n as int) =~= input@);
    output
}

/// The key proposed for `surname` and `year`: the unaccented surname followed
/// by the year in decimal, with no separator.
pub fn synthesize_key(surname: &str, year: i32) -> (r: String)
    ensures
        r@ == key_spec(surname@, year as int),
{
    let mut key = remove_accented_letters(surname);
    push_decimal(&mut key, year);
    key
}

/// The accented letters of the normalisation table.
pub open spec fn is_table_letter(c: char) -> bool {
    base_letter(c) != c
}

/// Normalisation maps each table letter to an ASCII lowercase letter, keeps
/// every other character (uppercase accented letters among them) as it is,
/// keeps the length, and changes nothing on a second pass.
pub proof fn lemma_accent_normalization(s: Seq<char>)
    ensures
        unaccented(s).len() == s.len(),
        forall|i: int| 0 <= i < s.len() && is_table_letter(#[trigger] s[i]) ==> 'a' <= unaccented(s)[i] <= 'z',
        forall|i: int| 0 <= i < s.len() && !is_table_letter(#[trigger] s[i]) ==> unaccented(s)[i] == s[i],
        forall|c: char| 'A' <= c <= '\u{de}' ==> !#[trigger] is_table_letter(c),
        unaccented(unaccented(s)) == unaccented(s),
{
    assert(unaccented(unaccented(s)) =~= unaccented(s));
}

/// The key depends on the surname and the year alone: equal inputs give
/// equal keys.
pub proof fn lemma_key_determinism(surname1: Seq<char>, year1: int, surname2: Seq<char>, year2: int)
    requires
        surname1 == surname2,
        year1 == year2,
    ensures
        key_spec(surname1, year1) == key_spec(surname2, year2),
{
}

/// A date as the store reads it: typed with its boundaries' years, present
/// only as raw text, or unreadable.
#[derive(Debug, Clone, Copy, PartialEq, Eq, Structural)]
pub enum DateField {
    At(i32),
    After(i32),
    Before(i32),
    Between(i32, i32),
    Chunks,
    Unparsable,
}

/// The year that a date contributes to a key: that of its later or sole
/// boundary.
pub open spec fn year_of(d: DateField) -> Option<i32> {
    match d {
        DateField::At(y) => Some(y),
        DateField::After(y) => Some(y),
        DateField::Before(y) => Some(y),
        DateField::Between(_, y) => Some(y),
        _ => None,
    }
}

/// The year of the later or sole boundary of `date`.
pub fn get_year(date: DateField) -> (r: Result<i32, CiteNoteError>)
    ensures
        year_of(date) matches Some(y) ==> r == Ok::<i32, CiteNoteError>(y),
        date == DateField::Chunks ==> fails_with(r, ErrorKind::NoDate),
        date == DateField::Unparsable ==> fails_with(r, ErrorKind::DateParseFailed),
{
    match date {
        DateField::At(y) | DateField::After(y) | DateField::Before(y) | DateField::Between(_, y) => Ok(y),
        DateField::Chunks => Err(CiteNoteError::of_kind(ErrorKind::NoDate)),
        DateField::Unparsable => Err(CiteNoteError::of_kind(ErrorKind::DateParseFailed)),
    }
}

} // verus!
