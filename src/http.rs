//! What the library decides around fetching BibTeX for a DOI.

use vstd::prelude::*;
use crate::text::{decimal, push_char, push_decimal, push_str};
use crate::{fails_with, CiteNoteError, ErrorKind};

verus! {

/// The address that resolves `doi` to its BibTeX record.
pub open spec fn doi_url_spec(doi: Seq<char>) -> Seq<char> {
    "http://dx.doi.org/"@ + doi
}

/// The address that resolves `doi` to its BibTeX record.
pub fn doi_url(doi: &str) -> (r: String)
    ensures
        r@ == doi_url_spec(doi@),
{
    let mut r = String::from_str("http://dx.doi.org/");
    push_str(&mut r, doi);
    r
}

/// Whether an HTTP status code reports success (`2xx`).
pub open spec fn is_success(status: u16) -> bool {
    200 <= status <= 299
}

/// Accepts a successful response status and rejects any other.
pub fn response_error(status: u16) -> (r: crate::Result<()>)
    ensures
        r is Ok <==> is_success(status),
        !is_success(status) ==> fails_with(r, ErrorKind::Http),
        r matches Err(e) ==> e.message@ == "Request failed with error response: "@ + decimal(status as int),
{
    if 200 <= status && status <= 299 {
        Ok(())
    } else {
        let mut message = String::from_str("Request failed with error response: ");
        push_decimal(&mut message, status as i32);
        Err(CiteNoteError::with_message(ErrorKind::Http, message.as_str()))
    }
}

/// `s` with every `DOI`, taken left to right, written as `doi`.
pub open spec fn lower_doi_tags(s: Seq<char>) -> Seq<char>
    decreases s.len(),
{
    if s.len() == 0 {
        Seq::empty()
    } else if s.len() >= 3 && s[0] == 'D' && s[1] == 'O' && s[2] == 'I' {
        seq!['d', 'o', 'i'] + lower_doi_tags(s.skip(3))
    } else {
        seq![s[0]] + lower_doi_tags(s.skip(1))
    }
}

/// The response body with every `DOI` written as `doi`, so that the field
/// name reads the same whatever case the server used.
pub fn lowercase_doi_tags(body: &str) -> (r: String)
    ensures
        r@ == lower_doi_tags(body@),
{
    let n = body.unicode_len();
    let mut out = String::new();
    let mut i: usize = 0;
    assert(body@.skip(0) =~= body@);
    assert(out@ + lower_doi_tags(body@.skip(0)) =~= lower_doi_tags(body@));
    while i < n
        invariant
            n == body@.len(),
            i <= n,
            out@ + lower_doi_tags(body@.skip(i as int)) == lower_doi_tags(body@),
        decreases n - i,
    {
        let ghost rest = body@.skip(i as int);
        let c = body.get_char(i);
        if n - i >= 3 && c == 'D' && body.get_char(i + 1) == 'O' && body.get_char(i + 2) == 'I' {
            assert(rest.skip(3) =~= body@.skip(i + 3));
            push_char(&mut out, 'd');
            push_char(&mut out, 'o');
            push_char(&mut out, 'i');
            assert(out@ + lower_doi_tags(body@.skip(i + 3)) =~= lower_doi_tags(body@));
            i = i + 3;
        } else {
            assert(rest.skip(1) =~= body@.skip(i + 1));
            push_char(&mut out, c);
            assert(out@ + lower_doi_tags(body@.skip(i + 1)) =~= lower_doi_tags(body@));
            i = i + 1;
        }
    }
    assert(body@.skip(n as int) =~= Seq::<char>::empty());
    assert(out@ =~= lower_doi_tags(body@));
    out
}

} // verus!
