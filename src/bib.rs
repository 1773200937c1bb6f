//! Reading entries out of BibTeX text, and writing the store back as BibTeX.

use vstd::prelude::*;
use biblatex::ChunksExt;
use vstd::string::StringSliceAdditionalSpecFns;
use crate::guard::{date_input_check, date_input_ok, date_text_check, date_text_ok, links_free, links_free_check};
use crate::keys::{get_year, key_spec, synthesize_key, year_of, DateField};
use crate::store::{doi_view, Record, DB};
use crate::text::{push_char, push_str};
use crate::{fails_with, CiteNoteError, ErrorKind};

verus! {


/// One person of an author list, by name part.
#[derive(Debug, Clone)]
pub struct PersonName {
    /// The surname.
    pub name: String,
    pub given_name: String,
    pub prefix: String,
    pub suffix: String,
}

/// How an entry's DOI field reads.
#[derive(Debug, Clone)]
pub enum DoiRead {
    Present(String),
    Missing,
    Malformed,
}

/// The entries that BibTeX text parses to, in the order of the text; `None`
/// when the text is not well formed.
pub uninterp spec fn parsed_entries(src: Seq<char>) -> Option<Seq<biblatex::Entry>>;

/// The citation key of an entry.
pub uninterp spec fn entry_key(e: biblatex::Entry) -> Seq<char>;

/// The verbatim text of an entry's field, if the entry has it.
pub uninterp spec fn entry_field(e: biblatex::Entry, name: Seq<char>) -> Option<Seq<char>>;

/// The persons of an entry's author field, if present.
pub uninterp spec fn entry_authors(e: biblatex::Entry) -> Option<Seq<PersonName>>;

/// An entry's date as it reads.
pub uninterp spec fn entry_date(e: biblatex::Entry) -> DateField;

/// An entry's DOI: `Some(Some(d))` when present, `Some(None)` when missing,
/// `None` when malformed.
pub uninterp spec fn entry_doi(e: biblatex::Entry) -> Option<Option<Seq<char>>>;

/// An entry with its citation key replaced.
pub uninterp spec fn rekeyed(e: biblatex::Entry, key: Seq<char>) -> biblatex::Entry;

/// An entry written as BibTeX; `None` when a field cannot be written.
pub uninterp spec fn entry_bibtex(e: biblatex::Entry) -> Option<Seq<char>>;

/// The view of an optional list of persons.
pub open spec fn persons_view(a: Option<Vec<PersonName>>) -> Option<Seq<PersonName>> {
    match a {
        Some(v) => Some(v@),
        None => None,
    }
}

/// The view of an optional string.
pub open spec fn opt_view(s: Option<String>) -> Option<Seq<char>> {
    match s {
        Some(v) => Some(v@),
        None => None,
    }
}

/// The view of a DOI read.
pub open spec fn doi_read_view(d: DoiRead) -> Option<Option<Seq<char>>> {
    match d {
        DoiRead::Present(s) => Some(Some(s@)),
        DoiRead::Missing => Some(None),
        DoiRead::Malformed => None,
    }
}

/// The DOI a record keeps: a missing DOI reads as empty.
pub open spec fn record_doi(d: Option<Option<Seq<char>>>) -> Option<Seq<char>> {
    match d {
        Some(Some(s)) => Some(s),
        Some(None) => Some(Seq::empty()),
        None => None,
    }
}

/// The entry's date fields pass `date_input_ok`.
pub open spec fn entry_date_ok(e: biblatex::Entry) -> bool {
    date_input_ok(entry_field(e, "date"@), entry_field(e, "year"@), entry_field(e, "month"@), entry_field(e, "day"@))
}

/// The date an entry contributes to its key: as read when its fields are of
/// a readable shape, otherwise unreadable.
pub open spec fn checked_date(e: biblatex::Entry) -> DateField {
    if entry_date_ok(e) { entry_date(e) } else { DateField::Unparsable }
}

/// The entry's date field, if any, is of a shape that biblatex writes
/// without panicking.
pub open spec fn entry_writable(e: biblatex::Entry) -> bool {
    match entry_field(e, "date"@) {
        Some(d) => date_text_ok(d),
        None => true,
    }
}

/// Relies on `biblatex::Bibliography::parse` and `into_vec`: the entries of
/// the text, or `None` when it is not well formed. Parsing resolves
/// `crossref` and `xdata` links without bound on their depth, so text that
/// names them is left out.
#[verifier::external_body]
fn parse_entries(src: &str) -> (r: Option<Vec<biblatex::Entry>>)
    requires
        links_free(src.spec_bytes()),
    ensures
        match r {
            Some(v) => parsed_entries(src@) == Some(v@),
            None => parsed_entries(src@) is None,
        },
{
    biblatex::Bibliography::parse(src).ok().map(|b| b.into_vec())
}

/// Relies on `biblatex::Entry::get` and `ChunksExt::format_verbatim`: the
/// verbatim text of a field.
#[verifier::external_body]
fn field_text(e: &biblatex::Entry, name: &str) -> (r: Option<String>)
    ensures
        opt_view(r) == entry_field(*e, name@),
{
    e.get(name).map(|c| c.format_verbatim())
}

/// Relies on `biblatex::Entry::author`: the persons of the author field, or
/// `None` when it is missing.
#[verifier::external_body]
pub(crate) fn read_authors(e: &biblatex::Entry) -> (r: Option<Vec<PersonName>>)
    ensures
        persons_view(r) == entry_authors(*e),
{
    e.author().ok().map(|persons| {
        persons
            .into_iter()
            .map(|p| PersonName { name: p.name, given_name: p.given_name, prefix: p.prefix, suffix: p.suffix })
            .collect()
    })
}

/// Relies on `biblatex::Entry::date`: the date with its boundaries' years,
/// present only as raw chunks, or unreadable. Its year and date parsers
/// panic on some shapes (a sign followed by a space, five leading digits
/// before an `X`), which `entry_date_ok` leaves out.
#[verifier::external_body]
fn read_date(e: &biblatex::Entry) -> (r: DateField)
    requires
        entry_date_ok(*e),
    ensures
        r == entry_date(*e),
{
    match e.date() {
        Ok(biblatex::PermissiveType::Typed(d)) => match d.value {
            biblatex::DateValue::At(t) => DateField::At(t.year),
            biblatex::DateValue::After(t) => DateField::After(t.year),
            biblatex::DateValue::Before(t) => DateField::Before(t.year),
            biblatex::DateValue::Between(s, t) => DateField::Between(s.year, t.year),
        },
        Ok(biblatex::PermissiveType::Chunks(_)) => DateField::Chunks,
        Err(_) => DateField::Unparsable,
    }
}

/// Relies on `biblatex::Entry::doi`: the DOI, or which way it failed.
#[verifier::external_body]
fn read_doi(e: &biblatex::Entry) -> (r: DoiRead)
    ensures
        doi_read_view(r) == entry_doi(*e),
{
    match e.doi() {
        Ok(d) => DoiRead::Present(d),
        Err(biblatex::RetrievalError::Missing(_)) => DoiRead::Missing,
        Err(biblatex::RetrievalError::TypeError(_)) => DoiRead::Malformed,
    }
}

/// Relies on the `key` field of `biblatex::Entry`: the entry's citation key.
#[verifier::external_body]
fn read_key(e: &biblatex::Entry) -> (r: String)
    ensures
        r@ == entry_key(*e),
{
    e.key.clone()
}

/// Relies on the `key` field of `biblatex::Entry`: a copy of `e` with its
/// citation key replaced and its fields kept.
#[verifier::external_body]
pub(crate) fn with_key(e: &biblatex::Entry, key: &String) -> (r: biblatex::Entry)
    ensures
        r == rekeyed(*e, key@),
        entry_key(r) == key@,
        forall|n: Seq<char>| #[trigger] entry_field(r, n) == entry_field(*e, n),
        entry_authors(r) == entry_authors(*e),
        entry_doi(r) == entry_doi(*e),
        entry_date(r) == entry_date(*e),
        crate::note::entry_title(r) == crate::note::entry_title(*e),
        crate::note::entry_url(r) == crate::note::entry_url(*e),
{
    let mut e = e.clone();
    e.key = key.clone();
    e
}

/// Relies on `biblatex::Entry::to_bibtex_string`: the entry as BibTeX text,
/// or `None` when a field cannot be written. It re-reads the date field, so
/// a date of an unreadable shape is left out.
#[verifier::external_body]
fn entry_to_bibtex(e: &biblatex::Entry) -> (r: Option<String>)
    requires
        entry_writable(*e),
    ensures
        opt_view(r) == entry_bibtex(*e),
{
    e.to_bibtex_string().ok()
}

/// The DOI a record keeps, from the entry's DOI as read.
pub fn record_doi_of(d: DoiRead) -> (r: Option<String>)
    ensures
        opt_view(r) == record_doi(doi_read_view(d)),
{
    match d {
        DoiRead::Present(s) => Some(s),
        DoiRead::Missing => Some(String::new()),
        DoiRead::Malformed => None,
    }
}

/// The entry's date, read only when its fields are of a readable shape.
fn checked_read_date(e: &biblatex::Entry) -> (r: DateField)
    ensures
        r == checked_date(*e),
{
    let date = field_text(e, "date");
    let year = field_text(e, "year");
    let month = field_text(e, "month");
    let day = field_text(e, "day");
    if date_input_check(&date, &year, &month, &day) {
        read_date(e)
    } else {
        DateField::Unparsable
    }
}

/// The key proposed for an entry with these authors and this date.
pub open spec fn bibkey_spec(authors: Option<Seq<PersonName>>, date: DateField) -> Option<Seq<char>> {
    match authors {
        Some(a) => if a.len() > 0 {
            match year_of(date) {
                Some(y) => Some(key_spec(a[0].name@, y as int)),
                None => None,
            }
        } else {
            None
        },
        None => None,
    }
}

/// The surname of the first author, unaccented.
pub fn get_name(authors: &Option<Vec<PersonName>>) -> (r: crate::Result<String>)
    ensures
        match authors {
            Some(a) => if a@.len() > 0 {
                r matches Ok(s) && s@ == crate::keys::unaccented(a@[0].name@)
            } else {
                fails_with(r, ErrorKind::NoAuthor)
            },
            None => fails_with(r, ErrorKind::NoAuthor),
        },
{
    match authors {
        Some(a) => {
            if a.len() > 0 {
                Ok(crate::keys::remove_accented_letters(a[0].name.as_str()))
            } else {
                Err(CiteNoteError::of_kind(ErrorKind::NoAuthor))
            }
        },
        None => Err(CiteNoteError::of_kind(ErrorKind::NoAuthor)),
    }
}

/// The key proposed for an entry with these authors and this date: the
/// first author's unaccented surname followed by the year of the date's
/// later or sole boundary. Author failures come before date failures.
pub fn get_bibkey(authors: &Option<Vec<PersonName>>, date: DateField) -> (r: crate::Result<String>)
    ensures
        match bibkey_spec(
            match authors { Some(a) => Some(a@), None => None },
            date,
        ) {
            Some(k) => r matches Ok(s) && s@ == k,
            None => r is Err,
        },
        match authors {
            Some(a) => a@.len() == 0 ==> fails_with(r, ErrorKind::NoAuthor),
            None => fails_with(r, ErrorKind::NoAuthor),
        },
        (authors matches Some(a) && a@.len() > 0) ==> {
            &&& date == DateField::Chunks ==> fails_with(r, ErrorKind::NoDate)
            &&& date == DateField::Unparsable ==> fails_with(r, ErrorKind::DateParseFailed)
        },
{
    match authors {
        Some(a) => {
            if a.len() > 0 {
                let year = get_year(date)?;
                Ok(synthesize_key(a[0].name.as_str(), year))
            } else {
                Err(CiteNoteError::of_kind(ErrorKind::NoAuthor))
            }
        },
        None => Err(CiteNoteError::of_kind(ErrorKind::NoAuthor)),
    }
}

/// The first of the parsed entries.
pub fn get_entry(entries: Vec<biblatex::Entry>) -> (r: crate::Result<biblatex::Entry>)
    ensures
        entries@.len() > 0 ==> r == Ok::<biblatex::Entry, CiteNoteError>(entries@[0]),
        entries@.len() == 0 ==> fails_with(r, ErrorKind::EmptyInput),
{
    let mut entries = entries;
    if entries.len() > 0 {
        Ok(entries.swap_remove(0))
    } else {
        Err(CiteNoteError::of_kind(ErrorKind::EmptyInput))
    }
}

/// The entries of BibTeX text that names no cross-reference link; `None`
/// when it names one or is not well formed.
pub open spec fn parsed_text(src: &str) -> Option<Seq<biblatex::Entry>> {
    if links_free(src.spec_bytes()) { parsed_entries(src@) } else { None }
}

/// The entries that BibTeX text holds. Text that is not well formed, or
/// that links entries through `crossref` or `xdata`, fails with
/// `ParseError`.
pub fn parse_bib(raw_bibtex: &str) -> (r: crate::Result<Vec<biblatex::Entry>>)
    ensures
        match parsed_text(raw_bibtex) {
            Some(v) => r matches Ok(w) && w@ == v,
            None => fails_with(r, ErrorKind::ParseError),
        },
{
    if !links_free_check(raw_bibtex) {
        return Err(CiteNoteError::of_kind(ErrorKind::ParseError));
    }
    match parse_entries(raw_bibtex) {
        Some(v) => Ok(v),
        None => Err(CiteNoteError::of_kind(ErrorKind::ParseError)),
    }
}

/// The record made from entry `e`: under key `k`, with `e`'s fields and its
/// DOI as read.
pub open spec fn ingested(rec: Record, e: biblatex::Entry, k: Seq<char>) -> bool {
    &&& rec.key@ == k
    &&& rec.entry == rekeyed(e, k)
    &&& doi_view(rec.doi) == record_doi(entry_doi(e))
}

/// A record made from the first entry of BibTeX text, under the key that
/// its first author's surname and its year give, with its DOI as read; any
/// key in the text is replaced and later entries are ignored.
pub fn entry_from_bibtext(raw_bibtex: &str) -> (r: crate::Result<Record>)
    ensures
        match parsed_text(raw_bibtex) {
            None => fails_with(r, ErrorKind::ParseError),
            Some(v) => if v.len() == 0 {
                fails_with(r, ErrorKind::EmptyInput)
            } else {
                match bibkey_spec(entry_authors(v[0]), checked_date(v[0])) {
                    Some(k) => r matches Ok(rec) && ingested(rec, v[0], k),
                    None => r is Err,
                }
            },
        },
{
    let entries = parse_bib(raw_bibtex)?;
    let entry = get_entry(entries)?;
    let authors = read_authors(&entry);
    let date = checked_read_date(&entry);
    let key = get_bibkey(&authors, date)?;
    let doi = record_doi_of(read_doi(&entry));
    let entry = with_key(&entry, &key);
    Ok(Record { key, doi, entry })
}

/// No two entries share a key.
pub open spec fn entry_keys_unique(v: Seq<biblatex::Entry>) -> bool {
    forall|i: int, j: int| 0 <= i < j < v.len() ==> entry_key(#[trigger] v[i]) != entry_key(#[trigger] v[j])
}

/// Record `rec` is entry `e` as loaded: under the entry's own key, with its
/// DOI as read.
pub open spec fn loaded(rec: Record, e: biblatex::Entry) -> bool {
    &&& rec.key@ == entry_key(e)
    &&& rec.entry == e
    &&& doi_view(rec.doi) == record_doi(entry_doi(e))
}

/// Whether one record of a store can be written as BibTeX.
pub open spec fn record_block(rec: Record) -> Option<Seq<char>> {
    let e = rekeyed(rec.entry, rec.key@);
    if entry_writable(e) { entry_bibtex(e) } else { None }
}

impl DB {
    /// A store holding the entries of the persisted BibTeX text, in order.
    /// Empty text gives an empty store; text that does not parse, or that
    /// repeats a key, fails with `StoreCorrupt`.
    pub fn load(contents: &str) -> (r: crate::Result<DB>)
        ensures
            contents@.len() == 0 ==> (r matches Ok(db) && db.records().len() == 0),
            contents@.len() > 0 ==> match parsed_text(contents) {
                None => fails_with(r, ErrorKind::StoreCorrupt),
                Some(v) => if entry_keys_unique(v) {
                    r matches Ok(db) && db.records().len() == v.len()
                        && forall|i: int| 0 <= i < v.len() ==> loaded(#[trigger] db.records()[i], v[i])
                } else {
                    fails_with(r, ErrorKind::StoreCorrupt)
                },
            },
            r matches Ok(db) ==> db.wf(),
    {
        if contents.unicode_len() == 0 {
            return Ok(DB::new());
        }
        let entries = match parse_bib(contents) {
            Ok(v) => v,
            Err(_) => {
                return Err(CiteNoteError::of_kind(ErrorKind::StoreCorrupt));
            },
        };
        let mut db = DB::new();
        let mut i: usize = 0;
        while i < entries.len()
            invariant
                contents@.len() > 0,
                parsed_text(contents) == Some(entries@),
                db.wf(),
                i <= entries@.len(),
                db.records().len() == i,
                forall|j: int| 0 <= j < i ==> loaded(#[trigger] db.records()[j], entries@[j]),
                forall|a: int, b: int| 0 <= a < b < i ==> entry_key(#[trigger] entries@[a]) != entry_key(#[trigger] entries@[b]),
            decreases entries@.len() - i,
        {
            let key = read_key(&entries[i]);
            let doi = record_doi_of(read_doi(&entries[i]));
            let entry = entries[i].clone();
            let ghost before = db.records();
            if !db.push_new(Record { key, doi, entry }) {
                proof {
                    let j = choose|j: int| 0 <= j < before.len() && #[trigger] before[j].key@ == key@;
                    assert(loaded(before[j], entries@[j]));
                    assert(entry_key(entries@[j]) == entry_key(entries@[i as int]));
                    assert(!entry_keys_unique(entries@));
                }
                return Err(CiteNoteError::of_kind(ErrorKind::StoreCorrupt));
            }
            proof {
                assert forall|a: int, b: int| 0 <= a < b < i + 1 implies entry_key(#[trigger] entries@[a]) != entry_key(#[trigger] entries@[b]) by {
                    if b == i {
                        assert(loaded(before[a], entries@[a]));
                        assert(before[a].key@ == entry_key(entries@[a]));
                    }
                }
                assert forall|j: int| 0 <= j < i + 1 implies loaded(#[trigger] db.records()[j], entries@[j]) by {
                    if j < i {
                        assert(db.records()[j] == before[j]);
                    }
                }
            }
            i = i + 1;
        }
        Ok(db)
    }

    /// The store as BibTeX text: one block per record, in order, each the
    /// record's entry written under the record's key. Fails exactly when a
    /// record's entry cannot be written.
    pub fn save(&self) -> (r: crate::Result<String>)
        ensures
            r is Ok <==> forall|i: int| 0 <= i < self.records().len() ==> #[trigger] record_block(self.records()[i]) is Some,
            r is Err ==> fails_with(r, ErrorKind::Io),
            r matches Ok(t) ==> exists|blocks: Seq<Seq<char>>| {
                &&& blocks.len() == self.records().len()
                &&& forall|i: int| 0 <= i < blocks.len() ==> Some(#[trigger] blocks[i]) == record_block(self.records()[i])
                &&& t@ == joined_blocks(blocks)
            },
    {
        let records = self.get_bibliography();
        let mut out = String::new();
        let ghost mut blocks: Seq<Seq<char>> = Seq::empty();
        let mut i: usize = 0;
        while i < records.len()
            invariant
                records@ == self.records(),
                i <= records@.len(),
                blocks.len() == i,
                forall|j: int| 0 <= j < i ==> Some(#[trigger] blocks[j]) == record_block(records@[j]),
                out@ == joined_blocks(blocks),
            decreases records@.len() - i,
        {
            let entry = with_key(&records[i].entry, &records[i].key);
            let date = field_text(&entry, "date");
            let writable = match &date {
                Some(d) => date_text_check(d),
                None => true,
            };
            if !writable {
                assert(record_block(records@[i as int]) is None);
                return Err(CiteNoteError::with_message(ErrorKind::Io, "Failed to write bib entry."));
            }
            let text = match entry_to_bibtex(&entry) {
                Some(t) => t,
                None => {
                    assert(record_block(records@[i as int]) is None);
                    return Err(CiteNoteError::with_message(ErrorKind::Io, "Failed to write bib entry."));
                },
            };
            if i > 0 {
                push_char(&mut out, '\n');
            }
            push_str(&mut out, text.as_str());
            push_char(&mut out, '\n');
            proof {
                let next = blocks.push(text@);
                assert(next.drop_last() =~= blocks);
                assert(out@ =~= joined_blocks(next));
                blocks = next;
            }
            i = i + 1;
        }
        assert forall|j: int| 0 <= j < self.records().len() implies #[trigger] record_block(self.records()[j]) is Some by {
            assert(Some(blocks[j]) == record_block(records@[j]));
        }
        Ok(out)
    }
}

/// Blocks of text, each ended by a newline, with a blank line between two.
pub open spec fn joined_blocks(blocks: Seq<Seq<char>>) -> Seq<char>
    decreases blocks.len(),
{
    if blocks.len() == 0 {
        Seq::empty()
    } else if blocks.len() == 1 {
        blocks[0].push('\n')
    } else {
        joined_blocks(blocks.drop_last()).push('\n') + blocks.last().push('\n')
    }
}

} // verus!
