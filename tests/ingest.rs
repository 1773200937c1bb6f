use citenotes::bib::{entry_from_bibtext, get_bibkey, get_entry, parse_bib, PersonName};
use citenotes::keys::DateField;
use citenotes::store::DB;
use citenotes::{CiteNoteError, ErrorKind};

const DOE: &str = "@article{doe,\n  author = {Jane Doe},\n  title = {On Things},\n  year = {2019},\n  doi = {10.1000/xyz123},\n  url = {https://example.org/doe},\n}\n";

fn person(name: &str) -> PersonName {
    PersonName {
        name: name.to_string(),
        given_name: String::new(),
        prefix: String::new(),
        suffix: String::new(),
    }
}

#[test]
fn ingestion_keys_by_surname_and_year() {
    let rec = entry_from_bibtext(DOE).unwrap();
    assert_eq!(rec.key, "Doe2019");
    assert_eq!(rec.doi, Some("10.1000/xyz123".to_string()));
    assert_eq!(rec.entry.key, "Doe2019");
}

#[test]
fn first_record_is_used() {
    let two = "@book{b, author = {Ann Alpha}, year = {2001}, title = {A}}\n@book{c, author = {Bo Beta}, year = {2002}, title = {B}}\n";
    assert_eq!(entry_from_bibtext(two).unwrap().key, "Alpha2001");
}

#[test]
fn accented_author_and_date_range() {
    let text = "@misc{m, author = {Jos\u{e9} Garc\u{ed}a and Ann Other}, date = {1998/2003}, title = {T}}";
    assert_eq!(entry_from_bibtext(text).unwrap().key, "Garcia2003");
}

#[test]
fn missing_doi_reads_as_empty() {
    let text = "@misc{m, author = {Ann Alpha}, year = {2001}, title = {T}}";
    assert_eq!(entry_from_bibtext(text).unwrap().doi, Some(String::new()));
}

#[test]
fn missing_author_fails() {
    let text = "@misc{m, year = {2001}, title = {T}}";
    assert_eq!(entry_from_bibtext(text).unwrap_err().kind, ErrorKind::NoAuthor);
}

#[test]
fn missing_date_fails() {
    let text = "@misc{m, author = {Ann Alpha}, title = {T}}";
    assert_eq!(entry_from_bibtext(text).unwrap_err().kind, ErrorKind::DateParseFailed);
}

#[test]
fn raw_date_fails() {
    let text = "@misc{m, author = {Ann Alpha}, date = {sometime}, title = {T}}";
    assert_eq!(entry_from_bibtext(text).unwrap_err().kind, ErrorKind::NoDate);
}

#[test]
fn empty_text_has_no_entry() {
    assert_eq!(entry_from_bibtext("").unwrap_err().kind, ErrorKind::EmptyInput);
    assert_eq!(get_entry(Vec::new()).unwrap_err().kind, ErrorKind::EmptyInput);
}

#[test]
fn malformed_text_fails_to_parse() {
    let err = entry_from_bibtext("@article{a, title = {T}}\n@article{a, title = {U}}").unwrap_err();
    assert_eq!(err.kind, ErrorKind::ParseError);
    assert!(parse_bib("@article{a, title = {T}}\n@article{a, title = {U}}").is_err());
}

#[test]
fn bibkey_from_fields() {
    let authors = Some(vec![person("M\u{fc}ller"), person("Roe")]);
    assert_eq!(get_bibkey(&authors, DateField::After(1970)).unwrap(), "Muller1970");
    assert_eq!(get_bibkey(&Some(Vec::new()), DateField::At(1)).unwrap_err().kind, ErrorKind::NoAuthor);
    assert_eq!(get_bibkey(&None, DateField::Chunks).unwrap_err().kind, ErrorKind::NoAuthor);
    assert_eq!(get_bibkey(&authors, DateField::Chunks).unwrap_err().kind, ErrorKind::NoDate);
}

#[test]
fn save_then_load_keeps_entries() {
    let mut db = DB::new();
    db.add(entry_from_bibtext(DOE).unwrap()).unwrap();
    let other = "@book{x, author = {Ann Alpha}, year = {2001}, title = {Second}, doi = {10.2/b}}";
    db.add(entry_from_bibtext(other).unwrap()).unwrap();
    let text = db.save().unwrap();
    let back = DB::load(&text).unwrap();
    assert_eq!(back.len(), 2);
    for rec in db.get_bibliography() {
        let i = back.find(&rec.key).unwrap();
        let again = &back.get_bibliography()[i];
        assert_eq!(again.doi, rec.doi);
        assert_eq!(again.entry.to_bibtex_string().unwrap(), rec.entry.to_bibtex_string().unwrap());
    }
}

#[test]
fn doi_to_store_scenario() {
    let doi = citenotes::doi::doi_from_url("https://doi.org/10.1000/xyz123");
    assert_eq!(doi, "10.1000/xyz123");
    let rec = entry_from_bibtext(DOE).unwrap();
    assert_eq!(rec.key, "Doe2019");
    let mut db = DB::load("").unwrap();
    db.add(rec).unwrap();
    assert_eq!(db.len(), 1);
    let back = DB::load(&db.save().unwrap()).unwrap();
    assert_eq!(back.len(), 1);
    let stored = &back.get_bibliography()[0];
    assert_eq!(stored.key, "Doe2019");
    assert_eq!(stored.doi, Some(doi));
}

#[test]
fn empty_store_saves_as_empty_text() {
    assert_eq!(DB::new().save().unwrap(), "");
}

#[test]
fn corrupt_store_fails_to_load() {
    let err = DB::load("@article{a, title = {T}}\n@article{a, title = {U}}").unwrap_err();
    assert_eq!(err.kind, ErrorKind::StoreCorrupt);
}

#[test]
fn error_messages() {
    let e = CiteNoteError::new("boom");
    assert_eq!(e.kind, ErrorKind::Message);
    assert_eq!(e.to_string(), "Error: boom");
    assert_eq!(CiteNoteError::of_kind(ErrorKind::NoDate).message, "No date found.");
}

#[test]
fn signed_year_with_space_is_unreadable() {
    let text = "@misc{m, author = {Ann Alpha}, year = {- 2019}, title = {T}}";
    assert_eq!(entry_from_bibtext(text).unwrap_err().kind, ErrorKind::DateParseFailed);
}

#[test]
fn long_uncertain_date_is_unreadable() {
    let text = "@misc{m, author = {Ann Alpha}, date = {12345X}, title = {T}}";
    assert_eq!(entry_from_bibtext(text).unwrap_err().kind, ErrorKind::DateParseFailed);
}

#[test]
fn year_with_month_name_is_read() {
    let text = "@misc{m, author = {Ann Alpha}, year = {1987}, month = {jan}, title = {T}}";
    assert_eq!(entry_from_bibtext(text).unwrap().key, "Alpha1987");
}

#[test]
fn store_with_unwritable_date_fails_to_save() {
    let db = DB::load("@misc{m, author = {Ann Alpha}, date = {12345X}, title = {T}}").unwrap();
    assert_eq!(db.len(), 1);
    assert_eq!(db.save().unwrap_err().kind, ErrorKind::Io);
}

#[test]
fn empty_text_loads_as_empty_store() {
    assert_eq!(DB::load("").unwrap().len(), 0);
}

#[test]
fn malformed_store_fails_to_load() {
    assert_eq!(DB::load("@article{broken, author = {Doe").unwrap_err().kind, ErrorKind::StoreCorrupt);
    assert_eq!(entry_from_bibtext("@article{broken, author = {Doe").unwrap_err().kind, ErrorKind::ParseError);
}

#[test]
fn suffixed_record_carries_its_key_in_the_entry() {
    let mut db = DB::new();
    db.add(entry_from_bibtext(DOE).unwrap()).unwrap();
    let other = "@book{x, author = {John Doe}, year = {2019}, title = {Other}, doi = {10.2/b}}";
    db.add(entry_from_bibtext(other).unwrap()).unwrap();
    let second = &db.get_bibliography()[1];
    assert_eq!(second.key, "Doe2019a");
    assert_eq!(second.entry.key, "Doe2019a");
}

#[test]
fn full_dates_are_read() {
    let a = "@misc{m, author = {Ann Alpha}, date = {2019-05-12}, title = {T}}";
    assert_eq!(entry_from_bibtext(a).unwrap().key, "Alpha2019");
    let b = "@misc{m, author = {Ann Alpha}, date = {2018-07}, title = {T}}";
    assert_eq!(entry_from_bibtext(b).unwrap().key, "Alpha2018");
    let c = "@misc{m, author = {Ann Alpha}, date = {2019?}, title = {T}}";
    assert_eq!(entry_from_bibtext(c).unwrap().key, "Alpha2019");
    let d = "@misc{m, author = {Ann Alpha}, date = {2001-02-03/2004-05-06}, title = {T}}";
    assert_eq!(entry_from_bibtext(d).unwrap().key, "Alpha2004");
    let e = "@misc{m, author = {Ann Alpha}, date = {19XX}, title = {T}}";
    assert_eq!(entry_from_bibtext(e).unwrap().key, "Alpha1999");
}

#[test]
fn numeric_month_and_signed_year_are_read() {
    let a = "@misc{m, author = {Ann Alpha}, year = {2019}, month = {5}, title = {T}}";
    assert_eq!(entry_from_bibtext(a).unwrap().key, "Alpha2019");
    let b = "@misc{m, author = {Ann Alpha}, year = {-50}, title = {T}}";
    assert_eq!(entry_from_bibtext(b).unwrap().key, "Alpha-50");
    let c = "@misc{m, author = {Ann Alpha}, year = {1987}, month = {jan 300}, title = {T}}";
    assert_eq!(entry_from_bibtext(c).unwrap_err().kind, ErrorKind::DateParseFailed);
}

#[test]
fn cross_references_are_refused() {
    let text = "@book{a, crossref = {a}, author = {Ann Alpha}, year = {2001}, title = {T}}";
    assert_eq!(entry_from_bibtext(text).unwrap_err().kind, ErrorKind::ParseError);
    assert_eq!(DB::load(text).unwrap_err().kind, ErrorKind::StoreCorrupt);
    let upper = "@book{a, XDATA = {b}, author = {Ann Alpha}, year = {2001}, title = {T}}";
    assert!(parse_bib(upper).is_err());
}
