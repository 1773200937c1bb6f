use citenotes::store::{extend_candidates, Record, DB};
use citenotes::ErrorKind;

fn record(key: &str, doi: Option<&str>) -> Record {
    Record {
        key: key.to_string(),
        doi: doi.map(|d| d.to_string()),
        entry: biblatex::Entry::new(key.to_string(), biblatex::EntryType::Article),
    }
}

fn keys(db: &DB) -> Vec<String> {
    db.get_bibliography().iter().map(|r| r.key.clone()).collect()
}

#[test]
fn add_to_empty_store_inserts() {
    let mut db = DB::new();
    db.add(record("Doe2019", Some("10.1000/xyz123"))).unwrap();
    assert_eq!(keys(&db), vec!["Doe2019".to_string()]);
}

#[test]
fn add_same_doi_twice_is_noop() {
    let mut db = DB::new();
    db.add(record("Smith2020", Some("10.1/a"))).unwrap();
    db.add(record("Smith2020", Some("10.1/a"))).unwrap();
    assert_eq!(db.len(), 1);
}

#[test]
fn colliding_keys_get_growing_suffixes() {
    let mut db = DB::new();
    db.add(record("Smith2020", Some("10.1/x"))).unwrap();
    db.add(record("Smith2020", Some("10.1/a"))).unwrap();
    db.add(record("Smith2020", Some("10.1/b"))).unwrap();
    assert_eq!(keys(&db), vec!["Smith2020", "Smith2020a", "Smith2020ab"]);
    db.add(record("Smith2020", Some("10.1/a"))).unwrap();
    assert_eq!(db.len(), 3);
}

#[test]
fn empty_dois_count_as_the_same_work() {
    // Known issue, kept on purpose: two works without a DOI are taken as one.
    let mut db = DB::new();
    db.add(record("Roe2001", Some(""))).unwrap();
    db.add(record("Roe2001", Some(""))).unwrap();
    assert_eq!(db.len(), 1);
}

#[test]
fn key_space_runs_out() {
    let mut db = DB::new();
    for n in 0..25 {
        db.add(record("K2000", Some(&format!("10.9/{}", n)))).unwrap();
    }
    assert_eq!(db.len(), 25);
    assert_eq!(keys(&db)[24], "K2000abcdefghijklmnopqrstuvwx");
    let err = db.add(record("K2000", Some("10.9/last"))).unwrap_err();
    assert_eq!(err.kind, ErrorKind::KeySpaceExhausted);
    assert_eq!(db.len(), 25);
}

#[test]
fn unreadable_incoming_doi_is_refused() {
    let mut db = DB::new();
    let err = db.add(record("A1", None)).unwrap_err();
    assert_eq!(err.kind, ErrorKind::DoiParseError);
    assert_eq!(db.len(), 0);
}

#[test]
fn unreadable_stored_doi_stops_the_search() {
    let mut db = DB::new();
    assert!(db.push_new(record("A1", None)));
    let err = db.add(record("A1", Some("10.3/z"))).unwrap_err();
    assert_eq!(err.kind, ErrorKind::DoiParseError);
    assert_eq!(db.len(), 1);
}

#[test]
fn push_new_refuses_held_key() {
    let mut db = DB::new();
    assert!(db.push_new(record("A1", Some("1"))));
    assert!(!db.push_new(record("A1", Some("2"))));
    assert_eq!(db.find(&"A1".to_string()), Some(0));
    assert_eq!(db.find(&"B".to_string()), None);
}

#[test]
fn candidates_extend_one_letter_at_a_time() {
    let c = extend_candidates("Smith2020");
    assert_eq!(c.len(), 25);
    assert_eq!(c[0], "Smith2020");
    assert_eq!(c[1], "Smith2020a");
    assert_eq!(c[2], "Smith2020ab");
    assert_eq!(c[24], "Smith2020abcdefghijklmnopqrstuvwx");
}
