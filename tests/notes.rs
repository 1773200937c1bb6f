use citenotes::bib::{entry_from_bibtext, PersonName};
use citenotes::md::{create_mderror, create_notes};
use citenotes::note::{create_filename, create_md_output, display_name, get_output_field, join_names, new};

fn person(given: &str, prefix: &str, name: &str, suffix: &str) -> PersonName {
    PersonName {
        name: name.to_string(),
        given_name: given.to_string(),
        prefix: prefix.to_string(),
        suffix: suffix.to_string(),
    }
}

#[test]
fn note_file_is_named_after_key() {
    assert_eq!(create_filename(&"Doe2019a".to_string()), "Doe2019a.md");
}

#[test]
fn person_names_are_shown_in_reading_order() {
    assert_eq!(display_name(&person("Jane", "", "Doe", "")), "Jane Doe");
    assert_eq!(display_name(&person("Ludwig", "van", "Beethoven", "")), "Ludwig van Beethoven");
    assert_eq!(display_name(&person("", "", "King", "Jr.")), "King Jr.");
    let all = vec![person("A", "", "One", ""), person("B", "", "Two", ""), person("", "", "Three", "")];
    assert_eq!(join_names(&all), "A One and B Two and Three");
    assert_eq!(join_names(&Vec::new()), "");
}

#[test]
fn note_text_layout() {
    let text = create_md_output(&"T".to_string(), &"Jane Doe".to_string(), &"http://u".to_string());
    assert_eq!(text, "# T\n\n*Jane Doe*\nhttp://u\n---\n#no_notes");
    let plain = citenotes::md::create_md_output(&"T".to_string(), &"A".to_string(), &"u".to_string());
    assert_eq!(plain, "# T\n\n*A*\nu\n---\n");
}

#[test]
fn output_fields_need_every_field() {
    let authors = Some(vec![person("Jane", "", "Doe", "")]);
    let ok = get_output_field(Some(vec!["Title".to_string(), "More".to_string()]), authors.clone(), Some("u".to_string())).unwrap();
    assert_eq!(ok, ("TitleMore".to_string(), "Jane Doe".to_string(), "u".to_string()));
    assert_eq!(get_output_field(Some(Vec::new()), authors.clone(), Some("u".to_string())).unwrap_err().message, "Title field is empty");
    assert_eq!(get_output_field(None, authors.clone(), Some("u".to_string())).unwrap_err().message, "Failed to get title field");
    assert_eq!(get_output_field(Some(vec!["T".to_string()]), None, Some("u".to_string())).unwrap_err().message, "Failed to get author field");
    assert_eq!(get_output_field(Some(vec!["T".to_string()]), authors, None).unwrap_err().message, "Failed to get url field");
}

#[test]
fn notes_skip_existing_files() {
    let a = entry_from_bibtext("@misc{a, author = {Jane Doe}, year = {2019}, title = {First}, url = {http://a}}").unwrap();
    let b = entry_from_bibtext("@misc{b, author = {Ann Alpha}, year = {2001}, title = {Second}, url = {http://b}}").unwrap();
    let records = vec![a, b];
    let notes = new(&records, &vec![true, false]).unwrap();
    assert_eq!(notes.len(), 1);
    assert_eq!(notes[0].filename, "Alpha2001.md");
    assert_eq!(notes[0].content, "# Second\n\n*Ann Alpha*\nhttp://b\n---\n#no_notes");
    let plain = create_notes(&records, &vec![false, false]).unwrap();
    assert_eq!(plain.len(), 2);
    assert_eq!(plain[0].content, "# First\n\n*Jane Doe*\nhttp://a\n---\n");
}

#[test]
fn note_without_url_fails() {
    let a = entry_from_bibtext("@misc{a, author = {Jane Doe}, year = {2019}, title = {First}}").unwrap();
    assert!(new(&vec![a.clone()], &vec![false]).is_err());
    assert!(new(&vec![a.clone()], &vec![true]).unwrap().is_empty());
    let err = create_notes(&vec![a], &vec![false]).unwrap_err();
    assert_eq!(err.to_string(), "BibError: Failed to create markdown formatted output.");
    assert_eq!(create_mderror("m").message, "m");
}

#[test]
fn all_notes_existing_gives_none() {
    let a = entry_from_bibtext("@misc{a, author = {Jane Doe}, year = {2019}, title = {First}}").unwrap();
    assert!(new(&vec![a.clone()], &vec![true]).unwrap().is_empty());
    assert!(create_notes(&vec![a], &vec![true]).unwrap().is_empty());
}
