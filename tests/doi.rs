use citenotes::doi::doi_from_url;
use citenotes::http::{doi_url, lowercase_doi_tags, response_error};

#[test]
fn doi_is_taken_from_url() {
    assert_eq!(doi_from_url("https://doi.org/10.1000/xyz123"), "10.1000/xyz123");
}

#[test]
fn doi_is_taken_from_colon_form() {
    assert_eq!(doi_from_url("doi:10.1/abc"), "10.1/abc");
}

#[test]
fn whitespace_is_removed_first() {
    assert_eq!(doi_from_url("  https://doi.org/ 10.1000/\txyz 123\n"), "10.1000/xyz123");
    assert_eq!(doi_from_url(" 10.5/ q "), "10.5/q");
}

#[test]
fn url_prefix_wins_over_colon_form() {
    assert_eq!(doi_from_url("doi:x.doi.org/10.2/b"), "10.2/b");
}

#[test]
fn bare_doi_is_returned_as_is() {
    assert_eq!(doi_from_url("10.1000/xyz123"), "10.1000/xyz123");
    assert_eq!(doi_from_url(""), "");
}

#[test]
fn doi_address() {
    assert_eq!(doi_url("10.1000/xyz123"), "http://dx.doi.org/10.1000/xyz123");
}

#[test]
fn status_decides_success() {
    assert!(response_error(200).is_ok());
    assert!(response_error(299).is_ok());
    let err = response_error(404).unwrap_err();
    assert_eq!(err.message, "Request failed with error response: 404");
    assert_eq!(err.kind, citenotes::ErrorKind::Http);
    assert!(response_error(301).is_err());
}

#[test]
fn doi_tags_are_lowercased() {
    assert_eq!(lowercase_doi_tags("@article{a, DOI = {10.1/X}, title={DOIDO}}"), "@article{a, doi = {10.1/X}, title={doiDO}}");
    assert_eq!(lowercase_doi_tags("DO"), "DO");
    assert_eq!(lowercase_doi_tags(""), "");
}
