use citenotes::keys::{get_year, remove_accented_letters, synthesize_key, DateField};
use citenotes::ErrorKind;

#[test]
fn accented_surname_is_normalized() {
    assert_eq!(remove_accented_letters("Garc\u{ed}a"), "Garcia");
}

#[test]
fn uppercase_umlaut_is_kept() {
    assert_eq!(remove_accented_letters("M\u{dc}LLER"), "M\u{dc}LLER");
    assert_eq!(remove_accented_letters("m\u{fc}ller"), "muller");
}

#[test]
fn every_table_letter_maps_to_its_base() {
    let cases = [
        ("\u{e1}\u{e0}\u{e2}\u{e4}", "aaaa"),
        ("\u{e9}\u{e8}\u{ea}\u{eb}", "eeee"),
        ("\u{ed}\u{ec}\u{ee}\u{ef}", "iiii"),
        ("\u{f3}\u{f2}\u{f4}\u{f6}", "oooo"),
        ("\u{fa}\u{f9}\u{fb}\u{fc}", "uuuu"),
        ("\u{f1}\u{e7}", "nc"),
    ];
    for (input, expected) in cases {
        assert_eq!(remove_accented_letters(input), expected);
    }
}

#[test]
fn untabulated_characters_pass_through() {
    assert_eq!(remove_accented_letters("\u{c1}\u{f8}\u{e5}-x Y"), "\u{c1}\u{f8}\u{e5}-x Y");
    assert_eq!(remove_accented_letters(""), "");
}

#[test]
fn key_joins_surname_and_year() {
    assert_eq!(synthesize_key("Garc\u{ed}a", 2020), "Garcia2020");
    assert_eq!(synthesize_key("Doe", 2019), "Doe2019");
    assert_eq!(synthesize_key("Ng", 7), "Ng7");
    assert_eq!(synthesize_key("Ng", 0), "Ng0");
    assert_eq!(synthesize_key("Plato", -380), "Plato-380");
    assert_eq!(synthesize_key("X", i32::MIN), "X-2147483648");
}

#[test]
fn key_is_deterministic() {
    let a = synthesize_key("\u{d6}zt\u{fc}rk", 1999);
    let b = synthesize_key("\u{d6}zt\u{fc}rk", 1999);
    assert_eq!(a, b);
    assert_eq!(a, "\u{d6}zturk1999");
}

#[test]
fn year_is_that_of_the_later_boundary() {
    assert_eq!(get_year(DateField::At(2001)).unwrap(), 2001);
    assert_eq!(get_year(DateField::After(2002)).unwrap(), 2002);
    assert_eq!(get_year(DateField::Before(2003)).unwrap(), 2003);
    assert_eq!(get_year(DateField::Between(1990, 2004)).unwrap(), 2004);
}

#[test]
fn raw_or_unreadable_date_fails() {
    assert_eq!(get_year(DateField::Chunks).unwrap_err().kind, ErrorKind::NoDate);
    assert_eq!(get_year(DateField::Unparsable).unwrap_err().kind, ErrorKind::DateParseFailed);
}
