use bookscan::text::{ends_with, is_whitespace_char, trim_str, unmangle_creator};

#[test]
fn test_unmangle() {
    let lovecraft = "H.P. Lovecraft".to_string();
    assert_eq!(lovecraft, unmangle_creator(lovecraft.clone()));
    assert_eq!(lovecraft, unmangle_creator("Lovecraft, H.P.".to_string()));
    assert_eq!(lovecraft, unmangle_creator("Lovecraft,  H.P. ".to_string()));
    assert_eq!(lovecraft, unmangle_creator("H.P.  Lovecraft".to_string()));
    assert_eq!(
        lovecraft,
        unmangle_creator("H.P. \t  Lovecraft".to_string())
    );
    assert_eq!(
        lovecraft,
        unmangle_creator(" H.P.\t \tLovecraft ".to_string())
    );
}

#[test]
fn two_commas_are_left_alone() {
    assert_eq!(
        unmangle_creator("Smith, Jane, PhD".to_string()),
        "Smith, Jane, PhD"
    );
    assert_eq!(
        unmangle_creator("Smith,  Jane,\tPhD ".to_string()),
        "Smith, Jane, PhD"
    );
}

#[test]
fn no_comma_only_collapses() {
    assert_eq!(unmangle_creator("  Ursula   K. Le Guin ".to_string()), "Ursula K. Le Guin");
    assert_eq!(unmangle_creator(String::new()), "");
    assert_eq!(unmangle_creator(" \t\n ".to_string()), "");
}

#[test]
fn unicode_whitespace_collapses() {
    assert_eq!(unmangle_creator("Le\u{00A0}Guin,\u{3000}Ursula".to_string()), "Ursula Le Guin");
}

#[test]
fn normalizing_twice_changes_nothing() {
    for name in ["Lovecraft, H.P.", "H.P.  Lovecraft", "Smith, Jane, PhD", " a ,  b  c "] {
        let once = unmangle_creator(name.to_string());
        let twice = unmangle_creator(once.clone());
        assert_eq!(once, twice);
    }
}

#[test]
fn empty_part_is_not_stable() {
    let once = unmangle_creator("Smith,".to_string());
    assert_eq!(once, " Smith");
    assert_eq!(unmangle_creator(once), "Smith");
}

#[test]
fn trim_and_suffix() {
    assert_eq!(trim_str(" \t x y \n"), "x y");
    assert_eq!(trim_str("   "), "");
    assert!(ends_with("book.epub", ".epub"));
    assert!(!ends_with("book.EPUB", ".epub"));
    assert!(!ends_with("pub", ".epub"));
    assert!(is_whitespace_char('\u{2009}'));
    assert!(!is_whitespace_char(','));
}
