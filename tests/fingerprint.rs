use bookscan::metadata::BookMetadata;
use std::collections::HashMap;

fn some(s: &str) -> Option<String> {
    Some(s.to_string())
}

#[test]
fn same_triple_same_fingerprint() {
    let a = BookMetadata::new(some("Dune"), some("one"), some("Ace"), some("Frank Herbert"), "a".to_string(), 1);
    let b = BookMetadata::new(some("Dune"), None, some("Ace"), some("Herbert, Frank"), "b".to_string(), 2);
    assert_eq!(a.id, b.id);
    assert_eq!(a.hash_md(), b.hash_md());
    assert_eq!(a.id, a.hash_md());
}

#[test]
fn absent_fields_differ_from_empty_ones() {
    let none = BookMetadata::new(None, None, None, None, "a".to_string(), 1);
    let empty = BookMetadata::new(some(""), None, some(""), some(""), "b".to_string(), 1);
    assert_ne!(none.id, empty.id);
}

#[test]
fn different_triples_differ() {
    let a = BookMetadata::new(some("Dune"), None, some("Ace"), some("Frank Herbert"), "a".to_string(), 1);
    let b = BookMetadata::new(some("Dune"), None, some("Chilton"), some("Frank Herbert"), "a".to_string(), 1);
    assert_ne!(a.id, b.id);
}

#[test]
fn new_normalizes_creator() {
    let bm = BookMetadata::new(some("T"), some("D"), some("P"), some("Lovecraft,  H.P."), "f".to_string(), 42);
    assert_eq!(bm.creator.as_deref(), Some("H.P. Lovecraft"));
    assert_eq!(bm.title.as_deref(), Some("T"));
    assert_eq!(bm.description.as_deref(), Some("D"));
    assert_eq!(bm.publisher.as_deref(), Some("P"));
    assert_eq!(bm.file, "f");
    assert_eq!(bm.filesize, 42);
}

#[test]
fn add_counts_tallies() {
    let mut counts: HashMap<String, u32> = HashMap::new();
    BookMetadata::add_counts(&some("Ace"), &mut counts);
    BookMetadata::add_counts(&some("Ace"), &mut counts);
    BookMetadata::add_counts(&some("Tor"), &mut counts);
    BookMetadata::add_counts(&None, &mut counts);
    assert_eq!(counts.len(), 2);
    assert_eq!(counts["Ace"], 2);
    assert_eq!(counts["Tor"], 1);
}
