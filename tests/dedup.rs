use bookscan::dedup::{DedupMap, Resolution};
use bookscan::metadata::BookMetadata;
use bookscan::scan::{process_record, FileOutcome};

fn dropped(r: Resolution) -> Option<String> {
    match r {
        Resolution::Kept => None,
        Resolution::Duplicate(p) => Some(p),
    }
}

#[test]
fn first_copy_is_kept() {
    let mut map = DedupMap::new();
    assert_eq!(map.retained_size(7), None);
    assert_eq!(dropped(map.resolve(7, "a".to_string(), 10)), None);
    assert_eq!(map.retained_size(7), Some(10));
}

#[test]
fn larger_copy_replaces_smaller() {
    let mut map = DedupMap::new();
    map.resolve(7, "a".to_string(), 10);
    assert_eq!(dropped(map.resolve(7, "b".to_string(), 20)), Some("a".to_string()));
    assert_eq!(map.retained_size(7), Some(20));
}

#[test]
fn smaller_or_equal_copy_is_dropped() {
    let mut map = DedupMap::new();
    map.resolve(7, "a".to_string(), 10);
    assert_eq!(dropped(map.resolve(7, "b".to_string(), 5)), Some("b".to_string()));
    assert_eq!(dropped(map.resolve(7, "c".to_string(), 10)), Some("c".to_string()));
    assert_eq!(map.retained_size(7), Some(10));
}

#[test]
fn retained_size_is_the_maximum_in_any_order() {
    let sizes = [30i64, 10, 50, 20, 40];
    for order in [[0usize, 1, 2, 3, 4], [4, 3, 2, 1, 0], [2, 0, 4, 1, 3]] {
        let mut map = DedupMap::new();
        let mut kept = 0;
        let mut dups = 0;
        for i in order {
            match map.resolve(1, format!("p{}", i), sizes[i]) {
                Resolution::Kept => kept += 1,
                Resolution::Duplicate(_) => dups += 1,
            }
        }
        assert_eq!(map.retained_size(1), Some(50));
        assert_eq!(kept, 1);
        assert_eq!(dups, 4);
    }
}

#[test]
fn fingerprints_are_independent() {
    let mut map = DedupMap::new();
    assert_eq!(dropped(map.resolve(1, "a".to_string(), 10)), None);
    assert_eq!(dropped(map.resolve(2, "b".to_string(), 5)), None);
    assert_eq!(map.retained_size(1), Some(10));
    assert_eq!(map.retained_size(2), Some(5));
}

fn dune(file: &str, size: i64) -> BookMetadata {
    BookMetadata::new(
        Some("Dune".to_string()),
        None,
        Some("Ace".to_string()),
        Some("Frank Herbert".to_string()),
        file.to_string(),
        size,
    )
}

#[test]
fn dune_smaller_copy_is_reported() {
    let mut map = DedupMap::new();
    let small = dune("/books/small.epub", 500_000);
    let large = dune("/books/large.epub", 700_000);
    let first = process_record(&mut map, &small, "/books/small.epub".to_string(), true);
    let second = process_record(&mut map, &large, "/books/large.epub".to_string(), true);
    assert_eq!(first.report_line(), None);
    assert_eq!(second.report_line(), Some("DUP:/books/small.epub".to_string()));

    let mut map = DedupMap::new();
    let first = process_record(&mut map, &large, "/books/large.epub".to_string(), true);
    let second = process_record(&mut map, &small, "/books/small.epub".to_string(), true);
    assert_eq!(first.report_line(), None);
    assert_eq!(second.report_line(), Some("DUP:/books/small.epub".to_string()));
    assert_eq!(map.retained_size(large.id), Some(700_000));
}

#[test]
fn rejected_book_is_foreign_and_not_retained() {
    let mut map = DedupMap::new();
    let bm = dune("/books/x.epub", 10);
    let out = process_record(&mut map, &bm, "/books/x.epub".to_string(), false);
    assert!(matches!(out, FileOutcome::Foreign(_)));
    assert_eq!(out.report_line(), Some("FRN:/books/x.epub".to_string()));
    assert_eq!(map.retained_size(bm.id), None);
}
