use bookscan::scan::{is_candidate, is_hidden_name, BatchBuilder, FileOutcome, BATCH_CAPACITY};

#[test]
fn hidden_names() {
    assert!(is_hidden_name(".git"));
    assert!(is_hidden_name("."));
    assert!(!is_hidden_name("books"));
    assert!(!is_hidden_name(""));
}

#[test]
fn candidates() {
    assert!(is_candidate("/a/b/Dune.epub", true));
    assert!(!is_candidate("/a/b/Dune.epub", false));
    assert!(!is_candidate("/a/b/Dune.EPUB", true));
    assert!(!is_candidate("/a/b/Dune.epub.bak", true));
}

#[test]
fn batch_fills_at_capacity() {
    let mut b = BatchBuilder::new();
    for i in 0..BATCH_CAPACITY - 1 {
        assert!(b.push(format!("{}", i)).is_none());
    }
    let full = b.push("last".to_string()).expect("a full batch");
    assert_eq!(full.len(), 10000);
    assert_eq!(full[0], "0");
    assert_eq!(full[9999], "last");
    assert!(b.finish().is_none());
}

#[test]
fn finish_hands_on_the_rest() {
    let mut b = BatchBuilder::new();
    assert!(b.finish().is_none());
    b.push("x".to_string());
    b.push("y".to_string());
    assert_eq!(b.finish(), Some(vec!["x".to_string(), "y".to_string()]));
    assert!(b.finish().is_none());
}

#[test]
fn parse_failure_gives_one_error_line() {
    let out = FileOutcome::ExtractionError("/books/broken.epub".to_string());
    assert_eq!(out.report_line(), Some("ERROR:/books/broken.epub".to_string()));
    assert_eq!(FileOutcome::Kept.report_line(), None);
    assert_eq!(
        FileOutcome::Duplicate("p".to_string()).report_line(),
        Some("DUP:p".to_string())
    );
}
