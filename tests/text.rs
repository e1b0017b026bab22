use note_index::clock::Timestamp;
use note_index::entry::IndexEntry;
use note_index::paths::same_text;
use note_index::query::{reads_as_id, Query};

fn entry(path: &str) -> IndexEntry {
    IndexEntry { id: 0, last_opened: Timestamp { secs: 0, nanos: 0 }, path: path.to_string() }
}

#[test]
fn classify_decimal_text_as_id() {
    assert_eq!(Query::classify("0"), Query::ById(0));
    assert_eq!(Query::classify("42"), Query::ById(42));
    assert_eq!(Query::classify("+3"), Query::ById(3));
    assert_eq!(Query::classify("18446744073709551615"), Query::ById(usize::MAX));
}

#[test]
fn classify_other_text_as_name() {
    for q in ["", "+", "-1", "1a", " 1", "a.md", "1_000", "++1", "1+"] {
        assert_eq!(Query::classify(q), Query::ByName(q.to_string()));
    }
}

#[test]
fn classify_oversized_id_as_too_large() {
    assert_eq!(Query::classify("18446744073709551616"), Query::IdTooLarge);
    assert_eq!(Query::classify("+99999999999999999999999"), Query::IdTooLarge);
}

#[test]
fn reads_as_id_accepts_plus_and_digits_only() {
    for q in ["0", "007", "+1", "99999999999999999999999"] {
        assert!(reads_as_id(q), "{}", q);
    }
    for q in ["", "+", "-1", "1a", " 1", "++1", "1+", "١"] {
        assert!(!reads_as_id(q), "{}", q);
    }
}

#[test]
fn summary_strips_hashes_and_white_space() {
    assert_eq!(entry("/n/a.md").summary_from(Some("#\u{3000}Title\u{a0}\r\n")), "Title");
    let e = entry("/notes/a.md");
    assert_eq!(e.summary_from(Some("# Shopping list\n")), "Shopping list");
    assert_eq!(e.summary_from(Some("###   Deep  title  \n")), "Deep  title");
    assert_eq!(e.summary_from(Some("plain # line")), "plain # line");
    assert_eq!(e.summary_from(Some("")), "");
}

#[test]
fn summary_without_line_falls_back_to_stem() {
    assert_eq!(entry("/notes/a.md").summary_from(None), "a");
    assert_eq!(entry("/notes/archive.tar.gz").summary_from(None), "archive.tar");
    assert_eq!(entry("/notes/.hidden").summary_from(None), ".hidden");
    assert_eq!(entry("/").summary_from(None), "invalid_stem");
    assert_eq!(entry("/notes/..").summary_from(None), "invalid_stem");
}

#[test]
fn same_text_compares_characters() {
    assert!(same_text("abc", "abc"));
    assert!(same_text("", ""));
    assert!(!same_text("abc", "abd"));
    assert!(!same_text("ab", "abc"));
    assert!(same_text("héllo", "héllo"));
}

#[test]
fn duplicate_keeps_every_field() {
    let e = IndexEntry { id: 3, last_opened: Timestamp { secs: 9, nanos: 8 }, path: "/x/y".to_string() };
    assert_eq!(e.duplicate(), e);
}
