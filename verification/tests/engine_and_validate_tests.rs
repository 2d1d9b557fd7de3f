//! Aggregation across files, root validation, and the text utilities.
use find_id::text::contains_substring;
use find_id::validate::{has_marker_file, marker_name};
use find_id::{find_id, is_path_valid, SearchMode, ValidationError};

#[test]
fn aggregate_concatenates_in_file_order() {
    let a = r#"<R ID="hit-1"/>"#.to_string();
    let b = r#"<R ID="hit-2"><S ID="hit-3"/></R>"#.to_string();
    let r = find_id("hit", &vec![a, b], &SearchMode::Guid);
    let ids: Vec<&str> = r.iter().map(|m| m.id.as_str()).collect();
    assert_eq!(ids, ["hit-1", "hit-2", "hit-3"]);
}

#[test]
fn malformed_file_is_isolated() {
    let good1 = r#"<R ID="hit-1"/>"#.to_string();
    let bad = "<broken".to_string();
    let good2 = r#"<R ID="hit-2"/>"#.to_string();
    let r = find_id("hit", &vec![good1, bad, good2], &SearchMode::Guid);
    let ids: Vec<&str> = r.iter().map(|m| m.id.as_str()).collect();
    assert_eq!(ids, ["hit-1", "hit-2"]);
}

#[test]
fn aggregate_search_is_idempotent() {
    let files = vec![
        r#"<R ID="q-1"/>"#.to_string(),
        r#"<R ShortID="q-2" ID="q-3"/>"#.to_string(),
    ];
    let first = find_id("Q", &files, &SearchMode::Guid);
    let second = find_id("Q", &files, &SearchMode::Guid);
    assert_eq!(first.len(), second.len());
    for (x, y) in first.iter().zip(second.iter()) {
        assert_eq!(x.id, y.id);
        assert_eq!(x.tag, y.tag);
    }
}

#[test]
fn missing_marker_file_fails_validation() {
    let names = Some(vec!["readme.txt".to_string(), "data.wwu".to_string()]);
    let r = is_path_valid(true, &names);
    assert!(matches!(r, Err(ValidationError::MissingMarkerFile)));
}

#[test]
fn not_a_directory_fails_validation() {
    let r = is_path_valid(false, &None);
    assert!(matches!(r, Err(ValidationError::NotADirectory)));
}

#[test]
fn unreadable_directory_fails_validation() {
    let r = is_path_valid(true, &None);
    assert!(matches!(r, Err(ValidationError::UnreadableDirectory)));
}

#[test]
fn marker_file_passes_validation() {
    let names = Some(vec!["other.bin".to_string(), "proj.wproj".to_string()]);
    assert!(is_path_valid(true, &names).is_ok());
}

#[test]
fn marker_needs_a_stem() {
    assert!(marker_name("a.wproj"));
    assert!(marker_name("a.b.wproj"));
    assert!(!marker_name(".wproj"));
    assert!(!marker_name("wproj"));
    assert!(!marker_name("proj.wwu"));
    assert!(!marker_name("proj.wproj.bak"));
}

#[test]
fn marker_scan_over_names() {
    assert!(has_marker_file(&vec![
        "x.txt".to_string(),
        "y.wproj".to_string()
    ]));
    assert!(!has_marker_file(&vec!["x.txt".to_string()]));
    assert!(!has_marker_file(&Vec::new()));
}

#[test]
fn substring_containment_basics() {
    assert!(contains_substring("guid-12345", "234"));
    assert!(contains_substring("anything", ""));
    assert!(contains_substring("", ""));
    assert!(!contains_substring("", "a"));
    assert!(!contains_substring("abc", "abcd"));
    assert!(contains_substring("héllo wörld", "ö"));
    assert!(!contains_substring("abc", "ABC"));
}
