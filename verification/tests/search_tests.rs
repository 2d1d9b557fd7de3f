//! End-to-end searches over in-memory document texts.
use find_id::{search_document, MatchInfo, SearchMode};

fn fields(m: &MatchInfo) -> (&str, &str, &str, &str, &str, &str, &str) {
    (
        m.tag.as_str(),
        m.name.as_str(),
        m.id.as_str(),
        m.short_id.as_str(),
        m.media_id.as_str(),
        m.language.as_str(),
        m.audio_file.as_str(),
    )
}

fn same_results(a: &[MatchInfo], b: &[MatchInfo]) -> bool {
    a.len() == b.len() && a.iter().zip(b.iter()).all(|(x, y)| fields(x) == fields(y))
}

#[test]
fn scenario_media_id_grandparent() {
    let xml = r#"<Sound Name="Explosion" ID="abc123"><Content><MediaID ID="med-789"/></Content></Sound>"#;
    let r = search_document("789", xml, &SearchMode::MediaID).unwrap();
    assert_eq!(r.len(), 1);
    assert_eq!(
        fields(&r[0]),
        ("Sound", "Explosion", "abc123", "?", "med-789", "?", "?")
    );
}

#[test]
fn scenario_guid_full_record() {
    let xml = r#"<Root><Event Name="Door" ID="GUID-1" ShortID="S1"/></Root>"#;
    let r = search_document("guid-1", xml, &SearchMode::Guid).unwrap();
    assert_eq!(r.len(), 1);
    assert_eq!(fields(&r[0]), ("Event", "Door", "GUID-1", "S1", "", "", ""));
}

#[test]
fn scenario_short_id_no_hit() {
    let xml = r#"<Root><Event Name="Door" ID="GUID-1" ShortID="S1"/><Other/></Root>"#;
    let r = search_document("zzz", xml, &SearchMode::ShortID).unwrap();
    assert!(r.is_empty());
}

#[test]
fn substring_not_equality() {
    let xml = r#"<E ID="guid-12345"/>"#;
    let r = search_document("234", xml, &SearchMode::Guid).unwrap();
    assert_eq!(r.len(), 1);
    assert_eq!(r[0].id, "guid-12345");
}

#[test]
fn case_insensitive_same_hits() {
    let xml = r#"<Root ID="xAbCx"><Sub ID="noise" Name="n"/><Sub ID="ABCD"/></Root>"#;
    let upper = search_document("ABC", xml, &SearchMode::Guid).unwrap();
    let lower = search_document("abc", xml, &SearchMode::Guid).unwrap();
    assert_eq!(upper.len(), 2);
    assert!(same_results(&upper, &lower));
}

#[test]
fn query_is_lowercased_against_lowered_identifier() {
    let xml = r#"<E ID="abc"/>"#;
    let r = search_document("ABC", xml, &SearchMode::Guid).unwrap();
    assert_eq!(r.len(), 1);
}

#[test]
fn identifier_is_lowercased_against_query() {
    let xml = r#"<E ID="ABC"/>"#;
    let r = search_document("abc", xml, &SearchMode::Guid).unwrap();
    assert_eq!(r.len(), 1);
}

#[test]
fn repeated_search_is_identical() {
    let xml = r#"<Root ID="key-1"><A ID="key-2" ShortID="k"/><B Name="x" ID="other"/></Root>"#;
    let first = search_document("key", xml, &SearchMode::Guid).unwrap();
    let second = search_document("key", xml, &SearchMode::Guid).unwrap();
    assert_eq!(first.len(), 2);
    assert!(same_results(&first, &second));
}

#[test]
fn empty_query_matches_every_carrier() {
    let xml = r#"<R ID="a"><C ID="b"/><D/></R>"#;
    let r = search_document("", xml, &SearchMode::Guid).unwrap();
    assert_eq!(r.len(), 2);
    assert_eq!(r[0].id, "a");
    assert_eq!(r[1].id, "b");
}

#[test]
fn placeholder_for_absent_empty_for_inapplicable() {
    let xml = r#"<Event ID="GUID-2"/>"#;
    let r = search_document("guid", xml, &SearchMode::Guid).unwrap();
    assert_eq!(r.len(), 1);
    // absent attributes on the reported element: placeholder
    assert_eq!(r[0].name, "?");
    assert_eq!(r[0].short_id, "?");
    // fields the mode does not fill: empty, never the placeholder
    assert_eq!(r[0].media_id, "");
    assert_eq!(r[0].language, "");
    assert_eq!(r[0].audio_file, "");
}

#[test]
fn short_id_mode_reports_matched_value() {
    let xml = r#"<E ShortID="XY12"/>"#;
    let r = search_document("y1", xml, &SearchMode::ShortID).unwrap();
    assert_eq!(r.len(), 1);
    assert_eq!(fields(&r[0]), ("E", "?", "?", "XY12", "", "", ""));
}

#[test]
fn document_order_is_kept_within_a_file() {
    let xml = r#"<R ID="a1"><B ID="a2"><C ID="a3"/></B><D ID="a4"/></R>"#;
    let r = search_document("a", xml, &SearchMode::Guid).unwrap();
    let tags: Vec<&str> = r.iter().map(|m| m.tag.as_str()).collect();
    assert_eq!(tags, ["R", "B", "C", "D"]);
}

#[test]
fn media_id_language_and_audio_file_children() {
    let xml = r#"<Sound Name="N" ID="i"><C><MediaID ID="m-1"/></C><MyLanguageTag>English</MyLanguageTag><AudioFileRef>snd.wav</AudioFileRef></Sound>"#;
    let r = search_document("m-1", xml, &SearchMode::MediaID).unwrap();
    assert_eq!(r.len(), 1);
    assert_eq!(r[0].language, "English");
    assert_eq!(r[0].audio_file, "snd.wav");
}

#[test]
fn media_id_without_grandparent_is_skipped() {
    let xml = r#"<R><MediaID ID="x-1"/></R>"#;
    let r = search_document("x-1", xml, &SearchMode::MediaID).unwrap();
    assert!(r.is_empty());
}

#[test]
fn media_id_missing_attribute_matches_placeholder() {
    let xml = r#"<R Name="Top" ID="t"><C><MediaID/></C></R>"#;
    let r = search_document("", xml, &SearchMode::MediaID).unwrap();
    assert_eq!(r.len(), 1);
    assert_eq!(r[0].tag, "R");
    assert_eq!(r[0].media_id, "?");
}

#[test]
fn case_folding_handles_non_ascii() {
    let xml = r#"<E ID="ÄBC-Straße"/>"#;
    let r = search_document("äbc", xml, &SearchMode::Guid).unwrap();
    assert_eq!(r.len(), 1);
    let none = search_document("ümlaut", xml, &SearchMode::Guid).unwrap();
    assert!(none.is_empty());
}

#[test]
fn malformed_document_is_an_error() {
    let r = search_document("x", "<unclosed", &SearchMode::Guid);
    assert!(matches!(r, Err(find_id::DocumentError::MalformedDocument)));
}
