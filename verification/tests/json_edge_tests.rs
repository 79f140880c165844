use vimeo_fetch::Error;
use vimeo_fetch::config::locate_manifest_url;
use vimeo_fetch::json::{string_value_at, u64_value_at, doc_members, skip_value_at, DEPTH_BUDGET};
use vimeo_fetch::manifest::parse_manifest;

#[test]
fn string_simple_escapes_decoded() {
    let s = br#""a\n\t\"\\\/b""#;
    let v = string_value_at(s, 0).unwrap();
    assert_eq!(v, b"a\n\t\"\\/b".to_vec());
}

#[test]
fn string_unicode_escape_decoded_to_utf8() {
    let s = "\"caf\\u00e9\"";
    let v = string_value_at(s.as_bytes(), 0).unwrap();
    assert_eq!(v, "caf\u{e9}".as_bytes().to_vec());
}

#[test]
fn string_surrogate_pair_decoded() {
    let s = "\"\\uD83D\\uDE00\"";
    let v = string_value_at(s.as_bytes(), 0).unwrap();
    assert_eq!(v, "\u{1F600}".as_bytes().to_vec());
}

#[test]
fn string_lone_surrogate_rejected() {
    assert!(string_value_at(br#""\uD83Dx""#, 0).is_none());
    assert!(string_value_at(br#""\uDE00""#, 0).is_none());
}

#[test]
fn string_raw_control_byte_rejected() {
    assert!(string_value_at(b"\"a\x01b\"", 0).is_none());
}

#[test]
fn number_u64_bounds() {
    assert_eq!(u64_value_at(b"18446744073709551615", 0), Some(u64::MAX));
    assert_eq!(u64_value_at(b"18446744073709551616", 0), None);
    assert_eq!(u64_value_at(b"-5", 0), None);
    assert_eq!(u64_value_at(b"1.5", 0), None);
    assert_eq!(u64_value_at(b"1e3", 0), None);
    assert_eq!(u64_value_at(b"0", 0), Some(0));
}

#[test]
fn leading_zero_number_invalid() {
    // "01" is not a single valid JSON number, so a document using it is
    // ill-shaped as a whole.
    let body = br#"{"request":01}"#;
    assert!(matches!(locate_manifest_url(body), Err(Error::InvalidFormat)));
}

#[test]
fn nesting_within_budget_accepted() {
    let depth = DEPTH_BUDGET as usize;
    let mut doc = String::new();
    doc.push_str("{\"a\":");
    // one level is spent by the top-level object itself
    for _ in 0..depth - 1 {
        doc.push_str("[");
    }
    for _ in 0..depth - 1 {
        doc.push_str("]");
    }
    doc.push_str("}");
    assert!(doc_members(doc.as_bytes()).is_some());
}

#[test]
fn nesting_beyond_budget_rejected() {
    let depth = DEPTH_BUDGET as usize;
    let mut doc = String::new();
    doc.push_str("{\"a\":");
    for _ in 0..depth + 1 {
        doc.push_str("[");
    }
    for _ in 0..depth + 1 {
        doc.push_str("]");
    }
    doc.push_str("}");
    assert!(doc_members(doc.as_bytes()).is_none());
}

#[test]
fn skip_value_handles_literals() {
    assert_eq!(skip_value_at(b"true", 0, 0), Some(4));
    assert_eq!(skip_value_at(b"false", 0, 0), Some(5));
    assert_eq!(skip_value_at(b"null", 0, 0), Some(4));
    assert_eq!(skip_value_at(b"tru", 0, 0), None);
}

#[test]
fn unknown_members_skipped_not_rejected() {
    let manifest = br#"{"clip_id":7,"extra":{"deep":[1,2,{"x":null}]},"base_url":"d/","video":[{"id":1,"codecs":1,"bitrate":1,"duration":1,"width":9,"height":1,"init_segment":"","segments":[],"frame_rate":30}]}"#;
    let videos = parse_manifest(manifest, b"https://m/x.json").unwrap();
    assert_eq!(videos[0].width, 9);
}
