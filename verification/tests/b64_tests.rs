use base64::Engine as _;
use base64::engine::general_purpose::STANDARD_NO_PAD;

use vimeo_fetch::b64::b64_decode;

#[test]
fn decode_concrete() {
    assert_eq!(b64_decode(b"AAAA"), Some(vec![0u8, 0, 0]));
    assert_eq!(b64_decode(b""), Some(vec![]));
    assert_eq!(b64_decode(b"QQ"), Some(vec![65u8]));
    assert_eq!(b64_decode(b"aGVsbG8"), Some(b"hello".to_vec()));
}

#[test]
fn decode_agrees_with_engine() {
    for s in ["AAAA", "QQ", "TWFu", "aGVsbG8", "c3VyZS4", "+/+/"] {
        let ours = b64_decode(s.as_bytes()).unwrap();
        let theirs = STANDARD_NO_PAD.decode(s).unwrap();
        assert_eq!(ours, theirs);
    }
}

#[test]
fn decode_then_reencode_reproduces_input() {
    for s in ["AAAA", "QQ", "TWFu", "aGVsbG8", "c3VyZS4", "+/+/", ""] {
        let decoded = b64_decode(s.as_bytes()).unwrap();
        assert_eq!(STANDARD_NO_PAD.encode(&decoded), s);
    }
}

#[test]
fn reject_length_one_mod_four() {
    assert!(b64_decode(b"A").is_none());
    assert!(b64_decode(b"AAAAB").is_none());
    assert!(STANDARD_NO_PAD.decode("A").is_err());
}

#[test]
fn reject_noncanonical_tail() {
    // 'B' carries a set low bit that no decoded byte accounts for.
    assert!(b64_decode(b"AB").is_none());
    assert!(STANDARD_NO_PAD.decode("AB").is_err());
    assert!(b64_decode(b"AAB").is_none());
    assert!(STANDARD_NO_PAD.decode("AAB").is_err());
}

#[test]
fn reject_foreign_bytes() {
    assert!(b64_decode(b"A*AA").is_none());
    assert!(b64_decode(b"AA=A").is_none());
    assert!(b64_decode(b"AAA=").is_none());
}
