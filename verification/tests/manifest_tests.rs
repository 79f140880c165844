use vimeo_fetch::Error;
use vimeo_fetch::manifest::{parse_manifest, select_best, Segment, VideoInfo};

const MANIFEST: &[u8] = br#"{"base_url":"dash/","video":[{"id":"1","codecs":"avc1","bitrate":500,"duration":10.0,"width":640,"height":360,"init_segment":"AAAA","segments":[{"url":"seg1.m4s","size":100}]}]}"#;

const MANIFEST_URL: &[u8] = b"https://m/master.json";

#[test]
fn manifest_decoded() {
    let videos = parse_manifest(MANIFEST, MANIFEST_URL).unwrap();
    assert_eq!(videos.len(), 1);
    let v = &videos[0];
    assert_eq!(v.base_url, b"https://m/dash/".to_vec());
    assert_eq!(v.id, b"\"1\"".to_vec());
    assert_eq!(v.codecs, b"\"avc1\"".to_vec());
    assert_eq!(v.bitrate, 500);
    assert_eq!(v.duration, b"10.0".to_vec());
    assert_eq!(v.width, 640);
    assert_eq!(v.height, 360);
    assert_eq!(v.init_segment, vec![0u8, 0, 0]);
    assert_eq!(v.segments.len(), 1);
    assert_eq!(v.segments[0].path, b"seg1.m4s".to_vec());
    assert_eq!(v.segments[0].size, 100);
}

#[test]
fn base_url_resolution_is_not_concatenation() {
    let manifest = br#"{"base_url":"../parent/","video":[]}"#;
    let videos = parse_manifest(manifest, b"https://m/a/b/master.json").unwrap();
    assert_eq!(videos.len(), 0);
    let manifest2 = br#"{"base_url":"../parent/","video":[{"id":1,"codecs":2,"bitrate":1,"duration":1,"width":1,"height":1,"init_segment":"","segments":[]}]}"#;
    let videos2 = parse_manifest(manifest2, b"https://m/a/b/master.json").unwrap();
    assert_eq!(videos2[0].base_url, b"https://m/a/parent/".to_vec());
}

#[test]
fn numeric_scalars_render_as_text() {
    let manifest = br#"{"base_url":"d/","video":[{"id":17,"codecs":null,"bitrate":1,"duration":3,"width":1,"height":1,"init_segment":"","segments":[]}]}"#;
    let videos = parse_manifest(manifest, b"https://m/x.json").unwrap();
    assert_eq!(videos[0].id, b"17".to_vec());
    assert_eq!(videos[0].codecs, b"null".to_vec());
    assert_eq!(videos[0].duration, b"3".to_vec());
}

#[test]
fn missing_id_reads_as_null() {
    let manifest = br#"{"base_url":"d/","video":[{"codecs":"c","bitrate":1,"duration":1,"width":1,"height":1,"init_segment":"","segments":[]}]}"#;
    let videos = parse_manifest(manifest, b"https://m/x.json").unwrap();
    assert_eq!(videos[0].id, b"null".to_vec());
}

#[test]
fn fractional_bitrate_rejected() {
    let manifest = br#"{"base_url":"d/","video":[{"id":"1","codecs":"c","bitrate":500.5,"duration":1,"width":1,"height":1,"init_segment":"","segments":[]}]}"#;
    assert!(matches!(parse_manifest(manifest, MANIFEST_URL), Err(Error::InvalidFormat)));
}

#[test]
fn string_bitrate_rejected() {
    let manifest = br#"{"base_url":"d/","video":[{"id":"1","codecs":"c","bitrate":"500","duration":1,"width":1,"height":1,"init_segment":"","segments":[]}]}"#;
    assert!(matches!(parse_manifest(manifest, MANIFEST_URL), Err(Error::InvalidFormat)));
}

#[test]
fn oversized_bitrate_rejected() {
    let manifest = br#"{"base_url":"d/","video":[{"id":"1","codecs":"c","bitrate":99999999999999999999999,"duration":1,"width":1,"height":1,"init_segment":"","segments":[]}]}"#;
    assert!(matches!(parse_manifest(manifest, MANIFEST_URL), Err(Error::InvalidFormat)));
}

#[test]
fn missing_init_segment_rejected() {
    let manifest = br#"{"base_url":"d/","video":[{"id":"1","codecs":"c","bitrate":1,"duration":1,"width":1,"height":1,"segments":[]}]}"#;
    assert!(matches!(parse_manifest(manifest, MANIFEST_URL), Err(Error::InvalidFormat)));
}

#[test]
fn bad_base64_init_segment_rejected() {
    let manifest = br#"{"base_url":"d/","video":[{"id":"1","codecs":"c","bitrate":1,"duration":1,"width":1,"height":1,"init_segment":"A","segments":[]}]}"#;
    assert!(matches!(parse_manifest(manifest, MANIFEST_URL), Err(Error::InvalidFormat)));
}

#[test]
fn missing_base_url_rejected() {
    let manifest = br#"{"video":[]}"#;
    assert!(matches!(parse_manifest(manifest, MANIFEST_URL), Err(Error::InvalidFormat)));
}

#[test]
fn escaped_base_url_decoded_before_resolution() {
    let manifest = br#"{"base_url":"dash/","video":[]}"#;
    assert!(parse_manifest(manifest, MANIFEST_URL).is_ok());
    let manifest2 = br#"{"base_url":"dash/","video":[{"id":1,"codecs":1,"bitrate":1,"duration":1,"width":1,"height":1,"init_segment":"","segments":[]}]}"#;
    let videos = parse_manifest(manifest2, MANIFEST_URL).unwrap();
    assert_eq!(videos[0].base_url, b"https://m/dash/".to_vec());
}

#[test]
fn segment_order_preserved() {
    let manifest = br#"{"base_url":"d/","video":[{"id":1,"codecs":1,"bitrate":1,"duration":1,"width":1,"height":1,"init_segment":"","segments":[{"url":"a","size":1},{"url":"b","size":2},{"url":"c","size":3}]}]}"#;
    let videos = parse_manifest(manifest, MANIFEST_URL).unwrap();
    let paths: Vec<&[u8]> = videos[0].segments.iter().map(|s| s.path.as_slice()).collect();
    assert_eq!(paths, vec![b"a".as_slice(), b"b".as_slice(), b"c".as_slice()]);
}

fn plain_variant(width: u64) -> VideoInfo {
    VideoInfo {
        base_url: b"https://m/d/".to_vec(),
        id: b"x".to_vec(),
        codecs: b"c".to_vec(),
        bitrate: 1,
        duration: b"1".to_vec(),
        width,
        height: 1,
        init_segment: vec![],
        segments: vec![Segment { path: b"s".to_vec(), size: 1 }],
    }
}

#[test]
fn select_best_picks_max_width() {
    let videos = vec![plain_variant(640), plain_variant(1920), plain_variant(1280)];
    assert_eq!(select_best(&videos), Some(1));
}

#[test]
fn select_best_tie_resolves_to_earliest() {
    let videos = vec![plain_variant(640), plain_variant(1920), plain_variant(1920)];
    assert_eq!(select_best(&videos), Some(1));
    let equal = vec![plain_variant(640), plain_variant(640)];
    assert_eq!(select_best(&equal), Some(0));
}

#[test]
fn select_best_empty_is_none() {
    assert_eq!(select_best(&vec![]), None);
}

#[test]
fn describe_renders_summary() {
    let videos = parse_manifest(MANIFEST, MANIFEST_URL).unwrap();
    let text = videos[0].describe();
    assert_eq!(
        String::from_utf8(text).unwrap(),
        "\"1\": \"avc1\", 640x360, 10.0 seconds, 500 bitrate"
    );
}
