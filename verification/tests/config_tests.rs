use vimeo_fetch::Error;
use vimeo_fetch::config::locate_manifest_url;

#[test]
fn manifest_url_resolved() {
    let body = br#"{"request":{"files":{"dash":{"default_cdn":"akfire","cdns":{"akfire":{"url":"https://m/master.json"}}}}}}"#;
    let r = locate_manifest_url(body).unwrap();
    assert_eq!(r, b"https://m/master.json".to_vec());
}

#[test]
fn manifest_url_missing_default_cdn_key() {
    let body = br#"{"request":{"files":{"dash":{"default_cdn":"akfire","cdns":{"fastly":{"url":"https://m/master.json"}}}}}}"#;
    assert_eq!(locate_manifest_url(body), Err(Error::InvalidFormat));
}

#[test]
fn other_delivery_schemes_ignored() {
    let body = br#"{"request":{"files":{"hls":{"default_cdn":"x","cdns":{}},"dash":{"default_cdn":"fastly","cdns":{"akfire":{"url":"https://a/"},"fastly":{"url":"https://f/master.json"}}}}}}"#;
    let r = locate_manifest_url(body).unwrap();
    assert_eq!(r, b"https://f/master.json".to_vec());
}

#[test]
fn invalid_json_rejected() {
    assert_eq!(locate_manifest_url(b"not json at all"), Err(Error::InvalidFormat));
    assert_eq!(locate_manifest_url(b"{\"request\": [}"), Err(Error::InvalidFormat));
    assert_eq!(locate_manifest_url(b"{} trailing"), Err(Error::InvalidFormat));
}

#[test]
fn missing_traversal_step_rejected() {
    assert_eq!(locate_manifest_url(b"{}"), Err(Error::InvalidFormat));
    assert_eq!(
        locate_manifest_url(br#"{"request":{"files":{}}}"#),
        Err(Error::InvalidFormat)
    );
    assert_eq!(
        locate_manifest_url(br#"{"request":{"files":{"dash":{"cdns":{}}}}}"#),
        Err(Error::InvalidFormat)
    );
}

#[test]
fn escaped_identifier_matches_plain_key() {
    // The default identifier is written with a unicode escape; it must
    // still match the plainly-written key in the endpoint mapping.
    let body = br#"{"request":{"files":{"dash":{"default_cdn":"akf\u0069re","cdns":{"akfire":{"url":"https://m/master.json"}}}}}}"#;
    let r = locate_manifest_url(body).unwrap();
    assert_eq!(r, b"https://m/master.json".to_vec());
}

#[test]
fn whitespace_tolerated() {
    let body = b" {\n\t\"request\" : { \"files\" : { \"dash\" : { \"default_cdn\" : \"c\" , \"cdns\" : { \"c\" : { \"url\" : \"https://m/x\" } } } } }\r\n} ";
    let r = locate_manifest_url(body).unwrap();
    assert_eq!(r, b"https://m/x".to_vec());
}
