use vimeo_fetch::Error;
use vimeo_fetch::page::extract_config_url;

#[test]
fn config_url_entity_decoded() {
    let body = br#"<div data-config-url="https://x/cfg?a=1&amp;b=2"></div>"#;
    let r = extract_config_url(body).unwrap();
    assert_eq!(r, b"https://x/cfg?a=1&b=2".to_vec());
}

#[test]
fn config_url_not_found() {
    let body = b"<html><body>nothing here</body></html>";
    assert_eq!(extract_config_url(body), Err(Error::NotFound));
}

#[test]
fn config_url_plain_value_unchanged() {
    let body = br#"prefix data-config-url="https://player.example/cfg" suffix"#;
    let r = extract_config_url(body).unwrap();
    assert_eq!(r, b"https://player.example/cfg".to_vec());
}

#[test]
fn config_url_first_full_match_wins() {
    // The first marker has an empty value, so the pattern does not match
    // there; the second marker provides the value.
    let body = br#"<a data-config-url=""></a><b data-config-url="https://real/cfg"></b>"#;
    let r = extract_config_url(body).unwrap();
    assert_eq!(r, b"https://real/cfg".to_vec());
}

#[test]
fn config_url_numeric_entity_decoded() {
    let body = br#"<div data-config-url="https://x/?q=&#38;v"></div>"#;
    let r = extract_config_url(body).unwrap();
    assert_eq!(r, b"https://x/?q=&v".to_vec());
}

#[test]
fn config_url_unterminated_value_not_found() {
    let body = br#"<div data-config-url="https://x/never-closed"#;
    assert_eq!(extract_config_url(body), Err(Error::NotFound));
}
