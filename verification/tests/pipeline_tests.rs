//! The whole resolution pipeline on one coherent scenario, without any
//! transport: page bytes to config URL, config bytes to manifest URL,
//! manifest bytes to a plan, and the byte accounting of the transfers.

use vimeo_fetch::Error;
use vimeo_fetch::config::locate_manifest_url;
use vimeo_fetch::download::{plan_download, Progress};
use vimeo_fetch::manifest::{parse_manifest, select_best};
use vimeo_fetch::page::extract_config_url;

#[test]
fn full_resolution_chain() {
    let page = br#"<div data-config-url="https://x/cfg?a=1&amp;b=2"></div>"#;
    let config_url = extract_config_url(page).unwrap();
    assert_eq!(config_url, b"https://x/cfg?a=1&b=2".to_vec());

    let config = br#"{"request":{"files":{"dash":{"default_cdn":"akfire","cdns":{"akfire":{"url":"https://m/master.json"}}}}}}"#;
    let manifest_url = locate_manifest_url(config).unwrap();
    assert_eq!(manifest_url, b"https://m/master.json".to_vec());

    let manifest = br#"{"base_url":"dash/","video":[{"id":"1","codecs":"avc1","bitrate":500,"duration":10.0,"width":640,"height":360,"init_segment":"AAAA","segments":[{"url":"seg1.m4s","size":100}]},{"id":"2","codecs":"avc1","bitrate":900,"duration":10.0,"width":1280,"height":720,"init_segment":"AAAA","segments":[{"url":"hi/seg1.m4s","size":200}]}]}"#;
    let videos = parse_manifest(manifest, &manifest_url).unwrap();
    assert_eq!(videos.len(), 2);

    let best = select_best(&videos).unwrap();
    assert_eq!(best, 1);
    let video = &videos[best];
    assert_eq!(video.base_url, b"https://m/dash/".to_vec());

    let plan = plan_download(video).unwrap();
    assert_eq!(plan.init_segment, vec![0, 0, 0]);
    assert_eq!(plan.targets[0].url, b"https://m/dash/hi/seg1.m4s".to_vec());
    assert_eq!(plan.total, 200);

    let mut progress = Progress::start(&plan);
    assert_eq!(progress.on_segment(&plan, 200), Ok(200));
    assert!(progress.is_complete(&plan));
    assert_eq!(progress.done, 200);
}

#[test]
fn full_chain_detects_truncated_transfer() {
    let manifest = br#"{"base_url":"dash/","video":[{"id":"1","codecs":"avc1","bitrate":500,"duration":10.0,"width":640,"height":360,"init_segment":"AAAA","segments":[{"url":"seg1.m4s","size":100}]}]}"#;
    let videos = parse_manifest(manifest, b"https://m/master.json").unwrap();
    let best = select_best(&videos).unwrap();
    let plan = plan_download(&videos[best]).unwrap();
    let mut progress = Progress::start(&plan);
    assert_eq!(
        progress.on_segment(&plan, 99),
        Err(Error::Integrity { expected: 100, observed: 99 })
    );
}
