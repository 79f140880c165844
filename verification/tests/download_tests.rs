use vimeo_fetch::Error;
use vimeo_fetch::download::{plan_download, Progress};
use vimeo_fetch::manifest::{Segment, VideoInfo};

fn variant(segments: Vec<Segment>) -> VideoInfo {
    VideoInfo {
        base_url: b"https://m/dash/".to_vec(),
        id: b"\"1\"".to_vec(),
        codecs: b"\"avc1\"".to_vec(),
        bitrate: 500,
        duration: b"10.0".to_vec(),
        width: 640,
        height: 360,
        init_segment: vec![0, 0, 0],
        segments,
    }
}

#[test]
fn plan_resolves_segment_urls() {
    let v = variant(vec![Segment { path: b"seg1.m4s".to_vec(), size: 100 }]);
    let plan = plan_download(&v).unwrap();
    assert_eq!(plan.init_segment, vec![0, 0, 0]);
    assert_eq!(plan.targets.len(), 1);
    assert_eq!(plan.targets[0].url, b"https://m/dash/seg1.m4s".to_vec());
    assert_eq!(plan.targets[0].size, 100);
    assert_eq!(plan.total, 100);
}

#[test]
fn plan_totals_all_sizes_in_order() {
    let v = variant(vec![
        Segment { path: b"a.m4s".to_vec(), size: 3 },
        Segment { path: b"b.m4s".to_vec(), size: 5 },
    ]);
    let plan = plan_download(&v).unwrap();
    assert_eq!(plan.total, 8);
    assert_eq!(plan.targets[0].url, b"https://m/dash/a.m4s".to_vec());
    assert_eq!(plan.targets[1].url, b"https://m/dash/b.m4s".to_vec());
}

#[test]
fn plan_rejects_unresolvable_base() {
    let mut v = variant(vec![Segment { path: b"a.m4s".to_vec(), size: 1 }]);
    v.base_url = b"not a url".to_vec();
    assert!(matches!(plan_download(&v), Err(Error::InvalidFormat)));
}

#[test]
fn plan_rejects_overflowing_total() {
    let v = variant(vec![
        Segment { path: b"a".to_vec(), size: u64::MAX },
        Segment { path: b"b".to_vec(), size: 1 },
    ]);
    assert!(matches!(plan_download(&v), Err(Error::InvalidFormat)));
}

#[test]
fn exact_transfer_accepted() {
    let v = variant(vec![Segment { path: b"seg1.m4s".to_vec(), size: 100 }]);
    let plan = plan_download(&v).unwrap();
    let mut progress = Progress::start(&plan);
    assert_eq!(progress.on_segment(&plan, 100), Ok(100));
    assert!(progress.is_complete(&plan));
    assert_eq!(progress.done, plan.total);
}

#[test]
fn short_transfer_is_integrity_error() {
    let v = variant(vec![Segment { path: b"seg1.m4s".to_vec(), size: 100 }]);
    let plan = plan_download(&v).unwrap();
    let mut progress = Progress::start(&plan);
    assert_eq!(
        progress.on_segment(&plan, 99),
        Err(Error::Integrity { expected: 100, observed: 99 })
    );
    assert!(progress.failed);
    assert_eq!(progress.done, 0);
}

#[test]
fn long_transfer_is_integrity_error() {
    let v = variant(vec![Segment { path: b"seg1.m4s".to_vec(), size: 100 }]);
    let plan = plan_download(&v).unwrap();
    let mut progress = Progress::start(&plan);
    assert_eq!(
        progress.on_segment(&plan, 101),
        Err(Error::Integrity { expected: 100, observed: 101 })
    );
    assert!(progress.failed);
}

#[test]
fn progress_accumulates_per_segment() {
    let v = variant(vec![
        Segment { path: b"a.m4s".to_vec(), size: 3 },
        Segment { path: b"b.m4s".to_vec(), size: 5 },
    ]);
    let plan = plan_download(&v).unwrap();
    let mut progress = Progress::start(&plan);
    assert!(!progress.is_complete(&plan));
    assert_eq!(progress.on_segment(&plan, 3), Ok(3));
    assert_eq!(progress.done, 3);
    assert!(!progress.is_complete(&plan));
    assert_eq!(progress.on_segment(&plan, 5), Ok(5));
    assert_eq!(progress.done, 8);
    assert!(progress.is_complete(&plan));
}

#[test]
fn mismatch_on_first_segment_leaves_rest_unprocessed() {
    let v = variant(vec![
        Segment { path: b"a.m4s".to_vec(), size: 3 },
        Segment { path: b"b.m4s".to_vec(), size: 5 },
    ]);
    let plan = plan_download(&v).unwrap();
    let mut progress = Progress::start(&plan);
    assert_eq!(
        progress.on_segment(&plan, 4),
        Err(Error::Integrity { expected: 3, observed: 4 })
    );
    assert!(progress.failed);
    assert_eq!(progress.next, 0);
    assert_eq!(progress.done, 0);
}
