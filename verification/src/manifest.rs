//! Decoding the manifest into variant descriptors.
//!
//! The manifest is JSON of the shape `{base_url: <rel>, video: [<variant>,
//! ...]}`; each variant carries scalar identity fields, a base64-encoded
//! initialization block, and an ordered list of segments, each a relative
//! path with a declared byte size. The manifest's `base_url` is resolved as
//! a relative reference against the manifest document's own URL; the result
//! is shared by every variant.

use vstd::prelude::*;

use crate::Error;
use crate::b64::{spec_b64_decode, b64_decode};
use crate::config::{spec_string_at_key, string_at_key};
use crate::json::{
    spec_doc_members, spec_find_key, spec_obj_value_members, spec_arr_value_elems,
    spec_number_text, spec_scalar_text, spec_u64_value, doc_members, find_key,
    obj_value_members_at, arr_value_elems_at, number_text_at, scalar_text_at, u64_value_at,
    members_view, elems_view,
};
use crate::keys::{
    spec_key_base_url, spec_key_video, spec_key_id, spec_key_codecs, spec_key_bitrate,
    spec_key_duration, spec_key_width, spec_key_height, spec_key_init_segment, spec_key_segments,
    spec_key_url, spec_key_size, spec_null_text, key_base_url, key_video, key_id, key_codecs,
    key_bitrate, key_duration, key_width, key_height, key_init_segment, key_segments, key_url,
    key_size, null_text,
};
use crate::textnum::{spec_u64_dec, u64_dec, push_all};
use crate::urlres::{url_resolved, resolve_url};

verus! {

/// One segment: a path relative to the variant's base URL, and the byte
/// size the manifest declares for it.
pub struct Segment {
    pub path: Vec<u8>,
    pub size: u64,
}

/// The mathematical value of a [`Segment`].
pub struct SegModel {
    pub path: Seq<u8>,
    pub size: u64,
}

impl View for Segment {
    type V = SegModel;

    open spec fn view(&self) -> SegModel {
        SegModel { path: self.path@, size: self.size }
    }
}

/// One encoded rendition of the source video, as the manifest declares it.
pub struct VideoInfo {
    /// The absolute base URL shared by all variants, against which every
    /// segment path is resolved.
    pub base_url: Vec<u8>,
    /// Opaque identity, the raw text of the manifest's `id` scalar.
    pub id: Vec<u8>,
    /// Codec descriptor, the raw text of the manifest's `codecs` scalar.
    pub codecs: Vec<u8>,
    /// Target bitrate, informational.
    pub bitrate: u64,
    /// Duration in seconds: the raw text of the manifest's number.
    pub duration: Vec<u8>,
    /// Frame width: the selection key.
    pub width: u64,
    /// Frame height.
    pub height: u64,
    /// The decoded initialization block, written once before any segment.
    pub init_segment: Vec<u8>,
    /// The segments, in playback/byte order.
    pub segments: Vec<Segment>,
}

/// The mathematical value of a [`VideoInfo`].
pub struct VariantModel {
    pub base_url: Seq<u8>,
    pub id: Seq<u8>,
    pub codecs: Seq<u8>,
    pub bitrate: u64,
    pub duration: Seq<u8>,
    pub width: u64,
    pub height: u64,
    pub init_segment: Seq<u8>,
    pub segments: Seq<SegModel>,
}

impl View for VideoInfo {
    type V = VariantModel;

    open spec fn view(&self) -> VariantModel {
        VariantModel {
            base_url: self.base_url@,
            id: self.id@,
            codecs: self.codecs@,
            bitrate: self.bitrate,
            duration: self.duration@,
            width: self.width,
            height: self.height,
            init_segment: self.init_segment@,
            segments: self.segments@.map_values(|g: Segment| g@),
        }
    }
}

/// Variant descriptors, as the specification sees them.
pub open spec fn variants_view(v: Seq<VideoInfo>) -> Seq<VariantModel> {
    v.map_values(|x: VideoInfo| x@)
}

/// Segments, as the specification sees them.
pub open spec fn segs_view(v: Seq<Segment>) -> Seq<SegModel> {
    v.map_values(|g: Segment| g@)
}

/// The `u64` stored under `key`, if present and a plain non-negative
/// integer.
pub open spec fn spec_u64_at_key(s: Seq<u8>, m: Seq<(Seq<u8>, int)>, key: Seq<u8>) -> Option<u64> {
    match spec_find_key(m, key) {
        Some(p) => spec_u64_value(s, p),
        None => None,
    }
}

/// The raw number text stored under `key`, if present and a number.
pub open spec fn spec_numtext_at_key(s: Seq<u8>, m: Seq<(Seq<u8>, int)>, key: Seq<u8>) -> Option<
    Seq<u8>,
> {
    match spec_find_key(m, key) {
        Some(p) => spec_number_text(s, p),
        None => None,
    }
}

/// The raw text of the scalar stored under `key`; a missing member reads
/// as the scalar `null`, a structured value as nothing.
pub open spec fn spec_scalar_or_null_at_key(
    s: Seq<u8>,
    m: Seq<(Seq<u8>, int)>,
    key: Seq<u8>,
) -> Option<Seq<u8>> {
    match spec_find_key(m, key) {
        Some(p) => spec_scalar_text(s, p),
        None => Some(spec_null_text()),
    }
}

/// One segment from the object at offset `e`: its `url` path and `size`.
#[verifier::opaque]
pub open spec fn spec_segment(s: Seq<u8>, e: int) -> Option<SegModel> {
    match spec_obj_value_members(s, e) {
        None => None,
        Some(m) => match spec_string_at_key(s, m, spec_key_url()) {
            None => None,
            Some(path) => match spec_u64_at_key(s, m, spec_key_size()) {
                None => None,
                Some(size) => Some(SegModel { path, size }),
            },
        },
    }
}

/// The segments at the listed offsets, in order.
pub open spec fn spec_segments(s: Seq<u8>, es: Seq<int>) -> Option<Seq<SegModel>>
    decreases es.len(),
{
    if es.len() == 0 {
        Some(Seq::empty())
    } else {
        match spec_segment(s, es[0]) {
            None => None,
            Some(g) => match spec_segments(s, es.drop_first()) {
                None => None,
                Some(rest) => Some(seq![g] + rest),
            },
        }
    }
}

/// One variant from the object at offset `v`, with the shared base URL.
#[verifier::opaque]
pub open spec fn spec_variant(s: Seq<u8>, v: int, base: Seq<u8>) -> Option<VariantModel> {
    match spec_obj_value_members(s, v) {
        None => None,
        Some(m) => match spec_scalar_or_null_at_key(s, m, spec_key_id()) {
            None => None,
            Some(id) => match spec_scalar_or_null_at_key(s, m, spec_key_codecs()) {
                None => None,
                Some(codecs) => match spec_u64_at_key(s, m, spec_key_bitrate()) {
                    None => None,
                    Some(bitrate) => match spec_numtext_at_key(s, m, spec_key_duration()) {
                        None => None,
                        Some(duration) => match spec_u64_at_key(s, m, spec_key_width()) {
                            None => None,
                            Some(width) => match spec_u64_at_key(s, m, spec_key_height()) {
                                None => None,
                                Some(height) => match spec_string_at_key(
                                    s,
                                    m,
                                    spec_key_init_segment(),
                                ) {
                                    None => None,
                                    Some(ib) => match spec_b64_decode(ib) {
                                        None => None,
                                        Some(init) => match spec_find_key(
                                            m,
                                            spec_key_segments(),
                                        ) {
                                            None => None,
                                            Some(sp) => match spec_arr_value_elems(s, sp) {
                                                None => None,
                                                Some(es) => match spec_segments(s, es) {
                                                    None => None,
                                                    Some(segs) => Some(
                                                        VariantModel {
                                                            base_url: base,
                                                            id,
                                                            codecs,
                                                            bitrate,
                                                            duration,
                                                            width,
                                                            height,
                                                            init_segment: init,
                                                            segments: segs,
                                                        },
                                                    ),
                                                },
                                            },
                                        },
                                    },
                                },
                            },
                        },
                    },
                },
            },
        },
    }
}

/// The variants at the listed offsets, in order.
pub open spec fn spec_variants(s: Seq<u8>, es: Seq<int>, base: Seq<u8>) -> Option<
    Seq<VariantModel>,
>
    decreases es.len(),
{
    if es.len() == 0 {
        Some(Seq::empty())
    } else {
        match spec_variant(s, es[0], base) {
            None => None,
            Some(v) => match spec_variants(s, es.drop_first(), base) {
                None => None,
                Some(rest) => Some(seq![v] + rest),
            },
        }
    }
}

/// The variant list a manifest document fetched from `murl` decodes to, if
/// the document is well-shaped: `base_url` resolved against `murl`, then
/// each member of `video` in order.
pub open spec fn spec_manifest(s: Seq<u8>, murl: Seq<u8>) -> Option<Seq<VariantModel>> {
    match spec_doc_members(s) {
        None => None,
        Some(top) => match spec_string_at_key(s, top, spec_key_base_url()) {
            None => None,
            Some(rel) => match url_resolved(murl, rel) {
                None => None,
                Some(base) => match spec_find_key(top, spec_key_video()) {
                    None => None,
                    Some(vp) => match spec_arr_value_elems(s, vp) {
                        None => None,
                        Some(es) => spec_variants(s, es, base),
                    },
                },
            },
        },
    }
}

/// Reads one segment object, exactly as [`spec_segment`] describes.
fn segment_at(s: &[u8], e: usize) -> (r: Option<Segment>)
    requires
        e < s@.len(),
    ensures
        match r {
            Some(g) => spec_segment(s@, e as int) == Some(g@),
            None => spec_segment(s@, e as int) is None,
        },
{
    proof {
        reveal(spec_segment);
    }
    let m = match obj_value_members_at(s, e) {
        Some(m) => m,
        None => {
            return None;
        },
    };
    let path = match string_at_key(s, &m, &key_url()) {
        Some(v) => v,
        None => {
            return None;
        },
    };
    let size = match u64_at_key(s, &m, &key_size()) {
        Some(v) => v,
        None => {
            return None;
        },
    };
    Some(Segment { path, size })
}

/// Looks up `key` and reads its value as a `u64`, exactly as
/// [`spec_u64_at_key`] describes.
fn u64_at_key(s: &[u8], m: &Vec<(Vec<u8>, usize)>, key: &Vec<u8>) -> (r: Option<u64>)
    requires
        forall|k: int| 0 <= k < m@.len() ==> (#[trigger] m@[k]).1 < s@.len(),
    ensures
        r == spec_u64_at_key(s@, members_view(m@), key@),
{
    match find_key(m, key.as_slice()) {
        Some(p) => u64_value_at(s, p),
        None => None,
    }
}

/// Looks up `key` and reads its value's raw number text, exactly as
/// [`spec_numtext_at_key`] describes.
fn numtext_at_key(s: &[u8], m: &Vec<(Vec<u8>, usize)>, key: &Vec<u8>) -> (r: Option<Vec<u8>>)
    requires
        forall|k: int| 0 <= k < m@.len() ==> (#[trigger] m@[k]).1 < s@.len(),
    ensures
        match r {
            Some(v) => spec_numtext_at_key(s@, members_view(m@), key@) == Some(v@),
            None => spec_numtext_at_key(s@, members_view(m@), key@) is None,
        },
{
    match find_key(m, key.as_slice()) {
        Some(p) => number_text_at(s, p),
        None => None,
    }
}

/// Looks up `key` and reads its scalar value's raw text, with `null` for a
/// missing member, exactly as [`spec_scalar_or_null_at_key`] describes.
fn scalar_or_null_at_key(s: &[u8], m: &Vec<(Vec<u8>, usize)>, key: &Vec<u8>) -> (r: Option<
    Vec<u8>,
>)
    requires
        forall|k: int| 0 <= k < m@.len() ==> (#[trigger] m@[k]).1 < s@.len(),
    ensures
        match r {
            Some(v) => spec_scalar_or_null_at_key(s@, members_view(m@), key@) == Some(v@),
            None => spec_scalar_or_null_at_key(s@, members_view(m@), key@) is None,
        },
{
    match find_key(m, key.as_slice()) {
        Some(p) => scalar_text_at(s, p),
        None => Some(null_text()),
    }
}

/// Reads the segments at the listed offsets, in order, exactly as
/// [`spec_segments`] describes.
fn segments_at(s: &[u8], es: &Vec<usize>) -> (r: Option<Vec<Segment>>)
    requires
        forall|k: int| 0 <= k < es@.len() ==> #[trigger] es@[k] < s@.len(),
    ensures
        match r {
            Some(v) => spec_segments(s@, elems_view(es@)) == Some(segs_view(v@)),
            None => spec_segments(s@, elems_view(es@)) is None,
        },
{
    let mut segments: Vec<Segment> = Vec::new();
    let mut q: usize = 0;
    proof {
        assert(elems_view(es@).skip(0) =~= elems_view(es@));
        assert(segs_view(segments@) =~= Seq::<SegModel>::empty());
    }
    while q < es.len()
        invariant
            q <= es@.len(),
            forall|k: int| 0 <= k < es@.len() ==> #[trigger] es@[k] < s@.len(),
            match spec_segments(s@, elems_view(es@).skip(q as int)) {
                Some(rest) => spec_segments(s@, elems_view(es@)) == Some(
                    segs_view(segments@) + rest,
                ),
                None => spec_segments(s@, elems_view(es@)) is None,
            },
        decreases es@.len() - q,
    {
        proof {
            assert(elems_view(es@).skip(q as int)[0] == es@[q as int] as int);
            assert(elems_view(es@).skip(q as int).drop_first() =~= elems_view(es@).skip(
                q + 1 as int,
            ));
        }
        let g = match segment_at(s, es[q]) {
            Some(g) => g,
            None => {
                return None;
            },
        };
        let ghost segs0 = segments@;
        let ghost gv = g@;
        segments.push(g);
        proof {
            assert(segs_view(segments@) =~= segs_view(segs0) + seq![gv]);
            if let Some(rest) = spec_segments(s@, elems_view(es@).skip(q + 1 as int)) {
                assert(segs0.map_values(|g: Segment| g@) + (seq![gv] + rest) =~= (segs0.map_values(
                    |g: Segment| g@,
                ) + seq![gv]) + rest);
            }
        }
        q = q + 1;
    }
    proof {
        assert(elems_view(es@).skip(es@.len() as int) =~= Seq::<int>::empty());
        assert(segs_view(segments@) + Seq::<SegModel>::empty() =~= segs_view(segments@));
    }
    Some(segments)
}

/// Reads one variant object, exactly as [`spec_variant`] describes.
#[verifier::rlimit(100)]
fn variant_at(s: &[u8], v: usize, base: &Vec<u8>) -> (r: Option<VideoInfo>)
    requires
        v < s@.len(),
    ensures
        match r {
            Some(vi) => spec_variant(s@, v as int, base@) == Some(vi@),
            None => spec_variant(s@, v as int, base@) is None,
        },
{
    proof {
        reveal(spec_variant);
    }
    let m = match obj_value_members_at(s, v) {
        Some(m) => m,
        None => {
            return None;
        },
    };
    let id = match scalar_or_null_at_key(s, &m, &key_id()) {
        Some(x) => x,
        None => {
            return None;
        },
    };
    let codecs = match scalar_or_null_at_key(s, &m, &key_codecs()) {
        Some(x) => x,
        None => {
            return None;
        },
    };
    let bitrate = match u64_at_key(s, &m, &key_bitrate()) {
        Some(x) => x,
        None => {
            return None;
        },
    };
    let duration = match numtext_at_key(s, &m, &key_duration()) {
        Some(x) => x,
        None => {
            return None;
        },
    };
    let width = match u64_at_key(s, &m, &key_width()) {
        Some(x) => x,
        None => {
            return None;
        },
    };
    let height = match u64_at_key(s, &m, &key_height()) {
        Some(x) => x,
        None => {
            return None;
        },
    };
    let ib = match string_at_key(s, &m, &key_init_segment()) {
        Some(x) => x,
        None => {
            return None;
        },
    };
    let init_segment = match b64_decode(ib.as_slice()) {
        Some(x) => x,
        None => {
            return None;
        },
    };
    let sp = match find_key(&m, key_segments().as_slice()) {
        Some(x) => x,
        None => {
            return None;
        },
    };
    let es = match arr_value_elems_at(s, sp) {
        Some(x) => x,
        None => {
            return None;
        },
    };
    let segments = match segments_at(s, &es) {
        Some(v) => v,
        None => {
            return None;
        },
    };
    Some(
        VideoInfo {
            base_url: base.clone(),
            id,
            codecs,
            bitrate,
            duration,
            width,
            height,
            init_segment,
            segments,
        },
    )
}

/// Decodes a manifest document fetched from `manifest_url` into its variant
/// list, exactly as [`spec_manifest`] describes; any missing or ill-shaped
/// step — including a `base_url` that cannot be resolved and an
/// initialization block that is not valid unpadded base64 — is an
/// `InvalidFormat` failure.
#[verifier::rlimit(100)]
pub fn parse_manifest(body: &[u8], manifest_url: &[u8]) -> (r: Result<Vec<VideoInfo>, Error>)
    ensures
        match r {
            Ok(v) => spec_manifest(body@, manifest_url@) == Some(variants_view(v@)),
            Err(e) => spec_manifest(body@, manifest_url@) is None && e == Error::InvalidFormat,
        },
{
    let top = match doc_members(body) {
        Some(m) => m,
        None => {
            return Err(Error::InvalidFormat);
        },
    };
    let rel = match string_at_key(body, &top, &key_base_url()) {
        Some(v) => v,
        None => {
            return Err(Error::InvalidFormat);
        },
    };
    let base = match resolve_url(manifest_url, rel.as_slice()) {
        Some(v) => v,
        None => {
            return Err(Error::InvalidFormat);
        },
    };
    let vp = match find_key(&top, key_video().as_slice()) {
        Some(p) => p,
        None => {
            return Err(Error::InvalidFormat);
        },
    };
    let es = match arr_value_elems_at(body, vp) {
        Some(v) => v,
        None => {
            return Err(Error::InvalidFormat);
        },
    };
    match variants_at(body, &es, &base) {
        Some(out) => Ok(out),
        None => Err(Error::InvalidFormat),
    }
}

/// Reads the variants at the listed offsets, in order, exactly as
/// [`spec_variants`] describes.
fn variants_at(body: &[u8], es: &Vec<usize>, base: &Vec<u8>) -> (r: Option<Vec<VideoInfo>>)
    requires
        forall|k: int| 0 <= k < es@.len() ==> #[trigger] es@[k] < body@.len(),
    ensures
        match r {
            Some(v) => spec_variants(body@, elems_view(es@), base@) == Some(variants_view(v@)),
            None => spec_variants(body@, elems_view(es@), base@) is None,
        },
{
    let mut out: Vec<VideoInfo> = Vec::new();
    let mut q: usize = 0;
    proof {
        assert(elems_view(es@).skip(0) =~= elems_view(es@));
        assert(variants_view(out@) =~= Seq::<VariantModel>::empty());
    }
    while q < es.len()
        invariant
            q <= es@.len(),
            forall|k: int| 0 <= k < es@.len() ==> #[trigger] es@[k] < body@.len(),
            match spec_variants(body@, elems_view(es@).skip(q as int), base@) {
                Some(rest) => spec_variants(body@, elems_view(es@), base@) == Some(
                    variants_view(out@) + rest,
                ),
                None => spec_variants(body@, elems_view(es@), base@) is None,
            },
        decreases es@.len() - q,
    {
        proof {
            assert(elems_view(es@).skip(q as int)[0] == es@[q as int] as int);
            assert(elems_view(es@).skip(q as int).drop_first() =~= elems_view(es@).skip(
                q + 1 as int,
            ));
        }
        let vi = match variant_at(body, es[q], base) {
            Some(v) => v,
            None => {
                return None;
            },
        };
        let ghost out0 = out@;
        let ghost vv = vi@;
        out.push(vi);
        proof {
            assert(variants_view(out@) =~= variants_view(out0) + seq![vv]);
            if let Some(rest) = spec_variants(body@, elems_view(es@).skip(q + 1 as int), base@) {
                assert(variants_view(out0) + (seq![vv] + rest) =~= (variants_view(out0)
                    + seq![vv]) + rest);
            }
        }
        q = q + 1;
    }
    proof {
        assert(elems_view(es@).skip(es@.len() as int) =~= Seq::<int>::empty());
        assert(variants_view(out@) + Seq::<VariantModel>::empty() =~= variants_view(out@));
    }
    Some(out)
}

/// Selects the variant with the numerically largest `width`; ties resolve
/// to the earliest-occurring variant. `None` exactly when the list is
/// empty.
pub fn select_best(videos: &Vec<VideoInfo>) -> (r: Option<usize>)
    ensures
        match r {
            Some(i) => i < videos@.len() && (forall|j: int|
                0 <= j < videos@.len() ==> (#[trigger] videos@[j])@.width <= videos@[
                    i as int
                ]@.width) && (forall|j: int|
                0 <= j < i as int ==> (#[trigger] videos@[j])@.width < videos@[i as int]@.width),
            None => videos@.len() == 0,
        },
{
    if videos.len() == 0 {
        return None;
    }
    let mut best: usize = 0;
    let mut q: usize = 1;
    while q < videos.len()
        invariant
            best < q <= videos@.len(),
            forall|j: int| 0 <= j < q ==> (#[trigger] videos@[j])@.width <= videos@[
                best as int
            ]@.width,
            forall|j: int| 0 <= j < best as int ==> (#[trigger] videos@[j])@.width < videos@[
                best as int
            ]@.width,
        decreases videos@.len() - q,
    {
        if videos[q].width > videos[best].width {
            best = q;
        }
        q = q + 1;
    }
    Some(best)
}


/// The textual summary of a variant: identity, codec descriptor, frame
/// size, duration and bitrate.
pub open spec fn spec_describe(v: VariantModel) -> Seq<u8> {
    v.id + seq![58u8, 32u8] + v.codecs + seq![44u8, 32u8] + spec_u64_dec(v.width as int)
        + seq![120u8] + spec_u64_dec(v.height as int) + seq![44u8, 32u8] + v.duration
        + seq![32u8, 115u8, 101u8, 99u8, 111u8, 110u8, 100u8, 115u8, 44u8, 32u8] + spec_u64_dec(
        v.bitrate as int,
    ) + seq![32u8, 98u8, 105u8, 116u8, 114u8, 97u8, 116u8, 101u8]
}

impl VideoInfo {
    /// Renders the variant's textual summary, exactly as [`spec_describe`]
    /// gives it.
    pub fn describe(&self) -> (r: Vec<u8>)
        ensures
            r@ == spec_describe(self@),
    {
        let colon_sp = vec![58u8, 32u8];
        let comma_sp = vec![44u8, 32u8];
        let x_sep = vec![120u8];
        let seconds_sp = vec![32u8, 115u8, 101u8, 99u8, 111u8, 110u8, 100u8, 115u8, 44u8, 32u8];
        let bitrate_sp = vec![32u8, 98u8, 105u8, 116u8, 114u8, 97u8, 116u8, 101u8];
        proof {
            assert(colon_sp@ =~= seq![58u8, 32u8]);
            assert(comma_sp@ =~= seq![44u8, 32u8]);
            assert(x_sep@ =~= seq![120u8]);
            assert(seconds_sp@ =~= seq![
                32u8, 115u8, 101u8, 99u8, 111u8, 110u8, 100u8, 115u8, 44u8, 32u8,
            ]);
            assert(bitrate_sp@ =~= seq![32u8, 98u8, 105u8, 116u8, 114u8, 97u8, 116u8, 101u8]);
        }
        let mut out: Vec<u8> = self.id.clone();
        push_all(&mut out, colon_sp.as_slice());
        push_all(&mut out, self.codecs.as_slice());
        push_all(&mut out, comma_sp.as_slice());
        let w = u64_dec(self.width);
        push_all(&mut out, w.as_slice());
        push_all(&mut out, x_sep.as_slice());
        let h = u64_dec(self.height);
        push_all(&mut out, h.as_slice());
        push_all(&mut out, comma_sp.as_slice());
        push_all(&mut out, self.duration.as_slice());
        push_all(&mut out, seconds_sp.as_slice());
        let b = u64_dec(self.bitrate);
        push_all(&mut out, b.as_slice());
        push_all(&mut out, bitrate_sp.as_slice());
        out
    }
}

} // verus!
