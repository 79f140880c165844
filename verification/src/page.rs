//! Extracting the configuration URL embedded in an HTML page.
//!
//! The page carries the URL in an attribute-style marker
//! `data-config-url="<value>"`. The first position where the whole pattern
//! matches — marker, then at least one non-quote byte, then a closing
//! quote — yields the value, which is then HTML-entity-decoded.

use vstd::prelude::*;

use crate::Error;
use crate::json::bytes_eq;

verus! {

/// The marker text `data-config-url="`.
pub open spec fn spec_marker() -> Seq<u8> {
    seq![
        100u8, 97u8, 116u8, 97u8, 45u8, 99u8, 111u8, 110u8, 102u8, 105u8, 103u8, 45u8, 117u8,
        114u8, 108u8, 61u8, 34u8,
    ]
}

fn marker_bytes() -> (r: Vec<u8>)
    ensures
        r@ == spec_marker(),
{
    let r = vec![
        100u8, 97u8, 116u8, 97u8, 45u8, 99u8, 111u8, 110u8, 102u8, 105u8, 103u8, 45u8, 117u8,
        114u8, 108u8, 61u8, 34u8,
    ];
    proof {
        assert(r@ =~= spec_marker());
    }
    r
}

/// Whether the marker text stands at offset `i`.
pub open spec fn marker_at(s: Seq<u8>, i: int) -> bool {
    0 <= i && i + 17 <= s.len() && s.subrange(i, i + 17) == spec_marker()
}

/// The offset of the first quote at or after `k`.
pub open spec fn spec_quote_from(s: Seq<u8>, k: int) -> Option<int>
    decreases s.len() - k,
{
    if k < 0 || k >= s.len() {
        None
    } else if s[k] == 34 {
        Some(k)
    } else {
        spec_quote_from(s, k + 1)
    }
}

/// Whether the whole pattern matches at offset `i`: the marker, at least
/// one non-quote byte, and a closing quote.
pub open spec fn match_at(s: Seq<u8>, i: int) -> bool {
    marker_at(s, i) && match spec_quote_from(s, i + 17) {
        Some(j) => j > i + 17,
        None => false,
    }
}

/// The first offset at or after `i` where the whole pattern matches.
pub open spec fn spec_first_match(s: Seq<u8>, i: int) -> Option<int>
    decreases s.len() - i,
{
    if i < 0 || i + 17 > s.len() {
        None
    } else if match_at(s, i) {
        Some(i)
    } else {
        spec_first_match(s, i + 1)
    }
}

/// The still-encoded value captured by the first pattern match, if any.
pub open spec fn spec_captured(s: Seq<u8>) -> Option<Seq<u8>> {
    match spec_first_match(s, 0) {
        Some(i) => match spec_quote_from(s, i + 17) {
            Some(j) => Some(s.subrange(i + 17, j)),
            None => None,
        },
        None => None,
    }
}

/// What HTML-entity-decoding a byte string yields. Decoding depends on the
/// text alone.
pub uninterp spec fn html_decoded(s: Seq<u8>) -> Seq<u8>;

/// Relies on `html_escape::decode_html_entities`: decodes every exact named
/// and numeric character reference ending with `;`, leaves all other text
/// unchanged, and depends on the input text alone. Text without an
/// ampersand holds no reference and comes back unchanged; input that is
/// not UTF-8 comes back unchanged.
#[verifier::external_body]
pub fn html_decode(s: &[u8]) -> (r: Vec<u8>)
    ensures
        r@ == html_decoded(s@),
        (forall|k: int| 0 <= k < s@.len() ==> s@[k] != 38) ==> r@ == s@,
{
    match std::str::from_utf8(s) {
        Ok(t) => html_escape::decode_html_entities(t).as_bytes().to_vec(),
        Err(_) => s.to_vec(),
    }
}

/// The offset of the first quote at or after `k`, exactly as
/// [`spec_quote_from`] describes.
fn quote_from(s: &[u8], k: usize) -> (r: Option<usize>)
    requires
        k <= s@.len(),
    ensures
        match r {
            Some(j) => spec_quote_from(s@, k as int) == Some(j as int) && k <= j < s@.len(),
            None => spec_quote_from(s@, k as int) is None,
        },
{
    let mut q = k;
    while q < s.len() && s[q] != 34
        invariant
            k <= q <= s@.len(),
            spec_quote_from(s@, k as int) == spec_quote_from(s@, q as int),
        decreases s@.len() - q,
    {
        q = q + 1;
    }
    if q < s.len() {
        Some(q)
    } else {
        None
    }
}

/// Extracts the configuration URL out of a fetched HTML page: the first
/// `data-config-url="<value>"` marker's value, HTML-entity-decoded. When no
/// such marker (with a non-empty, quote-terminated value) exists, the page
/// holds nothing to resolve: `NotFound`.
pub fn extract_config_url(body: &[u8]) -> (r: Result<Vec<u8>, Error>)
    ensures
        match r {
            Ok(v) => spec_captured(body@) matches Some(c) && v@ == html_decoded(c),
            Err(e) => spec_captured(body@) is None && e == Error::NotFound,
        },
{
    let marker = marker_bytes();
    let mut i: usize = 0;
    while body.len() - i >= 17
        invariant
            marker@ == spec_marker(),
            i <= body@.len(),
            spec_first_match(body@, 0) == spec_first_match(body@, i as int),
        decreases body@.len() - i,
    {
        let piece = vstd::slice::slice_subrange(body, i, i + 17);
        if bytes_eq(piece, marker.as_slice()) {
            match quote_from(body, i + 17) {
                Some(j) => {
                    if j > i + 17 {
                        proof {
                            assert(match_at(body@, i as int));
                        }
                        let captured = vstd::slice::slice_subrange(body, i + 17, j);
                        let decoded = html_decode(captured);
                        return Ok(decoded);
                    }
                },
                None => {},
            }
        }
        proof {
            assert(!match_at(body@, i as int));
        }
        i = i + 1;
    }
    Err(Error::NotFound)
}

} // verus!
