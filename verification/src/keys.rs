//! The member keys the configuration and manifest documents are read by.

use vstd::prelude::*;

verus! {

pub open spec fn spec_key_request() -> Seq<u8> {
    seq![114u8, 101u8, 113u8, 117u8, 101u8, 115u8, 116u8]
}

pub fn key_request() -> (r: Vec<u8>)
    ensures
        r@ == spec_key_request(),
{
    let r = vec![114u8, 101u8, 113u8, 117u8, 101u8, 115u8, 116u8];
    proof {
        assert(r@ =~= spec_key_request());
    }
    r
}

pub open spec fn spec_key_files() -> Seq<u8> {
    seq![102u8, 105u8, 108u8, 101u8, 115u8]
}

pub fn key_files() -> (r: Vec<u8>)
    ensures
        r@ == spec_key_files(),
{
    let r = vec![102u8, 105u8, 108u8, 101u8, 115u8];
    proof {
        assert(r@ =~= spec_key_files());
    }
    r
}

pub open spec fn spec_key_dash() -> Seq<u8> {
    seq![100u8, 97u8, 115u8, 104u8]
}

pub fn key_dash() -> (r: Vec<u8>)
    ensures
        r@ == spec_key_dash(),
{
    let r = vec![100u8, 97u8, 115u8, 104u8];
    proof {
        assert(r@ =~= spec_key_dash());
    }
    r
}

pub open spec fn spec_key_default_cdn() -> Seq<u8> {
    seq![100u8, 101u8, 102u8, 97u8, 117u8, 108u8, 116u8, 95u8, 99u8, 100u8, 110u8]
}

pub fn key_default_cdn() -> (r: Vec<u8>)
    ensures
        r@ == spec_key_default_cdn(),
{
    let r = vec![100u8, 101u8, 102u8, 97u8, 117u8, 108u8, 116u8, 95u8, 99u8, 100u8, 110u8];
    proof {
        assert(r@ =~= spec_key_default_cdn());
    }
    r
}

pub open spec fn spec_key_cdns() -> Seq<u8> {
    seq![99u8, 100u8, 110u8, 115u8]
}

pub fn key_cdns() -> (r: Vec<u8>)
    ensures
        r@ == spec_key_cdns(),
{
    let r = vec![99u8, 100u8, 110u8, 115u8];
    proof {
        assert(r@ =~= spec_key_cdns());
    }
    r
}

pub open spec fn spec_key_url() -> Seq<u8> {
    seq![117u8, 114u8, 108u8]
}

pub fn key_url() -> (r: Vec<u8>)
    ensures
        r@ == spec_key_url(),
{
    let r = vec![117u8, 114u8, 108u8];
    proof {
        assert(r@ =~= spec_key_url());
    }
    r
}

pub open spec fn spec_key_base_url() -> Seq<u8> {
    seq![98u8, 97u8, 115u8, 101u8, 95u8, 117u8, 114u8, 108u8]
}

pub fn key_base_url() -> (r: Vec<u8>)
    ensures
        r@ == spec_key_base_url(),
{
    let r = vec![98u8, 97u8, 115u8, 101u8, 95u8, 117u8, 114u8, 108u8];
    proof {
        assert(r@ =~= spec_key_base_url());
    }
    r
}

pub open spec fn spec_key_video() -> Seq<u8> {
    seq![118u8, 105u8, 100u8, 101u8, 111u8]
}

pub fn key_video() -> (r: Vec<u8>)
    ensures
        r@ == spec_key_video(),
{
    let r = vec![118u8, 105u8, 100u8, 101u8, 111u8];
    proof {
        assert(r@ =~= spec_key_video());
    }
    r
}

pub open spec fn spec_key_id() -> Seq<u8> {
    seq![105u8, 100u8]
}

pub fn key_id() -> (r: Vec<u8>)
    ensures
        r@ == spec_key_id(),
{
    let r = vec![105u8, 100u8];
    proof {
        assert(r@ =~= spec_key_id());
    }
    r
}

pub open spec fn spec_key_codecs() -> Seq<u8> {
    seq![99u8, 111u8, 100u8, 101u8, 99u8, 115u8]
}

pub fn key_codecs() -> (r: Vec<u8>)
    ensures
        r@ == spec_key_codecs(),
{
    let r = vec![99u8, 111u8, 100u8, 101u8, 99u8, 115u8];
    proof {
        assert(r@ =~= spec_key_codecs());
    }
    r
}

pub open spec fn spec_key_bitrate() -> Seq<u8> {
    seq![98u8, 105u8, 116u8, 114u8, 97u8, 116u8, 101u8]
}

pub fn key_bitrate() -> (r: Vec<u8>)
    ensures
        r@ == spec_key_bitrate(),
{
    let r = vec![98u8, 105u8, 116u8, 114u8, 97u8, 116u8, 101u8];
    proof {
        assert(r@ =~= spec_key_bitrate());
    }
    r
}

pub open spec fn spec_key_duration() -> Seq<u8> {
    seq![100u8, 117u8, 114u8, 97u8, 116u8, 105u8, 111u8, 110u8]
}

pub fn key_duration() -> (r: Vec<u8>)
    ensures
        r@ == spec_key_duration(),
{
    let r = vec![100u8, 117u8, 114u8, 97u8, 116u8, 105u8, 111u8, 110u8];
    proof {
        assert(r@ =~= spec_key_duration());
    }
    r
}

pub open spec fn spec_key_width() -> Seq<u8> {
    seq![119u8, 105u8, 100u8, 116u8, 104u8]
}

pub fn key_width() -> (r: Vec<u8>)
    ensures
        r@ == spec_key_width(),
{
    let r = vec![119u8, 105u8, 100u8, 116u8, 104u8];
    proof {
        assert(r@ =~= spec_key_width());
    }
    r
}

pub open spec fn spec_key_height() -> Seq<u8> {
    seq![104u8, 101u8, 105u8, 103u8, 104u8, 116u8]
}

pub fn key_height() -> (r: Vec<u8>)
    ensures
        r@ == spec_key_height(),
{
    let r = vec![104u8, 101u8, 105u8, 103u8, 104u8, 116u8];
    proof {
        assert(r@ =~= spec_key_height());
    }
    r
}

pub open spec fn spec_key_init_segment() -> Seq<u8> {
    seq![105u8, 110u8, 105u8, 116u8, 95u8, 115u8, 101u8, 103u8, 109u8, 101u8, 110u8, 116u8]
}

pub fn key_init_segment() -> (r: Vec<u8>)
    ensures
        r@ == spec_key_init_segment(),
{
    let r = vec![105u8, 110u8, 105u8, 116u8, 95u8, 115u8, 101u8, 103u8, 109u8, 101u8, 110u8, 116u8];
    proof {
        assert(r@ =~= spec_key_init_segment());
    }
    r
}

pub open spec fn spec_key_segments() -> Seq<u8> {
    seq![115u8, 101u8, 103u8, 109u8, 101u8, 110u8, 116u8, 115u8]
}

pub fn key_segments() -> (r: Vec<u8>)
    ensures
        r@ == spec_key_segments(),
{
    let r = vec![115u8, 101u8, 103u8, 109u8, 101u8, 110u8, 116u8, 115u8];
    proof {
        assert(r@ =~= spec_key_segments());
    }
    r
}

pub open spec fn spec_key_size() -> Seq<u8> {
    seq![115u8, 105u8, 122u8, 101u8]
}

pub fn key_size() -> (r: Vec<u8>)
    ensures
        r@ == spec_key_size(),
{
    let r = vec![115u8, 105u8, 122u8, 101u8];
    proof {
        assert(r@ =~= spec_key_size());
    }
    r
}

/// The textual form of a missing scalar: the word `null`.
pub open spec fn spec_null_text() -> Seq<u8> {
    seq![110u8, 117u8, 108u8, 108u8]
}

pub fn null_text() -> (r: Vec<u8>)
    ensures
        r@ == spec_null_text(),
{
    let r = vec![110u8, 117u8, 108u8, 108u8];
    proof {
        assert(r@ =~= spec_null_text());
    }
    r
}

} // verus!
