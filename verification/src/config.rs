//! Locating the manifest URL inside the configuration document.
//!
//! The configuration document is JSON of the shape
//! `{request: {files: {dash: {default_cdn: <id>, cdns: {<id>: {url: <u>,
//! ...}, ...}}}}}`. Resolution reads the default delivery-endpoint
//! identifier, looks it up in the endpoint mapping, and returns that
//! endpoint's `url`. Every missing or ill-shaped step is an
//! `InvalidFormat` failure; only the `dash` scheme is read, other schemes
//! are ignored.

use vstd::prelude::*;

use crate::Error;
use crate::json::{
    spec_doc_members, spec_find_key, spec_obj_value_members, spec_string_value, doc_members,
    find_key, obj_value_members_at, string_value_at, members_view,
};
use crate::keys::{
    spec_key_request, spec_key_files, spec_key_dash, spec_key_default_cdn, spec_key_cdns,
    spec_key_url, key_request, key_files, key_dash, key_default_cdn, key_cdns, key_url,
};

verus! {

/// The members of the object stored under `key`, if `m` has such a member
/// and its value is an object.
pub open spec fn spec_members_at_key(s: Seq<u8>, m: Seq<(Seq<u8>, int)>, key: Seq<u8>) -> Option<
    Seq<(Seq<u8>, int)>,
> {
    match spec_find_key(m, key) {
        Some(p) => spec_obj_value_members(s, p),
        None => None,
    }
}

/// The string stored under `key`, if `m` has such a member and its value is
/// a string.
pub open spec fn spec_string_at_key(s: Seq<u8>, m: Seq<(Seq<u8>, int)>, key: Seq<u8>) -> Option<
    Seq<u8>,
> {
    match spec_find_key(m, key) {
        Some(p) => spec_string_value(s, p),
        None => None,
    }
}

/// The members of the `dash` delivery-scheme object:
/// `request.files.dash` from the document root.
pub open spec fn spec_dash_members(s: Seq<u8>) -> Option<Seq<(Seq<u8>, int)>> {
    match spec_doc_members(s) {
        None => None,
        Some(top) => match spec_members_at_key(s, top, spec_key_request()) {
            None => None,
            Some(req) => match spec_members_at_key(s, req, spec_key_files()) {
                None => None,
                Some(fl) => spec_members_at_key(s, fl, spec_key_dash()),
            },
        },
    }
}

/// The manifest URL the `dash` object designates: the `url` of the endpoint
/// whose identifier equals `default_cdn`.
pub open spec fn spec_locate_from_dash(s: Seq<u8>, dash: Seq<(Seq<u8>, int)>) -> Option<Seq<u8>> {
    match spec_string_at_key(s, dash, spec_key_default_cdn()) {
        None => None,
        Some(id) => match spec_members_at_key(s, dash, spec_key_cdns()) {
            None => None,
            Some(cs) => match spec_find_key(cs, id) {
                None => None,
                Some(ep) => match spec_obj_value_members(s, ep) {
                    None => None,
                    Some(em) => spec_string_at_key(s, em, spec_key_url()),
                },
            },
        },
    }
}

/// The manifest URL a configuration document designates, if it is
/// well-shaped.
pub open spec fn spec_locate(s: Seq<u8>) -> Option<Seq<u8>> {
    match spec_dash_members(s) {
        None => None,
        Some(dash) => spec_locate_from_dash(s, dash),
    }
}

/// When the endpoint mapping holds a key equal to the default identifier,
/// resolution returns exactly that endpoint's `url`; when the key is
/// absent, resolution fails.
pub proof fn lemma_locate_uses_default_cdn(
    s: Seq<u8>,
    dash: Seq<(Seq<u8>, int)>,
    id: Seq<u8>,
    cs: Seq<(Seq<u8>, int)>,
)
    requires
        spec_dash_members(s) == Some(dash),
        spec_string_at_key(s, dash, spec_key_default_cdn()) == Some(id),
        spec_members_at_key(s, dash, spec_key_cdns()) == Some(cs),
    ensures
        spec_find_key(cs, id) is None ==> spec_locate(s) is None,
        spec_find_key(cs, id) matches Some(ep) ==> spec_locate(s) == (
        match spec_obj_value_members(s, ep) {
            Some(em) => spec_string_at_key(s, em, spec_key_url()),
            None => None,
        }),
{
}

/// Resolves the manifest URL out of a fetched configuration document,
/// exactly as [`spec_locate`] describes; any missing or ill-shaped step is
/// an `InvalidFormat` failure.
pub fn locate_manifest_url(body: &[u8]) -> (r: Result<Vec<u8>, Error>)
    ensures
        match r {
            Ok(v) => spec_locate(body@) == Some(v@),
            Err(e) => spec_locate(body@) is None && e == Error::InvalidFormat,
        },
{
    let top = match doc_members(body) {
        Some(m) => m,
        None => {
            return Err(Error::InvalidFormat);
        },
    };
    let req = match members_at_key(body, &top, &key_request()) {
        Some(m) => m,
        None => {
            return Err(Error::InvalidFormat);
        },
    };
    let fl = match members_at_key(body, &req, &key_files()) {
        Some(m) => m,
        None => {
            return Err(Error::InvalidFormat);
        },
    };
    let dash = match members_at_key(body, &fl, &key_dash()) {
        Some(m) => m,
        None => {
            return Err(Error::InvalidFormat);
        },
    };
    let id = match string_at_key(body, &dash, &key_default_cdn()) {
        Some(v) => v,
        None => {
            return Err(Error::InvalidFormat);
        },
    };
    let cs = match members_at_key(body, &dash, &key_cdns()) {
        Some(m) => m,
        None => {
            return Err(Error::InvalidFormat);
        },
    };
    let ep = match find_key(&cs, id.as_slice()) {
        Some(p) => p,
        None => {
            return Err(Error::InvalidFormat);
        },
    };
    let em = match obj_value_members_at(body, ep) {
        Some(m) => m,
        None => {
            return Err(Error::InvalidFormat);
        },
    };
    match string_at_key(body, &em, &key_url()) {
        Some(v) => Ok(v),
        None => Err(Error::InvalidFormat),
    }
}

/// Looks up `key` in listed members and reads its value as an object,
/// exactly as [`spec_members_at_key`] describes. The listed member offsets
/// must lie inside `s`.
pub fn members_at_key(s: &[u8], m: &Vec<(Vec<u8>, usize)>, key: &Vec<u8>) -> (r: Option<
    Vec<(Vec<u8>, usize)>,
>)
    requires
        forall|k: int| 0 <= k < m@.len() ==> (#[trigger] m@[k]).1 < s@.len(),
    ensures
        match r {
            Some(out) => spec_members_at_key(s@, members_view(m@), key@) == Some(
                members_view(out@),
            ) && forall|k: int| 0 <= k < out@.len() ==> (#[trigger] out@[k]).1 < s@.len(),
            None => spec_members_at_key(s@, members_view(m@), key@) is None,
        },
{
    match find_key(m, key.as_slice()) {
        Some(p) => obj_value_members_at(s, p),
        None => None,
    }
}

/// Looks up `key` in listed members and reads its value as a string,
/// exactly as [`spec_string_at_key`] describes. The listed member offsets
/// must lie inside `s`.
pub fn string_at_key(s: &[u8], m: &Vec<(Vec<u8>, usize)>, key: &Vec<u8>) -> (r: Option<Vec<u8>>)
    requires
        forall|k: int| 0 <= k < m@.len() ==> (#[trigger] m@[k]).1 < s@.len(),
    ensures
        match r {
            Some(v) => spec_string_at_key(s@, members_view(m@), key@) == Some(v@),
            None => spec_string_at_key(s@, members_view(m@), key@) is None,
        },
{
    match find_key(m, key.as_slice()) {
        Some(p) => string_value_at(s, p),
        None => None,
    }
}

} // verus!
