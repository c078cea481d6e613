//! What the guard uses of the `http` and `bytes` crates.
//!
//! Every contract in this module is taken on trust: it states what the
//! sources of those crates show, and nothing here proves it.
use vstd::prelude::*;

use crate::request::GuardClientIp;
use bytes::{Bytes, BytesMut};
use guard_core_engine::ip_gate::IpGateDecision;
use http::{Extensions, HeaderMap, Uri};

verus! {

/// The target of a request.
#[verifier::external_type_specification]
#[verifier::external_body]
pub struct ExUri(Uri);

/// A multimap from header names to values.
#[verifier::external_type_specification]
#[verifier::external_body]
#[verifier::reject_recursive_types(T)]
pub struct ExHeaderMap<T>(HeaderMap<T>);

/// A header value.
#[verifier::external_type_specification]
#[verifier::external_body]
pub struct ExHeaderValue(http::HeaderValue);

/// The values attached to a request, at most one of each type.
#[verifier::external_type_specification]
#[verifier::external_body]
pub struct ExExtensions(Extensions);

/// A shared byte sequence.
#[verifier::external_type_specification]
#[verifier::external_body]
pub struct ExBytes(Bytes);

/// A byte buffer that grows.
#[verifier::external_type_specification]
#[verifier::external_body]
pub struct ExBytesMut(BytesMut);

// ---- the target ----

/// The path of a request target.
pub uninterp spec fn uri_path(uri: Uri) -> Seq<char>;

/// The query of a request target, where it has one.
pub uninterp spec fn uri_query(uri: Uri) -> Option<Seq<char>>;

/// The text of an optional string slice.
pub open spec fn optional_text(text: Option<&str>) -> Option<Seq<char>> {
    match text {
        Some(text) => Some(text@),
        None => None,
    }
}

/// `Uri::path`: the path that [`uri_path`] names. How a target is taken apart
/// is not stated.
pub assume_specification[ Uri::path ](uri: &Uri) -> (path: &str)
    ensures
        path@ == uri_path(*uri),
;

/// `Uri::query`: the query that [`uri_query`] names. How a target is taken
/// apart is not stated.
pub assume_specification[ Uri::query ](uri: &Uri) -> (query: Option<&str>)
    ensures
        optional_text(query) == uri_query(*uri),
;

// ---- headers ----

/// The name and the raw value of every header a map holds, in the order in
/// which the map is walked.
pub uninterp spec fn header_entries(headers: HeaderMap) -> Seq<(Seq<char>, Seq<u8>)>;

/// The first value listed under a name.
pub open spec fn first_named(entries: Seq<(Seq<char>, Seq<u8>)>, name: Seq<char>) -> Option<Seq<u8>>
    decreases entries.len(),
{
    if entries.len() == 0 {
        None
    } else if entries[0].0 == name {
        Some(entries[0].1)
    } else {
        first_named(entries.drop_first(), name)
    }
}

/// `HeaderMap::iter`: every header the map holds, in the order that
/// [`header_entries`] names. The pairs are copied out, the names as text and
/// the values as bytes.
#[verifier::external_body]
pub(crate) fn header_list(headers: &HeaderMap) -> (list: Vec<(String, Vec<u8>)>)
    ensures
        list.deep_view() == header_entries(*headers),
{
    headers
        .iter()
        .map(|(name, value)| (name.as_str().to_owned(), value.as_bytes().to_vec()))
        .collect()
}

/// `HeaderMap::get` for `Content-Type`: the first value that walking the map
/// finds under that name; names are kept in lower case.
#[verifier::external_body]
pub(crate) fn content_type_value(headers: &HeaderMap) -> (value: Option<Vec<u8>>)
    ensures
        value.deep_view() == first_named(header_entries(*headers), "content-type"@),
{
    headers.get(http::header::CONTENT_TYPE).map(|value| value.as_bytes().to_vec())
}

// ---- extensions ----

/// The client address attached to a request.
pub uninterp spec fn attached_client_ip(extensions: Extensions) -> Option<GuardClientIp>;

/// The IP gate's decision attached to a request.
pub uninterp spec fn attached_decision(extensions: Extensions) -> Option<IpGateDecision>;

/// The values of every other type that are attached to a request, by type.
/// Which numbers stand for a type and for a value is left open.
pub uninterp spec fn other_extensions(extensions: Extensions) -> Map<int, int>;

/// `Extensions::get` for [`GuardClientIp`]: the value that
/// [`attached_client_ip`] names.
#[verifier::external_body]
pub(crate) fn client_ip_of(extensions: &Extensions) -> (ip: Option<GuardClientIp>)
    ensures
        ip == attached_client_ip(*extensions),
{
    extensions.get::<GuardClientIp>().copied()
}

/// `Extensions::get` for [`IpGateDecision`]: the value that
/// [`attached_decision`] names.
#[verifier::external_body]
pub(crate) fn decision_of(extensions: &Extensions) -> (decision: Option<IpGateDecision>)
    ensures
        decision == attached_decision(*extensions),
{
    extensions.get::<IpGateDecision>().copied()
}

/// `Extensions::insert` of an [`IpGateDecision`]: it replaces an earlier one,
/// and leaves values of other types as they are.
#[verifier::external_body]
pub(crate) fn attach_decision(extensions: &mut Extensions, decision: IpGateDecision)
    ensures
        attached_decision(*final(extensions)) == Some(decision),
        attached_client_ip(*final(extensions)) == attached_client_ip(*old(extensions)),
        other_extensions(*final(extensions)) == other_extensions(*old(extensions)),
{
    extensions.insert(decision);
}

// ---- bytes ----

/// The bytes a [`Bytes`] holds.
pub uninterp spec fn bytes_content(bytes: Bytes) -> Seq<u8>;

/// The bytes a [`BytesMut`] holds.
pub uninterp spec fn buffer_content(buffer: BytesMut) -> Seq<u8>;

/// `BytesMut::new`: an empty buffer.
pub assume_specification[ BytesMut::new ]() -> (buffer: BytesMut)
    ensures
        buffer_content(buffer) == Seq::<u8>::empty(),
;

/// `BytesMut::len`: how many bytes the buffer holds.
pub assume_specification[ BytesMut::len ](buffer: &BytesMut) -> (len: usize)
    ensures
        len == buffer_content(*buffer).len(),
;

/// `BytesMut::is_empty`: whether the buffer holds nothing.
pub assume_specification[ BytesMut::is_empty ](buffer: &BytesMut) -> (empty: bool)
    ensures
        empty == (buffer_content(*buffer).len() == 0),
;

/// `BytesMut::extend_from_slice`: the bytes are added at the end. It panics
/// where the length would overflow, which is left out.
pub assume_specification[ BytesMut::extend_from_slice ](buffer: &mut BytesMut, extend: &[u8])
    requires
        buffer_content(*old(buffer)).len() + extend@.len() <= usize::MAX,
    ensures
        buffer_content(*final(buffer)) == buffer_content(*old(buffer)) + extend@,
;

/// `BytesMut::freeze`: the same bytes, no longer to be changed.
pub assume_specification[ BytesMut::freeze ](buffer: BytesMut) -> (bytes: Bytes)
    ensures
        bytes_content(bytes) == buffer_content(buffer),
;

/// `Bytes::new`: no bytes.
pub assume_specification[ Bytes::new ]() -> (bytes: Bytes)
    ensures
        bytes_content(bytes) == Seq::<u8>::empty(),
;

/// `Bytes` as a slice: the bytes it holds.
pub assume_specification[ <Bytes as core::ops::Deref>::deref ](bytes: &Bytes) -> (slice: &[u8])
    ensures
        slice@ == bytes_content(*bytes),
;

} // verus!
