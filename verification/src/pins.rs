//! Pin management facade: the pin record the daemon returns, the URLs of
//! the list, ingest and pin endpoints, and the rules the request layer
//! applies — a content identifier must be non-blank, and ingesting in
//! distributed (compressed) mode skips the explicit pin step.

use vstd::prelude::*;
use vstd::string::StringSliceAdditionalSpecFns;
use crate::api::{local_api_base, local_api_base_bytes, url_encoded, url_encode};
use crate::text::{trim_spec, trim_bytes};

verus! {

/// One pinned item as the daemon reports it.
pub struct PinInfo {
    /// The content identifier.
    pub cid: String,
    /// An optional display name.
    pub name: Option<String>,
    /// An optional MIME type.
    pub mime: Option<String>,
    /// An optional size in bytes.
    pub size: Option<u64>,
}

/// The pin-listing URL.
pub open spec fn pins_url_spec(port: u16) -> Seq<u8> {
    local_api_base(port) + "/pins".spec_bytes()
}

/// Build the pin-listing URL.
pub fn pins_url(port: u16) -> (r: Vec<u8>)
    ensures
        r@ == pins_url_spec(port),
{
    let mut v = local_api_base_bytes(port);
    crate::text::append_bytes(&mut v, "/pins".as_bytes());
    v
}

/// The ingest URL for a filesystem path, with the compression flag when
/// distributed mode was requested.
pub open spec fn put_url_spec(port: u16, path: Seq<u8>, compress: bool) -> Seq<u8> {
    local_api_base(port) + "/dfs/put?in=".spec_bytes() + url_encoded(path) + (if compress {
        "&compress=1".spec_bytes()
    } else {
        Seq::<u8>::empty()
    })
}

/// Build the ingest URL for `path`.
pub fn put_url(port: u16, path: &[u8], compress: bool) -> (r: Vec<u8>)
    ensures
        r@ == put_url_spec(port, path@, compress),
{
    let mut v = local_api_base_bytes(port);
    crate::text::append_bytes(&mut v, "/dfs/put?in=".as_bytes());
    let enc = url_encode(path);
    crate::text::append_bytes(&mut v, enc.as_slice());
    if compress {
        crate::text::append_bytes(&mut v, "&compress=1".as_bytes());
    } else {
        proof {
            assert(v@ =~= v@ + Seq::<u8>::empty());
        }
    }
    v
}

/// The pin URL for a content identifier.
pub open spec fn pin_url_spec(port: u16, cid: Seq<u8>) -> Seq<u8> {
    local_api_base(port) + "/pin?cid=".spec_bytes() + url_encoded(cid)
}

/// Build the pin URL for `cid`.
pub fn pin_url(port: u16, cid: &[u8]) -> (r: Vec<u8>)
    ensures
        r@ == pin_url_spec(port, cid@),
{
    let mut v = local_api_base_bytes(port);
    crate::text::append_bytes(&mut v, "/pin?cid=".as_bytes());
    let enc = url_encode(cid);
    crate::text::append_bytes(&mut v, enc.as_slice());
    v
}

/// The message surfaced when a pin request names no content identifier.
pub open spec fn cid_missing_msg() -> Seq<u8> {
    "cid is required".spec_bytes()
}

/// A content identifier is acceptable exactly when it is non-blank.
pub fn check_cid(cid: &[u8]) -> (r: Result<(), Vec<u8>>)
    ensures
        trim_spec(cid@).len() > 0 ==> r is Ok,
        trim_spec(cid@).len() == 0 ==> (r matches Err(m) && m@ == cid_missing_msg()),
{
    let t = trim_bytes(cid);
    if t.len() > 0 {
        Ok(())
    } else {
        Err(vstd::slice::slice_to_vec("cid is required".as_bytes()))
    }
}

/// Whether distributed (compressed) ingestion was requested; absent means
/// plain ingestion.
pub fn compress_requested(compress: Option<bool>) -> (r: bool)
    ensures
        r == (compress == Some(true)),
{
    match compress {
        Some(b) => b,
        None => false,
    }
}

/// Whether an explicit pin must follow a successful ingest: always, except
/// in distributed mode, where the daemon pins the manifest itself.
pub fn pin_after_put(compress: bool) -> (r: bool)
    ensures
        r == !compress,
{
    !compress
}

} // verus!
