//! Block-store facade: the size record the daemon reports and the URLs of
//! the size and garbage-collection endpoints.

use vstd::prelude::*;
use vstd::string::StringSliceAdditionalSpecFns;
use crate::api::{local_api_base, local_api_base_bytes};

verus! {

/// The daemon's block-store size report.
pub struct StoreSize {
    /// Number of stored blocks.
    pub blocks: u64,
    /// Total stored bytes.
    pub bytes: u64,
}

/// The store-size URL.
pub open spec fn store_size_url_spec(port: u16) -> Seq<u8> {
    local_api_base(port) + "/store/size".spec_bytes()
}

/// Build the store-size URL.
pub fn store_size_url(port: u16) -> (r: Vec<u8>)
    ensures
        r@ == store_size_url_spec(port),
{
    let mut v = local_api_base_bytes(port);
    crate::text::append_bytes(&mut v, "/store/size".as_bytes());
    v
}

/// The garbage-collection URL.
pub open spec fn gc_url_spec(port: u16) -> Seq<u8> {
    local_api_base(port) + "/gc".spec_bytes()
}

/// Build the garbage-collection URL.
pub fn gc_url(port: u16) -> (r: Vec<u8>)
    ensures
        r@ == gc_url_spec(port),
{
    let mut v = local_api_base_bytes(port);
    crate::text::append_bytes(&mut v, "/gc".as_bytes());
    v
}

} // verus!
