//! Shared pieces of the local daemon's HTTP API facade: decimal rendering of
//! port numbers, percent-encoding of query values, the API base address, and
//! the port-configuration rule every endpoint applies before issuing a
//! request.

use vstd::prelude::*;
use vstd::string::StringSliceAdditionalSpecFns;

verus! {

/// The decimal digits of `n`, most significant first.
pub open spec fn dec_digits(n: nat) -> Seq<u8>
    decreases n,
{
    if n < 10 {
        seq![(48 + n) as u8]
    } else {
        dec_digits((n / 10) as nat).push((48 + n % 10) as u8)
    }
}

/// The decimal rendering of `n`.
pub fn u64_to_dec(n: u64) -> (r: Vec<u8>)
    ensures
        r@ == dec_digits(n as nat),
    decreases n,
{
    if n < 10 {
        let mut v: Vec<u8> = Vec::new();
        v.push((48 + n) as u8);
        proof {
            assert(v@ =~= dec_digits(n as nat));
        }
        v
    } else {
        let mut v = u64_to_dec(n / 10);
        v.push((48 + (n % 10)) as u8);
        v
    }
}

/// The percent-encoding of `s`: every byte except ASCII alphanumerics and
/// `-`, `_`, `.`, `~` is escaped.
pub uninterp spec fn url_encoded(s: Seq<u8>) -> Seq<u8>;

/// Relies on urlencoding::encode_binary: percent-encodes every byte except
/// ASCII alphanumerics and `-`, `_`, `.`, `~`, so the result depends on the
/// input bytes alone; an empty input encodes to an empty string.
#[verifier::external_body]
pub(crate) fn url_encode(b: &[u8]) -> (r: Vec<u8>)
    ensures
        r@ == url_encoded(b@),
        b@.len() == 0 ==> r@.len() == 0,
{
    urlencoding::encode_binary(b).into_owned().into_bytes()
}

/// The local daemon's API base for a port: `http://127.0.0.1:<port>`.
pub open spec fn local_api_base(port: u16) -> Seq<u8> {
    "http://127.0.0.1:".spec_bytes() + dec_digits(port as nat)
}

/// The API base for `port` as bytes.
pub fn local_api_base_bytes(port: u16) -> (r: Vec<u8>)
    ensures
        r@ == local_api_base(port),
{
    let mut v = vstd::slice::slice_to_vec("http://127.0.0.1:".as_bytes());
    let d = u64_to_dec(port as u64);
    crate::text::append_bytes(&mut v, d.as_slice());
    v
}

/// The message surfaced when an endpoint needs the HTTP port but none is
/// configured.
pub open spec fn port_unset_msg() -> Seq<u8> {
    "HTTP port is not configured".spec_bytes()
}

/// The configured HTTP port, or the error every endpoint reports when it is
/// unset: `Ok` exactly on a non-zero port.
pub fn require_port(http_port: u16) -> (r: Result<u16, Vec<u8>>)
    ensures
        http_port != 0 ==> r == Ok::<u16, Vec<u8>>(http_port),
        http_port == 0 ==> (r matches Err(m) && m@ == port_unset_msg()),
{
    if http_port != 0 {
        Ok(http_port)
    } else {
        Err(vstd::slice::slice_to_vec("HTTP port is not configured".as_bytes()))
    }
}

} // verus!
