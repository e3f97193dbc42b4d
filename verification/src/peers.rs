//! Peer discovery facade: the contact record the daemon returns and the
//! query URL for the closest-peers endpoint, including the port fallback and
//! the filtering of an empty target that the request layer applies.

use vstd::prelude::*;
use vstd::string::StringSliceAdditionalSpecFns;
use crate::api::{dec_digits, u64_to_dec, url_encoded, url_encode};

verus! {

/// One peer contact as the daemon reports it.
pub struct Contact {
    /// The peer's 32-byte identifier.
    pub id: [u8; 32],
    /// The peer's address.
    pub addr: String,
    /// An optional relay address.
    pub relay: Option<String>,
}

/// The port used for peer queries: the configured one, or the default
/// discovery port when unset.
pub fn effective_port(http_port: u16) -> (r: u16)
    ensures
        http_port != 0 ==> r == http_port,
        http_port == 0 ==> r == 8012,
{
    if http_port != 0 {
        http_port
    } else {
        8012
    }
}

/// The view of an optional byte-vector argument.
pub open spec fn opt_bytes_view(o: Option<Vec<u8>>) -> Option<Seq<u8>> {
    match o {
        Some(v) => Some(v@),
        None => None,
    }
}

/// The closest-peers query URL. An empty target counts as absent; the `k`
/// bound is appended with the separator the query position requires.
pub open spec fn closest_url_spec(port: u16, target: Option<Seq<u8>>, k: Option<u32>) -> Seq<u8> {
    let base = "http://0.0.0.0:".spec_bytes() + dec_digits(port as nat)
        + "/closest".spec_bytes();
    let has_target = match target {
        Some(t) => t.len() > 0,
        None => false,
    };
    let with_target = if has_target {
        base + "?target=".spec_bytes() + url_encoded(target.unwrap())
    } else {
        base
    };
    match k {
        Some(kv) => with_target + (if has_target {
            "&".spec_bytes()
        } else {
            "?".spec_bytes()
        }) + "k=".spec_bytes() + dec_digits(kv as nat),
        None => with_target,
    }
}

/// Build the closest-peers query URL for the given port, optional target
/// and optional result bound.
pub fn closest_url(port: u16, target: &Option<Vec<u8>>, k: Option<u32>) -> (r: Vec<u8>)
    ensures
        r@ == closest_url_spec(port, opt_bytes_view(*target), k),
{
    let mut v = vstd::slice::slice_to_vec("http://0.0.0.0:".as_bytes());
    let d = u64_to_dec(port as u64);
    crate::text::append_bytes(&mut v, d.as_slice());
    crate::text::append_bytes(&mut v, "/closest".as_bytes());
    let mut has_target = false;
    match target {
        Some(t) => {
            if t.len() > 0 {
                has_target = true;
                crate::text::append_bytes(&mut v, "?target=".as_bytes());
                let enc = url_encode(t.as_slice());
                crate::text::append_bytes(&mut v, enc.as_slice());
            }
        },
        None => {},
    }
    match k {
        Some(kv) => {
            if has_target {
                crate::text::append_bytes(&mut v, "&".as_bytes());
            } else {
                crate::text::append_bytes(&mut v, "?".as_bytes());
            }
            crate::text::append_bytes(&mut v, "k=".as_bytes());
            let kd = u64_to_dec(kv as u64);
            crate::text::append_bytes(&mut v, kd.as_slice());
        },
        None => {},
    }
    v
}

} // verus!
