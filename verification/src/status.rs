//! Classification of a service-manager status query. The query tool prints
//! the unit's state token on its normal output channel and exits non-zero
//! for every state other than active, so the token, not the exit code, is
//! authoritative. When no token was printed, the error channel decides: a
//! not-found message maps to a distinguished value, any other diagnostic is
//! surfaced as a query failure, and silence on both channels is unknown.

use vstd::prelude::*;
use crate::text::{trim_spec, trim_bytes, has_sub, contains_sub};

verus! {

/// The outcome of one status query.
pub enum StatusOutcome {
    /// The state token the service manager printed, trimmed.
    State(Vec<u8>),
    /// The unit is not registered with the service manager.
    NotFound,
    /// No state token, and the error channel held this diagnostic.
    QueryFailed(Vec<u8>),
    /// Both channels were empty.
    Unknown,
}

/// The phrase the service manager prints when a unit does not exist.
pub open spec fn not_found_phrase() -> Seq<u8> {
    seq![99u8, 111u8, 117u8, 108u8, 100u8, 32u8, 110u8, 111u8, 116u8, 32u8, 98u8, 101u8, 32u8, 102u8, 111u8, 117u8, 110u8, 100u8]
}

/// The short token some service-manager versions print instead.
pub open spec fn not_found_token() -> Seq<u8> {
    seq![110u8, 111u8, 116u8, 45u8, 102u8, 111u8, 117u8, 110u8, 100u8]
}

/// Whether the error output indicates an unregistered unit.
pub open spec fn indicates_not_found(err: Seq<u8>) -> bool {
    has_sub(err, not_found_phrase()) || has_sub(err, not_found_token())
}

/// The not-found phrase as a byte vector.
pub fn not_found_phrase_bytes() -> (r: Vec<u8>)
    ensures
        r@ == not_found_phrase(),
{
    let mut v: Vec<u8> = Vec::new();
    v.push(99u8);
    v.push(111u8);
    v.push(117u8);
    v.push(108u8);
    v.push(100u8);
    v.push(32u8);
    v.push(110u8);
    v.push(111u8);
    v.push(116u8);
    v.push(32u8);
    v.push(98u8);
    v.push(101u8);
    v.push(32u8);
    v.push(102u8);
    v.push(111u8);
    v.push(117u8);
    v.push(110u8);
    v.push(100u8);
    proof {
        assert(v@ =~= not_found_phrase());
    }
    v
}

/// The not-found token as a byte vector.
pub fn not_found_token_bytes() -> (r: Vec<u8>)
    ensures
        r@ == not_found_token(),
{
    let mut v: Vec<u8> = Vec::new();
    v.push(110u8);
    v.push(111u8);
    v.push(116u8);
    v.push(45u8);
    v.push(102u8);
    v.push(111u8);
    v.push(117u8);
    v.push(110u8);
    v.push(100u8);
    proof {
        assert(v@ =~= not_found_token());
    }
    v
}

/// Classify the two output channels of one status query. The trimmed normal
/// output wins when non-empty, whatever the exit code was; otherwise the
/// error channel decides, exactly as each clause below states.
pub fn classify_status(stdout: &[u8], stderr: &[u8]) -> (r: StatusOutcome)
    ensures
        trim_spec(stdout@).len() > 0 ==> (r matches StatusOutcome::State(v) && v@ == trim_spec(
            stdout@,
        )),
        trim_spec(stdout@).len() == 0 && indicates_not_found(trim_spec(stderr@))
            ==> r is NotFound,
        trim_spec(stdout@).len() == 0 && !indicates_not_found(trim_spec(stderr@)) && trim_spec(
            stderr@,
        ).len() > 0 ==> (r matches StatusOutcome::QueryFailed(e) && e@ == trim_spec(stderr@)),
        trim_spec(stdout@).len() == 0 && !indicates_not_found(trim_spec(stderr@)) && trim_spec(
            stderr@,
        ).len() == 0 ==> r is Unknown,
{
    let out = trim_bytes(stdout);
    if out.len() > 0 {
        return StatusOutcome::State(out);
    }
    let err = trim_bytes(stderr);
    let phrase = not_found_phrase_bytes();
    let token = not_found_token_bytes();
    if contains_sub(err.as_slice(), phrase.as_slice()) || contains_sub(
        err.as_slice(),
        token.as_slice(),
    ) {
        return StatusOutcome::NotFound;
    }
    if err.len() > 0 {
        return StatusOutcome::QueryFailed(err);
    }
    StatusOutcome::Unknown
}

} // verus!
