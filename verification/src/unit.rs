//! Unit identity: canonicalizes a short service name to its fully qualified
//! unit name by appending the service manager's unit-type suffix when it is
//! not already present. Every other component normalizes through this before
//! touching the service manager or the filesystem, so a bare name and a
//! qualified one are interchangeable inputs.

use vstd::prelude::*;

verus! {

/// The unit-type suffix, `.service`, as bytes.
pub open spec fn unit_suffix() -> Seq<u8> {
    seq![46u8, 115u8, 101u8, 114u8, 118u8, 105u8, 99u8, 101u8]
}

/// Whether `s` already ends with the unit-type suffix.
pub open spec fn has_unit_suffix(s: Seq<u8>) -> bool {
    s.len() >= 8 && s.subrange(s.len() - 8, s.len() as int) == unit_suffix()
}

/// The canonical unit name for `s`: `s` itself when already qualified,
/// otherwise `s` with the suffix appended.
pub open spec fn unit_name_spec(s: Seq<u8>) -> Seq<u8> {
    if has_unit_suffix(s) {
        s
    } else {
        s + unit_suffix()
    }
}

/// Normalization is idempotent: qualifying an already qualified name changes
/// nothing.
pub proof fn lemma_unit_name_idempotent(s: Seq<u8>)
    ensures
        unit_name_spec(unit_name_spec(s)) == unit_name_spec(s),
{
    if !has_unit_suffix(s) {
        let r = s + unit_suffix();
        assert(r.subrange(r.len() - 8, r.len() as int) =~= unit_suffix());
    }
}

/// The unit-type suffix as a byte vector.
pub fn unit_suffix_bytes() -> (r: Vec<u8>)
    ensures
        r@ == unit_suffix(),
{
    let mut v: Vec<u8> = Vec::new();
    v.push(46u8);
    v.push(115u8);
    v.push(101u8);
    v.push(114u8);
    v.push(118u8);
    v.push(105u8);
    v.push(99u8);
    v.push(101u8);
    proof {
        assert(v@ =~= unit_suffix());
    }
    v
}

/// The canonical unit name for `name`.
pub fn unit_name(name: &[u8]) -> (r: Vec<u8>)
    ensures
        r@ == unit_name_spec(name@),
{
    let suffix = unit_suffix_bytes();
    let n = name.len();
    let mut qualified = false;
    if n >= 8 {
        let tail = vstd::slice::slice_subrange(name, n - 8, n);
        qualified = crate::text::bytes_eq(tail, suffix.as_slice());
    }
    if qualified {
        crate::text::copy_range(name, 0, n)
    } else {
        let mut out = crate::text::copy_range(name, 0, n);
        crate::text::append_bytes(&mut out, suffix.as_slice());
        proof {
            assert(name@.subrange(0, n as int) =~= name@);
        }
        out
    }
}

} // verus!
