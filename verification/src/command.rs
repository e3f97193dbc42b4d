//! Argument lists for the two service-manager tools. Control verbs run in
//! non-blocking mode so a request returns as soon as the service manager
//! accepts it; the log follower asks for a bounded backlog of 200 lines and
//! machine-stable timestamps before switching to live tailing. Every builder
//! normalizes the unit name first, so a bare and a qualified name are
//! interchangeable.

use vstd::prelude::*;
use vstd::string::StringSliceAdditionalSpecFns;
use crate::unit::{unit_name, unit_name_spec};

verus! {

/// One of the three control operations.
pub enum ControlVerb {
    Start,
    Stop,
    Restart,
}

/// The command word for a control verb.
pub open spec fn verb_bytes(v: ControlVerb) -> Seq<u8> {
    match v {
        ControlVerb::Start => "start".spec_bytes(),
        ControlVerb::Stop => "stop".spec_bytes(),
        ControlVerb::Restart => "restart".spec_bytes(),
    }
}

/// The argument list of a non-blocking control command for a unit.
pub open spec fn control_args_spec(v: ControlVerb, unit: Seq<u8>) -> Seq<Seq<u8>> {
    seq![
        "--user".spec_bytes(),
        "--no-pager".spec_bytes(),
        verb_bytes(v),
        "--no-block".spec_bytes(),
        unit,
    ]
}

/// The argument list of a status query for a unit.
pub open spec fn status_args_spec(unit: Seq<u8>) -> Seq<Seq<u8>> {
    seq!["--user".spec_bytes(), "is-active".spec_bytes(), unit]
}

/// The argument list of the log follower for a unit.
pub open spec fn journal_args_spec(unit: Seq<u8>) -> Seq<Seq<u8>> {
    seq![
        "--user".spec_bytes(),
        "-u".spec_bytes(),
        unit,
        "-f".spec_bytes(),
        "-n".spec_bytes(),
        "200".spec_bytes(),
        "-o".spec_bytes(),
        "short-iso".spec_bytes(),
    ]
}

fn lit(s: &str) -> (r: Vec<u8>)
    ensures
        r@ == s.spec_bytes(),
{
    vstd::slice::slice_to_vec(s.as_bytes())
}

/// Arguments of the control command `v` for the unit named `name`, the name
/// normalized first.
pub fn control_args(v: &ControlVerb, name: &[u8]) -> (r: Vec<Vec<u8>>)
    ensures
        r.deep_view() == control_args_spec(*v, unit_name_spec(name@)),
{
    let unit = unit_name(name);
    let word = match v {
        ControlVerb::Start => lit("start"),
        ControlVerb::Stop => lit("stop"),
        ControlVerb::Restart => lit("restart"),
    };
    let mut r: Vec<Vec<u8>> = Vec::new();
    r.push(lit("--user"));
    r.push(lit("--no-pager"));
    r.push(word);
    r.push(lit("--no-block"));
    r.push(unit);
    proof {
        assert(r.deep_view() =~~= control_args_spec(*v, unit_name_spec(name@)));
    }
    r
}

/// Arguments of the status query for the unit named `name`, the name
/// normalized first.
pub fn status_args(name: &[u8]) -> (r: Vec<Vec<u8>>)
    ensures
        r.deep_view() == status_args_spec(unit_name_spec(name@)),
{
    let unit = unit_name(name);
    let mut r: Vec<Vec<u8>> = Vec::new();
    r.push(lit("--user"));
    r.push(lit("is-active"));
    r.push(unit);
    proof {
        assert(r.deep_view() =~~= status_args_spec(unit_name_spec(name@)));
    }
    r
}

/// Arguments of the log follower for the unit named `name`, the name
/// normalized first.
pub fn journal_args(name: &[u8]) -> (r: Vec<Vec<u8>>)
    ensures
        r.deep_view() == journal_args_spec(unit_name_spec(name@)),
{
    let unit = unit_name(name);
    let mut r: Vec<Vec<u8>> = Vec::new();
    r.push(lit("--user"));
    r.push(lit("-u"));
    r.push(unit);
    r.push(lit("-f"));
    r.push(lit("-n"));
    r.push(lit("200"));
    r.push(lit("-o"));
    r.push(lit("short-iso"));
    proof {
        assert(r.deep_view() =~~= journal_args_spec(unit_name_spec(name@)));
    }
    r
}

} // verus!
