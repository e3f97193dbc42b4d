//! Startup-flags codec: reads and rewrites the launch directive of a
//! unit-file-like document while preserving every other line byte for byte.
//! A directive line is one whose trimmed form begins with `ExecStart=`; its
//! value is the command after the `=`. Reading returns the argument tail that
//! follows the fixed base invocation of the managed program; writing replaces
//! the value of every directive line with that base invocation followed by
//! the trimmed caller-supplied flags.

use vstd::prelude::*;
use crate::text::{
    trim_spec, trim_bytes, split_lines_spec, join_lines_spec, split_lines, join_lines,
    find_sub_spec, find_sub, occurs_at, starts_with, append_bytes, copy_range,
    lemma_trim_is_trimmed, lemma_trim_of_trimmed, is_space,
    lemma_split_lines_shape, lemma_split_join, lemma_find_sub, lemma_join_split,
    trim_start_spec, trim_end_spec,
};

verus! {

/// The launch-directive key, `ExecStart=`, as bytes.
pub open spec fn exec_start_prefix() -> Seq<u8> {
    seq![69u8, 120u8, 101u8, 99u8, 83u8, 116u8, 97u8, 114u8, 116u8, 61u8]
}

/// The managed program's fixed base invocation,
/// `/usr/local/bin/peerdrive init`, as bytes.
pub open spec fn init_cmd() -> Seq<u8> {
    seq![47u8, 117u8, 115u8, 114u8, 47u8, 108u8, 111u8, 99u8, 97u8, 108u8, 47u8, 98u8, 105u8, 110u8, 47u8, 112u8, 101u8, 101u8, 114u8, 100u8, 114u8, 105u8, 118u8, 101u8, 32u8, 105u8, 110u8, 105u8, 116u8]
}

/// The service manager's user-unit directory, `systemd/user/`, relative to
/// the user's configuration directory.
pub open spec fn unit_dir() -> Seq<u8> {
    seq![115u8, 121u8, 115u8, 116u8, 101u8, 109u8, 100u8, 47u8, 117u8, 115u8, 101u8, 114u8, 47u8]
}

/// The launch-directive key as a byte vector.
pub fn exec_start_prefix_bytes() -> (r: Vec<u8>)
    ensures
        r@ == exec_start_prefix(),
{
    let mut v: Vec<u8> = Vec::new();
    v.push(69u8);
    v.push(120u8);
    v.push(101u8);
    v.push(99u8);
    v.push(83u8);
    v.push(116u8);
    v.push(97u8);
    v.push(114u8);
    v.push(116u8);
    v.push(61u8);
    proof {
        assert(v@ =~= exec_start_prefix());
    }
    v
}

/// The fixed base invocation as a byte vector.
pub fn init_cmd_bytes() -> (r: Vec<u8>)
    ensures
        r@ == init_cmd(),
{
    let mut v: Vec<u8> = Vec::new();
    v.push(47u8);
    v.push(117u8);
    v.push(115u8);
    v.push(114u8);
    v.push(47u8);
    v.push(108u8);
    v.push(111u8);
    v.push(99u8);
    v.push(97u8);
    v.push(108u8);
    v.push(47u8);
    v.push(98u8);
    v.push(105u8);
    v.push(110u8);
    v.push(47u8);
    v.push(112u8);
    v.push(101u8);
    v.push(101u8);
    v.push(114u8);
    v.push(100u8);
    v.push(114u8);
    v.push(105u8);
    v.push(118u8);
    v.push(101u8);
    v.push(32u8);
    v.push(105u8);
    v.push(110u8);
    v.push(105u8);
    v.push(116u8);
    proof {
        assert(v@ =~= init_cmd());
    }
    v
}

/// Path of a unit's definition file relative to the user's configuration
/// directory: the unit directory followed by the canonical unit name.
pub fn unit_file_relpath(name: &[u8]) -> (r: Vec<u8>)
    ensures
        r@ == unit_dir() + crate::unit::unit_name_spec(name@),
{
    let mut v: Vec<u8> = Vec::new();
    v.push(115u8);
    v.push(121u8);
    v.push(115u8);
    v.push(116u8);
    v.push(101u8);
    v.push(109u8);
    v.push(100u8);
    v.push(47u8);
    v.push(117u8);
    v.push(115u8);
    v.push(101u8);
    v.push(114u8);
    v.push(47u8);
    proof {
        assert(v@ =~= unit_dir());
    }
    let unit = crate::unit::unit_name(name);
    append_bytes(&mut v, unit.as_slice());
    v
}

/// Whether `l` is a launch-directive line: its trimmed form begins with the
/// directive key.
pub open spec fn is_directive_line(l: Seq<u8>) -> bool {
    trim_spec(l).len() >= 10 && trim_spec(l).subrange(0, 10) == exec_start_prefix()
}

/// The value of a directive line: what follows the key, trimmed.
pub open spec fn directive_value(l: Seq<u8>) -> Seq<u8> {
    trim_spec(trim_spec(l).subrange(10, trim_spec(l).len() as int))
}

/// The value of the last directive line of `ls`, if any; a later directive
/// overrides an earlier one, matching the service manager's own semantics.
pub open spec fn last_directive_value(ls: Seq<Seq<u8>>) -> Option<Seq<u8>>
    decreases ls.len(),
{
    if ls.len() == 0 {
        None
    } else if is_directive_line(ls.last()) {
        Some(directive_value(ls.last()))
    } else {
        last_directive_value(ls.drop_last())
    }
}

/// The argument tail of a directive value: everything after the first
/// occurrence of the fixed base invocation, or empty when it does not occur.
pub open spec fn flags_after_cmd(v: Seq<u8>) -> Seq<u8> {
    if find_sub_spec(v, init_cmd()) >= 0 {
        v.subrange(find_sub_spec(v, init_cmd()) + 29, v.len() as int)
    } else {
        Seq::empty()
    }
}

/// The flags read from a document: the argument tail of the last directive
/// line's value, or empty when there is no directive or no base invocation.
pub open spec fn read_flags_spec(doc: Seq<u8>) -> Seq<u8> {
    match last_directive_value(split_lines_spec(doc)) {
        None => Seq::empty(),
        Some(v) => flags_after_cmd(v),
    }
}

/// The directive line that writing produces: the key, the base invocation,
/// one space, and the trimmed flags.
pub open spec fn rewritten_directive(flags: Seq<u8>) -> Seq<u8> {
    exec_start_prefix() + init_cmd() + seq![32u8] + trim_spec(flags)
}

/// One line after rewriting: a directive line is replaced, any other line is
/// kept unchanged.
pub open spec fn rewrite_line_spec(l: Seq<u8>, flags: Seq<u8>) -> Seq<u8> {
    if is_directive_line(l) {
        rewritten_directive(flags)
    } else {
        l
    }
}

/// All lines after rewriting, in their original order.
pub open spec fn rewrite_lines_spec(ls: Seq<Seq<u8>>, flags: Seq<u8>) -> Seq<Seq<u8>> {
    ls.map_values(|l: Seq<u8>| rewrite_line_spec(l, flags))
}

/// The document after writing `flags`: every directive line replaced, every
/// other line and the line order preserved.
pub open spec fn write_flags_spec(doc: Seq<u8>, flags: Seq<u8>) -> Seq<u8> {
    join_lines_spec(rewrite_lines_spec(split_lines_spec(doc), flags))
}

/// Whether `l` is a launch-directive line.
pub fn is_directive_line_exec(l: &[u8]) -> (r: bool)
    ensures
        r == is_directive_line(l@),
{
    let t = trim_bytes(l);
    let p = exec_start_prefix_bytes();
    starts_with(t.as_slice(), p.as_slice())
}

proof fn lemma_ldv_snoc(ls: Seq<Seq<u8>>, x: Seq<u8>)
    ensures
        last_directive_value(ls.push(x)) == (if is_directive_line(x) {
            Some(directive_value(x))
        } else {
            last_directive_value(ls)
        }),
{
    let p = ls.push(x);
    assert(p.last() == x);
    assert(p.drop_last() =~= ls);
}

/// The flags stored in a document.
pub fn read_flags_from_doc(doc: &[u8]) -> (r: Vec<u8>)
    ensures
        r@ == read_flags_spec(doc@),
{
    let lines = split_lines(doc);
    let ghost dv = lines.deep_view();
    let mut last: Option<Vec<u8>> = None;
    proof {
        assert(dv.subrange(0, 0) =~= Seq::<Seq<u8>>::empty());
    }
    let mut i: usize = 0;
    while i < lines.len()
        invariant
            0 <= i <= lines@.len(),
            dv == lines.deep_view(),
            match last {
                Some(v) => last_directive_value(dv.subrange(0, i as int)) == Some(v@),
                None => last_directive_value(dv.subrange(0, i as int)) is None,
            },
        decreases lines@.len() - i,
    {
        let t = trim_bytes(lines[i].as_slice());
        let p = exec_start_prefix_bytes();
        proof {
            assert(dv[i as int] =~= lines@[i as int]@);
            assert(dv.subrange(0, i + 1) =~= dv.subrange(0, i as int).push(dv[i as int]));
            lemma_ldv_snoc(dv.subrange(0, i as int), dv[i as int]);
        }
        if starts_with(t.as_slice(), p.as_slice()) {
            let value_part = copy_range(t.as_slice(), 10, t.len());
            let value = trim_bytes(value_part.as_slice());
            proof {
                assert(is_directive_line(dv[i as int]));
                assert(value@ == directive_value(dv[i as int]));
            }
            last = Some(value);
        } else {
            proof {
                assert(!is_directive_line(dv[i as int]));
            }
        }
        i += 1;
    }
    proof {
        assert(dv.subrange(0, lines@.len() as int) =~= dv);
    }
    match last {
        None => Vec::new(),
        Some(v) => {
            let cmd = init_cmd_bytes();
            match find_sub(v.as_slice(), cmd.as_slice()) {
                Some(at) => {
                    let cl = cmd.len();
                    let vl = v.len();
                    proof {
                        assert(at + cl <= vl);
                    }
                    copy_range(v.as_slice(), at + cl, vl)
                },
                None => Vec::new(),
            }
        },
    }
}

/// The directive line that replaces every matched line on write.
pub fn build_directive(flags: &[u8]) -> (r: Vec<u8>)
    ensures
        r@ == rewritten_directive(flags@),
{
    let mut v = exec_start_prefix_bytes();
    let cmd = init_cmd_bytes();
    append_bytes(&mut v, cmd.as_slice());
    v.push(32u8);
    let t = trim_bytes(flags);
    append_bytes(&mut v, t.as_slice());
    proof {
        assert(v@ =~= rewritten_directive(flags@));
    }
    v
}

/// The document after writing `flags`: every directive line is replaced by
/// the rebuilt one, every other line passes through unchanged, in order.
pub fn write_flags_to_doc(doc: &[u8], flags: &[u8]) -> (r: Vec<u8>)
    ensures
        r@ == write_flags_spec(doc@, flags@),
{
    let lines = split_lines(doc);
    let ghost dv = lines.deep_view();
    let mut out_lines: Vec<Vec<u8>> = Vec::new();
    proof {
        assert(out_lines.deep_view() =~~= rewrite_lines_spec(dv.subrange(0, 0), flags@));
    }
    let mut i: usize = 0;
    while i < lines.len()
        invariant
            0 <= i <= lines@.len(),
            dv == lines.deep_view(),
            out_lines.deep_view() == rewrite_lines_spec(dv.subrange(0, i as int), flags@),
        decreases lines@.len() - i,
    {
        let ghost prev = out_lines.deep_view();
        if is_directive_line_exec(lines[i].as_slice()) {
            let rep = build_directive(flags);
            out_lines.push(rep);
        } else {
            let copy = copy_range(lines[i].as_slice(), 0, lines[i].len());
            proof {
                assert(lines@[i as int]@.subrange(0, lines@[i as int]@.len() as int)
                    =~= lines@[i as int]@);
            }
            out_lines.push(copy);
        }
        proof {
            assert(dv[i as int] =~= lines@[i as int]@);
            assert(out_lines.deep_view() =~~= prev + seq![rewrite_line_spec(
                dv[i as int],
                flags@,
            )]);
            assert(out_lines.deep_view() =~~= rewrite_lines_spec(
                dv.subrange(0, i + 1),
                flags@,
            ));
        }
        i += 1;
    }
    proof {
        assert(dv.subrange(0, lines@.len() as int) =~= dv);
        assert(out_lines@.len() == dv.len());
    }
    join_lines(&out_lines)
}


/// No byte of the rebuilt directive line is a newline, provided the trimmed
/// flags hold none.
proof fn lemma_rewritten_no_nl(flags: Seq<u8>)
    requires
        forall|j: int| 0 <= j < trim_spec(flags).len() ==> trim_spec(flags)[j] != 10,
    ensures
        forall|j: int|
            0 <= j < rewritten_directive(flags).len() ==> rewritten_directive(flags)[j] != 10,
{
    let r = rewritten_directive(flags);
    let head = exec_start_prefix() + init_cmd() + seq![32u8];
    assert forall|j: int| 0 <= j < r.len() implies r[j] != 10 by {
        if j < head.len() {
            assert(head[j] != 10);
        } else {
            assert(r[j] == trim_spec(flags)[j - head.len()]);
        }
    }
}

/// The rebuilt directive line is itself a directive line, and its value is
/// the base invocation, a space, and the trimmed flags (with the trailing
/// space trimmed away again when the flags are empty).
proof fn lemma_rewritten_value(flags: Seq<u8>)
    ensures
        is_directive_line(rewritten_directive(flags)),
        directive_value(rewritten_directive(flags)) == (if trim_spec(flags).len() > 0 {
            init_cmd() + seq![32u8] + trim_spec(flags)
        } else {
            init_cmd()
        }),
{
    let p = exec_start_prefix();
    let c = init_cmd();
    let f = trim_spec(flags);
    let r = rewritten_directive(flags);
    lemma_trim_is_trimmed(flags);
    if f.len() > 0 {
        assert(!is_space(r[0]));
        assert(r[r.len() - 1] == f[f.len() - 1]);
        assert(!is_space(r[r.len() - 1]));
        lemma_trim_of_trimmed(r);
        assert(trim_spec(r).subrange(0, 10) =~= p);
        let v0 = r.subrange(10, r.len() as int);
        assert(v0 =~= c + seq![32u8] + f);
        assert(!is_space(v0[0]));
        assert(v0[v0.len() - 1] == f[f.len() - 1]);
        lemma_trim_of_trimmed(v0);
    } else {
        assert(r =~= p + c + seq![32u8]);
        assert(!is_space(r[0]));
        assert(r[r.len() - 1] == 32);
        let r1 = r.subrange(0, r.len() - 1);
        assert(r1 =~= p + c);
        assert(trim_start_spec(r) == r);
        assert(trim_end_spec(r) == trim_end_spec(r1));
        assert(!is_space(r1[r1.len() - 1]));
        assert(trim_end_spec(r1) == r1);
        assert(trim_spec(r) == r1);
        assert(trim_spec(r).subrange(0, 10) =~= p);
        let v0 = r1.subrange(10, r1.len() as int);
        assert(v0 =~= c);
        assert(!is_space(v0[0]));
        assert(!is_space(v0[v0.len() - 1]));
        lemma_trim_of_trimmed(v0);
    }
}

/// Writing touches only directive lines: the written document has exactly
/// the lines of the original, every line that is not a launch directive is
/// preserved byte for byte at its original position, and every directive
/// line has become the rebuilt one.
pub proof fn lemma_write_preserves_other_lines(doc: Seq<u8>, flags: Seq<u8>)
    requires
        forall|j: int| 0 <= j < trim_spec(flags).len() ==> trim_spec(flags)[j] != 10,
    ensures
        split_lines_spec(write_flags_spec(doc, flags)).len() == split_lines_spec(doc).len(),
        forall|i: int|
            0 <= i < split_lines_spec(doc).len() && !is_directive_line(split_lines_spec(doc)[i])
                ==> split_lines_spec(write_flags_spec(doc, flags))[i] == split_lines_spec(doc)[i],
        forall|i: int|
            0 <= i < split_lines_spec(doc).len() && is_directive_line(split_lines_spec(doc)[i])
                ==> split_lines_spec(write_flags_spec(doc, flags))[i] == rewritten_directive(
                flags,
            ),
{
    let ls = split_lines_spec(doc);
    let ms = rewrite_lines_spec(ls, flags);
    lemma_split_lines_shape(doc);
    lemma_rewritten_no_nl(flags);
    assert forall|i: int, j: int| 0 <= i < ms.len() && 0 <= j < ms[i].len() implies ms[i][j]
        != 10 by {
        assert(ms[i] == rewrite_line_spec(ls[i], flags));
        if !is_directive_line(ls[i]) {
            assert(ls[i][j] != 10);
        }
    }
    lemma_split_join(ms);
}

/// A document with no directive line at all is written back unchanged:
/// writing edits launch directives, it never authors one.
pub proof fn lemma_write_no_directive_unchanged(doc: Seq<u8>, flags: Seq<u8>)
    requires
        forall|i: int|
            0 <= i < split_lines_spec(doc).len() ==> !is_directive_line(split_lines_spec(doc)[i]),
    ensures
        write_flags_spec(doc, flags) == doc,
{
    let ls = split_lines_spec(doc);
    assert(rewrite_lines_spec(ls, flags) =~~= ls);
    lemma_join_split(doc);
}

proof fn lemma_ldv_all_rewritten(ls: Seq<Seq<u8>>, flags: Seq<u8>)
    requires
        exists|i: int| 0 <= i < ls.len() && is_directive_line(ls[i]),
    ensures
        last_directive_value(rewrite_lines_spec(ls, flags)) == Some(
            directive_value(rewritten_directive(flags)),
        ),
    decreases ls.len(),
{
    let ms = rewrite_lines_spec(ls, flags);
    lemma_rewritten_value(flags);
    if is_directive_line(ls[ls.len() - 1]) {
        assert(ms.last() == rewritten_directive(flags));
    } else {
        assert(ms.last() == ls.last());
        let i = choose|i: int| 0 <= i < ls.len() && is_directive_line(ls[i]);
        assert(0 <= i < ls.len() - 1 && is_directive_line(ls.drop_last()[i]));
        lemma_ldv_all_rewritten(ls.drop_last(), flags);
        assert(ms.drop_last() =~= rewrite_lines_spec(ls.drop_last(), flags));
    }
}

/// Round trip: writing flags into a document that holds at least one launch
/// directive, then reading them back, returns the same flags up to the
/// whitespace trimming that writing applies.
pub proof fn lemma_write_read_roundtrip(doc: Seq<u8>, flags: Seq<u8>)
    requires
        exists|i: int|
            0 <= i < split_lines_spec(doc).len() && is_directive_line(split_lines_spec(doc)[i]),
        forall|j: int| 0 <= j < trim_spec(flags).len() ==> trim_spec(flags)[j] != 10,
    ensures
        trim_spec(read_flags_spec(write_flags_spec(doc, flags))) == trim_spec(flags),
{
    let ls = split_lines_spec(doc);
    let ms = rewrite_lines_spec(ls, flags);
    let w = write_flags_spec(doc, flags);
    let f = trim_spec(flags);
    let c = init_cmd();
    lemma_split_lines_shape(doc);
    lemma_rewritten_no_nl(flags);
    assert forall|i: int, j: int| 0 <= i < ms.len() && 0 <= j < ms[i].len() implies ms[i][j]
        != 10 by {
        assert(ms[i] == rewrite_line_spec(ls[i], flags));
        if !is_directive_line(ls[i]) {
            assert(ls[i][j] != 10);
        }
    }
    lemma_split_join(ms);
    lemma_ldv_all_rewritten(ls, flags);
    lemma_rewritten_value(flags);
    let v = directive_value(rewritten_directive(flags));
    assert(v.subrange(0, 29) =~= c);
    assert(occurs_at(v, c, 0));
    lemma_find_sub(v, c);
    if find_sub_spec(v, c) == -1 {
        assert(false);
    }
    if find_sub_spec(v, c) > 0 {
        assert(!occurs_at(v, c, 0));
        assert(false);
    }
    let tail = flags_after_cmd(v);
    lemma_trim_is_trimmed(flags);
    if f.len() > 0 {
        assert(tail =~= seq![32u8] + f);
        assert(tail.subrange(1, tail.len() as int) =~= f);
        assert(trim_start_spec(tail) == trim_start_spec(f));
        assert(trim_start_spec(f) == f);
        assert(trim_end_spec(f) == f);
    } else {
        assert(tail =~= Seq::<u8>::empty());
    }
}

} // verus!
