//! Byte-level text utilities shared by the status classifier and the
//! startup-flags codec: ASCII whitespace trimming, newline splitting and
//! joining, and substring search, each with a functional specification.

use vstd::prelude::*;

verus! {

/// The ASCII whitespace bytes that trimming removes.
pub open spec fn is_space(b: u8) -> bool {
    b == 32 || b == 9 || b == 10 || b == 13
}

/// `s` with its leading whitespace removed.
pub open spec fn trim_start_spec(s: Seq<u8>) -> Seq<u8>
    decreases s.len(),
{
    if s.len() > 0 && is_space(s[0]) {
        trim_start_spec(s.subrange(1, s.len() as int))
    } else {
        s
    }
}

/// `s` with its trailing whitespace removed.
pub open spec fn trim_end_spec(s: Seq<u8>) -> Seq<u8>
    decreases s.len(),
{
    if s.len() > 0 && is_space(s[s.len() - 1]) {
        trim_end_spec(s.subrange(0, s.len() - 1))
    } else {
        s
    }
}

/// `s` with leading and trailing whitespace removed.
pub open spec fn trim_spec(s: Seq<u8>) -> Seq<u8> {
    trim_end_spec(trim_start_spec(s))
}

/// A sequence neither starts nor ends with whitespace.
pub open spec fn is_trimmed(s: Seq<u8>) -> bool {
    s.len() > 0 ==> !is_space(s[0]) && !is_space(s[s.len() - 1])
}

proof fn lemma_trim_start_shape(s: Seq<u8>)
    ensures
        trim_start_spec(s).len() <= s.len(),
        trim_start_spec(s).len() > 0 ==> !is_space(trim_start_spec(s)[0]),
        trim_start_spec(s) == s.subrange(s.len() - trim_start_spec(s).len(), s.len() as int),
        forall|j: int| 0 <= j < s.len() - trim_start_spec(s).len() ==> is_space(s[j]),
    decreases s.len(),
{
    if s.len() > 0 && is_space(s[0]) {
        let t = s.subrange(1, s.len() as int);
        lemma_trim_start_shape(t);
        let l = trim_start_spec(s).len();
        assert(trim_start_spec(s) == trim_start_spec(t));
        assert forall|k: int| 0 <= k < l implies #[trigger] t.subrange(
            t.len() - l,
            t.len() as int,
        )[k] == s.subrange(s.len() - l, s.len() as int)[k] by {
            assert(t[t.len() - l + k] == s[s.len() - l + k]);
        }
        assert(t.subrange(t.len() - l, t.len() as int)
            =~= s.subrange(s.len() - l, s.len() as int));
        assert forall|j: int| 0 <= j < s.len() - l implies is_space(s[j]) by {
            if j > 0 {
                assert(is_space(t[j - 1]));
            }
        }
    } else {
        assert(s =~= s.subrange(0, s.len() as int));
    }
}

proof fn lemma_trim_end_shape(s: Seq<u8>)
    ensures
        trim_end_spec(s).len() <= s.len(),
        trim_end_spec(s).len() > 0 ==> !is_space(trim_end_spec(s)[trim_end_spec(s).len() - 1]),
        trim_end_spec(s) == s.subrange(0, trim_end_spec(s).len() as int),
        forall|j: int| trim_end_spec(s).len() <= j < s.len() ==> is_space(s[j]),
    decreases s.len(),
{
    if s.len() > 0 && is_space(s[s.len() - 1]) {
        let t = s.subrange(0, s.len() - 1);
        lemma_trim_end_shape(t);
        let l = trim_end_spec(s).len();
        assert(trim_end_spec(s) == trim_end_spec(t));
        assert forall|k: int| 0 <= k < l implies #[trigger] t.subrange(0, l as int)[k]
            == s.subrange(0, l as int)[k] by {
            assert(t[k] == s[k]);
        }
        assert(t.subrange(0, l as int) =~= s.subrange(0, l as int));
        assert forall|j: int| l <= j < s.len() implies is_space(s[j]) by {
            if j < s.len() - 1 {
                assert(is_space(t[j]));
            }
        }
    } else {
        assert(s =~= s.subrange(0, s.len() as int));
    }
}

/// The result of trimming neither starts nor ends with whitespace.
pub proof fn lemma_trim_is_trimmed(s: Seq<u8>)
    ensures
        is_trimmed(trim_spec(s)),
{
    let a = trim_start_spec(s);
    lemma_trim_start_shape(s);
    lemma_trim_end_shape(a);
    if trim_spec(s).len() > 0 {
        assert(trim_spec(s) == a.subrange(0, trim_spec(s).len() as int));
        assert(a.subrange(0, trim_spec(s).len() as int)[0] == a[0]);
    }
}

/// Trimming an already trimmed sequence changes nothing.
pub proof fn lemma_trim_of_trimmed(s: Seq<u8>)
    requires
        is_trimmed(s),
    ensures
        trim_spec(s) == s,
{
    assert(trim_start_spec(s) == s);
    assert(trim_end_spec(s) == s);
}

/// Whether one byte is ASCII whitespace.
pub fn is_space_byte(b: u8) -> (r: bool)
    ensures
        r == is_space(b),
{
    b == 32 || b == 9 || b == 10 || b == 13
}

/// Copy of `s[lo..hi]`.
pub fn copy_range(s: &[u8], lo: usize, hi: usize) -> (r: Vec<u8>)
    requires
        lo <= hi <= s@.len(),
    ensures
        r@ == s@.subrange(lo as int, hi as int),
{
    let mut out: Vec<u8> = Vec::new();
    let mut k: usize = lo;
    while k < hi
        invariant
            lo <= k <= hi <= s@.len(),
            out@ == s@.subrange(lo as int, k as int),
        decreases hi - k,
    {
        out.push(s[k]);
        proof {
            assert(out@ =~= s@.subrange(lo as int, k + 1));
        }
        k += 1;
    }
    out
}

/// `s` with leading and trailing ASCII whitespace removed.
pub fn trim_bytes(s: &[u8]) -> (r: Vec<u8>)
    ensures
        r@ == trim_spec(s@),
{
    let n = s.len();
    proof {
        assert(s@ =~= s@.subrange(0, n as int));
    }
    let mut lo: usize = 0;
    while lo < n && is_space_byte(s[lo])
        invariant
            0 <= lo <= n,
            n == s@.len(),
            trim_start_spec(s@) == trim_start_spec(s@.subrange(lo as int, n as int)),
        decreases n - lo,
    {
        proof {
            assert(s@.subrange(lo as int, n as int).subrange(1, (n - lo) as int)
                =~= s@.subrange(lo + 1, n as int));
        }
        lo += 1;
    }
    proof {
        assert(trim_start_spec(s@) =~= s@.subrange(lo as int, n as int));
    }
    let mut hi: usize = n;
    while hi > lo && is_space_byte(s[hi - 1])
        invariant
            lo <= hi <= n,
            n == s@.len(),
            trim_end_spec(s@.subrange(lo as int, n as int)) == trim_end_spec(
                s@.subrange(lo as int, hi as int),
            ),
        decreases hi,
    {
        proof {
            assert(s@.subrange(lo as int, hi as int).subrange(0, (hi - lo - 1) as int)
                =~= s@.subrange(lo as int, hi - 1));
        }
        hi -= 1;
    }
    proof {
        assert(trim_end_spec(s@.subrange(lo as int, hi as int)) =~= s@.subrange(
            lo as int,
            hi as int,
        ));
    }
    copy_range(s, lo, hi)
}

/// Index of the first newline byte in `s`, or `s.len()` if there is none.
pub open spec fn first_nl(s: Seq<u8>) -> int
    decreases s.len(),
{
    if s.len() == 0 {
        0
    } else if s[0] == 10 {
        0
    } else {
        1 + first_nl(s.subrange(1, s.len() as int))
    }
}

pub proof fn lemma_first_nl(s: Seq<u8>)
    ensures
        0 <= first_nl(s) <= s.len(),
        first_nl(s) < s.len() ==> s[first_nl(s)] == 10,
        forall|j: int| 0 <= j < first_nl(s) ==> s[j] != 10,
    decreases s.len(),
{
    if s.len() > 0 && s[0] != 10 {
        let t = s.subrange(1, s.len() as int);
        lemma_first_nl(t);
        assert forall|j: int| 0 <= j < first_nl(s) implies s[j] != 10 by {
            if j > 0 {
                assert(t[j - 1] != 10);
            }
        }
    }
}

/// If the first `k` bytes are newline-free and byte `k` is a newline (or the
/// whole of `s` is newline-free and `k` is its length), the first newline
/// stands at `k`.
pub proof fn lemma_first_nl_at(s: Seq<u8>, k: int)
    requires
        0 <= k <= s.len(),
        forall|j: int| 0 <= j < k ==> s[j] != 10,
        k < s.len() ==> s[k] == 10,
    ensures
        first_nl(s) == k,
{
    lemma_first_nl(s);
    if first_nl(s) < k {
        assert(s[first_nl(s)] != 10);
    }
    if first_nl(s) > k {
        assert(s[k] != 10);
    }
}

/// The lines of `s`: the segments between newline bytes, in order. A document
/// of `n` newlines always has `n + 1` lines; the empty document has one empty
/// line.
pub open spec fn split_lines_spec(s: Seq<u8>) -> Seq<Seq<u8>>
    decreases s.len(),
{
    let i = first_nl(s);
    if i == s.len() {
        seq![s]
    } else if 0 <= i < s.len() {
        seq![s.subrange(0, i)] + split_lines_spec(s.subrange(i + 1, s.len() as int))
    } else {
        seq![s]
    }
}

/// The concatenation of `ls`, with a newline byte between adjacent lines.
pub open spec fn join_lines_spec(ls: Seq<Seq<u8>>) -> Seq<u8>
    decreases ls.len(),
{
    if ls.len() == 0 {
        Seq::empty()
    } else if ls.len() == 1 {
        ls[0]
    } else {
        ls[0] + seq![10u8] + join_lines_spec(ls.subrange(1, ls.len() as int))
    }
}

pub proof fn lemma_split_lines_shape(s: Seq<u8>)
    ensures
        split_lines_spec(s).len() >= 1,
        forall|i: int, j: int|
            0 <= i < split_lines_spec(s).len() && 0 <= j < split_lines_spec(s)[i].len()
                ==> split_lines_spec(s)[i][j] != 10,
    decreases s.len(),
{
    lemma_first_nl(s);
    let i = first_nl(s);
    if i < s.len() {
        lemma_split_lines_shape(s.subrange(i + 1, s.len() as int));
    }
}

/// Joining the split lines gives the document back byte for byte.
pub proof fn lemma_join_split(s: Seq<u8>)
    ensures
        join_lines_spec(split_lines_spec(s)) == s,
    decreases s.len(),
{
    lemma_first_nl(s);
    let i = first_nl(s);
    if i < s.len() {
        let rest = s.subrange(i + 1, s.len() as int);
        lemma_join_split(rest);
        lemma_split_lines_shape(rest);
        let ls = split_lines_spec(s);
        assert(ls.subrange(1, ls.len() as int) =~= split_lines_spec(rest));
        assert(s.subrange(0, i) + seq![10u8] + rest =~= s);
    }
}

/// Splitting the join of newline-free lines gives the lines back.
pub proof fn lemma_split_join(ls: Seq<Seq<u8>>)
    requires
        ls.len() >= 1,
        forall|i: int, j: int| 0 <= i < ls.len() && 0 <= j < ls[i].len() ==> ls[i][j] != 10,
    ensures
        split_lines_spec(join_lines_spec(ls)) == ls,
    decreases ls.len(),
{
    let s = join_lines_spec(ls);
    if ls.len() == 1 {
        lemma_first_nl_at(s, s.len() as int);
        assert(split_lines_spec(s) =~= ls);
    } else {
        let a = ls[0];
        let rest = ls.subrange(1, ls.len() as int);
        assert(s == a + seq![10u8] + join_lines_spec(rest));
        assert forall|j: int| 0 <= j < a.len() implies s[j] != 10 by {
            assert(ls[0][j] != 10);
        }
        assert(s[a.len() as int] == 10);
        lemma_first_nl_at(s, a.len() as int);
        assert(s.subrange(0, a.len() as int) =~= a);
        assert(s.subrange(a.len() as int + 1, s.len() as int) =~= join_lines_spec(rest));
        assert forall|i: int, j: int|
            0 <= i < rest.len() && 0 <= j < rest[i].len() implies rest[i][j] != 10 by {
            assert(ls[i + 1][j] != 10);
        }
        lemma_split_join(rest);
        assert(split_lines_spec(s) =~= ls);
    }
}

/// The lines of `s`, split at newline bytes.
pub fn split_lines(s: &[u8]) -> (r: Vec<Vec<u8>>)
    ensures
        r.deep_view() == split_lines_spec(s@),
        r@.len() >= 1,
{
    let n = s.len();
    let mut out: Vec<Vec<u8>> = Vec::new();
    let mut start: usize = 0;
    let mut i: usize = 0;
    proof {
        assert(s@ =~= s@.subrange(0, n as int));
    }
    while i < n
        invariant
            0 <= start <= i <= n,
            n == s@.len(),
            split_lines_spec(s@) == out.deep_view() + split_lines_spec(
                s@.subrange(start as int, n as int),
            ),
            forall|j: int| start <= j < i ==> s@[j] != 10,
        decreases n - i,
    {
        if s[i] == 10 {
            let line = copy_range(s, start, i);
            let ghost prev = out.deep_view();
            out.push(line);
            proof {
                let seg = s@.subrange(start as int, n as int);
                assert forall|j: int| 0 <= j < i - start implies seg[j] != 10 by {
                    assert(s@[start + j] != 10);
                }
                lemma_first_nl_at(seg, i - start);
                assert(seg.subrange(0, i - start) =~= s@.subrange(start as int, i as int));
                assert(seg.subrange(i - start + 1, seg.len() as int) =~= s@.subrange(
                    i + 1,
                    n as int,
                ));
                assert(out.deep_view() =~~= prev + seq![line@]);
                assert(out.deep_view() + split_lines_spec(s@.subrange(i + 1, n as int))
                    =~= prev + split_lines_spec(s@.subrange(start as int, n as int)));
            }
            start = i + 1;
        }
        i += 1;
    }
    let line = copy_range(s, start, n);
    let ghost prev = out.deep_view();
    out.push(line);
    proof {
        let seg = s@.subrange(start as int, n as int);
        assert forall|j: int| 0 <= j < seg.len() implies seg[j] != 10 by {
            assert(s@[start + j] != 10);
        }
        lemma_first_nl_at(seg, seg.len() as int);
        assert(out.deep_view() =~~= prev + seq![line@]);
        assert(out.deep_view() =~~= prev + split_lines_spec(seg));
    }
    out
}

proof fn lemma_join_snoc(ls: Seq<Seq<u8>>, x: Seq<u8>)
    requires
        ls.len() >= 1,
    ensures
        join_lines_spec(ls.push(x)) == join_lines_spec(ls) + seq![10u8] + x,
    decreases ls.len(),
{
    if ls.len() == 1 {
        let p = ls.push(x);
        assert(p.subrange(1, p.len() as int) =~= seq![x]);
        assert(join_lines_spec(seq![x]) == x);
        assert(p.len() == 2 && p[0] == ls[0]);
        assert(join_lines_spec(p) == p[0] + seq![10u8] + join_lines_spec(
            p.subrange(1, p.len() as int),
        ));
    } else {
        let tail = ls.subrange(1, ls.len() as int);
        lemma_join_snoc(tail, x);
        let p = ls.push(x);
        assert(p.subrange(1, p.len() as int) =~= tail.push(x));
        assert(join_lines_spec(p) =~= join_lines_spec(ls) + seq![10u8] + x);
    }
}

/// The document whose lines are `lines`, newline-separated.
pub fn join_lines(lines: &Vec<Vec<u8>>) -> (r: Vec<u8>)
    requires
        lines@.len() >= 1,
    ensures
        r@ == join_lines_spec(lines.deep_view()),
{
    let mut out: Vec<u8> = Vec::new();
    append_bytes(&mut out, lines[0].as_slice());
    proof {
        let dv = lines.deep_view();
        assert(dv.subrange(0, 1) =~= seq![dv[0]]);
        assert(out@ =~= join_lines_spec(dv.subrange(0, 1)));
    }
    let mut i: usize = 1;
    while i < lines.len()
        invariant
            1 <= i <= lines@.len(),
            out@ == join_lines_spec(lines.deep_view().subrange(0, i as int)),
        decreases lines@.len() - i,
    {
        out.push(10);
        append_bytes(&mut out, lines[i].as_slice());
        proof {
            let dv = lines.deep_view();
            let pre = dv.subrange(0, i as int);
            lemma_join_snoc(pre, dv[i as int]);
            assert(pre.push(dv[i as int]) =~= dv.subrange(0, i + 1));
            assert(out@ =~= join_lines_spec(dv.subrange(0, i + 1)));
        }
        i += 1;
    }
    proof {
        assert(lines.deep_view().subrange(0, lines@.len() as int) =~= lines.deep_view());
    }
    out
}

/// Append `src` to the end of `dst`.
pub fn append_bytes(dst: &mut Vec<u8>, src: &[u8])
    ensures
        final(dst)@ == old(dst)@ + src@,
{
    let mut k: usize = 0;
    proof {
        assert(dst@ =~= old(dst)@ + src@.subrange(0, 0));
    }
    while k < src.len()
        invariant
            0 <= k <= src@.len(),
            dst@ == old(dst)@ + src@.subrange(0, k as int),
        decreases src@.len() - k,
    {
        dst.push(src[k]);
        proof {
            assert(old(dst)@ + src@.subrange(0, k + 1) =~= (old(dst)@ + src@.subrange(
                0,
                k as int,
            )).push(src@[k as int]));
        }
        k += 1;
    }
    proof {
        assert(src@.subrange(0, src@.len() as int) =~= src@);
    }
}

/// `pat` occurs in `s` at position `i`.
pub open spec fn occurs_at(s: Seq<u8>, pat: Seq<u8>, i: int) -> bool {
    0 <= i && i + pat.len() <= s.len() && s.subrange(i, i + pat.len()) == pat
}

/// `pat` occurs somewhere in `s`.
pub open spec fn has_sub(s: Seq<u8>, pat: Seq<u8>) -> bool {
    exists|i: int| occurs_at(s, pat, i)
}

/// Position of the first occurrence of `pat` in `s`, or `-1` if there is none.
pub open spec fn find_sub_spec(s: Seq<u8>, pat: Seq<u8>) -> int
    decreases s.len(),
{
    if pat.len() > s.len() {
        -1
    } else if s.subrange(0, pat.len() as int) == pat {
        0
    } else if s.len() == 0 {
        -1
    } else {
        let r = find_sub_spec(s.subrange(1, s.len() as int), pat);
        if r < 0 {
            -1
        } else {
            1 + r
        }
    }
}

pub proof fn lemma_find_sub(s: Seq<u8>, pat: Seq<u8>)
    ensures
        find_sub_spec(s, pat) == -1 ==> !has_sub(s, pat),
        find_sub_spec(s, pat) >= 0 ==> occurs_at(s, pat, find_sub_spec(s, pat)) && (forall|j: int|
            0 <= j < find_sub_spec(s, pat) ==> !occurs_at(s, pat, j)),
    decreases s.len(),
{
    let r = find_sub_spec(s, pat);
    if pat.len() > s.len() {
        assert forall|i: int| !occurs_at(s, pat, i) by {}
    } else if s.subrange(0, pat.len() as int) == pat {
    } else {
        if s.len() == 0 {
            assert(!occurs_at(s, pat, 0));
            assert forall|i: int| !occurs_at(s, pat, i) by {}
        } else {
            let t = s.subrange(1, s.len() as int);
            lemma_find_sub(t, pat);
            assert forall|i: int| 1 <= i && i + pat.len() <= s.len() implies (occurs_at(
                s,
                pat,
                i,
            ) <==> occurs_at(t, pat, i - 1)) by {
                assert(s.subrange(i, i + pat.len()) =~= t.subrange(i - 1, i - 1 + pat.len()));
            }
            if find_sub_spec(t, pat) == -1 {
                assert forall|i: int| !occurs_at(s, pat, i) by {
                    if 1 <= i && i + pat.len() <= s.len() {
                        assert(!occurs_at(t, pat, i - 1));
                    }
                }
            } else {
                assert(occurs_at(t, pat, r - 1));
                assert(t.subrange(r - 1, r - 1 + pat.len()) =~= s.subrange(r, r + pat.len()));
                assert forall|j: int| 0 <= j < r implies !occurs_at(s, pat, j) by {
                    if j >= 1 {
                        assert(!occurs_at(t, pat, j - 1));
                    }
                }
            }
        }
    }
}

/// Whether `a` and `b` hold the same bytes.
pub fn bytes_eq(a: &[u8], b: &[u8]) -> (r: bool)
    ensures
        r == (a@ == b@),
{
    if a.len() != b.len() {
        proof {
            assert(a@ != b@);
        }
        return false;
    }
    let n = a.len();
    let mut k: usize = 0;
    while k < n
        invariant
            0 <= k <= n,
            n == a@.len() == b@.len(),
            forall|j: int| 0 <= j < k ==> a@[j] == b@[j],
        decreases n - k,
    {
        if a[k] != b[k] {
            proof {
                assert(a@[k as int] != b@[k as int]);
            }
            return false;
        }
        k += 1;
    }
    proof {
        assert(a@ =~= b@);
    }
    true
}

/// Whether `s` starts with `pat`.
pub fn starts_with(s: &[u8], pat: &[u8]) -> (r: bool)
    ensures
        r == (s@.len() >= pat@.len() && s@.subrange(0, pat@.len() as int) == pat@),
{
    if s.len() < pat.len() {
        return false;
    }
    let head = vstd::slice::slice_subrange(s, 0, pat.len());
    bytes_eq(head, pat)
}

/// Position of the first occurrence of `pat` in `s`, if any.
pub fn find_sub(s: &[u8], pat: &[u8]) -> (r: Option<usize>)
    ensures
        match r {
            Some(i) => i == find_sub_spec(s@, pat@) && occurs_at(s@, pat@, i as int),
            None => find_sub_spec(s@, pat@) == -1 && !has_sub(s@, pat@),
        },
{
    proof {
        lemma_find_sub(s@, pat@);
    }
    if pat.len() > s.len() {
        return None;
    }
    if pat.len() == 0 {
        proof {
            assert(s@.subrange(0, 0) =~= pat@);
            assert(occurs_at(s@, pat@, 0));
        }
        return Some(0);
    }
    let n = s.len() - pat.len();
    let mut k: usize = 0;
    while k <= n
        invariant
            0 <= k <= n + 1,
            n == s@.len() - pat@.len(),
            1 <= pat@.len() <= s@.len(),
            s@.len() <= usize::MAX,
            forall|j: int| 0 <= j < k ==> !occurs_at(s@, pat@, j),
        decreases n + 1 - k,
    {
        let win = vstd::slice::slice_subrange(s, k, k + pat.len());
        if bytes_eq(win, pat) {
            proof {
                assert(occurs_at(s@, pat@, k as int));
                lemma_find_sub(s@, pat@);
                if find_sub_spec(s@, pat@) == -1 {
                    assert(!has_sub(s@, pat@));
                    assert(false);
                }
                if find_sub_spec(s@, pat@) < k {
                    assert(!occurs_at(s@, pat@, find_sub_spec(s@, pat@)));
                    assert(false);
                }
                if find_sub_spec(s@, pat@) > k {
                    assert(!occurs_at(s@, pat@, k as int));
                    assert(false);
                }
            }
            return Some(k);
        }
        k += 1;
    }
    proof {
        assert forall|i: int| !occurs_at(s@, pat@, i) by {
            if 0 <= i && i + pat@.len() <= s@.len() {
                assert(!occurs_at(s@, pat@, i));
            }
        }
        lemma_find_sub(s@, pat@);
        if find_sub_spec(s@, pat@) >= 0 {
            assert(occurs_at(s@, pat@, find_sub_spec(s@, pat@)));
            assert(false);
        }
    }
    None
}

/// Whether `pat` occurs anywhere in `s`.
pub fn contains_sub(s: &[u8], pat: &[u8]) -> (r: bool)
    ensures
        r == has_sub(s@, pat@),
{
    match find_sub(s, pat) {
        Some(_) => true,
        None => false,
    }
}

} // verus!
