//! Trimming of ASCII whitespace from the ends of a byte slice, and the
//! run-length machinery that the rest of the crate uses to describe
//! whitespace-separated tokens.

use vstd::prelude::*;

verus! {

/// The ASCII whitespace bytes: tab, line feed, form feed, carriage return
/// and space.
pub open spec fn is_ascii_ws(b: u8) -> bool {
    b == 9 || b == 10 || b == 12 || b == 13 || b == 32
}

/// Length of the longest prefix of `s` whose bytes all satisfy
/// `is_ascii_ws(b) == w`.
pub open spec fn run_len(s: Seq<u8>, w: bool) -> nat
    decreases s.len(),
{
    if s.len() == 0 {
        0
    } else if is_ascii_ws(s[0]) == w {
        1 + run_len(s.skip(1), w)
    } else {
        0
    }
}

/// Length of the longest suffix of `s` made of ASCII whitespace.
pub open spec fn ws_suffix_len(s: Seq<u8>) -> nat
    decreases s.len(),
{
    if s.len() == 0 {
        0
    } else if is_ascii_ws(s.last()) {
        1 + ws_suffix_len(s.drop_last())
    } else {
        0
    }
}

/// The byte sequence with leading and trailing ASCII whitespace removed.
pub open spec fn trim_spec(s: Seq<u8>) -> Seq<u8> {
    if run_len(s, true) == s.len() {
        Seq::<u8>::empty()
    } else {
        s.subrange(run_len(s, true) as int, s.len() - ws_suffix_len(s) as int)
    }
}

/// A whitespace (or non-whitespace) run is bounded by the first byte of the
/// other kind.
pub proof fn lemma_run_len(s: Seq<u8>, w: bool)
    ensures
        run_len(s, w) <= s.len(),
        forall|k: int| 0 <= k < run_len(s, w) ==> is_ascii_ws(s[k]) == w,
        run_len(s, w) < s.len() ==> is_ascii_ws(s[run_len(s, w) as int]) != w,
    decreases s.len(),
{
    if s.len() > 0 && is_ascii_ws(s[0]) == w {
        lemma_run_len(s.skip(1), w);
        assert forall|k: int| 0 <= k < run_len(s, w) implies is_ascii_ws(s[k]) == w by {
            if k > 0 {
                assert(s.skip(1)[k - 1] == s[k]);
            }
        }
        if run_len(s, w) < s.len() {
            assert(s.skip(1)[run_len(s, w) - 1] == s[run_len(s, w) as int]);
        }
    }
}

/// The run length is the unique index with all bytes of the wanted kind
/// before it and, unless the sequence ends there, a byte of the other kind
/// at it.
pub proof fn lemma_run_len_unique(s: Seq<u8>, w: bool, i: int)
    requires
        0 <= i <= s.len(),
        forall|k: int| 0 <= k < i ==> is_ascii_ws(s[k]) == w,
        i < s.len() ==> is_ascii_ws(s[i]) != w,
    ensures
        i == run_len(s, w),
    decreases s.len(),
{
    if s.len() == 0 {
    } else if is_ascii_ws(s[0]) == w {
        assert(i > 0);
        assert forall|k: int| 0 <= k < i - 1 implies is_ascii_ws(s.skip(1)[k]) == w by {
            assert(s.skip(1)[k] == s[k + 1]);
        }
        if i - 1 < s.skip(1).len() {
            assert(s.skip(1)[i - 1] == s[i]);
        }
        lemma_run_len_unique(s.skip(1), w, i - 1);
    } else {
        assert(i == 0);
    }
}

/// The whitespace suffix is bounded by the last non-whitespace byte.
pub proof fn lemma_ws_suffix(s: Seq<u8>)
    ensures
        ws_suffix_len(s) <= s.len(),
        forall|k: int| s.len() - ws_suffix_len(s) <= k < s.len() ==> is_ascii_ws(s[k]),
        ws_suffix_len(s) < s.len() ==> !is_ascii_ws(s[s.len() - ws_suffix_len(s) - 1]),
    decreases s.len(),
{
    if s.len() > 0 && is_ascii_ws(s.last()) {
        lemma_ws_suffix(s.drop_last());
        assert forall|k: int| s.len() - ws_suffix_len(s) <= k < s.len() implies is_ascii_ws(
            s[k],
        ) by {
            if k < s.len() - 1 {
                assert(s.drop_last()[k] == s[k]);
            }
        }
        if ws_suffix_len(s) < s.len() {
            assert(s.drop_last()[s.len() - ws_suffix_len(s) - 1] == s[s.len() - ws_suffix_len(s)
                - 1]);
        }
    }
}

/// The whitespace suffix length is unique in the same way as the prefix.
pub proof fn lemma_ws_suffix_unique(s: Seq<u8>, j: int)
    requires
        0 <= j <= s.len(),
        forall|k: int| s.len() - j <= k < s.len() ==> is_ascii_ws(s[k]),
        j < s.len() ==> !is_ascii_ws(s[s.len() - j - 1]),
    ensures
        j == ws_suffix_len(s),
    decreases s.len(),
{
    if s.len() == 0 {
    } else if is_ascii_ws(s.last()) {
        assert(j > 0);
        assert forall|k: int| s.drop_last().len() - (j - 1) <= k < s.drop_last().len()
            implies is_ascii_ws(s.drop_last()[k]) by {
            assert(s.drop_last()[k] == s[k]);
        }
        if j - 1 < s.drop_last().len() {
            assert(s.drop_last()[s.drop_last().len() - (j - 1) - 1] == s[s.len() - j - 1]);
        }
        lemma_ws_suffix_unique(s.drop_last(), j - 1);
    } else {
        assert(j == 0);
    }
}

/// Whether `b` is one of the ASCII whitespace bytes.
pub fn is_ws_byte(b: u8) -> (r: bool)
    ensures
        r == is_ascii_ws(b),
{
    b == 9 || b == 10 || b == 12 || b == 13 || b == 32
}

/// Removes leading and trailing ASCII whitespace from the byte slice; a
/// slice of nothing but whitespace becomes the empty slice.
pub fn trim_ascii_whitespace(x: &[u8]) -> (r: &[u8])
    ensures
        r@ == trim_spec(x@),
{
    let n = x.len();
    let mut i: usize = 0;
    while i < n && is_ws_byte(x[i])
        invariant
            n == x@.len(),
            0 <= i <= n,
            forall|k: int| 0 <= k < i ==> is_ascii_ws(x@[k]),
        decreases n - i,
    {
        i = i + 1;
    }
    proof {
        lemma_run_len_unique(x@, true, i as int);
    }
    if i == n {
        let r = vstd::slice::slice_subrange(x, 0, 0);
        assert(r@ =~= trim_spec(x@));
        return r;
    }
    let mut j: usize = n;
    while j > 0 && is_ws_byte(x[j - 1])
        invariant
            n == x@.len(),
            i < n,
            !is_ascii_ws(x@[i as int]),
            i < j <= n,
            forall|k: int| j <= k < n ==> is_ascii_ws(x@[k]),
        decreases j,
    {
        j = j - 1;
    }
    proof {
        lemma_ws_suffix_unique(x@, (n - j) as int);
    }
    let r = vstd::slice::slice_subrange(x, i, j);
    assert(r@ =~= trim_spec(x@));
    r
}

/// Trimming a sequence made of nothing but ASCII whitespace leaves nothing.
pub proof fn lemma_trim_all_whitespace(s: Seq<u8>)
    requires
        forall|k: int| 0 <= k < s.len() ==> is_ascii_ws(s[k]),
    ensures
        trim_spec(s).len() == 0,
{
    lemma_run_len_unique(s, true, s.len() as int);
}

/// On a sequence with any non-whitespace content, trimming removes only
/// leading and trailing whitespace: the result is a contiguous subrange
/// that starts and ends on non-whitespace, every removed byte is
/// whitespace, and the kept bytes stay in their order.
pub proof fn lemma_trim_keeps_content(s: Seq<u8>)
    requires
        exists|k: int| 0 <= k < s.len() && !is_ascii_ws(s[k]),
    ensures
        run_len(s, true) < s.len(),
        run_len(s, true) + ws_suffix_len(s) < s.len(),
        trim_spec(s) == s.subrange(run_len(s, true) as int, s.len() - ws_suffix_len(s) as int),
        trim_spec(s).len() > 0,
        !is_ascii_ws(trim_spec(s).first()),
        !is_ascii_ws(trim_spec(s).last()),
        forall|k: int| 0 <= k < run_len(s, true) ==> is_ascii_ws(s[k]),
        forall|k: int| s.len() - ws_suffix_len(s) <= k < s.len() ==> is_ascii_ws(s[k]),
        forall|k: int|
            0 <= k < trim_spec(s).len() ==> trim_spec(s)[k] == s[run_len(s, true) + k],
{
    lemma_run_len(s, true);
    lemma_ws_suffix(s);
    let f = run_len(s, true) as int;
    let e = s.len() - ws_suffix_len(s) as int;
    assert(f < s.len()) by {
        if f == s.len() {
            let k = choose|k: int| 0 <= k < s.len() && !is_ascii_ws(s[k]);
            assert(is_ascii_ws(s[k]));
        }
    }
    assert(f < e) by {
        if e <= f {
            assert(is_ascii_ws(s[f]));
        }
    }
}

} // verus!
