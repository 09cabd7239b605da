//! Byte-level scanning primitives: first occurrence of a byte, whitespace
//! runs, trimming, prefixes, and ASCII case folding. The request parser and
//! the content negotiator are specified in terms of these.

use vstd::prelude::*;

verus! {

/// A byte that counts as blank when header values are trimmed: space or tab.
pub open spec fn is_ws(b: u8) -> bool {
    b == 32 || b == 9
}

/// ASCII lower-casing of one byte; other bytes are unchanged.
pub open spec fn lower(b: u8) -> u8 {
    if 65 <= b && b <= 90 {
        (b + 32) as u8
    } else {
        b
    }
}

/// ASCII lower-casing of a whole byte sequence.
pub open spec fn lower_seq(s: Seq<u8>) -> Seq<u8> {
    s.map_values(|b: u8| lower(b))
}

/// The first index at or after `k` where `b` occurs in `s`, or `s.len()`
/// when it does not occur there.
pub open spec fn find_byte(s: Seq<u8>, b: u8, k: int) -> int
    decreases s.len() - k,
{
    if !(0 <= k && k < s.len()) {
        s.len() as int
    } else if s[k] == b {
        k
    } else {
        find_byte(s, b, k + 1)
    }
}

/// The first index at or after `k` holding a byte that is not blank.
pub open spec fn skip_ws(s: Seq<u8>, k: int) -> int
    decreases s.len() - k,
{
    if !(0 <= k && k < s.len()) {
        s.len() as int
    } else if !is_ws(s[k]) {
        k
    } else {
        skip_ws(s, k + 1)
    }
}

/// The first index at or after `k` holding a blank byte.
pub open spec fn find_ws(s: Seq<u8>, k: int) -> int
    decreases s.len() - k,
{
    if !(0 <= k && k < s.len()) {
        s.len() as int
    } else if is_ws(s[k]) {
        k
    } else {
        find_ws(s, k + 1)
    }
}

/// One past the last non-blank byte strictly before index `j`, or 0 when all
/// of `s[0..j]` is blank.
pub open spec fn rtrim_idx(s: Seq<u8>, j: int) -> int
    decreases j,
{
    if j <= 0 {
        0
    } else if is_ws(s[j - 1]) {
        rtrim_idx(s, j - 1)
    } else {
        j
    }
}

/// `s` with blank bytes removed from both ends.
pub open spec fn trim(s: Seq<u8>) -> Seq<u8> {
    let a = skip_ws(s, 0);
    let b = rtrim_idx(s, s.len() as int);
    if a <= b {
        s.subrange(a, b)
    } else {
        Seq::empty()
    }
}

/// `p` stands at the start of `s`.
pub open spec fn has_prefix(s: Seq<u8>, p: Seq<u8>) -> bool {
    s.len() >= p.len() && s.subrange(0, p.len() as int) == p
}

pub proof fn lemma_find_byte_bounds(s: Seq<u8>, b: u8, k: int)
    requires
        0 <= k <= s.len(),
    ensures
        k <= find_byte(s, b, k) <= s.len(),
        forall|j: int| k <= j < find_byte(s, b, k) ==> s[j] != b,
        find_byte(s, b, k) < s.len() ==> s[find_byte(s, b, k)] == b,
    decreases s.len() - k,
{
    if k < s.len() && s[k] != b {
        lemma_find_byte_bounds(s, b, k + 1);
    }
}

pub proof fn lemma_find_byte_is(s: Seq<u8>, b: u8, k: int, i: int)
    requires
        0 <= k <= i <= s.len(),
        forall|j: int| k <= j < i ==> s[j] != b,
        i < s.len() ==> s[i] == b,
    ensures
        find_byte(s, b, k) == i,
    decreases i - k,
{
    if k < i {
        lemma_find_byte_is(s, b, k + 1, i);
    }
}

pub proof fn lemma_skip_ws_bounds(s: Seq<u8>, k: int)
    requires
        0 <= k <= s.len(),
    ensures
        k <= skip_ws(s, k) <= s.len(),
        forall|j: int| k <= j < skip_ws(s, k) ==> is_ws(s[j]),
        skip_ws(s, k) < s.len() ==> !is_ws(s[skip_ws(s, k)]),
    decreases s.len() - k,
{
    if k < s.len() && is_ws(s[k]) {
        lemma_skip_ws_bounds(s, k + 1);
    }
}

pub proof fn lemma_skip_ws_is(s: Seq<u8>, k: int, i: int)
    requires
        0 <= k <= i <= s.len(),
        forall|j: int| k <= j < i ==> is_ws(s[j]),
        i < s.len() ==> !is_ws(s[i]),
    ensures
        skip_ws(s, k) == i,
    decreases i - k,
{
    if k < i {
        lemma_skip_ws_is(s, k + 1, i);
    }
}

pub proof fn lemma_find_ws_bounds(s: Seq<u8>, k: int)
    requires
        0 <= k <= s.len(),
    ensures
        k <= find_ws(s, k) <= s.len(),
        forall|j: int| k <= j < find_ws(s, k) ==> !is_ws(s[j]),
        find_ws(s, k) < s.len() ==> is_ws(s[find_ws(s, k)]),
    decreases s.len() - k,
{
    if k < s.len() && !is_ws(s[k]) {
        lemma_find_ws_bounds(s, k + 1);
    }
}

pub proof fn lemma_find_ws_is(s: Seq<u8>, k: int, i: int)
    requires
        0 <= k <= i <= s.len(),
        forall|j: int| k <= j < i ==> !is_ws(s[j]),
        i < s.len() ==> is_ws(s[i]),
    ensures
        find_ws(s, k) == i,
    decreases i - k,
{
    if k < i {
        lemma_find_ws_is(s, k + 1, i);
    }
}

pub proof fn lemma_rtrim_bounds(s: Seq<u8>, j: int)
    requires
        0 <= j <= s.len(),
    ensures
        0 <= rtrim_idx(s, j) <= j,
        forall|i: int| rtrim_idx(s, j) <= i < j ==> is_ws(s[i]),
        rtrim_idx(s, j) > 0 ==> !is_ws(s[rtrim_idx(s, j) - 1]),
    decreases j,
{
    if j > 0 && is_ws(s[j - 1]) {
        lemma_rtrim_bounds(s, j - 1);
    }
}

pub proof fn lemma_rtrim_is(s: Seq<u8>, j: int, i: int)
    requires
        0 <= i <= j <= s.len(),
        forall|m: int| i <= m < j ==> is_ws(s[m]),
        i > 0 ==> !is_ws(s[i - 1]),
    ensures
        rtrim_idx(s, j) == i,
    decreases j - i,
{
    if i < j {
        lemma_rtrim_is(s, j - 1, i);
    }
}

/// The bytes of `v` from `a` (inclusive) to `b` (exclusive), as a new vector.
pub fn subvec(v: &Vec<u8>, a: usize, b: usize) -> (r: Vec<u8>)
    requires
        a <= b <= v@.len(),
    ensures
        r@ == v@.subrange(a as int, b as int),
{
    let mut r: Vec<u8> = Vec::new();
    let mut i: usize = a;
    while i < b
        invariant
            a <= i <= b <= v@.len(),
            r@ == v@.subrange(a as int, i as int),
        decreases b - i,
    {
        r.push(v[i]);
        proof {
            assert(r@ =~= v@.subrange(a as int, i + 1 as int));
        }
        i = i + 1;
    }
    r
}

/// Appends all of `src` to `out`.
pub fn append_bytes(out: &mut Vec<u8>, src: &Vec<u8>)
    ensures
        final(out)@ == old(out)@ + src@,
{
    let mut i: usize = 0;
    while i < src.len()
        invariant
            i <= src@.len(),
            out@ == old(out)@ + src@.subrange(0, i as int),
        decreases src@.len() - i,
    {
        out.push(src[i]);
        proof {
            assert(old(out)@ + src@.subrange(0, i + 1 as int) =~= (old(out)@ + src@.subrange(
                0,
                i as int,
            )).push(src@[i as int]));
        }
        i = i + 1;
    }
    proof {
        assert(src@.subrange(0, src@.len() as int) =~= src@);
    }
}

/// Exact byte equality of two vectors.
pub fn bytes_eq(a: &Vec<u8>, b: &Vec<u8>) -> (r: bool)
    ensures
        r == (a@ == b@),
{
    if a.len() != b.len() {
        proof {
            assert(a@ != b@);
        }
        return false;
    }
    let mut i: usize = 0;
    while i < a.len()
        invariant
            a@.len() == b@.len(),
            i <= a@.len(),
            forall|j: int| 0 <= j < i ==> a@[j] == b@[j],
        decreases a@.len() - i,
    {
        if a[i] != b[i] {
            return false;
        }
        i = i + 1;
    }
    proof {
        assert(a@ =~= b@);
    }
    true
}

/// Case-insensitive (ASCII) equality of two byte vectors.
pub fn bytes_eq_ci(a: &Vec<u8>, b: &Vec<u8>) -> (r: bool)
    ensures
        r == (lower_seq(a@) == lower_seq(b@)),
{
    if a.len() != b.len() {
        proof {
            assert(lower_seq(a@).len() != lower_seq(b@).len());
        }
        return false;
    }
    let mut i: usize = 0;
    while i < a.len()
        invariant
            a@.len() == b@.len(),
            i <= a@.len(),
            forall|j: int| 0 <= j < i ==> lower(a@[j]) == lower(b@[j]),
        decreases a@.len() - i,
    {
        let x = lower_byte(a[i]);
        let y = lower_byte(b[i]);
        if x != y {
            proof {
                assert(lower_seq(a@)[i as int] != lower_seq(b@)[i as int]);
            }
            return false;
        }
        i = i + 1;
    }
    proof {
        assert(lower_seq(a@) =~= lower_seq(b@));
    }
    true
}

/// ASCII lower-casing of one byte.
pub fn lower_byte(b: u8) -> (r: u8)
    ensures
        r == lower(b),
{
    if 65 <= b && b <= 90 {
        b + 32
    } else {
        b
    }
}

/// Whether `p` stands at the start of `s`.
pub fn starts_with(s: &Vec<u8>, p: &Vec<u8>) -> (r: bool)
    ensures
        r == has_prefix(s@, p@),
{
    if s.len() < p.len() {
        return false;
    }
    let mut i: usize = 0;
    while i < p.len()
        invariant
            p@.len() <= s@.len(),
            i <= p@.len(),
            forall|j: int| 0 <= j < i ==> s@[j] == p@[j],
        decreases p@.len() - i,
    {
        if s[i] != p[i] {
            proof {
                assert(s@.subrange(0, p@.len() as int)[i as int] != p@[i as int]);
            }
            return false;
        }
        i = i + 1;
    }
    proof {
        assert(s@.subrange(0, p@.len() as int) =~= p@);
    }
    true
}

/// First index at or after `from` where `b` occurs in `v`, or `v.len()`.
pub fn scan_byte(v: &Vec<u8>, from: usize, b: u8) -> (i: usize)
    requires
        from <= v@.len(),
    ensures
        i == find_byte(v@, b, from as int),
        from <= i <= v@.len(),
{
    let mut i: usize = from;
    while i < v.len()
        invariant
            from <= i <= v@.len(),
            forall|j: int| from <= j < i ==> v@[j] != b,
        decreases v@.len() - i,
    {
        if v[i] == b {
            proof {
                lemma_find_byte_is(v@, b, from as int, i as int);
            }
            return i;
        }
        i = i + 1;
    }
    proof {
        lemma_find_byte_is(v@, b, from as int, v@.len() as int);
    }
    i
}

/// First index at or after `from` holding a byte that is not blank.
pub fn scan_skip_ws(v: &Vec<u8>, from: usize) -> (i: usize)
    requires
        from <= v@.len(),
    ensures
        i == skip_ws(v@, from as int),
        from <= i <= v@.len(),
{
    let mut i: usize = from;
    while i < v.len()
        invariant
            from <= i <= v@.len(),
            forall|j: int| from <= j < i ==> is_ws(v@[j]),
        decreases v@.len() - i,
    {
        let c = v[i];
        if !(c == 32 || c == 9) {
            proof {
                lemma_skip_ws_is(v@, from as int, i as int);
            }
            return i;
        }
        i = i + 1;
    }
    proof {
        lemma_skip_ws_is(v@, from as int, v@.len() as int);
    }
    i
}

/// First index at or after `from` holding a blank byte.
pub fn scan_find_ws(v: &Vec<u8>, from: usize) -> (i: usize)
    requires
        from <= v@.len(),
    ensures
        i == find_ws(v@, from as int),
        from <= i <= v@.len(),
{
    let mut i: usize = from;
    while i < v.len()
        invariant
            from <= i <= v@.len(),
            forall|j: int| from <= j < i ==> !is_ws(v@[j]),
        decreases v@.len() - i,
    {
        let c = v[i];
        if c == 32 || c == 9 {
            proof {
                lemma_find_ws_is(v@, from as int, i as int);
            }
            return i;
        }
        i = i + 1;
    }
    proof {
        lemma_find_ws_is(v@, from as int, v@.len() as int);
    }
    i
}

/// The blank bytes at both ends of `v` removed.
pub fn trim_bytes(v: &Vec<u8>) -> (r: Vec<u8>)
    ensures
        r@ == trim(v@),
{
    let a = scan_skip_ws(v, 0);
    let mut j: usize = v.len();
    proof {
        lemma_skip_ws_bounds(v@, 0);
    }
    while j > 0 && (v[j - 1] == 32 || v[j - 1] == 9)
        invariant
            j <= v@.len(),
            forall|m: int| j <= m < v@.len() ==> is_ws(v@[m]),
        decreases j,
    {
        j = j - 1;
    }
    proof {
        lemma_rtrim_is(v@, v@.len() as int, j as int);
    }
    if a <= j {
        subvec(v, a, j)
    } else {
        let r: Vec<u8> = Vec::new();
        r
    }
}

} // verus!
