//! Small verified byte-sequence helpers shared by the token codec and the request gate.

use vstd::prelude::*;
use vstd::utf8::valid_utf8;

verus! {

/// Bytes below 128 always form valid UTF-8.
pub proof fn lemma_ascii_bytes_valid_utf8(b: Seq<u8>)
    requires
        forall|i: int| 0 <= i < b.len() ==> #[trigger] b[i] < 128,
    ensures
        valid_utf8(b),
{
    assert(b.subrange(0, 0) =~= Seq::<u8>::empty());
    assert(valid_utf8(Seq::<u8>::empty()));
    assert(vstd::utf8::partial_valid_utf8(b, 0));
    assert(forall|i: int|
        0 <= 0 <= i < b.len() <= b.len() ==> #[trigger] vstd::utf8::is_leading_byte_width_1(
            b[i],
        ));
    vstd::utf8::partial_valid_utf8_extend_ascii_block(b, 0, b.len() as int);
    assert(b.subrange(0, b.len() as int) =~= b);
}

/// Index of the first occurrence of `b` at or after `i`.
pub open spec fn spec_find_byte(s: Seq<u8>, b: u8, i: int) -> Option<int>
    decreases s.len() - i,
{
    if i < 0 || i >= s.len() {
        None
    } else if s[i] == b {
        Some(i)
    } else {
        spec_find_byte(s, b, i + 1)
    }
}

pub proof fn lemma_find_byte_found(s: Seq<u8>, b: u8, from: int, k: int)
    requires
        0 <= from <= k < s.len(),
        s[k] == b,
        forall|i: int| from <= i < k ==> s[i] != b,
    ensures
        spec_find_byte(s, b, from) == Some(k),
    decreases k - from,
{
    if from < k {
        lemma_find_byte_found(s, b, from + 1, k);
    }
}

pub proof fn lemma_find_byte_none(s: Seq<u8>, b: u8, from: int)
    requires
        0 <= from,
        forall|i: int| from <= i < s.len() ==> s[i] != b,
    ensures
        spec_find_byte(s, b, from) is None,
    decreases s.len() - from,
{
    if from < s.len() {
        lemma_find_byte_none(s, b, from + 1);
    }
}

/// Find the first occurrence of `b` at or after `from`.
pub fn find_byte(v: &Vec<u8>, b: u8, from: usize) -> (r: Option<usize>)
    requires
        from <= v@.len(),
    ensures
        match r {
            Some(k) => spec_find_byte(v@, b, from as int) == Some(k as int) && from <= k
                < v@.len() && v@[k as int] == b,
            None => spec_find_byte(v@, b, from as int) is None,
        },
{
    let mut i: usize = from;
    while i < v.len()
        invariant
            from <= i <= v@.len(),
            forall|k: int| from <= k < i ==> v@[k] != b,
        decreases v@.len() - i,
    {
        if v[i] == b {
            proof {
                lemma_find_byte_found(v@, b, from as int, i as int);
            }
            return Some(i);
        }
        i = i + 1;
    }
    proof {
        lemma_find_byte_none(v@, b, from as int);
    }
    None
}

/// Copy the byte range `[from, to)`.
pub fn subvec(v: &Vec<u8>, from: usize, to: usize) -> (r: Vec<u8>)
    requires
        from <= to <= v@.len(),
    ensures
        r@ == v@.subrange(from as int, to as int),
{
    let mut r: Vec<u8> = Vec::new();
    let mut i: usize = from;
    while i < to
        invariant
            from <= i <= to <= v@.len(),
            r@ == v@.subrange(from as int, i as int),
        decreases to - i,
    {
        r.push(v[i]);
        proof {
            assert(v@.subrange(from as int, i + 1) =~= v@.subrange(from as int, i as int).push(
                v@[i as int],
            ));
        }
        i = i + 1;
    }
    r
}

/// Byte-for-byte equality.
pub fn bytes_eq(a: &Vec<u8>, b: &Vec<u8>) -> (r: bool)
    ensures
        r == (a@ == b@),
{
    if a.len() != b.len() {
        return false;
    }
    let mut i: usize = 0;
    while i < a.len()
        invariant
            i <= a@.len(),
            a@.len() == b@.len(),
            forall|k: int| 0 <= k < i ==> a@[k] == b@[k],
        decreases a@.len() - i,
    {
        if a[i] != b[i] {
            return false;
        }
        i = i + 1;
    }
    proof {
        assert(a@ =~= b@);
    }
    true
}

/// ASCII whitespace, as trimming understands it.
pub open spec fn spec_is_space(b: u8) -> bool {
    b == 32 || b == 9 || b == 10 || b == 13
}

/// Drop leading ASCII whitespace.
pub open spec fn spec_trim_front(s: Seq<u8>) -> Seq<u8>
    decreases s.len(),
{
    if s.len() > 0 && spec_is_space(s[0]) {
        spec_trim_front(s.drop_first())
    } else {
        s
    }
}

/// Drop trailing ASCII whitespace.
pub open spec fn spec_trim_back(s: Seq<u8>) -> Seq<u8>
    decreases s.len(),
{
    if s.len() > 0 && spec_is_space(s.last()) {
        spec_trim_back(s.drop_last())
    } else {
        s
    }
}

/// Drop ASCII whitespace from both ends.
pub open spec fn spec_trim(s: Seq<u8>) -> Seq<u8> {
    spec_trim_back(spec_trim_front(s))
}

proof fn lemma_trim_front_at(s: Seq<u8>, k: int)
    requires
        0 <= k <= s.len(),
        forall|i: int| 0 <= i < k ==> spec_is_space(s[i]),
        k < s.len() ==> !spec_is_space(s[k]),
    ensures
        spec_trim_front(s) == s.subrange(k, s.len() as int),
    decreases k,
{
    if k == 0 {
        assert(s.subrange(0, s.len() as int) =~= s);
    } else {
        assert(spec_is_space(s[0]));
        let d = s.drop_first();
        assert(forall|i: int| 0 <= i < k - 1 ==> spec_is_space(d[i]));
        lemma_trim_front_at(d, k - 1);
        assert(d.subrange(k - 1, d.len() as int) =~= s.subrange(k, s.len() as int));
    }
}

proof fn lemma_trim_back_at(s: Seq<u8>, k: int)
    requires
        0 <= k <= s.len(),
        forall|i: int| k <= i < s.len() ==> spec_is_space(s[i]),
        k > 0 ==> !spec_is_space(s[k - 1]),
    ensures
        spec_trim_back(s) == s.subrange(0, k),
    decreases s.len() - k,
{
    if k == s.len() {
        assert(s.subrange(0, k) =~= s);
    } else {
        assert(spec_is_space(s.last()));
        let d = s.drop_last();
        assert(forall|i: int| k <= i < d.len() ==> spec_is_space(d[i]));
        lemma_trim_back_at(d, k);
        assert(d.subrange(0, k) =~= s.subrange(0, k));
    }
}

/// Trim ASCII whitespace from both ends.
pub fn trim_bytes(v: &Vec<u8>) -> (r: Vec<u8>)
    ensures
        r@ == spec_trim(v@),
{
    let mut lo: usize = 0;
    while lo < v.len() && (v[lo] == 32 || v[lo] == 9 || v[lo] == 10 || v[lo] == 13)
        invariant
            lo <= v@.len(),
            forall|i: int| 0 <= i < lo ==> spec_is_space(v@[i]),
        decreases v@.len() - lo,
    {
        lo = lo + 1;
    }
    let mut hi: usize = v.len();
    while hi > lo && (v[hi - 1] == 32 || v[hi - 1] == 9 || v[hi - 1] == 10 || v[hi - 1] == 13)
        invariant
            lo <= hi <= v@.len(),
            forall|i: int| hi <= i < v@.len() ==> spec_is_space(v@[i]),
        decreases hi,
    {
        hi = hi - 1;
    }
    proof {
        lemma_trim_front_at(v@, lo as int);
        let f = v@.subrange(lo as int, v@.len() as int);
        assert(forall|i: int| hi - lo <= i < f.len() ==> spec_is_space(#[trigger] f[i]));
        if hi > lo {
            assert(!spec_is_space(f[hi - lo - 1]));
        }
        lemma_trim_back_at(f, hi - lo);
        assert(f.subrange(0, hi - lo) =~= v@.subrange(lo as int, hi as int));
    }
    subvec(v, lo, hi)
}

} // verus!
