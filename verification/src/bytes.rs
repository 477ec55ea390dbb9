//! Small byte-slice helpers shared by the parser and the encoder.

use vstd::prelude::*;

verus! {

/// Index of the first occurrence of `b` in `s`, or the length of `s`
/// when it does not occur.
pub open spec fn byte_index(s: Seq<u8>, b: u8) -> int
    decreases s.len(),
{
    if s.len() == 0 {
        0
    } else if s[0] == b {
        0
    } else {
        1 + byte_index(s.drop_first(), b)
    }
}

/// `byte_index` is the unique position with no occurrence before it and
/// either an occurrence or the end at it.
pub proof fn lemma_byte_index_at(s: Seq<u8>, b: u8, k: int)
    requires
        0 <= k <= s.len(),
        forall|j: int| 0 <= j < k ==> s[j] != b,
        k == s.len() || s[k] == b,
    ensures
        byte_index(s, b) == k,
    decreases s.len(),
{
    if s.len() > 0 {
        if k == 0 {
        } else {
            assert(s[0] != b);
            assert forall|j: int| 0 <= j < k - 1 implies s.drop_first()[j] != b by {
                assert(s.drop_first()[j] == s[j + 1]);
            }
            if k < s.len() {
                assert(s.drop_first()[k - 1] == s[k]);
            }
            lemma_byte_index_at(s.drop_first(), b, k - 1);
        }
    }
}

/// `byte_index` stays within the sequence.
pub proof fn lemma_byte_index_le(s: Seq<u8>, b: u8)
    ensures
        0 <= byte_index(s, b) <= s.len(),
    decreases s.len(),
{
    if s.len() > 0 && s[0] != b {
        lemma_byte_index_le(s.drop_first(), b);
    }
}

/// Find the first occurrence of `b` in `s` at or after `from`, as the
/// spec function `byte_index` sees the tail.
pub fn find_byte(s: &[u8], from: usize, b: u8) -> (r: usize)
    requires
        from <= s@.len(),
    ensures
        from <= r <= s@.len(),
        r - from == byte_index(s@.skip(from as int), b),
        r < s@.len() ==> s@[r as int] == b,
        forall|j: int| from <= j < r ==> s@[j] != b,
{
    let mut i: usize = from;
    while i < s.len()
        invariant
            from <= i <= s@.len(),
            forall|j: int| from <= j < i ==> s@[j] != b,
        decreases s@.len() - i,
    {
        if s[i] == b {
            proof {
                assert forall|j: int| 0 <= j < i - from implies s@.skip(from as int)[j] != b by {
                    assert(s@.skip(from as int)[j] == s@[from + j]);
                }
                assert(s@.skip(from as int)[i - from] == s@[i as int]);
                lemma_byte_index_at(s@.skip(from as int), b, i - from);
            }
            return i;
        }
        i = i + 1;
    }
    proof {
        assert forall|j: int| 0 <= j < i - from implies s@.skip(from as int)[j] != b by {
            assert(s@.skip(from as int)[j] == s@[from + j]);
        }
        lemma_byte_index_at(s@.skip(from as int), b, i - from);
    }
    i
}

/// Index of the last occurrence of `b` in `s`, or minus one when it
/// does not occur.
pub open spec fn rbyte_index(s: Seq<u8>, b: u8) -> int
    decreases s.len(),
{
    if s.len() == 0 {
        -1
    } else if s.last() == b {
        s.len() - 1
    } else {
        rbyte_index(s.drop_last(), b)
    }
}

/// `rbyte_index` is the unique position with an occurrence at it and
/// none after it, or minus one with none at all.
pub proof fn lemma_rbyte_index_at(s: Seq<u8>, b: u8, k: int)
    requires
        -1 <= k < s.len(),
        forall|j: int| k < j < s.len() ==> s[j] != b,
        k == -1 || s[k] == b,
    ensures
        rbyte_index(s, b) == k,
    decreases s.len(),
{
    if s.len() > 0 {
        if k == s.len() - 1 {
        } else {
            assert(s.last() != b);
            assert forall|j: int| k < j < s.drop_last().len() implies s.drop_last()[j] != b by {
                assert(s.drop_last()[j] == s[j]);
            }
            if k >= 0 {
                assert(s.drop_last()[k] == s[k]);
            }
            lemma_rbyte_index_at(s.drop_last(), b, k);
        }
    }
}

/// Find the last occurrence of `b` in `s`, as `rbyte_index` sees it.
pub fn find_last_byte(s: &[u8], b: u8) -> (r: Option<usize>)
    ensures
        match r {
            Some(i) => i == rbyte_index(s@, b) && i < s@.len(),
            None => rbyte_index(s@, b) == -1,
        },
{
    let mut i: usize = s.len();
    while i > 0
        invariant
            i <= s@.len(),
            forall|j: int| i <= j < s@.len() ==> s@[j] != b,
        decreases i,
    {
        if s[i - 1] == b {
            proof {
                lemma_rbyte_index_at(s@, b, i - 1);
            }
            return Some(i - 1);
        }
        i = i - 1;
    }
    proof {
        lemma_rbyte_index_at(s@, b, -1);
    }
    None
}

/// Compare two byte slices for equality of contents.
pub fn bytes_eq(a: &[u8], b: &[u8]) -> (r: bool)
    ensures
        r == (a@ == b@),
{
    if a.len() != b.len() {
        return false;
    }
    let mut i: usize = 0;
    while i < a.len()
        invariant
            i <= a@.len(),
            a@.len() == b@.len(),
            forall|j: int| 0 <= j < i ==> a@[j] == b@[j],
        decreases a@.len() - i,
    {
        if a[i] != b[i] {
            return false;
        }
        i = i + 1;
    }
    proof {
        assert(a@ =~= b@);
    }
    true
}

/// Does `s` start with the prefix `p`?
pub open spec fn spec_has_prefix(s: Seq<u8>, p: Seq<u8>) -> bool {
    s.len() >= p.len() && s.take(p.len() as int) == p
}

/// Check whether `s` starts with the prefix `p`.
pub fn has_prefix(s: &[u8], p: &[u8]) -> (r: bool)
    ensures
        r == spec_has_prefix(s@, p@),
{
    if s.len() < p.len() {
        return false;
    }
    let mut i: usize = 0;
    while i < p.len()
        invariant
            i <= p@.len() <= s@.len(),
            forall|j: int| 0 <= j < i ==> s@[j] == p@[j],
        decreases p@.len() - i,
    {
        if s[i] != p[i] {
            proof {
                assert(s@.take(p@.len() as int)[i as int] == s@[i as int]);
            }
            return false;
        }
        i = i + 1;
    }
    proof {
        assert(s@.take(p@.len() as int) =~= p@);
    }
    true
}

/// Append every byte of `bs` to `out`.
pub fn push_bytes(out: &mut Vec<u8>, bs: &[u8])
    ensures
        final(out)@ == old(out)@ + bs@,
{
    proof {
        assert(old(out)@ + bs@.take(0) =~= old(out)@);
    }
    let mut i: usize = 0;
    while i < bs.len()
        invariant
            i <= bs@.len(),
            out@ == old(out)@ + bs@.take(i as int),
        decreases bs@.len() - i,
    {
        let b = bs[i];
        proof {
            assert((old(out)@ + bs@.take(i as int)).push(bs@[i as int]) =~= old(out)@ + bs@.take(
                i + 1,
            ));
        }
        out.push(b);
        i = i + 1;
    }
    proof {
        assert(bs@.take(bs@.len() as int) =~= bs@);
    }
}

} // verus!
