//! XOR masking of frame payloads with a 4-byte key.

use vstd::prelude::*;

verus! {

/// The result of XOR-masking `s` with the 4-byte key `key`:
/// byte `i` becomes `s[i] ^ key[i % 4]`.
pub open spec fn apply_mask_seq(s: Seq<u8>, key: Seq<u8>) -> Seq<u8>
    recommends
        key.len() == 4,
{
    Seq::new(s.len(), |i: int| (s[i] ^ key[i % 4]) as u8)
}

/// Masking is its own inverse: applying the same key twice restores the bytes.
pub proof fn lemma_mask_involutive(s: Seq<u8>, key: Seq<u8>)
    requires
        key.len() == 4,
    ensures
        apply_mask_seq(apply_mask_seq(s, key), key) =~= s,
{
    assert forall|i: int| 0 <= i < s.len() implies apply_mask_seq(apply_mask_seq(s, key), key)[i]
        == s[i] by {
        let k = key[i % 4];
        let b = s[i];
        assert((b ^ k) ^ k == b) by (bit_vector);
    }
}

/// XOR-masks `payload` in place with `mask`.
pub fn unmask(payload: &mut Vec<u8>, mask: [u8; 4])
    ensures
        final(payload)@ =~= apply_mask_seq(old(payload)@, mask@),
{
    let n = payload.len();
    let mut i: usize = 0;
    while i < n
        invariant
            n == payload@.len(),
            n == old(payload)@.len(),
            i <= n,
            forall|j: int| 0 <= j < i ==> payload@[j] == apply_mask_seq(old(payload)@, mask@)[j],
            forall|j: int| i <= j < n ==> payload@[j] == old(payload)@[j],
        decreases n - i,
    {
        let b = payload[i];
        let k = mask[i % 4];
        payload[i] = b ^ k;
        i += 1;
    }
}

/// The bytes of `src` from `start` (inclusive) to `end` (exclusive), as
/// a fresh vector.
pub fn copy_range(src: &Vec<u8>, start: usize, end: usize) -> (r: Vec<u8>)
    requires
        start <= end <= src@.len(),
    ensures
        r@ =~= src@.subrange(start as int, end as int),
{
    let mut r: Vec<u8> = Vec::new();
    let mut i: usize = start;
    while i < end
        invariant
            start <= i <= end <= src@.len(),
            r@ =~= src@.subrange(start as int, i as int),
        decreases end - i,
    {
        r.push(src[i]);
        proof {
            assert(src@.subrange(start as int, i + 1) =~= src@.subrange(start as int, i as int).push(
                src@[i as int],
            ));
        }
        i += 1;
    }
    r
}

/// Exact equality of two byte vectors.
pub fn eq_bytes(a: &Vec<u8>, b: &Vec<u8>) -> (r: bool)
    ensures
        r == (a@ == b@),
{
    if a.len() != b.len() {
        return false;
    }
    let n = a.len();
    let mut i: usize = 0;
    while i < n
        invariant
            i <= n,
            n == a@.len() == b@.len(),
            forall|j: int| 0 <= j < i ==> a@[j] == b@[j],
        decreases n - i,
    {
        if a[i] != b[i] {
            return false;
        }
        i += 1;
    }
    proof {
        assert(a@ =~= b@);
    }
    true
}

/// The bytes of `src`, as a fresh vector.
pub fn copy_bytes(src: &Vec<u8>) -> (r: Vec<u8>)
    ensures
        r@ =~= src@,
{
    let r = copy_range(src, 0, src.len());
    proof {
        assert(src@.subrange(0, src@.len() as int) =~= src@);
    }
    r
}

/// Appends the bytes of `src` to `dst`.
pub fn append_bytes(dst: &mut Vec<u8>, src: &Vec<u8>)
    ensures
        final(dst)@ =~= old(dst)@ + src@,
{
    let n = src.len();
    let mut i: usize = 0;
    while i < n
        invariant
            n == src@.len(),
            i <= n,
            dst@ =~= old(dst)@ + src@.take(i as int),
        decreases n - i,
    {
        dst.push(src[i]);
        proof {
            assert(old(dst)@ + src@.take(i + 1) =~= (old(dst)@ + src@.take(i as int)).push(
                src@[i as int],
            ));
        }
        i += 1;
    }
    proof {
        assert(src@.take(n as int) =~= src@);
    }
}

} // verus!
