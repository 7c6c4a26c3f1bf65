//! The chunk hasher: an order-sensitive rolling fold of bytes into a `u64`.
use vstd::prelude::*;

verus! {

/// The odd constant that the accumulator is multiplied by after each byte.
pub const MULTIPLIER: u64 = 31337;

/// One step of the fold: XOR the byte into the accumulator, then multiply by
/// `MULTIPLIER` modulo 2^64.
pub open spec fn step(h: u64, c: u8) -> u64 {
    (((h ^ (c as u64)) as nat * MULTIPLIER as nat) % 0x1_0000_0000_0000_0000) as u64
}

/// The fingerprint of a byte sequence: `step` folded from the left, starting
/// from 0.
pub open spec fn fingerprint(s: Seq<u8>) -> u64
    decreases s.len(),
{
    if s.len() == 0 {
        0
    } else {
        step(fingerprint(s.drop_last()), s.last())
    }
}

/// Reduces `s` to its fingerprint. Overflow in the multiplication wraps.
/// The result is `fingerprint(s@)`, a function of the bytes alone, so calls
/// on equal bytes return equal values.
pub fn hash(s: &[u8]) -> (r: u64)
    ensures
        r == fingerprint(s@),
        s@.len() == 0 ==> r == 0,
{
    let mut h: u64 = 0;
    let mut i: usize = 0;
    while i < s.len()
        invariant
            i <= s@.len(),
            h == fingerprint(s@.subrange(0, i as int)),
        decreases s@.len() - i,
    {
        assert(s@.subrange(0, i as int + 1).drop_last() =~= s@.subrange(0, i as int));
        h = (h ^ (s[i] as u64)).wrapping_mul(MULTIPLIER);
        i = i + 1;
    }
    assert(s@.subrange(0, s@.len() as int) =~= s@);
    h
}

/// The fingerprint of the empty sequence is 0.
pub proof fn lemma_empty_fingerprint()
    ensures
        fingerprint(Seq::<u8>::empty()) == 0,
{
}

/// For a fixed byte, `step` is injective in the accumulator: multiplying by
/// an odd constant modulo 2^64 is a bijection, and so is XOR with a byte.
pub proof fn lemma_step_injective_in_acc(h1: u64, h2: u64, c: u8)
    requires
        step(h1, c) == step(h2, c),
    ensures
        h1 == h2,
{
    assert(step(h1, c) == step(h2, c) ==> h1 == h2) by (bit_vector);
}

/// For a fixed accumulator, `step` is injective in the byte.
pub proof fn lemma_step_injective_in_byte(h: u64, c1: u8, c2: u8)
    requires
        step(h, c1) == step(h, c2),
    ensures
        c1 == c2,
{
    assert(step(h, c1) == step(h, c2) ==> c1 == c2) by (bit_vector);
}

/// Two sequences of the same length that differ at exactly one position
/// have different fingerprints.
pub proof fn lemma_one_position_changes_fingerprint(a: Seq<u8>, b: Seq<u8>, j: int)
    requires
        a.len() == b.len(),
        0 <= j < a.len(),
        a[j] != b[j],
        forall|i: int| 0 <= i < a.len() && i != j ==> a[i] == b[i],
    ensures
        fingerprint(a) != fingerprint(b),
    decreases a.len(),
{
    let n = a.len() - 1;
    if j == n {
        assert(a.drop_last() =~= b.drop_last());
        if fingerprint(a) == fingerprint(b) {
            lemma_step_injective_in_byte(fingerprint(a.drop_last()), a.last(), b.last());
        }
    } else {
        lemma_one_position_changes_fingerprint(a.drop_last(), b.drop_last(), j);
        assert(a.last() == b[n]);
        if fingerprint(a) == fingerprint(b) {
            lemma_step_injective_in_acc(fingerprint(a.drop_last()), fingerprint(b.drop_last()), a.last());
        }
    }
}

/// The fingerprint is order-sensitive: swapping two distinct bytes changes it.
pub proof fn lemma_swap_changes_fingerprint(a: u8, b: u8)
    requires
        a != b,
    ensures
        fingerprint(seq![a, b]) != fingerprint(seq![b, a]),
{
    assert(seq![a, b].drop_last() =~= seq![a]);
    assert(seq![b, a].drop_last() =~= seq![b]);
    assert(seq![a].drop_last() =~= Seq::<u8>::empty());
    assert(seq![b].drop_last() =~= Seq::<u8>::empty());
    assert(seq![a].last() == a);
    assert(seq![b].last() == b);
    assert(fingerprint(Seq::<u8>::empty()) == 0);
    assert(fingerprint(seq![a]) == step(0, a));
    assert(fingerprint(seq![b]) == step(0, b));
    assert(a != b ==> step(step(0, a), b) != step(step(0, b), a)) by (bit_vector);
}

} // verus!
