//! The flag verifier: a length precheck, then a positional comparison of
//! per-chunk fingerprints against a table of eight.
use vstd::prelude::*;
use vstd::string::StringSliceAdditionalSpecFns;
use crate::fingerprint::{fingerprint, hash, lemma_one_position_changes_fingerprint};

verus! {

/// The only length, in bytes, that a flag can be accepted at.
pub const FLAG_LEN: usize = 32;

/// The length, in bytes, of one chunk.
pub const CHUNK_LEN: usize = 4;

/// The number of chunks, and of table entries.
pub const CHUNK_COUNT: usize = 8;

/// The `k`-th chunk of `s`: bytes `4k` up to `4k + 4`, cut short at the end
/// of `s`.
pub open spec fn chunk(s: Seq<u8>, k: int) -> Seq<u8> {
    let start = CHUNK_LEN * k;
    let end = if start + CHUNK_LEN <= s.len() { start + CHUNK_LEN } else { s.len() as int };
    s.subrange(start, end)
}

/// `s` is accepted against `table`: it is exactly `FLAG_LEN` bytes long and
/// the fingerprint of each chunk equals the table entry at its position.
pub open spec fn accepts(s: Seq<u8>, table: Seq<u64>) -> bool {
    &&& s.len() == FLAG_LEN
    &&& forall|k: int| 0 <= k < CHUNK_COUNT ==> #[trigger] fingerprint(chunk(s, k)) == table[k]
}

/// The embedded table of target fingerprints.
pub open spec fn target_table() -> Seq<u64> {
    seq![
        11200688220910254682u64,
        11200380368408825194u64,
        16146349676620574858u64,
        11200565025114669588u64,
        12165273152048139049u64,
        9396870039570576529u64,
        18071888434317316754u64,
        14218471961505630534u64,
    ]
}

/// The embedded table of target fingerprints, one per chunk position.
pub fn targets() -> (t: [u64; 8])
    ensures
        t@ == target_table(),
{
    let t: [u64; 8] = [
        11200688220910254682u64,
        11200380368408825194u64,
        16146349676620574858u64,
        11200565025114669588u64,
        12165273152048139049u64,
        9396870039570576529u64,
        18071888434317316754u64,
        14218471961505630534u64,
    ];
    assert(t@ =~= target_table());
    t
}

/// Checks `flag` against a table supplied by the caller: the length precheck,
/// then each chunk's fingerprint against the entry at its position, stopping
/// at the first mismatch.
pub fn check_flag_against(flag: &str, table: &[u64; 8]) -> (r: bool)
    ensures
        r == accepts(flag.spec_bytes(), table@),
        flag.spec_bytes().len() != FLAG_LEN ==> !r,
{
    let bytes = flag.as_bytes();
    if bytes.len() != FLAG_LEN {
        return false;
    }
    let mut i: usize = 0;
    while i < bytes.len()
        invariant
            bytes@ == flag.spec_bytes(),
            bytes@.len() == FLAG_LEN,
            table@.len() == CHUNK_COUNT,
            i % CHUNK_LEN == 0,
            i <= FLAG_LEN,
            forall|k: int|
                0 <= k < (i / CHUNK_LEN) as int ==> #[trigger] fingerprint(chunk(bytes@, k))
                    == table@[k],
        decreases FLAG_LEN - i,
    {
        let end: usize = if i + CHUNK_LEN <= bytes.len() { i + CHUNK_LEN } else { bytes.len() };
        let piece = vstd::slice::slice_subrange(bytes, i, end);
        let h = hash(piece);
        assert(piece@ == chunk(bytes@, (i / CHUNK_LEN) as int));
        if table[i / CHUNK_LEN] != h {
            return false;
        }
        i = i + CHUNK_LEN;
    }
    true
}

/// Checks `flag` against the embedded table.
pub fn check_flag(flag: &str) -> (r: bool)
    ensures
        r == accepts(flag.spec_bytes(), target_table()),
        flag.spec_bytes().len() != FLAG_LEN ==> !r,
{
    let table = targets();
    check_flag_against(flag, &table)
}

/// A flag that differs from an accepted one in exactly one byte, at the same
/// length, is rejected by the same table.
pub proof fn lemma_single_byte_change_rejected(s: Seq<u8>, t: Seq<u8>, table: Seq<u64>, j: int)
    requires
        accepts(s, table),
        t.len() == s.len(),
        0 <= j < s.len(),
        s[j] != t[j],
        forall|i: int| 0 <= i < s.len() && i != j ==> s[i] == t[i],
    ensures
        !accepts(t, table),
{
    let k = j / CHUNK_LEN as int;
    let cs = chunk(s, k);
    let ct = chunk(t, k);
    assert(cs.len() == CHUNK_LEN && ct.len() == CHUNK_LEN);
    lemma_one_position_changes_fingerprint(cs, ct, j - CHUNK_LEN * k);
    assert(fingerprint(cs) == table[k]);
}

} // verus!
