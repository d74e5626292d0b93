//! Big-endian 256-bit ABI words and their narrowing into machine integers.

use vstd::prelude::*;

verus! {

/// A 32-byte ABI word, most significant byte first.
pub type Word = [u8; 32];

/// Numeric value of a big-endian byte sequence.
pub open spec fn be_value(s: Seq<u8>) -> nat
    decreases s.len(),
{
    if s.len() == 0 {
        0
    } else {
        be_value(s.drop_last()) * 256 + s.last() as nat
    }
}

/// A longer prefix of a big-endian sequence never has a smaller value.
pub proof fn lemma_prefix_monotone(s: Seq<u8>, i: int, j: int)
    requires
        0 <= i <= j <= s.len(),
    ensures
        be_value(s.subrange(0, i)) <= be_value(s.subrange(0, j)),
    decreases j - i,
{
    if i < j {
        lemma_prefix_monotone(s, i, j - 1);
        assert(s.subrange(0, j).drop_last() =~= s.subrange(0, j - 1));
    }
}

/// The value of `w` if it is at most `max`.
pub fn word_to_bounded(w: &Word, max: u64) -> (r: Option<u64>)
    ensures
        match r {
            Some(v) => be_value(w@) <= max && v == be_value(w@),
            None => be_value(w@) > max,
        },
{
    let mut acc: u64 = 0;
    let mut i: usize = 0;
    while i < 32
        invariant
            0 <= i <= 32,
            w@.len() == 32,
            acc == be_value(w@.subrange(0, i as int)),
            acc <= max,
        decreases 32 - i,
    {
        let next: u128 = (acc as u128) * 256 + (w[i] as u128);
        proof {
            assert(w@.subrange(0, i + 1).drop_last() =~= w@.subrange(0, i as int));
        }
        if next > max as u128 {
            proof {
                lemma_prefix_monotone(w@, i + 1, 32);
                assert(w@.subrange(0, 32) =~= w@);
            }
            return None;
        }
        acc = next as u64;
        i = i + 1;
    }
    proof {
        assert(w@.subrange(0, 32) =~= w@);
    }
    Some(acc)
}

/// The value of `w` as a `u64`, if it fits.
pub fn word_to_u64(w: &Word) -> (r: Option<u64>)
    ensures
        match r {
            Some(v) => be_value(w@) <= u64::MAX && v == be_value(w@),
            None => be_value(w@) > u64::MAX,
        },
{
    word_to_bounded(w, u64::MAX)
}

/// The values of all words, or `None` when one of them does not fit a `u64`.
pub fn words_to_u64s(ws: &Vec<Word>) -> (r: Option<Vec<u64>>)
    ensures
        match r {
            Some(v) => v@.len() == ws@.len() && forall|k: int|
                0 <= k < ws@.len() ==> be_value(#[trigger] ws@[k]@) <= u64::MAX && v@[k]
                    == be_value(ws@[k]@),
            None => exists|k: int| 0 <= k < ws@.len() && be_value(#[trigger] ws@[k]@) > u64::MAX,
        },
{
    let mut out: Vec<u64> = Vec::new();
    let mut i: usize = 0;
    while i < ws.len()
        invariant
            0 <= i <= ws@.len(),
            out@.len() == i,
            forall|k: int|
                0 <= k < i ==> be_value(#[trigger] ws@[k]@) <= u64::MAX && out@[k] == be_value(
                    ws@[k]@,
                ),
        decreases ws@.len() - i,
    {
        match word_to_u64(&ws[i]) {
            Some(v) => out.push(v),
            None => return None,
        }
        i = i + 1;
    }
    Some(out)
}

} // verus!
