//! Byte layout for GPU-bound uniform and instance buffers. A shader reads
//! its uniforms as little-endian 32-bit words in a fixed order, so the
//! contract here is byte-for-byte: every byte of the output is pinned to a
//! digit of one input word.

use vstd::prelude::*;

verus! {

/// Byte `k` (0 through 3) of the little-endian encoding of `w`.
pub open spec fn le_b(w: u32, k: int) -> u8 {
    if k == 0 {
        (w as int % 256) as u8
    } else if k == 1 {
        ((w as int / 256) % 256) as u8
    } else if k == 2 {
        ((w as int / 65536) % 256) as u8
    } else {
        ((w as int / 16777216) % 256) as u8
    }
}

/// Append the four little-endian bytes of `w`.
pub fn push_word_le(out: &mut Vec<u8>, w: u32)
    requires
        old(out)@.len() + 4 <= usize::MAX,
    ensures
        final(out)@.len() == old(out)@.len() + 4,
        forall|i: int| 0 <= i < old(out)@.len() ==> final(out)@[i] == old(out)@[i],
        forall|k: int| 0 <= k < 4 ==> final(out)@[old(out)@.len() + k] == le_b(w, k),
{
    let b0: u8 = (w & 0xff) as u8;
    let b1: u8 = ((w >> 8u32) & 0xff) as u8;
    let b2: u8 = ((w >> 16u32) & 0xff) as u8;
    let b3: u8 = ((w >> 24u32) & 0xff) as u8;
    proof {
        assert((w & 0xff) == w % 256 && (w & 0xff) < 256) by (bit_vector);
        assert(((w >> 8u32) & 0xff) == (w / 256) % 256 && ((w >> 8u32) & 0xff) < 256)
            by (bit_vector);
        assert(((w >> 16u32) & 0xff) == (w / 65536) % 256 && ((w >> 16u32) & 0xff) < 256)
            by (bit_vector);
        assert(((w >> 24u32) & 0xff) == (w / 16777216) % 256 && ((w >> 24u32) & 0xff) < 256)
            by (bit_vector);
    }
    out.push(b0);
    out.push(b1);
    out.push(b2);
    out.push(b3);
}

/// Serialize a slice of 32-bit words as consecutive little-endian bytes:
/// exactly the layout a shader-bound buffer of words or floats expects.
/// Byte `4 * i + k` of the result is digit `k` of word `i`.
pub fn pack_words_le(words: &Vec<u32>) -> (r: Vec<u8>)
    requires
        words@.len() * 4 <= usize::MAX,
    ensures
        r@.len() == 4 * words@.len(),
        forall|i: int, k: int|
            0 <= i < words@.len() && 0 <= k < 4 ==> r@[4 * i + k] == #[trigger] le_b(words@[i], k),
{
    let mut out: Vec<u8> = Vec::new();
    let mut idx: usize = 0;
    while idx < words.len()
        invariant
            0 <= idx <= words@.len(),
            words@.len() * 4 <= usize::MAX,
            out@.len() == 4 * idx,
            forall|i: int, k: int|
                0 <= i < idx && 0 <= k < 4 ==> out@[4 * i + k] == #[trigger] le_b(words@[i], k),
        decreases words@.len() - idx,
    {
        let w: u32 = words[idx];
        proof {
            assert(4 * idx + 4 <= 4 * words@.len());
        }
        push_word_le(&mut out, w);
        idx = idx + 1;
    }
    out
}

} // verus!
