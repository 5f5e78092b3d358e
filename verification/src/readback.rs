//! Decoding of the byte buffers read back from the device.
//!
//! The max-weight pass renders into a four-channel 32-bit-float texture, so
//! the readback buffer carries 16 bytes per pixel of which only the first
//! four (the red channel) are meaningful.  The decoder works on the raw bit
//! patterns: for bit patterns of non-negative, non-NaN IEEE-754 floats,
//! unsigned integer order coincides with float order, so the maximum can be
//! taken — and verified — without floating point.  Patterns with the sign
//! bit set or in the NaN range never exceed a non-negative running maximum
//! under float comparison, and are skipped, which clamps the result to at
//! least zero exactly as comparing floats would.

use vstd::prelude::*;

use vstd::arithmetic::div_mod::{lemma_fundamental_div_mod, lemma_mod_bound};

verus! {

/// A readback buffer whose length does not fit the expected pixel stride:
/// a fatal layout fault.
#[derive(Clone, Copy, Debug, PartialEq, Eq, Structural)]
pub enum ReadbackError {
    MisalignedBuffer,
}

/// The copyable-texture width for a surface width: rows of a buffer mapped
/// to the host must be 256-byte multiples, so the width is rounded up to
/// the next multiple of 256 texels.
pub open spec fn aligned_256(w: int) -> int {
    ((w + 255) / 256) * 256
}

/// Executable row alignment; never narrower than the surface.
pub fn aligned_copy_width(width: u32) -> (r: u32)
    requires
        width <= 65536,
    ensures
        r as int == aligned_256(width as int),
        r % 256 == 0,
        width <= r,
        r <= 65792,
{
    let q = (width + 255) / 256;
    proof {
        lemma_fundamental_div_mod(width as int + 255, 256);
        lemma_mod_bound(width as int + 255, 256);
    }
    q * 256
}

/// Bytes in the copy buffer for an aligned-width texture: 16 bytes per
/// pixel.  Always a whole number of pixels, so decoding it can never hit
/// the layout fault.
pub fn copy_buffer_size(width: u32, height: u32) -> (r: u64)
    requires
        width <= 65536,
        height <= 65536,
    ensures
        r as int == 16 * aligned_256(width as int) * (height as int),
        r % 16 == 0,
{
    let aligned = aligned_copy_width(width) as u64;
    proof {
        assert(0 <= (16 * (aligned as int)) * (height as int) <= 16 * 65792 * 65536)
            by (nonlinear_arith)
            requires
                0 <= aligned as int <= 65792,
                0 <= height as int <= 65536,
        ;
    }
    let r = 16 * aligned * (height as u64);
    proof {
        assert(16 * (aligned as int) * (height as int) == ((aligned as int) * (height as int))
            * 16) by (nonlinear_arith);
        vstd::arithmetic::div_mod::lemma_mod_multiples_basic(
            (aligned as int) * (height as int),
            16,
        );
    }
    r
}

/// The 32-bit little-endian word starting at `off`.
pub open spec fn word_at(bytes: Seq<u8>, off: int) -> u32 {
    (bytes[off] + bytes[off + 1] * 0x100 + bytes[off + 2] * 0x1_0000 + bytes[off + 3]
        * 0x100_0000) as u32
}

/// The red-channel words: one per 16-byte pixel.
pub open spec fn red_words(bytes: Seq<u8>) -> Seq<u32> {
    Seq::new((bytes.len() / 16) as nat, |k: int| word_at(bytes, 16 * k))
}

/// Every word: one per 4 bytes, trailing partial word ignored.
pub open spec fn all_words(bytes: Seq<u8>) -> Seq<u32> {
    Seq::new((bytes.len() / 4) as nat, |k: int| word_at(bytes, 4 * k))
}

/// Whether a bit pattern can raise the maximum: the patterns at or below
/// positive infinity are exactly the non-negative, non-NaN floats, and on
/// them unsigned order is float order.  Negative and NaN patterns compare
/// below any non-negative float and are skipped.
pub open spec fn counts_toward_max(w: u32) -> bool {
    w <= 0x7F80_0000
}

/// The maximum red-channel value, clamped to at least zero: the largest
/// comparable pattern, or zero when none exceeds it.
pub open spec fn max_word(s: Seq<u32>) -> u32
    decreases s.len(),
{
    if s.len() == 0 {
        0u32
    } else {
        let m = max_word(s.drop_last());
        if counts_toward_max(s.last()) && s.last() > m {
            s.last()
        } else {
            m
        }
    }
}

/// The running maximum never exceeds the comparable range.
pub proof fn lemma_max_word_comparable(s: Seq<u32>)
    ensures
        max_word(s) <= 0x7F80_0000,
    decreases s.len(),
{
    if s.len() > 0 {
        lemma_max_word_comparable(s.drop_last());
    }
}

/// Reads the little-endian word at `i`.
fn read_word(bytes: &Vec<u8>, i: usize) -> (w: u32)
    requires
        i + 4 <= bytes@.len(),
    ensures
        w == word_at(bytes@, i as int),
{
    let l = bytes.len();
    proof {
        assert(i + 4 <= l);
    }
    let b0 = bytes[i] as u32;
    let b1 = bytes[i + 1] as u32;
    let b2 = bytes[i + 2] as u32;
    let b3 = bytes[i + 3] as u32;
    b0 + b1 * 0x100 + b2 * 0x1_0000 + b3 * 0x100_0000
}

/// Decodes a max-weight readback buffer: every 16 bytes hold one pixel
/// whose first word is the red channel; the result is the largest red
/// value, at least zero.  A length that is not a multiple of 16 is a fatal
/// layout fault and is the only error.
pub fn decode_max_weight(bytes: &Vec<u8>) -> (r: Result<u32, ReadbackError>)
    ensures
        r is Ok <==> bytes@.len() % 16 == 0,
        r matches Ok(m) ==> m == max_word(red_words(bytes@)) && m <= 0x7F80_0000,
        r is Err ==> r == Err::<u32, ReadbackError>(ReadbackError::MisalignedBuffer),
{
    let n = bytes.len();
    if n % 16 != 0 {
        return Err(ReadbackError::MisalignedBuffer);
    }
    let words = n / 16;
    let mut m: u32 = 0;
    let mut k: usize = 0;
    proof {
        assert(red_words(bytes@).take(0) =~= Seq::<u32>::empty());
    }
    while k < words
        invariant
            k <= words,
            words == bytes@.len() / 16,
            bytes@.len() % 16 == 0,
            n == bytes@.len(),
            m == max_word(red_words(bytes@).take(k as int)),
        decreases words - k,
    {
        proof {
            lemma_fundamental_div_mod(bytes@.len() as int, 16);
            assert(16 * (k as int) + 16 <= bytes@.len());
        }
        let w = read_word(bytes, 16 * k);
        proof {
            assert(red_words(bytes@)[k as int] == word_at(bytes@, 16 * (k as int)));
            assert(red_words(bytes@).take(k as int + 1).drop_last() =~= red_words(bytes@).take(
                k as int,
            ));
            assert(red_words(bytes@).take(k as int + 1).last() == w);
        }
        if w <= 0x7F80_0000 && w > m {
            m = w;
        }
        k = k + 1;
    }
    proof {
        assert(red_words(bytes@).take(words as int) =~= red_words(bytes@));
        lemma_max_word_comparable(red_words(bytes@));
    }
    Ok(m)
}

/// Decodes every 32-bit word of an export readback buffer; a trailing
/// partial word is ignored.
pub fn decode_pixels(bytes: &Vec<u8>) -> (v: Vec<u32>)
    ensures
        v@ == all_words(bytes@),
{
    let n = bytes.len();
    let words = n / 4;
    let mut v: Vec<u32> = Vec::new();
    let mut k: usize = 0;
    while k < words
        invariant
            k <= words,
            words == bytes@.len() / 4,
            n == bytes@.len(),
            v@.len() == k,
            forall|t: int| 0 <= t < k ==> v@[t] == all_words(bytes@)[t],
        decreases words - k,
    {
        proof {
            lemma_fundamental_div_mod(bytes@.len() as int, 4);
            lemma_mod_bound(bytes@.len() as int, 4);
            assert(4 * (k as int) + 4 <= bytes@.len());
        }
        let w = read_word(bytes, 4 * k);
        proof {
            assert(all_words(bytes@)[k as int] == word_at(bytes@, 4 * (k as int)));
        }
        v.push(w);
        k = k + 1;
    }
    proof {
        assert(v@ =~= all_words(bytes@));
    }
    v
}

/// Builds the 16-byte uniform payload that carries the maximum weight to
/// the colormap shader: the word's four little-endian bytes, padded with
/// trailing zeros to the 16-byte uniform alignment.
pub fn uniform_payload(bits: u32) -> (v: Vec<u8>)
    ensures
        v@.len() == 16,
        word_at(v@, 0) == bits,
        forall|t: int| 4 <= t < 16 ==> v@[t] == 0u8,
{
    let b0 = (bits % 0x100) as u8;
    let b1 = ((bits / 0x100) % 0x100) as u8;
    let b2 = ((bits / 0x1_0000) % 0x100) as u8;
    let b3 = (bits / 0x100_0000) as u8;
    let mut v: Vec<u8> = Vec::new();
    v.push(b0);
    v.push(b1);
    v.push(b2);
    v.push(b3);
    let mut k: usize = 4;
    while k < 16
        invariant
            4 <= k <= 16,
            v@.len() == k,
            v@[0] == b0,
            v@[1] == b1,
            v@[2] == b2,
            v@[3] == b3,
            forall|t: int| 4 <= t < k ==> v@[t] == 0u8,
        decreases 16 - k,
    {
        v.push(0);
        k = k + 1;
    }
    proof {
        lemma_word_rebuild(bits);
    }
    v
}

/// A word equals its little-endian byte decomposition.
proof fn lemma_word_rebuild(bits: u32)
    ensures
        bits % 0x100 + ((bits / 0x100) % 0x100) * 0x100 + ((bits / 0x1_0000) % 0x100) * 0x1_0000 + (
        bits / 0x100_0000) * 0x100_0000 == bits,
{
    lemma_fundamental_div_mod(bits as int, 0x100);
    lemma_mod_bound(bits as int, 0x100);
    lemma_fundamental_div_mod(bits as int / 0x100, 0x100);
    lemma_mod_bound(bits as int / 0x100, 0x100);
    lemma_fundamental_div_mod(bits as int / 0x1_0000, 0x100);
    lemma_mod_bound(bits as int / 0x1_0000, 0x100);
    lemma_div_chain(bits as int);
}

/// Folding two divisions by 0x100 into one by 0x1_0000, and three into one
/// by 0x100_0000.
proof fn lemma_div_chain(x: int)
    requires
        0 <= x,
    ensures
        x / 0x100 / 0x100 == x / 0x1_0000,
        x / 0x1_0000 / 0x100 == x / 0x100_0000,
{
    assert(x / 0x100 / 0x100 == x / 0x1_0000) by (nonlinear_arith)
        requires
            0 <= x,
    ;
    assert(x / 0x1_0000 / 0x100 == x / 0x100_0000) by (nonlinear_arith)
        requires
            0 <= x,
    ;
}

} // verus!
