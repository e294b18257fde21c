//! Big-endian 64-bit words inside byte frames.
use vstd::prelude::*;

verus! {

/// Number of bytes in one frame.
pub const FRAME_LEN: usize = 64;

/// The big-endian word stored in the eight bytes of `b` starting at `at`.
#[verifier::opaque]
pub open spec fn be_word(b: Seq<u8>, at: int) -> u64 {
    ((b[at] as u64) << 56u64) | ((b[at + 1] as u64) << 48u64) | ((b[at + 2] as u64) << 40u64) | ((
    b[at + 3] as u64) << 32u64) | ((b[at + 4] as u64) << 24u64) | ((b[at + 5] as u64) << 16u64)
        | ((b[at + 6] as u64) << 8u64) | (b[at + 7] as u64)
}

/// The eight big-endian bytes of `w`, most significant first.
pub open spec fn be_bytes(w: u64) -> Seq<u8> {
    seq![
        (w >> 56u64) as u8,
        (w >> 48u64) as u8,
        (w >> 40u64) as u8,
        (w >> 32u64) as u8,
        (w >> 24u64) as u8,
        (w >> 16u64) as u8,
        (w >> 8u64) as u8,
        w as u8,
    ]
}

/// The words of a byte sequence whose length is a multiple of eight.
pub open spec fn words_of(b: Seq<u8>) -> Seq<u64> {
    Seq::new((b.len() / 8) as nat, |k: int| be_word(b, 8 * k))
}

/// Reading back the bytes of a word gives the word.
pub proof fn lemma_be_word_of_bytes(w: u64)
    ensures
        be_word(be_bytes(w), 0) == w,
{
    reveal(be_word);
    let b = be_bytes(w);
    assert(b[0] == (w >> 56u64) as u8);
    assert(b[7] == w as u8);
    assert((((w >> 56u64) as u8 as u64) << 56u64) | (((w >> 48u64) as u8 as u64) << 48u64) | (((w
        >> 40u64) as u8 as u64) << 40u64) | (((w >> 32u64) as u8 as u64) << 32u64) | (((w
        >> 24u64) as u8 as u64) << 24u64) | (((w >> 16u64) as u8 as u64) << 16u64) | (((w
        >> 8u64) as u8 as u64) << 8u64) | (w as u8 as u64) == w) by (bit_vector);
}

/// A word depends on its eight bytes alone.
pub proof fn lemma_be_word_same_bytes(a: Seq<u8>, at_a: int, b: Seq<u8>, at_b: int)
    requires
        forall|m: int| 0 <= m < 8 ==> a[at_a + m] == #[trigger] b[at_b + m],
    ensures
        be_word(a, at_a) == be_word(b, at_b),
{
    reveal(be_word);
    assert(a[at_a] == b[at_b + 0]);
    assert(a[at_a + 1] == b[at_b + 1]);
    assert(a[at_a + 2] == b[at_b + 2]);
    assert(a[at_a + 3] == b[at_b + 3]);
    assert(a[at_a + 4] == b[at_b + 4]);
    assert(a[at_a + 5] == b[at_b + 5]);
    assert(a[at_a + 6] == b[at_b + 6]);
    assert(a[at_a + 7] == b[at_b + 7]);
}

/// Eight zero bytes make the word 0.
pub proof fn lemma_be_word_zero(b: Seq<u8>, at: int)
    requires
        forall|m: int| 0 <= m < 8 ==> #[trigger] b[at + m] == 0,
    ensures
        be_word(b, at) == 0,
{
    reveal(be_word);
    assert(b[at + 0] == 0 && b[at + 1] == 0 && b[at + 2] == 0 && b[at + 3] == 0);
    assert(b[at + 4] == 0 && b[at + 5] == 0 && b[at + 6] == 0 && b[at + 7] == 0);
    assert(b[at] == b[at + 0]);
    assert(((0u8 as u64) << 56u64) | ((0u8 as u64) << 48u64) | ((0u8 as u64) << 40u64) | ((
    0u8 as u64) << 32u64) | ((0u8 as u64) << 24u64) | ((0u8 as u64) << 16u64) | ((0u8 as u64)
        << 8u64) | (0u8 as u64) == 0) by (bit_vector);
}

/// Reads the big-endian word at byte offset `at` of `buf`.
pub fn read_be_word(buf: &[u8], at: usize) -> (r: u64)
    requires
        at + 8 <= buf@.len(),
    ensures
        r == be_word(buf@, at as int),
{
    reveal(be_word);
    ((buf[at] as u64) << 56u64) | ((buf[at + 1] as u64) << 48u64) | ((buf[at + 2] as u64)
        << 40u64) | ((buf[at + 3] as u64) << 32u64) | ((buf[at + 4] as u64) << 24u64) | ((buf[at
        + 5] as u64) << 16u64) | ((buf[at + 6] as u64) << 8u64) | (buf[at + 7] as u64)
}

/// The eight big-endian bytes of `w`.
pub fn be_bytes_of(w: u64) -> (r: [u8; 8])
    ensures
        r@ == be_bytes(w),
{
    let r = [
        (w >> 56u64) as u8,
        (w >> 48u64) as u8,
        (w >> 40u64) as u8,
        (w >> 32u64) as u8,
        (w >> 24u64) as u8,
        (w >> 16u64) as u8,
        (w >> 8u64) as u8,
        w as u8,
    ];
    assert(r@ =~= be_bytes(w));
    r
}

} // verus!
