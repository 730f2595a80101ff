//! Conversion between the byte streams on the wire and the 32-bit words of the
//! persistent store. Every word is laid out little-endian.

use vstd::prelude::*;

verus! {

/// Byte `k` (0 = least significant) of the word `w`.
pub open spec fn byte_of(w: u32, k: int) -> u8 {
    if k == 0 {
        (w & 0xff) as u8
    } else if k == 1 {
        ((w >> 8u32) & 0xff) as u8
    } else if k == 2 {
        ((w >> 16u32) & 0xff) as u8
    } else {
        ((w >> 24u32) & 0xff) as u8
    }
}

/// The word whose little-endian bytes are `b0, b1, b2, b3`.
pub open spec fn word_from(b0: u8, b1: u8, b2: u8, b3: u8) -> u32 {
    (b0 as u32) | ((b1 as u32) << 8u32) | ((b2 as u32) << 16u32) | ((b3 as u32) << 24u32)
}

/// The bytes of a sequence of words, four per word.
pub open spec fn bytes_of_words(ws: Seq<u32>) -> Seq<u8> {
    Seq::new(4 * ws.len(), |i: int| byte_of(ws[i / 4], i % 4))
}

/// The words of a byte sequence, one per four bytes.
pub open spec fn words_of_bytes(bs: Seq<u8>) -> Seq<u32> {
    Seq::new(
        bs.len() / 4,
        |i: int| word_from(bs[4 * i], bs[4 * i + 1], bs[4 * i + 2], bs[4 * i + 3]),
    )
}

proof fn lemma_word_bytes(w: u32)
    ensures
        word_from(byte_of(w, 0), byte_of(w, 1), byte_of(w, 2), byte_of(w, 3)) == w,
{
    assert(((w & 0xff) as u8 as u32) | ((((w >> 8u32) & 0xff) as u8 as u32) << 8u32) | ((
    ((w >> 16u32) & 0xff) as u8 as u32) << 16u32) | ((((w >> 24u32) & 0xff) as u8 as u32)
        << 24u32) == w) by (bit_vector);
}

proof fn lemma_bytes_word(b0: u8, b1: u8, b2: u8, b3: u8)
    ensures
        byte_of(word_from(b0, b1, b2, b3), 0) == b0,
        byte_of(word_from(b0, b1, b2, b3), 1) == b1,
        byte_of(word_from(b0, b1, b2, b3), 2) == b2,
        byte_of(word_from(b0, b1, b2, b3), 3) == b3,
{
    let w = word_from(b0, b1, b2, b3);
    assert(w == (b0 as u32) | ((b1 as u32) << 8u32) | ((b2 as u32) << 16u32) | ((b3 as u32)
        << 24u32));
    assert(((((b0 as u32) | ((b1 as u32) << 8u32) | ((b2 as u32) << 16u32) | ((b3 as u32)
        << 24u32)) & 0xff) as u8) == b0) by (bit_vector);
    assert((((((b0 as u32) | ((b1 as u32) << 8u32) | ((b2 as u32) << 16u32) | ((b3 as u32)
        << 24u32)) >> 8u32) & 0xff) as u8) == b1) by (bit_vector);
    assert((((((b0 as u32) | ((b1 as u32) << 8u32) | ((b2 as u32) << 16u32) | ((b3 as u32)
        << 24u32)) >> 16u32) & 0xff) as u8) == b2) by (bit_vector);
    assert((((((b0 as u32) | ((b1 as u32) << 8u32) | ((b2 as u32) << 16u32) | ((b3 as u32)
        << 24u32)) >> 24u32) & 0xff) as u8) == b3) by (bit_vector);
}

/// Reading words back from their bytes gives the words again.
pub proof fn lemma_words_bytes_words(ws: Seq<u32>)
    ensures
        words_of_bytes(bytes_of_words(ws)) == ws,
{
    let bs = bytes_of_words(ws);
    assert forall|i: int| 0 <= i < ws.len() implies #[trigger] words_of_bytes(bs)[i] == ws[i] by {
        assert((4 * i) / 4 == i && (4 * i) % 4 == 0) by (nonlinear_arith)
            requires
                0 <= i,
        ;
        assert((4 * i + 1) / 4 == i && (4 * i + 1) % 4 == 1) by (nonlinear_arith)
            requires
                0 <= i,
        ;
        assert((4 * i + 2) / 4 == i && (4 * i + 2) % 4 == 2) by (nonlinear_arith)
            requires
                0 <= i,
        ;
        assert((4 * i + 3) / 4 == i && (4 * i + 3) % 4 == 3) by (nonlinear_arith)
            requires
                0 <= i,
        ;
        lemma_word_bytes(ws[i]);
    }
    assert(words_of_bytes(bs) =~= ws);
}

/// The round trip words -> bytes -> words is the identity on every buffer whose
/// length is a multiple of four.
pub proof fn lemma_bytes_words_bytes(bs: Seq<u8>)
    requires
        bs.len() % 4 == 0,
    ensures
        bytes_of_words(words_of_bytes(bs)) == bs,
{
    let ws = words_of_bytes(bs);
    assert(4 * (bs.len() / 4) == bs.len());
    assert forall|j: int| 0 <= j < bs.len() implies #[trigger] bytes_of_words(ws)[j] == bs[j] by {
        let i = j / 4;
        let k = j % 4;
        assert(j == 4 * i + k && 0 <= k < 4 && 0 <= i < bs.len() / 4);
        lemma_bytes_word(bs[4 * i], bs[4 * i + 1], bs[4 * i + 2], bs[4 * i + 3]);
    }
    assert(bytes_of_words(ws) =~= bs);
}

/// Packs `bytes` into `words`, four bytes per word.
pub fn bytes_to_words(bytes: &[u8], words: &mut [u32])
    requires
        bytes@.len() == 4 * old(words)@.len(),
    ensures
        final(words)@ == words_of_bytes(bytes@),
{
    let n = words.len();
    let m = bytes.len();
    let mut i: usize = 0;
    while i < n
        invariant
            n == words@.len(),
            m == bytes@.len(),
            bytes@.len() == 4 * n,
            i <= n,
            forall|j: int| 0 <= j < i ==> #[trigger] words@[j] == words_of_bytes(bytes@)[j],
        decreases n - i,
    {
        let b0 = bytes[4 * i];
        let b1 = bytes[4 * i + 1];
        let b2 = bytes[4 * i + 2];
        let b3 = bytes[4 * i + 3];
        words[i] = (b0 as u32) | ((b1 as u32) << 8u32) | ((b2 as u32) << 16u32) | ((b3 as u32)
            << 24u32);
        i = i + 1;
    }
    assert(words@ =~= words_of_bytes(bytes@));
}

/// Unpacks `words` into `bytes`, four bytes per word.
pub fn words_to_bytes(words: &[u32], bytes: &mut [u8])
    requires
        old(bytes)@.len() == 4 * words@.len(),
    ensures
        final(bytes)@ == bytes_of_words(words@),
{
    let n = words.len();
    let m = bytes.len();
    let mut i: usize = 0;
    while i < n
        invariant
            n == words@.len(),
            m == bytes@.len(),
            bytes@.len() == 4 * n,
            i <= n,
            forall|j: int| 0 <= j < 4 * i ==> #[trigger] bytes@[j] == bytes_of_words(words@)[j],
        decreases n - i,
    {
        let w = words[i];
        bytes[4 * i] = (w & 0xff) as u8;
        bytes[4 * i + 1] = ((w >> 8u32) & 0xff) as u8;
        bytes[4 * i + 2] = ((w >> 16u32) & 0xff) as u8;
        bytes[4 * i + 3] = ((w >> 24u32) & 0xff) as u8;
        proof {
            assert forall|j: int| 4 * i <= j < 4 * i + 4 implies #[trigger] bytes@[j]
                == bytes_of_words(words@)[j] by {
                assert(j / 4 == i as int);
            }
        }
        i = i + 1;
    }
    assert(bytes@ =~= bytes_of_words(words@));
}

} // verus!
