//! The stored form of an embedding vector: each 32-bit component written as
//! four little-endian bytes, one after the other.
//!
//! Components are handled by their bit patterns; the floating-point meaning of
//! a pattern is given to it outside this library.
use vstd::prelude::*;

verus! {

/// The word whose little-endian bytes are `b0`, `b1`, `b2`, `b3`.
pub open spec fn le_word(b0: u8, b1: u8, b2: u8, b3: u8) -> u32 {
    (b0 as u32) | ((b1 as u32) << 8u32) | ((b2 as u32) << 16u32) | ((b3 as u32) << 24u32)
}

/// Byte `k` (0 to 3, least significant first) of `w`.
pub open spec fn word_byte(w: u32, k: int) -> u8 {
    if k == 0 {
        (w & 0xffu32) as u8
    } else if k == 1 {
        ((w >> 8u32) & 0xffu32) as u8
    } else if k == 2 {
        ((w >> 16u32) & 0xffu32) as u8
    } else {
        ((w >> 24u32) & 0xffu32) as u8
    }
}

/// The words that `bytes` encodes, four bytes to a word; a trailing partial
/// group is not part of any word.
pub open spec fn words_of_bytes(bytes: Seq<u8>) -> Seq<u32> {
    Seq::new(
        bytes.len() / 4,
        |i: int| le_word(bytes[4 * i], bytes[4 * i + 1], bytes[4 * i + 2], bytes[4 * i + 3]),
    )
}

/// The bytes that encode `words`, four to a word.
pub open spec fn bytes_of_words(words: Seq<u32>) -> Seq<u8> {
    Seq::new(words.len() * 4, |j: int| word_byte(words[j / 4], j % 4))
}

proof fn lemma_word_bytes_roundtrip(w: u32)
    ensures
        le_word(word_byte(w, 0), word_byte(w, 1), word_byte(w, 2), word_byte(w, 3)) == w,
{
    assert(((w & 0xffu32) as u8 as u32) | ((((w >> 8u32) & 0xffu32) as u8 as u32) << 8u32) | ((((w
        >> 16u32) & 0xffu32) as u8 as u32) << 16u32) | ((((w >> 24u32) & 0xffu32) as u8 as u32)
        << 24u32) == w) by (bit_vector);
}

proof fn lemma_bytes_word_roundtrip(b0: u8, b1: u8, b2: u8, b3: u8)
    ensures
        word_byte(le_word(b0, b1, b2, b3), 0) == b0,
        word_byte(le_word(b0, b1, b2, b3), 1) == b1,
        word_byte(le_word(b0, b1, b2, b3), 2) == b2,
        word_byte(le_word(b0, b1, b2, b3), 3) == b3,
{
    let w: u32 = le_word(b0, b1, b2, b3);
    assert(w == (b0 as u32) | ((b1 as u32) << 8u32) | ((b2 as u32) << 16u32) | ((b3 as u32)
        << 24u32));
    assert(((((b0 as u32) | ((b1 as u32) << 8u32) | ((b2 as u32) << 16u32) | ((b3 as u32)
        << 24u32)) & 0xffu32) as u8) == b0) by (bit_vector);
    assert((((((b0 as u32) | ((b1 as u32) << 8u32) | ((b2 as u32) << 16u32) | ((b3 as u32)
        << 24u32)) >> 8u32) & 0xffu32) as u8) == b1) by (bit_vector);
    assert((((((b0 as u32) | ((b1 as u32) << 8u32) | ((b2 as u32) << 16u32) | ((b3 as u32)
        << 24u32)) >> 16u32) & 0xffu32) as u8) == b2) by (bit_vector);
    assert((((((b0 as u32) | ((b1 as u32) << 8u32) | ((b2 as u32) << 16u32) | ((b3 as u32)
        << 24u32)) >> 24u32) & 0xffu32) as u8) == b3) by (bit_vector);
}

/// Decoding the encoding of any words gives the same words back.
pub proof fn law_words_bytes_roundtrip(words: Seq<u32>)
    ensures
        words_of_bytes(bytes_of_words(words)) == words,
{
    let bytes = bytes_of_words(words);
    assert(bytes.len() / 4 == words.len()) by (nonlinear_arith)
        requires
            bytes.len() == words.len() * 4,
    ;
    assert forall|i: int| 0 <= i < words.len() implies #[trigger] words_of_bytes(bytes)[i]
        == words[i] by {
        assert(0 <= 4 * i && 4 * i + 3 < bytes.len()) by (nonlinear_arith)
            requires
                0 <= i < words.len(),
                bytes.len() == words.len() * 4,
        ;
        assert((4 * i) / 4 == i && (4 * i) % 4 == 0);
        assert((4 * i + 1) / 4 == i && (4 * i + 1) % 4 == 1);
        assert((4 * i + 2) / 4 == i && (4 * i + 2) % 4 == 2);
        assert((4 * i + 3) / 4 == i && (4 * i + 3) % 4 == 3);
        lemma_word_bytes_roundtrip(words[i]);
    }
    assert(words_of_bytes(bytes) =~= words);
}

/// Encoding the words that an aligned byte string holds gives the same bytes
/// back.
pub proof fn law_bytes_words_roundtrip(bytes: Seq<u8>)
    requires
        bytes.len() % 4 == 0,
    ensures
        bytes_of_words(words_of_bytes(bytes)) == bytes,
{
    let words = words_of_bytes(bytes);
    let back = bytes_of_words(words);
    assert(words.len() * 4 == bytes.len());
    assert forall|j: int| 0 <= j < bytes.len() implies #[trigger] back[j] == bytes[j] by {
        let i: int = j / 4;
        let k: int = j % 4;
        assert(0 <= i < words.len());
        assert(j == 4 * i + k);
        lemma_bytes_word_roundtrip(bytes[4 * i], bytes[4 * i + 1], bytes[4 * i + 2], bytes[4 * i + 3]);
    }
    assert(back =~= bytes);
}

/// The words that an aligned byte string encodes.
pub fn decode_words(bytes: &[u8]) -> (r: Vec<u32>)
    requires
        bytes@.len() % 4 == 0,
    ensures
        r@ == words_of_bytes(bytes@),
{
    let len: usize = bytes.len();
    let n: usize = len / 4;
    let mut out: Vec<u32> = Vec::with_capacity(n);
    let mut i: usize = 0;
    while i < n
        invariant
            len == bytes@.len(),
            n == bytes@.len() / 4,
            bytes@.len() % 4 == 0,
            i <= n,
            out@ =~= words_of_bytes(bytes@).take(i as int),
        decreases n - i,
    {
        assert(4 * i + 3 < bytes@.len()) by (nonlinear_arith)
            requires
                i < n,
                n == bytes@.len() / 4,
        ;
        let base: usize = 4 * i;
        let b0: u8 = bytes[base];
        let b1: u8 = bytes[base + 1];
        let b2: u8 = bytes[base + 2];
        let b3: u8 = bytes[base + 3];
        let w: u32 = (b0 as u32) | ((b1 as u32) << 8u32) | ((b2 as u32) << 16u32) | ((b3 as u32)
            << 24u32);
        out.push(w);
        i = i + 1;
    }
    assert(words_of_bytes(bytes@).take(n as int) =~= words_of_bytes(bytes@));
    out
}

/// The bytes that encode `words`, four little-endian bytes per word.
pub fn encode_words(words: &[u32]) -> (r: Vec<u8>)
    requires
        words@.len() * 4 <= usize::MAX,
    ensures
        r@ == bytes_of_words(words@),
{
    let mut out: Vec<u8> = Vec::with_capacity(words.len() * 4);
    let mut i: usize = 0;
    while i < words.len()
        invariant
            words@.len() * 4 <= usize::MAX,
            i <= words@.len(),
            out@ =~= bytes_of_words(words@).take(4 * i as int),
        decreases words@.len() - i,
    {
        let w: u32 = words[i];
        out.push((w & 0xffu32) as u8);
        out.push(((w >> 8u32) & 0xffu32) as u8);
        out.push(((w >> 16u32) & 0xffu32) as u8);
        out.push(((w >> 24u32) & 0xffu32) as u8);
        proof {
            let spec_out = bytes_of_words(words@);
            assert forall|j: int| 4 * i <= j < 4 * i + 4 implies #[trigger] spec_out[j] == out@[j] by {
                assert(j / 4 == i as int);
                assert(j % 4 == j - 4 * i);
            }
        }
        i = i + 1;
    }
    assert(bytes_of_words(words@).take(4 * words@.len() as int) =~= bytes_of_words(words@));
    out
}

/// Each word is stored least significant byte first: byte `k` of a word's
/// four is the word divided by 256 to the power `k`, modulo 256.
pub proof fn law_words_little_endian(words: Seq<u32>, i: int)
    requires
        0 <= i < words.len(),
    ensures
        ({
            let b = bytes_of_words(words);
            let w = words[i] as int;
            &&& b.len() == 4 * words.len()
            &&& b[4 * i] as int == w % 256
            &&& b[4 * i + 1] as int == (w / 256) % 256
            &&& b[4 * i + 2] as int == (w / 65536) % 256
            &&& b[4 * i + 3] as int == (w / 16777216) % 256
        }),
{
    let w = words[i];
    assert((w & 0xffu32) as u8 as int == w as int % 256) by (bit_vector);
    assert(((w >> 8u32) & 0xffu32) as u8 as int == (w as int / 256) % 256) by (bit_vector);
    assert(((w >> 16u32) & 0xffu32) as u8 as int == (w as int / 65536) % 256) by (bit_vector);
    assert(((w >> 24u32) & 0xffu32) as u8 as int == (w as int / 16777216) % 256) by (bit_vector);
    assert((4 * i) / 4 == i && (4 * i) % 4 == 0);
    assert((4 * i + 1) / 4 == i && (4 * i + 1) % 4 == 1);
    assert((4 * i + 2) / 4 == i && (4 * i + 2) % 4 == 2);
    assert((4 * i + 3) / 4 == i && (4 * i + 3) % 4 == 3);
    assert(4 * i + 3 < words.len() * 4) by (nonlinear_arith)
        requires
            0 <= i < words.len(),
    ;
}

} // verus!
