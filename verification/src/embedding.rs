//! Storage layout of embedding vectors: each 32-bit component (the bit
//! pattern of an IEEE-754 single) as four little-endian bytes.
use vstd::prelude::*;

verus! {

/// The four little-endian bytes of a 32-bit word.
pub open spec fn le_bytes(w: u32) -> Seq<u8> {
    seq![(w & 0xff) as u8, ((w >> 8u32) & 0xff) as u8, ((w >> 16u32) & 0xff) as u8, ((w >> 24u32) & 0xff) as u8]
}

/// The bytes of a list of words, four per word, in order.
pub open spec fn encode_words(ws: Seq<u32>) -> Seq<u8>
    decreases ws.len(),
{
    if ws.len() == 0 {
        Seq::empty()
    } else {
        encode_words(ws.drop_last()) + le_bytes(ws.last())
    }
}

/// The little-endian word held by four bytes.
pub open spec fn word_of(b0: u8, b1: u8, b2: u8, b3: u8) -> u32 {
    (b0 as u32) | ((b1 as u32) << 8u32) | ((b2 as u32) << 16u32) | ((b3 as u32) << 24u32)
}

/// The words held by a byte string, one per whole group of four bytes;
/// trailing bytes that do not make a whole word are ignored.
pub open spec fn decode_words(bytes: Seq<u8>) -> Seq<u32> {
    Seq::new(
        bytes.len() / 4,
        |i: int| word_of(bytes[4 * i], bytes[4 * i + 1], bytes[4 * i + 2], bytes[4 * i + 3]),
    )
}

/// The bytes stored for an embedding, given the bit patterns of its components.
pub fn embedding_to_bytes(words: &Vec<u32>) -> (r: Vec<u8>)
    ensures
        r@ == encode_words(words@),
{
    let mut out: Vec<u8> = Vec::new();
    let mut i: usize = 0;
    while i < words.len()
        invariant
            i <= words@.len(),
            out@ == encode_words(words@.take(i as int)),
        decreases words.len() - i,
    {
        assert(words@.take(i + 1).drop_last() =~= words@.take(i as int));
        assert(words@.take(i + 1).last() == words@[i as int]);
        let w = words[i];
        let ghost before = out@;
        out.push((w & 0xff) as u8);
        out.push(((w >> 8u32) & 0xff) as u8);
        out.push(((w >> 16u32) & 0xff) as u8);
        out.push(((w >> 24u32) & 0xff) as u8);
        assert(out@ =~= before + le_bytes(w));
        i = i + 1;
    }
    assert(words@.take(words@.len() as int) =~= words@);
    out
}

/// The bit patterns of the components of a stored embedding.
pub fn embedding_from_bytes(bytes: &Vec<u8>) -> (r: Vec<u32>)
    ensures
        r@ == decode_words(bytes@),
{
    let mut out: Vec<u32> = Vec::new();
    let len = bytes.len();
    let n = len / 4;
    let mut i: usize = 0;
    while i < n
        invariant
            n == bytes@.len() / 4,
            len == bytes@.len(),
            i <= n,
            out@.len() == i,
            forall|k: int| 0 <= k < i ==> #[trigger] out@[k] == decode_words(bytes@)[k],
        decreases n - i,
    {
        assert(4 * i + 3 < len) by (nonlinear_arith)
            requires
                i < n,
                n == len / 4,
        ;
        let b0 = bytes[4 * i];
        let b1 = bytes[4 * i + 1];
        let b2 = bytes[4 * i + 2];
        let b3 = bytes[4 * i + 3];
        out.push((b0 as u32) | ((b1 as u32) << 8u32) | ((b2 as u32) << 16u32) | ((b3 as u32) << 24u32));
        i = i + 1;
    }
    assert(out@ =~= decode_words(bytes@));
    out
}

/// A word is rebuilt from its four little-endian bytes.
pub proof fn lemma_word_of_le_bytes(w: u32)
    ensures
        word_of(le_bytes(w)[0], le_bytes(w)[1], le_bytes(w)[2], le_bytes(w)[3]) == w,
{
    assert(((w & 0xff) as u8) as u32 | ((((w >> 8u32) & 0xff) as u8) as u32) << 8u32 | ((((w >> 16u32) & 0xff) as u8) as u32)
        << 16u32 | ((((w >> 24u32) & 0xff) as u8) as u32) << 24u32 == w) by (bit_vector);
}

/// The encoding has four bytes per word, each word's bytes in its place.
pub proof fn lemma_encode_words(ws: Seq<u32>)
    ensures
        encode_words(ws).len() == 4 * ws.len(),
        forall|i: int, j: int|
            0 <= i < ws.len() && 0 <= j < 4 ==> #[trigger] encode_words(ws)[4 * i + j] == #[trigger] le_bytes(ws[i])[j],
    decreases ws.len(),
{
    if ws.len() > 0 {
        let prev = ws.drop_last();
        lemma_encode_words(prev);
        assert forall|i: int, j: int|
            0 <= i < ws.len() && 0 <= j < 4 implies #[trigger] encode_words(ws)[4 * i + j] == #[trigger] le_bytes(ws[i])[j] by {
            if i < ws.len() - 1 {
                assert(prev[i] == ws[i]);
                assert(encode_words(ws)[4 * i + j] == encode_words(prev)[4 * i + j]);
            }
        }
    }
}

} // verus!
