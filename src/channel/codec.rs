//! The word/byte codec. The medium only guarantees atomic 32-bit word
//! accesses, so byte payloads travel packed into words, little endian: byte
//! `4 * i + k` of a payload is lane `k` (bits `8 * k` to `8 * k + 7`) of word
//! `i`. A trailing group of one to three bytes fills the low lanes of a last
//! word whose unused high lanes are zero.
use vstd::prelude::*;

verus! {

/// Lane `k` (0 to 3) of a word, the lowest lane first.
pub open spec fn byte_of(w: u32, k: int) -> u8 {
    ((w >> ((8 * k) as u32)) & 0xff) as u8
}

/// The word whose lanes, lowest first, are `b0` to `b3`.
pub open spec fn pack4(b0: u8, b1: u8, b2: u8, b3: u8) -> u32 {
    (b0 as u32) | ((b1 as u32) << 8u32) | ((b2 as u32) << 16u32) | ((b3 as u32) << 24u32)
}

/// Byte `i` of `bs`, or zero past its end.
pub open spec fn byte_or_zero(bs: Seq<u8>, i: int) -> u8 {
    if 0 <= i < bs.len() {
        bs[i]
    } else {
        0
    }
}

/// Number of words that hold `n` bytes.
pub open spec fn words_for(n: int) -> int {
    (n + 3) / 4
}

/// A byte payload packed into words.
pub open spec fn bytes_to_words(bs: Seq<u8>) -> Seq<u32> {
    Seq::new(
        words_for(bs.len() as int) as nat,
        |i: int|
            pack4(
                byte_or_zero(bs, 4 * i),
                byte_or_zero(bs, 4 * i + 1),
                byte_or_zero(bs, 4 * i + 2),
                byte_or_zero(bs, 4 * i + 3),
            ),
    )
}

/// The bytes of a sequence of words, four per word.
pub open spec fn words_to_bytes(ws: Seq<u32>) -> Seq<u8> {
    Seq::new(4 * ws.len(), |j: int| byte_of(ws[j / 4], j % 4))
}

/// Each lane of a packed word is the byte packed there.
pub proof fn lemma_lanes_of_pack(b0: u8, b1: u8, b2: u8, b3: u8)
    ensures
        byte_of(pack4(b0, b1, b2, b3), 0) == b0,
        byte_of(pack4(b0, b1, b2, b3), 1) == b1,
        byte_of(pack4(b0, b1, b2, b3), 2) == b2,
        byte_of(pack4(b0, b1, b2, b3), 3) == b3,
{
    let w = pack4(b0, b1, b2, b3);
    assert(((w >> 0u32) & 0xff) as u8 == b0) by (bit_vector)
        requires
            w == (b0 as u32) | ((b1 as u32) << 8u32) | ((b2 as u32) << 16u32) | ((b3 as u32)
                << 24u32),
    ;
    assert(((w >> 8u32) & 0xff) as u8 == b1) by (bit_vector)
        requires
            w == (b0 as u32) | ((b1 as u32) << 8u32) | ((b2 as u32) << 16u32) | ((b3 as u32)
                << 24u32),
    ;
    assert(((w >> 16u32) & 0xff) as u8 == b2) by (bit_vector)
        requires
            w == (b0 as u32) | ((b1 as u32) << 8u32) | ((b2 as u32) << 16u32) | ((b3 as u32)
                << 24u32),
    ;
    assert(((w >> 24u32) & 0xff) as u8 == b3) by (bit_vector)
        requires
            w == (b0 as u32) | ((b1 as u32) << 8u32) | ((b2 as u32) << 16u32) | ((b3 as u32)
                << 24u32),
    ;
}

/// Packing the four lanes of a word gives the word back.
pub proof fn lemma_pack_of_lanes(w: u32)
    ensures
        pack4(byte_of(w, 0), byte_of(w, 1), byte_of(w, 2), byte_of(w, 3)) == w,
{
    assert((((w >> 0u32) & 0xff) as u8 as u32) | ((((w >> 8u32) & 0xff) as u8 as u32) << 8u32) | ((
    ((w >> 16u32) & 0xff) as u8 as u32) << 16u32) | ((((w >> 24u32) & 0xff) as u8 as u32)
        << 24u32) == w) by (bit_vector);
}

/// Packing bytes and reading back as many bytes as were packed gives the
/// bytes back.
pub proof fn lemma_bytes_round_trip(bs: Seq<u8>)
    ensures
        words_to_bytes(bytes_to_words(bs)).len() >= bs.len(),
        words_to_bytes(bytes_to_words(bs)).take(bs.len() as int) == bs,
{
    let ws = bytes_to_words(bs);
    let out = words_to_bytes(ws);
    assert forall|j: int| 0 <= j < bs.len() implies out[j] == bs[j] by {
        let i = j / 4;
        lemma_lanes_of_pack(
            byte_or_zero(bs, 4 * i),
            byte_or_zero(bs, 4 * i + 1),
            byte_or_zero(bs, 4 * i + 2),
            byte_or_zero(bs, 4 * i + 3),
        );
    }
    assert(out.take(bs.len() as int) =~= bs);
}

/// Unpacking words into bytes and packing them again gives the words back.
pub proof fn lemma_words_round_trip(ws: Seq<u32>)
    ensures
        bytes_to_words(words_to_bytes(ws)) == ws,
{
    let bs = words_to_bytes(ws);
    let back = bytes_to_words(bs);
    assert(words_for(bs.len() as int) == ws.len());
    assert forall|i: int| 0 <= i < ws.len() implies back[i] == ws[i] by {
        assert(byte_or_zero(bs, 4 * i) == byte_of(ws[i], 0));
        assert(byte_or_zero(bs, 4 * i + 1) == byte_of(ws[i], 1));
        assert(byte_or_zero(bs, 4 * i + 2) == byte_of(ws[i], 2));
        assert(byte_or_zero(bs, 4 * i + 3) == byte_of(ws[i], 3));
        lemma_pack_of_lanes(ws[i]);
    }
    assert(back =~= ws);
}

/// The word whose lanes, lowest first, are `b0` to `b3`.
pub fn word_from_le_bytes(b0: u8, b1: u8, b2: u8, b3: u8) -> (r: u32)
    ensures
        r == pack4(b0, b1, b2, b3),
{
    (b0 as u32) | ((b1 as u32) << 8u32) | ((b2 as u32) << 16u32) | ((b3 as u32) << 24u32)
}

/// Lane `k` of a word.
pub fn lane(w: u32, k: u32) -> (r: u8)
    requires
        k < 4,
    ensures
        r == byte_of(w, k as int),
{
    ((w >> (8 * k)) & 0xff) as u8
}

/// Packs a byte payload into words; the unused high lanes of a last partial
/// word are zero.
pub fn pack_bytes(data: &[u8]) -> (r: Vec<u32>)
    ensures
        r@ == bytes_to_words(data@),
{
    let n = data.len();
    let full = n / 4;
    let mut out: Vec<u32> = Vec::new();
    let mut i: usize = 0;
    while i < full
        invariant
            n == data@.len(),
            full == n / 4,
            i <= full,
            out@ == bytes_to_words(data@).take(i as int),
        decreases full - i,
    {
        let o = 4 * i;
        let w = word_from_le_bytes(data[o], data[o + 1], data[o + 2], data[o + 3]);
        out.push(w);
        i = i + 1;
        assert(out@ =~= bytes_to_words(data@).take(i as int));
    }
    let rest = n % 4;
    if rest > 0 {
        let o = 4 * full;
        let b1 = if rest > 1 { data[o + 1] } else { 0u8 };
        let b2 = if rest > 2 { data[o + 2] } else { 0u8 };
        let w = word_from_le_bytes(data[o], b1, b2, 0u8);
        out.push(w);
    }
    assert(out@ =~= bytes_to_words(data@));
    out
}

/// The bytes of a sequence of words, four per word, lowest lane first.
pub fn unpack_words(words: &[u32]) -> (r: Vec<u8>)
    ensures
        r@ == words_to_bytes(words@),
{
    let n = words.len();
    let mut out: Vec<u8> = Vec::new();
    let mut i: usize = 0;
    while i < n
        invariant
            n == words@.len(),
            i <= n,
            out@ == words_to_bytes(words@).take(4 * i),
        decreases n - i,
    {
        let w = words[i];
        out.push(lane(w, 0));
        out.push(lane(w, 1));
        out.push(lane(w, 2));
        out.push(lane(w, 3));
        i = i + 1;
        assert(out@ =~= words_to_bytes(words@).take(4 * i));
    }
    assert(out@ =~= words_to_bytes(words@));
    out
}

/// Copies the first `len` bytes that `words` hold into the front of `buf`,
/// leaving the rest of `buf` as it was.
pub fn copy_bytes_out(words: &[u32], len: usize, buf: &mut [u8])
    requires
        len <= old(buf)@.len(),
        len <= 4 * words@.len(),
    ensures
        final(buf)@.len() == old(buf)@.len(),
        final(buf)@.take(len as int) == words_to_bytes(words@).take(len as int),
        final(buf)@.skip(len as int) == old(buf)@.skip(len as int),
{
    let mut j: usize = 0;
    while j < len
        invariant
            len <= buf@.len(),
            len <= 4 * words@.len(),
            j <= len,
            buf@.len() == old(buf)@.len(),
            forall|k: int| 0 <= k < j ==> buf@[k] == words_to_bytes(words@)[k],
            forall|k: int| len <= k < buf@.len() ==> buf@[k] == old(buf)@[k],
        decreases len - j,
    {
        let b = lane(words[j / 4], (j % 4) as u32);
        buf[j] = b;
        j = j + 1;
    }
    assert(buf@.take(len as int) =~= words_to_bytes(words@).take(len as int));
    assert(buf@.skip(len as int) =~= old(buf)@.skip(len as int));
}

} // verus!
