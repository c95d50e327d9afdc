//! How an embedding is laid out in a stored record: its numbers one after the
//! other, each as four bytes with the least significant first.

use vstd::prelude::*;

verus! {

/// The four bytes of a word, the least significant first.
pub open spec fn word_bytes(w: u32) -> Seq<u8> {
    seq![
        (w & 0xff) as u8,
        ((w >> 8) & 0xff) as u8,
        ((w >> 16) & 0xff) as u8,
        ((w >> 24) & 0xff) as u8,
    ]
}

/// The word of four bytes, the least significant first.
pub open spec fn word_of(b0: u8, b1: u8, b2: u8, b3: u8) -> u32 {
    (b0 as u32) | ((b1 as u32) << 8) | ((b2 as u32) << 16) | ((b3 as u32) << 24)
}

/// The bytes of the words, in order.
pub open spec fn encoded(words: Seq<u32>) -> Seq<u8>
    decreases words.len(),
{
    if words.len() == 0 {
        Seq::<u8>::empty()
    } else {
        encoded(words.drop_last()) + word_bytes(words.last())
    }
}

/// The words of the bytes: one for every four bytes; bytes that do not fill
/// a word are left out.
pub open spec fn decoded(bytes: Seq<u8>) -> Seq<u32> {
    Seq::new(
        (bytes.len() / 4) as nat,
        |i: int| word_of(bytes[4 * i], bytes[4 * i + 1], bytes[4 * i + 2], bytes[4 * i + 3]),
    )
}

proof fn lemma_word_round_trip(w: u32)
    ensures
        word_of(
            (w & 0xff) as u8,
            ((w >> 8) & 0xff) as u8,
            ((w >> 16) & 0xff) as u8,
            ((w >> 24) & 0xff) as u8,
        ) == w,
{
    assert((((w & 0xff) as u8) as u32) | ((((w >> 8) & 0xff) as u8) as u32) << 8 | ((((w >> 16)
        & 0xff) as u8) as u32) << 16 | ((((w >> 24) & 0xff) as u8) as u32) << 24 == w)
        by (bit_vector);
}

proof fn lemma_encoded(words: Seq<u32>)
    ensures
        encoded(words).len() == 4 * words.len(),
        forall|i: int|
            0 <= i < words.len() ==> encoded(words).subrange(4 * i, 4 * i + 4) == word_bytes(
                #[trigger] words[i],
            ),
    decreases words.len(),
{
    if words.len() > 0 {
        let init = words.drop_last();
        lemma_encoded(init);
        let all = encoded(words);
        assert forall|i: int| 0 <= i < words.len() implies all.subrange(4 * i, 4 * i + 4)
            == word_bytes(#[trigger] words[i]) by {
            if i < init.len() {
                assert(init[i] == words[i]);
                assert(all.subrange(4 * i, 4 * i + 4) =~= encoded(init).subrange(
                    4 * i,
                    4 * i + 4,
                ));
            } else {
                assert(all.subrange(4 * i, 4 * i + 4) =~= word_bytes(words.last()));
            }
        }
    }
}

/// Reading what was written gives the embedding back.
pub proof fn lemma_embedding_round_trip(words: Seq<u32>)
    ensures
        decoded(encoded(words)) == words,
{
    lemma_encoded(words);
    let bytes = encoded(words);
    assert(decoded(bytes).len() == words.len());
    assert forall|i: int| 0 <= i < words.len() implies decoded(bytes)[i] == words[i] by {
        let part = bytes.subrange(4 * i, 4 * i + 4);
        assert(part == word_bytes(words[i]));
        assert(part[0] == bytes[4 * i]);
        assert(part[1] == bytes[4 * i + 1]);
        assert(part[2] == bytes[4 * i + 2]);
        assert(part[3] == bytes[4 * i + 3]);
        lemma_word_round_trip(words[i]);
    }
    assert(decoded(bytes) =~= words);
}

/// Writes an embedding as bytes.
pub fn embedding_to_bytes(embedding: &Vec<u32>) -> (out: Vec<u8>)
    ensures
        out@ == encoded(embedding@),
{
    let mut out: Vec<u8> = Vec::new();
    let mut i: usize = 0;
    assert(embedding@.take(0) == Seq::<u32>::empty());
    while i < embedding.len()
        invariant
            i <= embedding.len(),
            out@ == encoded(embedding@.take(i as int)),
        decreases embedding.len() - i,
    {
        let w: u32 = embedding[i];
        let ghost before = out@;
        out.push((w & 0xff) as u8);
        out.push(((w >> 8) & 0xff) as u8);
        out.push(((w >> 16) & 0xff) as u8);
        out.push(((w >> 24) & 0xff) as u8);
        assert(out@ =~= before + word_bytes(w));
        assert(embedding@.take(i + 1).drop_last() == embedding@.take(i as int));
        assert(embedding@.take(i + 1).last() == w);
        i = i + 1;
    }
    assert(embedding@.take(embedding.len() as int) == embedding@);
    out
}

/// Reads an embedding from bytes. Bytes at the end that do not fill a number
/// are left out.
pub fn bytes_to_embedding(bytes: &Vec<u8>) -> (out: Vec<u32>)
    ensures
        out@ == decoded(bytes@),
{
    let count: usize = bytes.len() / 4;
    let mut out: Vec<u32> = Vec::new();
    let mut i: usize = 0;
    while i < count
        invariant
            i <= count,
            count == bytes.len() / 4,
            out@ == decoded(bytes@).take(i as int),
        decreases count - i,
    {
        let b0: u8 = bytes[4 * i];
        let b1: u8 = bytes[4 * i + 1];
        let b2: u8 = bytes[4 * i + 2];
        let b3: u8 = bytes[4 * i + 3];
        let w: u32 = (b0 as u32) | ((b1 as u32) << 8) | ((b2 as u32) << 16) | ((b3 as u32) << 24);
        out.push(w);
        assert(out@ =~= decoded(bytes@).take(i + 1));
        i = i + 1;
    }
    assert(decoded(bytes@).take(count as int) == decoded(bytes@));
    out
}

} // verus!
