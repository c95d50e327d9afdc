//! The batches of an embedding request, and the order of its answers.

use crate::error::LyttError;
use crate::sorting::{reorder, sort_by_keys, stable_order};
use crate::text::string_of;
use vstd::prelude::*;

verus! {

/// The most texts that are handed to the provider at once.
pub const BATCH_SIZE: usize = 100;

/// What names the embedding model, and how long its vectors are.
#[derive(Debug, Clone)]
pub struct OpenAIEmbedder {
    pub model: String,
    pub dimensions: usize,
}

/// One embedding of an answer, with the place of its text in the request.
/// The vector holds the bit patterns of single-precision numbers.
#[derive(Debug)]
pub struct ProviderEmbedding {
    pub index: u32,
    pub embedding: Vec<u32>,
}

/// The `k`-th batch of `count` texts: from where to where it reaches.
pub open spec fn batch(count: int, k: int) -> (int, int) {
    (
        k * BATCH_SIZE,
        if (k + 1) * BATCH_SIZE < count {
            (k + 1) * BATCH_SIZE
        } else {
            count
        },
    )
}

/// How many batches `count` texts make.
pub open spec fn batch_count(count: int) -> int {
    (count + BATCH_SIZE - 1) / (BATCH_SIZE as int)
}

/// The keys that put the embeddings of an answer in the order of their texts.
pub open spec fn index_keys(data: Seq<ProviderEmbedding>) -> Seq<i128> {
    Seq::new(data.len(), |i: int| data[i].index as i128)
}

/// The embeddings of an answer in the order of their texts.
pub open spec fn in_text_order(data: Seq<ProviderEmbedding>) -> Seq<Vec<u32>> {
    let sorted = reorder(data, stable_order(index_keys(data)));
    Seq::new(sorted.len(), |i: int| sorted[i].embedding)
}

impl OpenAIEmbedder {
    /// An embedder on the default model.
    pub fn new() -> (e: OpenAIEmbedder)
        ensures
            e.model@ == "text-embedding-3-small"@,
            e.dimensions == 1536,
    {
        OpenAIEmbedder { model: string_of("text-embedding-3-small"), dimensions: 1536 }
    }

    /// An embedder on the given model.
    pub fn with_config(model: &str, dimensions: usize) -> (e: OpenAIEmbedder)
        ensures
            e.model@ == model@,
            e.dimensions == dimensions,
    {
        OpenAIEmbedder { model: string_of(model), dimensions }
    }

    /// How long the vectors are.
    pub fn dimensions(&self) -> (d: usize)
        ensures
            d == self.dimensions,
    {
        self.dimensions
    }

    /// The batches in which `count` texts are handed to the provider: one
    /// after the other, none longer than the batch size, together all texts.
    pub fn batches(count: usize) -> (out: Vec<(usize, usize)>)
        ensures
            out@.len() == batch_count(count as int),
            forall|k: int|
                0 <= k < out@.len() ==> (#[trigger] out@[k]).0 == batch(count as int, k).0
                    && out@[k].1 == batch(count as int, k).1,
            forall|k: int|
                0 <= k < out@.len() ==> (#[trigger] out@[k]).0 < out@[k].1 && out@[k].1
                    - out@[k].0 <= BATCH_SIZE,
            out@.len() > 0 ==> out@[0].0 == 0 && out@[out@.len() - 1].1 == count,
            forall|k: int|
                0 <= k && k + 1 < out@.len() ==> (#[trigger] out@[k]).1 == out@[k + 1].0,
    {
        let mut out: Vec<(usize, usize)> = Vec::new();
        let mut start: usize = 0;
        while start < count
            invariant
                start <= count,
                start == out@.len() * BATCH_SIZE || start == count,
                start == count ==> out@.len() == batch_count(count as int),
                start < count ==> out@.len() < batch_count(count as int),
                forall|k: int|
                    0 <= k < out@.len() ==> (#[trigger] out@[k]).0 == batch(count as int, k).0
                        && out@[k].1 == batch(count as int, k).1,
                forall|k: int|
                    0 <= k < out@.len() ==> (#[trigger] out@[k]).0 < out@[k].1 && out@[k].1
                        - out@[k].0 <= BATCH_SIZE,
                out@.len() > 0 ==> out@[0].0 == 0 && out@[out@.len() - 1].1 == start,
                forall|k: int|
                    0 <= k && k + 1 < out@.len() ==> (#[trigger] out@[k]).1 == out@[k + 1].0,
            decreases count - start,
        {
            let end: usize = if count - start > BATCH_SIZE {
                start + BATCH_SIZE
            } else {
                count
            };
            out.push((start, end));
            start = end;
        }
        out
    }

    /// The embeddings of one answer of the provider, in the order of the
    /// texts that were handed over, whatever the order of the answer.
    pub fn in_order(data: Vec<ProviderEmbedding>) -> (out: Vec<Vec<u32>>)
        ensures
            out@ == in_text_order(data@),
    {
        let mut sorted = data;
        let mut keys: Vec<i128> = Vec::new();
        let mut k: usize = 0;
        while k < sorted.len()
            invariant
                k <= sorted.len(),
                keys@ == index_keys(sorted@).take(k as int),
            decreases sorted.len() - k,
        {
            keys.push(sorted[k].index as i128);
            assert(keys@ =~= index_keys(sorted@).take(k + 1));
            k = k + 1;
        }
        assert(index_keys(sorted@).take(sorted.len() as int) == index_keys(sorted@));
        sort_by_keys(&mut sorted, &mut keys);
        let ghost all = sorted@;
        let total = sorted.len();
        let mut out: Vec<Vec<u32>> = Vec::new();
        let mut i: usize = 0;
        while sorted.len() > 0
            invariant
                i + sorted.len() == all.len(),
                all.len() <= usize::MAX,
                sorted@ == all.skip(i as int),
                out@.len() == i,
                forall|j: int| 0 <= j < i ==> #[trigger] out@[j] == all[j].embedding,
            decreases sorted.len(),
        {
            let item = sorted.remove(0);
            assert(item == all.skip(i as int)[0]);
            assert(sorted@ =~= all.skip(i + 1));
            out.push(item.embedding);
            i = i + 1;
        }
        assert(out@ =~= in_text_order(data@));
        out
    }

    /// The embedding of a single text: the first of the answer. An answer
    /// without embeddings is a failure.
    pub fn first(embeddings: Vec<Vec<u32>>) -> (r: Result<Vec<u32>, LyttError>)
        ensures
            embeddings@.len() > 0 ==> r == Ok::<Vec<u32>, LyttError>(embeddings@[0]),
            embeddings@.len() == 0 ==> (r matches Err(LyttError::Embedding(m)) && m@
                == "Empty embedding response"@),
    {
        let mut all = embeddings;
        if all.len() > 0 {
            Ok(all.remove(0))
        } else {
            Err(LyttError::Embedding(string_of("Empty embedding response")))
        }
    }
}

} // verus!
