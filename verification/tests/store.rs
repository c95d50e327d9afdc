use lytt::embedding::{OpenAIEmbedder, ProviderEmbedding};
use lytt::error::LyttError;
use lytt::transcription::models::{Transcript, TranscriptSegment};
use lytt::vector_store::sqlite::{bytes_to_embedding, embedding_to_bytes};
use lytt::vector_store::{rank_results, Document, MemoryVectorStore, SearchResult};

fn bits(v: &[f32]) -> Vec<u32> {
    v.iter().map(|f| f.to_bits()).collect()
}

fn doc(id: u128, video: &str, content: &str, order: usize, end_ms: u64, at: i64) -> Document {
    Document {
        id,
        video_id: video.to_string(),
        video_title: format!("Title of {}", video),
        section_title: None,
        content: content.to_string(),
        start_ms: 0,
        end_ms,
        embedding: Vec::new(),
        chunk_order: order,
        source_created_at: None,
        indexed_at: at,
    }
}

fn result(id: u128, score: i32) -> SearchResult {
    SearchResult { document: doc(id, "v", "c", 0, 0, 0), score }
}

#[test]
fn test_memory_vector_store() {
    let mut store = MemoryVectorStore::new();
    let doc1 = Document::new(
        "video1".to_string(),
        "Test Video".to_string(),
        None,
        "Hello world".to_string(),
        0,
        30000,
        bits(&[1.0, 0.0, 0.0]),
        0,
        None,
        1_700_000_000_000_000,
    );
    let doc2 = Document::new(
        "video1".to_string(),
        "Test Video".to_string(),
        None,
        "Goodbye world".to_string(),
        30000,
        60000,
        bits(&[0.0, 1.0, 0.0]),
        1,
        None,
        1_700_000_000_000_000,
    );
    store.upsert_batch(vec![doc1, doc2]);
    assert_eq!(store.document_count(), 2);
    let results = store.search(&vec![1_000_000, 0], 10);
    assert_eq!(results.len(), 2);
    assert!(results[0].score > results[1].score);
    let videos = store.list_videos();
    assert_eq!(videos.len(), 1);
    assert_eq!(videos[0].chunk_count, 2);
}

#[test]
fn test_document_timestamp_format() {
    let doc = Document::new(
        "test".to_string(),
        "Test Video".to_string(),
        None,
        "content".to_string(),
        125000,
        130000,
        vec![],
        0,
        None,
        1_700_000_000_000_000,
    );
    assert_eq!(doc.format_timestamp(), "02:05");
}

#[test]
fn new_documents_take_what_they_are_given() {
    let d = Document::new(
        "v".to_string(),
        "T".to_string(),
        Some("S".to_string()),
        "c".to_string(),
        1,
        2,
        vec![7, 8],
        3,
        Some(99),
        1_700_000_000_000_000,
    );
    assert_eq!((d.video_id.as_str(), d.video_title.as_str(), d.content.as_str()), ("v", "T", "c"));
    assert_eq!(d.section_title.as_deref(), Some("S"));
    assert_eq!((d.start_ms, d.end_ms, d.chunk_order, d.source_created_at), (1, 2, 3, Some(99)));
    assert_eq!(d.embedding, vec![7, 8]);
    let copy = d.duplicate();
    assert_eq!((copy.id, copy.indexed_at, copy.embedding.clone()), (d.id, d.indexed_at, vec![7, 8]));
}

#[test]
fn upsert_twice_leaves_one_document() {
    let mut store = MemoryVectorStore::new();
    store.upsert(doc(1, "v", "old", 0, 10, 5));
    store.upsert(doc(2, "v", "other", 1, 10, 5));
    store.upsert(doc(1, "v", "new", 0, 20, 6));
    assert_eq!(store.document_count(), 2);
    let docs = store.get_by_video_id("v");
    assert_eq!(docs.len(), 2);
    assert_eq!((docs[0].id, docs[0].content.as_str(), docs[0].end_ms), (1, "new", 20));
}

#[test]
fn documents_of_a_media_come_in_chunk_order() {
    let mut store = MemoryVectorStore::new();
    assert_eq!(store.upsert_batch(vec![
        doc(1, "a", "a2", 2, 10, 1),
        doc(2, "b", "b0", 0, 10, 1),
        doc(3, "a", "a0", 0, 10, 1),
        doc(4, "a", "a1", 1, 10, 1),
    ]), 4);
    let a: Vec<String> = store.get_by_video_id("a").into_iter().map(|d| d.content).collect();
    assert_eq!(a, vec!["a0", "a1", "a2"]);
    assert!(store.get_by_video_id("c").is_empty());
    assert!(store.is_video_indexed("a"));
    assert!(store.is_video_indexed("b"));
    assert!(!store.is_video_indexed("c"));
}

#[test]
fn deleting_a_media_is_idempotent() {
    let mut store = MemoryVectorStore::new();
    store.upsert_batch(vec![doc(1, "a", "x", 0, 10, 1), doc(2, "b", "y", 0, 10, 1), doc(3, "a", "z", 1, 10, 1)]);
    assert_eq!(store.delete_by_video_id("a"), 2);
    assert_eq!(store.delete_by_video_id("a"), 0);
    assert_eq!(store.document_count(), 1);
    assert!(!store.is_video_indexed("a"));
    assert!(store.is_video_indexed("b"));
}

#[test]
fn replacing_a_media_leaves_exactly_the_new_documents() {
    let mut store = MemoryVectorStore::new();
    store.upsert_batch(vec![doc(1, "a", "old0", 0, 10, 1), doc(2, "b", "keep", 0, 10, 1), doc(3, "a", "old1", 1, 10, 1)]);
    store.delete_by_video_id("a");
    store.upsert_batch(vec![doc(10, "a", "new1", 1, 10, 2), doc(11, "a", "new0", 0, 10, 2)]);
    let a: Vec<String> = store.get_by_video_id("a").into_iter().map(|d| d.content).collect();
    assert_eq!(a, vec!["new0", "new1"]);
    assert_eq!(store.get_by_video_id("b").len(), 1);
}

#[test]
fn media_are_listed_with_the_latest_first() {
    let mut store = MemoryVectorStore::new();
    store.upsert_batch(vec![
        doc(1, "a", "x", 0, 30000, 100),
        doc(2, "b", "y", 0, 10000, 300),
        doc(3, "a", "z", 1, 60000, 200),
        doc(4, "c", "w", 0, 5000, 300),
    ]);
    let videos = store.list_videos();
    let ids: Vec<&str> = videos.iter().map(|v| v.video_id.as_str()).collect();
    assert_eq!(ids, vec!["b", "c", "a"]);
    assert_eq!((videos[2].chunk_count, videos[2].total_duration_ms, videos[2].indexed_at), (2, 60000, 200));
    assert_eq!(videos[2].video_title, "Title of a");
    let a = store.get_video("a").unwrap();
    assert_eq!(a.chunk_count, 2);
    assert!(store.get_video("z").is_none());
    assert!(MemoryVectorStore::new().list_videos().is_empty());
}

#[test]
fn results_are_ranked_by_score() {
    let ranked = rank_results(
        vec![result(1, 100), result(2, 900), result(3, 299999), result(4, 900), result(5, 300000), result(6, -5)],
        3,
        300000,
    );
    let ids: Vec<u128> = ranked.iter().map(|r| r.document.id).collect();
    assert_eq!(ids, vec![5]);
    let all = rank_results(
        vec![result(1, 100), result(2, 900), result(3, -7), result(4, 900), result(5, 300)],
        10,
        0,
    );
    let ids: Vec<u128> = all.iter().map(|r| r.document.id).collect();
    assert_eq!(ids, vec![2, 4, 5, 1]);
    let cut = rank_results(vec![result(1, 100), result(2, 900), result(3, 500)], 2, -1000000);
    let ids: Vec<u128> = cut.iter().map(|r| r.document.id).collect();
    assert_eq!(ids, vec![2, 3]);
    assert!(rank_results(vec![result(1, 100)], 0, 0).is_empty());
    assert!(rank_results(Vec::new(), 5, 0).is_empty());
}

#[test]
fn search_ranks_the_documents_of_the_index() {
    let mut store = MemoryVectorStore::new();
    store.upsert_batch(vec![doc(1, "a", "x", 0, 1, 1), doc(2, "a", "y", 1, 1, 1), doc(3, "b", "z", 0, 1, 1)]);
    let found = store.search_with_threshold(&vec![200000, 950000, 400000], 5, 300000);
    let ids: Vec<u128> = found.iter().map(|r| r.document.id).collect();
    assert_eq!(ids, vec![2, 3]);
    assert_eq!(found[0].score, 950000);
    assert_eq!(found[0].document.content, "y");
}

#[test]
fn transcripts_are_kept_one_for_each_media() {
    let mut store = MemoryVectorStore::new();
    let first = Transcript::new("a".to_string(), vec![TranscriptSegment::new(0, 1000, "one".to_string())]);
    let second = Transcript::new("a".to_string(), vec![TranscriptSegment::new(0, 2000, "two".to_string())]);
    assert!(!store.has_transcript("a"));
    assert!(store.get_transcript("a").is_none());
    store.store_transcript("a", "Old title", &first, 1);
    store.store_transcript("b", "B", &first, 2);
    store.store_transcript("a", "New title", &second, 3);
    assert!(store.has_transcript("a"));
    let (title, kept) = store.get_transcript("a").unwrap();
    assert_eq!(title, "New title");
    assert_eq!(kept.full_text, "two");
    assert_eq!(kept.duration_ms, 2000);
    let listed = store.list_transcripts();
    assert_eq!(listed.len(), 2);
    let mut names: Vec<&str> = listed.iter().map(|r| r.0.as_str()).collect();
    names.sort();
    assert_eq!(names, vec!["a", "b"]);
    assert_eq!(store.document_count(), 0);
}

#[test]
fn embeddings_survive_bytes() {
    let values = [0.0f32, -0.0, 1.0, -1.5, 3.4028235e38, 1e-45, f32::INFINITY];
    let words = bits(&values);
    let bytes = embedding_to_bytes(&words);
    assert_eq!(bytes.len(), 4 * values.len());
    let expected: Vec<u8> = values.iter().flat_map(|f| f.to_le_bytes()).collect();
    assert_eq!(bytes, expected);
    assert_eq!(bytes_to_embedding(&bytes), words);
    assert_eq!(embedding_to_bytes(&vec![0x04030201]), vec![1, 2, 3, 4]);
    assert_eq!(bytes_to_embedding(&vec![1, 2, 3, 4, 5, 6]), vec![0x04030201]);
    assert!(bytes_to_embedding(&vec![1, 2, 3]).is_empty());
    assert!(embedding_to_bytes(&Vec::new()).is_empty());
}

#[test]
fn test_embedder_creation() {
    let embedder = OpenAIEmbedder::new();
    assert_eq!(embedder.dimensions(), 1536);
    let embedder = OpenAIEmbedder::with_config("text-embedding-3-large", 3072);
    assert_eq!(embedder.dimensions(), 3072);
}

#[test]
fn texts_are_embedded_in_batches_of_a_hundred() {
    assert!(OpenAIEmbedder::batches(0).is_empty());
    assert_eq!(OpenAIEmbedder::batches(1), vec![(0, 1)]);
    assert_eq!(OpenAIEmbedder::batches(100), vec![(0, 100)]);
    assert_eq!(OpenAIEmbedder::batches(101), vec![(0, 100), (100, 101)]);
    assert_eq!(OpenAIEmbedder::batches(250), vec![(0, 100), (100, 200), (200, 250)]);
}

#[test]
fn embeddings_are_put_in_the_order_of_their_texts() {
    let data = vec![
        ProviderEmbedding { index: 2, embedding: vec![2] },
        ProviderEmbedding { index: 0, embedding: vec![0] },
        ProviderEmbedding { index: 1, embedding: vec![1] },
    ];
    assert_eq!(OpenAIEmbedder::in_order(data), vec![vec![0], vec![1], vec![2]]);
    assert_eq!(OpenAIEmbedder::first(vec![vec![5], vec![6]]).unwrap(), vec![5]);
    match OpenAIEmbedder::first(Vec::new()) {
        Err(LyttError::Embedding(m)) => assert_eq!(m, "Empty embedding response"),
        _ => panic!("there is no embedding"),
    }
}


#[test]
fn search_without_a_threshold_keeps_what_scores_below_zero() {
    let mut store = MemoryVectorStore::new();
    store.upsert_batch(vec![doc(1, "v", "against", 0, 1000, 1), doc(2, "v", "for", 1, 2000, 1)]);
    let all = store.search(&vec![-1_000_000, 250_000], 10);
    let found: Vec<(&str, i32)> = all.iter().map(|r| (r.document.content.as_str(), r.score)).collect();
    assert_eq!(found, vec![("for", 250_000), ("against", -1_000_000)]);
    let lowest = store.search(&vec![i32::MIN, i32::MIN], 10);
    assert_eq!(lowest.len(), 2);
    let passing = store.search_with_threshold(&vec![-1_000_000, 250_000], 10, 0);
    assert_eq!(passing.len(), 1);
    assert_eq!(passing[0].document.content, "for");
    let short = store.search(&vec![5], 10);
    assert_eq!(short.len(), 1);
    assert_eq!(short[0].document.content, "against");
}

#[test]
fn documents_are_indexed_at_the_instant_given() {
    let d = Document::new(
        "v".to_string(),
        "T".to_string(),
        None,
        "c".to_string(),
        0,
        1000,
        vec![],
        0,
        None,
        42,
    );
    assert_eq!(d.indexed_at, 42);
}
