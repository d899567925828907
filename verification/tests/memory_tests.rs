use artefact_runtime::embedding::{mean_pool, Embedding};
use artefact_runtime::errors::ChatError;
use artefact_runtime::memory::{cosine_similarity, VectorMemory};

fn emb(components: Vec<i64>) -> Embedding {
    Embedding::new(components).unwrap()
}

#[test]
fn cosine_identical_vectors_score_full_scale() {
    let a = emb(vec![300, 400]);
    let b = emb(vec![300, 400]);
    // norms are exactly 500, the dot product 250000: full scale.
    assert_eq!(cosine_similarity(&a, &b), 1000);
}

#[test]
fn cosine_zero_vector_scores_zero() {
    let a = emb(vec![123, -456, 789]);
    let z = emb(vec![0, 0, 0]);
    assert_eq!(cosine_similarity(&a, &z), 0);
    assert_eq!(cosine_similarity(&z, &a), 0);
    assert_eq!(cosine_similarity(&z, &z), 0);
}

#[test]
fn cosine_mismatched_lengths_score_zero() {
    let a = emb(vec![1000, 0]);
    let b = emb(vec![1000, 0, 0]);
    assert_eq!(cosine_similarity(&a, &b), 0);
    let empty = emb(vec![]);
    assert_eq!(cosine_similarity(&empty, &empty), 0);
}

#[test]
fn cosine_opposite_vectors_score_negative() {
    let a = emb(vec![1000, 0]);
    let b = emb(vec![-1000, 0]);
    assert_eq!(cosine_similarity(&a, &b), -1000);
}

#[test]
fn search_orders_by_descending_similarity() {
    let mut store = VectorMemory::new();
    store.add("east".to_string(), emb(vec![0, 1000]));
    store.add("diagonal".to_string(), emb(vec![707, 707]));
    store.add("north".to_string(), emb(vec![1000, 0]));
    let query = emb(vec![1000, 0]);
    let hits = store.search(&query, 3);
    assert_eq!(hits, vec!["north".to_string(), "diagonal".to_string(), "east".to_string()]);
}

#[test]
fn search_tie_keeps_insertion_order() {
    let mut store = VectorMemory::new();
    store.add("first".to_string(), emb(vec![500, 0]));
    store.add("second".to_string(), emb(vec![1000, 0]));
    store.add("third".to_string(), emb(vec![500, 0]));
    let query = emb(vec![1000, 0]);
    // "first" and "third" score identically; insertion order decides.
    let hits = store.search(&query, 3);
    assert_eq!(
        hits,
        vec!["first".to_string(), "second".to_string(), "third".to_string()]
    );
}

#[test]
fn search_empty_store_returns_empty() {
    let store = VectorMemory::new();
    let query = emb(vec![1000, 0]);
    assert_eq!(store.search(&query, 0), Vec::<String>::new());
    assert_eq!(store.search(&query, 5), Vec::<String>::new());
}

#[test]
fn search_k_beyond_size_returns_all() {
    let mut store = VectorMemory::new();
    store.add("a".to_string(), emb(vec![1000, 0]));
    store.add("b".to_string(), emb(vec![0, 1000]));
    let query = emb(vec![1000, 0]);
    let hits = store.search(&query, 10);
    assert_eq!(hits.len(), 2);
    assert_eq!(hits[0], "a");
}

#[test]
fn embedding_rejects_out_of_range_components() {
    assert!(Embedding::new(vec![1000000]).is_some());
    assert!(Embedding::new(vec![1000001]).is_none());
    assert!(Embedding::new(vec![-1000001]).is_none());
}

#[test]
fn mean_pool_averages_columns() {
    // Two rows of hidden size two: columns average to (20, 30).
    let values = vec![10, 20, 30, 40];
    let pooled = mean_pool(&values, 2, 2).unwrap();
    assert_eq!(pooled.len(), 2);
    assert_eq!(pooled.component(0), 20);
    assert_eq!(pooled.component(1), 30);
}

#[test]
fn mean_pool_truncates_toward_zero() {
    let values = vec![-10, -21];
    let pooled = mean_pool(&values, 2, 1).unwrap();
    assert_eq!(pooled.component(0), -15);
}

#[test]
fn mean_pool_rejects_shape_mismatch() {
    let values = vec![1, 2, 3];
    assert!(matches!(mean_pool(&values, 2, 2), Err(ChatError::Inference)));
    assert!(matches!(mean_pool(&values, 0, 3), Err(ChatError::Inference)));
}
