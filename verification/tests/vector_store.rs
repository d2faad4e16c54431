use comp_cat_rs::effect::io::Io;
use rig_cat::embedding::{Embedding, EmbeddingModel, EmbeddingRequest};
use rig_cat::error::Error;
use rig_cat::vector_store::{Document, InMemoryVectorStore, SearchResult};

fn bits(v: &[f64]) -> Vec<u64> {
    v.iter().map(|x| x.to_bits()).collect()
}

fn make_doc(id: &str, emb: Vec<f64>) -> Document {
    Document::new(id.into(), format!("content of {id}"), Embedding::new(bits(&emb)))
}

// The similarity the store ranks by, computed here as the application does.
fn cosine(a: &Embedding, b: &Embedding) -> Result<u64, Error> {
    a.check_dimension(b)?;
    let x: Vec<f64> = a.values().iter().map(|v| f64::from_bits(*v)).collect();
    let y: Vec<f64> = b.values().iter().map(|v| f64::from_bits(*v)).collect();
    let dot: f64 = x.iter().zip(y.iter()).map(|(p, q)| p * q).sum();
    let na = x.iter().map(|v| v * v).sum::<f64>().sqrt();
    let nb = y.iter().map(|v| v * v).sum::<f64>().sqrt();
    let d = na * nb;
    Ok((if d == 0.0 { 0.0 } else { dot / d }).to_bits())
}

fn search(store: &InMemoryVectorStore, query: &Embedding, top_k: usize) -> Result<Vec<SearchResult>, Error> {
    let scored = store.documents().iter().map(|d| cosine(d.embedding(), query)).collect();
    store.rank_scored(scored, top_k)
}

#[test]
fn search_returns_most_similar_first() -> Result<(), Error> {
    let store = InMemoryVectorStore::new().with_documents(vec![
        make_doc("far", vec![0.0, 1.0]),
        make_doc("close", vec![1.0, 0.1]),
        make_doc("mid", vec![0.7, 0.7]),
    ]);
    let query = Embedding::new(bits(&[1.0, 0.0]));
    let results = search(&store, &query, 3)?;
    assert_eq!(results.first().map(|r| r.document().id()), Some("close"));
    Ok(())
}

#[test]
fn search_respects_top_k() -> Result<(), Error> {
    let store = InMemoryVectorStore::new().with_documents(vec![
        make_doc("a", vec![1.0, 0.0]),
        make_doc("b", vec![0.9, 0.1]),
        make_doc("c", vec![0.0, 1.0]),
    ]);
    let query = Embedding::new(bits(&[1.0, 0.0]));
    let results = search(&store, &query, 1)?;
    assert_eq!(results.len(), 1);
    Ok(())
}

#[test]
fn search_empty_store_returns_empty() -> Result<(), Error> {
    let store = InMemoryVectorStore::new();
    let query = Embedding::new(bits(&[1.0, 0.0]));
    let results = search(&store, &query, 5)?;
    assert!(results.is_empty());
    Ok(())
}

#[test]
fn ranking_is_best_first_with_ties_in_order() -> Result<(), Error> {
    let store = InMemoryVectorStore::new().with_documents(vec![
        make_doc("low", vec![0.0]),
        make_doc("tie1", vec![0.0]),
        make_doc("high", vec![0.0]),
        make_doc("tie2", vec![0.0]),
    ]);
    let scored = vec![Ok(0.1f64.to_bits()), Ok(0.5f64.to_bits()), Ok(0.9f64.to_bits()), Ok(0.5f64.to_bits())];
    let results = store.rank_scored(scored, 3)?;
    let ids: Vec<&str> = results.iter().map(|r| r.document().id()).collect();
    assert_eq!(ids, vec!["high", "tie1", "tie2"]);
    assert_eq!(f64::from_bits(results[0].score()), 0.9);
    Ok(())
}

#[test]
fn first_error_is_the_result() {
    let store = InMemoryVectorStore::new().with_documents(vec![
        make_doc("a", vec![1.0]),
        make_doc("b", vec![1.0, 2.0]),
        make_doc("c", vec![1.0, 2.0, 3.0]),
    ]);
    let scored = vec![
        Ok(0.2f64.to_bits()),
        Err(Error::DimensionMismatch { expected: 2, got: 1 }),
        Err(Error::DimensionMismatch { expected: 3, got: 1 }),
    ];
    match store.rank_scored(scored, 2) {
        Err(Error::DimensionMismatch { expected, got }) => assert_eq!((expected, got), (2, 1)),
        other => panic!("unexpected {:?}", other.map(|v| v.len())),
    }
}

#[test]
fn with_documents_appends_in_order() {
    let store = InMemoryVectorStore::new()
        .with_documents(vec![make_doc("a", vec![1.0])])
        .with_documents(vec![make_doc("b", vec![2.0]), make_doc("c", vec![3.0])]);
    let ids: Vec<&str> = store.documents().iter().map(|d| d.id()).collect();
    assert_eq!(ids, vec!["a", "b", "c"]);
    assert_eq!(store.documents()[1].content(), "content of b");
}

struct CountingEmbedder;

impl EmbeddingModel for CountingEmbedder {
    fn embed(&self, request: EmbeddingRequest) -> Io<Error, Vec<Embedding>> {
        let out = request
            .texts()
            .iter()
            .map(|t| Embedding::new(vec![(t.len() as f64).to_bits()]))
            .collect();
        Io::pure(out)
    }
}

#[test]
fn ingest_stores_each_text_with_its_embedding() -> Result<(), Error> {
    let texts = vec![("x".to_string(), "abc".to_string()), ("y".to_string(), "de".to_string())];
    let store = InMemoryVectorStore::ingest(&texts, &CountingEmbedder).run()?;
    let docs = store.documents();
    assert_eq!(docs.len(), 2);
    assert_eq!(docs[0].id(), "x");
    assert_eq!(docs[0].content(), "abc");
    assert_eq!(f64::from_bits(docs[0].embedding().values()[0]), 3.0);
    assert_eq!(docs[1].id(), "y");
    assert_eq!(f64::from_bits(docs[1].embedding().values()[0]), 2.0);
    Ok(())
}

#[test]
fn split_texts_keeps_pairs_apart_in_order() {
    let (ids, contents) = rig_cat::vector_store::split_texts(&[
        ("x".to_string(), "abc".to_string()),
        ("y".to_string(), "de".to_string()),
    ]);
    assert_eq!(ids, vec!["x".to_string(), "y".to_string()]);
    assert_eq!(contents, vec!["abc".to_string(), "de".to_string()]);
}

#[test]
fn from_embedded_stops_at_the_shortest() {
    let store = InMemoryVectorStore::from_embedded(
        vec!["a".into(), "b".into()],
        vec!["ca".into(), "cb".into()],
        vec![Embedding::new(bits(&[1.0]))],
    );
    assert_eq!(store.documents().len(), 1);
    assert_eq!(store.documents()[0].id(), "a");
    let d = store.documents()[0].duplicate();
    assert_eq!(d.content(), "ca");
}
