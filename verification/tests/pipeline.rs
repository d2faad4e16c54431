use rig_cat::embedding::Embedding;
use rig_cat::model::Role;
use rig_cat::pipeline::{augmented_prompt, format_context, query_embedding, rag_request};
use rig_cat::vector_store::{Document, SearchResult};

#[test]
fn context_lines_are_numbered_from_one() {
    let results = vec![
        SearchResult::new(Document::new("a".into(), "first text".into(), Embedding::new(vec![])), 0.9f64.to_bits()),
        SearchResult::new(Document::new("b".into(), "second text".into(), Embedding::new(vec![])), 0.25f64.to_bits()),
    ];
    let scores: Vec<String> = results.iter().map(|r| format!("{:.3}", f64::from_bits(r.score()))).collect();
    let ctx = format_context(&results, &scores);
    assert_eq!(ctx, "[1] (score: 0.900) first text\n[2] (score: 0.250) second text");
    assert_eq!(format_context(&[], &[]), "");
}

#[test]
fn augmented_prompt_layout() {
    let p = augmented_prompt("ctx", "why?");
    assert_eq!(p, "Context:\nctx\n\nQuestion: why?\n\nAnswer based on the context above.");
}

#[test]
fn rag_request_carries_preamble_and_prompt() {
    let r = rag_request(&Some("sys".into()), "prompt");
    assert_eq!(r.messages().len(), 2);
    assert_eq!(*r.messages()[0].role(), Role::System);
    assert_eq!(r.messages()[1].content(), "prompt");
    let plain = rag_request(&None, "prompt");
    assert_eq!(plain.messages().len(), 1);
    assert_eq!(*plain.messages()[0].role(), Role::User);
}

#[test]
fn query_embedding_is_the_first_or_empty() {
    let e = query_embedding(vec![Embedding::new(vec![1, 2]), Embedding::new(vec![3])]);
    assert_eq!(e.values(), &[1, 2]);
    assert_eq!(query_embedding(vec![]).dimension(), 0);
}
