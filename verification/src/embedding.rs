//! Embedding model trait and vector types.
use vstd::prelude::*;
use comp_cat_rs::effect::io::Io;
use crate::error::Error;

verus! {

/// A dense vector embedding.
///
/// Each component is a 64-bit IEEE-754 value carried as its bit pattern
/// (`f64::to_bits`).
#[derive(Debug, Clone)]
pub struct Embedding {
    values: Vec<u64>,
}

impl View for Embedding {
    /// The bit patterns of the components.
    type V = Seq<u64>;

    closed spec fn view(&self) -> Seq<u64> {
        self.values@
    }
}

impl Embedding {
    pub fn new(values: Vec<u64>) -> (e: Self)
        ensures
            e@ == values@,
    {
        Embedding { values }
    }

    pub fn values(&self) -> (v: &[u64])
        ensures
            v@ == self@,
    {
        self.values.as_slice()
    }

    pub fn dimension(&self) -> (d: usize)
        ensures
            d == self@.len(),
    {
        self.values.len()
    }

    /// A copy of the embedding, equal in view.
    pub fn duplicate(&self) -> (e: Self)
        ensures
            e@ == self@,
    {
        let values = self.values.clone();
        assert(values@ =~= self.values@);
        Embedding { values }
    }

    /// Checks that two embeddings can be compared: the cosine similarity of
    /// `self` and `other` is defined only where their dimensions agree.
    pub fn check_dimension(&self, other: &Self) -> (r: Result<(), Error>)
        ensures
            r is Ok <==> self@.len() == other@.len(),
            r is Err ==> r == Err::<(), Error>(
                Error::DimensionMismatch { expected: self@.len() as usize, got: other@.len() as usize },
            ),
    {
        if self.dimension() == other.dimension() {
            Ok(())
        } else {
            Err(Error::DimensionMismatch { expected: self.dimension(), got: other.dimension() })
        }
    }
}

/// An embedding request: one or more texts to embed.
#[derive(Debug, Clone)]
pub struct EmbeddingRequest {
    texts: Vec<String>,
}

/// The views of a sequence of strings.
pub open spec fn text_views(texts: Seq<String>) -> Seq<Seq<char>> {
    texts.map_values(|t: String| t@)
}

impl View for EmbeddingRequest {
    type V = Seq<Seq<char>>;

    closed spec fn view(&self) -> Seq<Seq<char>> {
        text_views(self.texts@)
    }
}

impl EmbeddingRequest {
    pub fn new(texts: Vec<String>) -> (r: Self)
        ensures
            r@ == text_views(texts@),
    {
        EmbeddingRequest { texts }
    }

    pub fn single(text: String) -> (r: Self)
        ensures
            r@ == seq![text@],
    {
        let mut texts: Vec<String> = Vec::new();
        texts.push(text);
        let r = EmbeddingRequest { texts };
        assert(r@ =~= seq![text@]);
        r
    }

    pub fn texts(&self) -> (t: &[String])
        ensures
            text_views(t@) == self@,
    {
        self.texts.as_slice()
    }
}

/// The core embedding abstraction: send text, get vectors.
pub trait EmbeddingModel {
    /// Embed one or more texts.
    fn embed(&self, request: EmbeddingRequest) -> Io<Error, Vec<Embedding>>;
}

} // verus!
