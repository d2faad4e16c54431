//! Documents, search results, and the in-memory store that ranks its
//! documents by their similarity to a query.
use vstd::prelude::*;
use comp_cat_rs::effect::io::Io;
use crate::effect::io_map;
use crate::embedding::{Embedding, EmbeddingModel, EmbeddingRequest};
use crate::error::Error;
use crate::ranking::{
    best_first, distinct_below, free_of_nan, keeps_the_best, order_key, rank_indices,
    ranked_indices,
};

verus! {

/// A document stored in a vector store.
#[derive(Debug, Clone)]
pub struct Document {
    id: String,
    content: String,
    embedding: Embedding,
}

impl View for Document {
    /// The identifier, the text and the embedding's components.
    type V = (Seq<char>, Seq<char>, Seq<u64>);

    closed spec fn view(&self) -> (Seq<char>, Seq<char>, Seq<u64>) {
        (self.id@, self.content@, self.embedding@)
    }
}

/// The views of a sequence of documents.
pub open spec fn document_views(docs: Seq<Document>) -> Seq<(Seq<char>, Seq<char>, Seq<u64>)> {
    docs.map_values(|d: Document| d@)
}

impl Document {
    pub fn new(id: String, content: String, embedding: Embedding) -> (d: Self)
        ensures
            d@ == (id@, content@, embedding@),
    {
        Document { id, content, embedding }
    }

    pub fn id(&self) -> (i: &str)
        ensures
            i@ == self@.0,
    {
        self.id.as_str()
    }

    pub fn content(&self) -> (c: &str)
        ensures
            c@ == self@.1,
    {
        self.content.as_str()
    }

    pub fn embedding(&self) -> (e: &Embedding)
        ensures
            e@ == self@.2,
    {
        &self.embedding
    }

    /// A copy of the document, equal in view.
    pub fn duplicate(&self) -> (d: Self)
        ensures
            d@ == self@,
    {
        Document {
            id: self.id.clone(),
            content: self.content.clone(),
            embedding: self.embedding.duplicate(),
        }
    }
}

/// A search result: a document with its similarity score.
///
/// The score is a 64-bit IEEE-754 value carried as its bit pattern.
#[derive(Debug, Clone)]
pub struct SearchResult {
    document: Document,
    score: u64,
}

impl View for SearchResult {
    /// The document's view and the score's bit pattern.
    type V = ((Seq<char>, Seq<char>, Seq<u64>), u64);

    closed spec fn view(&self) -> ((Seq<char>, Seq<char>, Seq<u64>), u64) {
        (self.document@, self.score)
    }
}

/// The views of a sequence of search results.
pub open spec fn result_views(results: Seq<SearchResult>) -> Seq<
    ((Seq<char>, Seq<char>, Seq<u64>), u64),
> {
    results.map_values(|r: SearchResult| r@)
}

impl SearchResult {
    pub fn new(document: Document, score: u64) -> (r: Self)
        ensures
            r@ == (document@, score),
    {
        SearchResult { document, score }
    }

    pub fn document(&self) -> (d: &Document)
        ensures
            d@ == self@.0,
    {
        &self.document
    }

    /// The score's bit pattern.
    pub fn score(&self) -> (s: u64)
        ensures
            s == self@.1,
    {
        self.score
    }
}

/// The documents at the ranked positions, each with its score: the result
/// of a search over `docs` whose similarity scores are `scores`.
pub open spec fn ranked_results(
    docs: Seq<(Seq<char>, Seq<char>, Seq<u64>)>,
    scores: Seq<u64>,
    k: nat,
) -> Seq<((Seq<char>, Seq<char>, Seq<u64>), u64)> {
    ranked_indices(scores, scores.len(), k).map_values(
        |i: usize| (docs[i as int], scores[i as int]),
    )
}

/// The position of the first error among the scores at or after `from`,
/// or the number of scores.
pub open spec fn first_error(scored: Seq<Result<u64, Error>>, from: nat) -> nat
    decreases scored.len() - from,
{
    if from >= scored.len() {
        scored.len()
    } else if scored[from as int] is Err {
        from
    } else {
        first_error(scored, from + 1)
    }
}

/// The score values of a sequence with no error in it.
pub open spec fn ok_scores(scored: Seq<Result<u64, Error>>) -> Seq<u64> {
    scored.map_values(
        |x: Result<u64, Error>|
            match x {
                Ok(s) => s,
                Err(_) => 0u64,
            },
    )
}

proof fn lemma_first_error(scored: Seq<Result<u64, Error>>, from: nat)
    requires
        from <= scored.len(),
    ensures
        from <= first_error(scored, from) <= scored.len(),
        forall|a: int| from <= a < first_error(scored, from) ==> #[trigger] scored[a] is Ok,
        first_error(scored, from) < scored.len() ==> scored[first_error(scored, from) as int] is Err,
    decreases scored.len() - from,
{
    if from < scored.len() && scored[from as int] is Ok {
        lemma_first_error(scored, from + 1);
    }
}

/// The documents `(ids[i], contents[i], embeddings[i])`, as many as the
/// shortest of the three sequences allows.
pub open spec fn zipped_documents(
    ids: Seq<Seq<char>>,
    contents: Seq<Seq<char>>,
    embeddings: Seq<Seq<u64>>,
) -> Seq<(Seq<char>, Seq<char>, Seq<u64>)> {
    let n = if ids.len() <= contents.len() && ids.len() <= embeddings.len() {
        ids.len()
    } else if contents.len() <= embeddings.len() {
        contents.len()
    } else {
        embeddings.len()
    };
    Seq::new(n, |i: int| (ids[i], contents[i], embeddings[i]))
}

/// The views of a sequence of embeddings.
pub open spec fn embedding_views(embeddings: Seq<Embedding>) -> Seq<Seq<u64>> {
    embeddings.map_values(|e: Embedding| e@)
}

/// The contents of `(id, content)` pairs, in order.
pub open spec fn content_views(texts: Seq<(String, String)>) -> Seq<Seq<char>> {
    texts.map_values(|p: (String, String)| p.1@)
}

/// Splits `(id, content)` pairs into the ids and the contents, in order.
pub fn split_texts(texts: &[(String, String)]) -> (r: (Vec<String>, Vec<String>))
    ensures
        r.0@.len() == texts@.len(),
        r.1@.len() == texts@.len(),
        forall|i: int|
            0 <= i < texts@.len() ==> #[trigger] r.0@[i]@ == texts@[i].0@ && r.1@[i]@ == texts@[
                i
            ].1@,
{
    let n = texts.len();
    let mut ids: Vec<String> = Vec::new();
    let mut contents: Vec<String> = Vec::new();
    let mut i: usize = 0;
    while i < n
        invariant
            n == texts@.len(),
            i <= n,
            ids@.len() == i,
            contents@.len() == i,
            forall|j: int| 0 <= j < i ==> #[trigger] ids@[j]@ == texts@[j].0@,
            forall|j: int| 0 <= j < i ==> #[trigger] contents@[j]@ == texts@[j].1@,
        decreases n - i,
    {
        ids.push(texts[i].0.clone());
        contents.push(texts[i].1.clone());
        i = i + 1;
    }
    (ids, contents)
}

/// In-memory vector store: stores documents in a Vec,
/// searches by cosine similarity.
pub struct InMemoryVectorStore {
    documents: Vec<Document>,
}

impl View for InMemoryVectorStore {
    /// The stored documents, in the order they were added.
    type V = Seq<(Seq<char>, Seq<char>, Seq<u64>)>;

    closed spec fn view(&self) -> Seq<(Seq<char>, Seq<char>, Seq<u64>)> {
        document_views(self.documents@)
    }
}

impl Default for InMemoryVectorStore {
    fn default() -> (s: Self)
        ensures
            s@ == Seq::<(Seq<char>, Seq<char>, Seq<u64>)>::empty(),
    {
        Self::new()
    }
}

impl InMemoryVectorStore {
    /// Create an empty store.
    pub fn new() -> (s: Self)
        ensures
            s@ == Seq::<(Seq<char>, Seq<char>, Seq<u64>)>::empty(),
    {
        let s = InMemoryVectorStore { documents: Vec::new() };
        assert(s@ =~= Seq::<(Seq<char>, Seq<char>, Seq<u64>)>::empty());
        s
    }

    /// Add documents to the store, after those already in it.
    pub fn with_documents(self, docs: Vec<Document>) -> (s: Self)
        ensures
            s@ == self@ + document_views(docs@),
    {
        let mut documents = self.documents;
        let ghost added = docs@;
        let mut docs = docs;
        let ghost before = documents@;
        documents.append(&mut docs);
        let s = InMemoryVectorStore { documents };
        assert(s@ =~= self@ + document_views(added)) by {
            assert(documents@ == before + added);
        }
        s
    }

    /// The stored documents.
    pub fn documents(&self) -> (d: &[Document])
        ensures
            document_views(d@) == self@,
    {
        self.documents.as_slice()
    }

    /// Builds a store from documents `(ids[i], contents[i], embeddings[i])`,
    /// as many as the shortest of the three sequences allows.
    pub fn from_embedded(ids: Vec<String>, contents: Vec<String>, embeddings: Vec<Embedding>) -> (s:
        Self)
        ensures
            s@ == zipped_documents(
                crate::embedding::text_views(ids@),
                crate::embedding::text_views(contents@),
                embedding_views(embeddings@),
            ),
    {
        let mut ids = ids;
        let mut contents = contents;
        let mut embeddings = embeddings;
        let ghost zipped = zipped_documents(
            crate::embedding::text_views(ids@),
            crate::embedding::text_views(contents@),
            embedding_views(embeddings@),
        );
        let n = if ids.len() <= contents.len() && ids.len() <= embeddings.len() {
            ids.len()
        } else if contents.len() <= embeddings.len() {
            contents.len()
        } else {
            embeddings.len()
        };
        ids.truncate(n);
        contents.truncate(n);
        embeddings.truncate(n);
        let ghost ids0 = ids@;
        let ghost contents0 = contents@;
        let ghost embeddings0 = embeddings@;
        let mut documents: Vec<Document> = Vec::new();
        // take the items from the back, then restore their order
        let mut k: usize = n;
        while k > 0
            invariant
                k <= n,
                n == zipped.len(),
                ids@ == ids0.take(k as int),
                contents@ == contents0.take(k as int),
                embeddings@ == embeddings0.take(k as int),
                ids0.len() == n,
                contents0.len() == n,
                embeddings0.len() == n,
                forall|a: int| 0 <= a < n ==> zipped[a] == (#[trigger] ids0[a]@, contents0[a]@, embeddings0[a]@),
                documents@.len() == n - k,
                forall|a: int|
                    0 <= a < n - k ==> #[trigger] documents@[a]@ == zipped[n - 1 - a],
            decreases k,
        {
            let id = ids.pop().unwrap();
            let content = contents.pop().unwrap();
            let embedding = embeddings.pop().unwrap();
            documents.push(Document::new(id, content, embedding));
            k = k - 1;
            assert(ids@ =~= ids0.take(k as int));
            assert(contents@ =~= contents0.take(k as int));
            assert(embeddings@ =~= embeddings0.take(k as int));
        }
        let mut ordered: Vec<Document> = Vec::new();
        while documents.len() > 0
            invariant
                documents@.len() + ordered@.len() == n,
                forall|a: int|
                    0 <= a < documents@.len() ==> #[trigger] documents@[a]@ == zipped[n - 1 - a],
                forall|a: int| 0 <= a < ordered@.len() ==> #[trigger] ordered@[a]@ == zipped[a],
            decreases documents@.len(),
        {
            let d = documents.pop().unwrap();
            ordered.push(d);
        }
        let s = InMemoryVectorStore { documents: ordered };
        assert(s@ =~= zipped);
        s
    }

    /// Ingest raw texts, given as `(id, content)` pairs: the contents, in
    /// order, are handed to `model.embed` in one request, and each text is
    /// stored with its embedding through `from_embedded`.
    pub fn ingest<M: EmbeddingModel>(texts: &[(String, String)], model: &M) -> (r: Io<Error, Self>)
        ensures
            exists|req: EmbeddingRequest, e: Io<Error, Vec<Embedding>>|
                req@ == content_views(texts@) && call_ensures(M::embed, (model, req), e),
    {
        let (ids, contents) = split_texts(texts);
        let copied = contents.clone();
        proof {
            assert forall|i: int| 0 <= i < copied@.len() implies #[trigger] copied@[i]@
                == contents@[i]@ by {
                assert(vstd::pervasive::cloned::<String>(contents@[i], copied@[i]));
            }
        }
        let request = EmbeddingRequest::new(copied);
        assert forall|i: int| 0 <= i < texts@.len() implies #[trigger] request@[i] == content_views(
            texts@,
        )[i] by {
            assert(ids@[i]@ == texts@[i].0@);
            assert(copied@[i]@ == contents@[i]@);
        }
        assert(request@ =~= content_views(texts@));
        let ghost sent = request;
        let embedded = model.embed(request);
        assert(call_ensures(M::embed, (model, sent), embedded));
        io_map(
            embedded,
            move |embeddings: Vec<Embedding>| Self::from_embedded(ids, contents, embeddings),
        )
    }

    /// Ranks the stored documents by their similarity to a query, best
    /// first, keeping at most `top_k`; `scored[i]` is the similarity of
    /// document `i` to the query, or the error that computing it gave.
    /// The first error, if any, is the result.
    pub fn rank_scored(&self, scored: Vec<Result<u64, Error>>, top_k: usize) -> (r: Result<
        Vec<SearchResult>,
        Error,
    >)
        requires
            scored@.len() == self@.len(),
        ensures
            first_error(scored@, 0) < scored@.len() ==> r == Err::<Vec<SearchResult>, Error>(
                scored@[first_error(scored@, 0) as int]->Err_0,
            ),
            first_error(scored@, 0) == scored@.len() ==> r is Ok && result_views(r->Ok_0@)
                == ranked_results(self@, ok_scores(scored@), top_k as nat),
            first_error(scored@, 0) == scored@.len() ==> is_stable_top_k(
                self@,
                ok_scores(scored@),
                top_k as nat,
                result_views(r->Ok_0@),
            ),
    {
        let n = scored.len();
        proof {
            lemma_first_error(scored@, 0);
        }
        let mut e: usize = 0;
        while e < n && scored[e].is_ok()
            invariant
                n == scored@.len(),
                e <= n,
                first_error(scored@, 0) == first_error(scored@, e as nat),
            decreases n - e,
        {
            e = e + 1;
        }
        if e < n {
            let mut scored = scored;
            let item = scored.remove(e);
            return match item {
                Err(err) => Err(err),
                Ok(_) => {
                    proof {
                        assert(false);
                    }
                    Ok(Vec::new())
                },
            };
        }
        let mut scores: Vec<u64> = Vec::new();
        let mut i: usize = 0;
        while i < n
            invariant
                n == scored@.len(),
                i <= n,
                first_error(scored@, 0) == n,
                forall|a: int| 0 <= a < n ==> #[trigger] scored@[a] is Ok,
                scores@ =~= ok_scores(scored@).take(i as int),
            decreases n - i,
        {
            match &scored[i] {
                Ok(s) => scores.push(*s),
                Err(_) => {},
            }
            i = i + 1;
        }
        assert(scores@ =~= ok_scores(scored@));
        let ranked = rank_indices(&scores, top_k);
        proof {
            crate::ranking::lemma_ranking_is_stable_top_k(scores@, n as nat, top_k as nat);
        }
        let m = ranked.len();
        let mut results: Vec<SearchResult> = Vec::new();
        let mut j: usize = 0;
        while j < m
            invariant
                m == ranked@.len(),
                n == scores@.len(),
                n == self@.len(),
                n == self.documents@.len(),
                j <= m,
                ranked@ == ranked_indices(scores@, n as nat, top_k as nat),
                forall|a: int| 0 <= a < m ==> #[trigger] ranked@[a] < n,
                results@.len() == j,
                forall|a: int|
                    0 <= a < j ==> #[trigger] results@[a]@ == (
                        self@[ranked@[a] as int],
                        scores@[ranked@[a] as int],
                    ),
            decreases m - j,
        {
            let idx = ranked[j];
            assert(self@[idx as int] == self.documents@[idx as int]@);
            results.push(SearchResult::new(self.documents[idx].duplicate(), scores[idx]));
            j = j + 1;
        }
        assert(result_views(results@) =~= ranked_results(self@, ok_scores(scored@), top_k as nat));
        proof {
            law_search_is_stable_top_k(self@, ok_scores(scored@), top_k as nat);
        }
        Ok(results)
    }
}

/// A search over `n` documents returns `min(n, k)` results, each one a
/// stored document with its own score; a search of an empty store returns
/// nothing.
pub proof fn law_search_returns_stored_documents(
    docs: Seq<(Seq<char>, Seq<char>, Seq<u64>)>,
    scores: Seq<u64>,
    k: nat,
)
    requires
        docs.len() == scores.len(),
        scores.len() <= usize::MAX,
    ensures
        ranked_results(docs, scores, k).len() == if scores.len() <= k {
            scores.len()
        } else {
            k
        },
        forall|j: int|
            0 <= j < ranked_results(docs, scores, k).len() ==> exists|i: int|
                0 <= i < docs.len() && #[trigger] ranked_results(docs, scores, k)[j] == (
                    docs[i],
                    scores[i],
                ),
{
    crate::ranking::lemma_ranking_is_stable_top_k(scores, scores.len(), k);
    let r = ranked_indices(scores, scores.len(), k);
    assert forall|j: int| 0 <= j < ranked_results(docs, scores, k).len() implies exists|i: int|
        0 <= i < docs.len() && #[trigger] ranked_results(docs, scores, k)[j] == (
            docs[i],
            scores[i],
        ) by {
        let i = r[j] as int;
        assert(r[j] < scores.len());
        assert(ranked_results(docs, scores, k)[j] == (docs[i], scores[i]));
    }
}

/// `res` is what a search with at most `k` results must return over the
/// documents `docs` with similarity scores `scores`: `min(n, k)` distinct
/// documents, each with its own score; and where no score is a NaN, they
/// come best first (a score never below a later one), equal scores in
/// stored order, and every document left out ranks after all those kept.
pub open spec fn is_stable_top_k(
    docs: Seq<(Seq<char>, Seq<char>, Seq<u64>)>,
    scores: Seq<u64>,
    k: nat,
    res: Seq<((Seq<char>, Seq<char>, Seq<u64>), u64)>,
) -> bool {
    &&& res.len() == if scores.len() <= k {
        scores.len()
    } else {
        k
    }
    &&& exists|idx: Seq<usize>|
        {
            &&& idx.len() == res.len()
            &&& distinct_below(idx, scores.len())
            &&& forall|j: int|
                0 <= j < res.len() ==> #[trigger] res[j] == (docs[idx[j] as int], scores[idx[j] as int])
            &&& free_of_nan(scores, scores.len()) ==> best_first(scores, idx) && keeps_the_best(
                scores,
                idx,
                scores.len(),
                k,
            )
        }
    &&& free_of_nan(scores, scores.len()) ==> forall|a: int, b: int|
        0 <= a < b < res.len() ==> order_key(#[trigger] res[a].1) >= order_key(#[trigger] res[b].1)
}

/// For every `k`, also beyond the number of documents, a search returns
/// the stable top-`k` of the documents: best first, equal scores in stored
/// order, no document left out that ranks before one kept.
pub proof fn law_search_is_stable_top_k(
    docs: Seq<(Seq<char>, Seq<char>, Seq<u64>)>,
    scores: Seq<u64>,
    k: nat,
)
    requires
        docs.len() == scores.len(),
        scores.len() <= usize::MAX,
    ensures
        is_stable_top_k(docs, scores, k, ranked_results(docs, scores, k)),
{
    crate::ranking::lemma_ranking_is_stable_top_k(scores, scores.len(), k);
    let idx = ranked_indices(scores, scores.len(), k);
    let res = ranked_results(docs, scores, k);
    assert forall|j: int| 0 <= j < res.len() implies #[trigger] res[j] == (
        docs[idx[j] as int],
        scores[idx[j] as int],
    ) by {}
    if free_of_nan(scores, scores.len()) {
        assert forall|a: int, b: int| 0 <= a < b < res.len() implies order_key(
            #[trigger] res[a].1,
        ) >= order_key(#[trigger] res[b].1) by {
            assert(crate::ranking::ranks_before(scores, idx[a], idx[b]));
        }
    }
}

} // verus!
