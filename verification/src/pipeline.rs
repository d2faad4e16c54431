//! The pure steps of a retrieval-augmented generation (RAG) pipeline:
//! which embedding stands for the query, how the retrieved documents are
//! laid out as context, and the request built from the augmented prompt.
use vstd::prelude::*;
use crate::agent::{optional_text, prompt_message_list, prompt_messages};
use crate::embedding::Embedding;
use crate::model::CompletionRequest;
use crate::text::{decimal, decimal_string};
use crate::vector_store::{SearchResult, result_views};

verus! {

/// The prompt that asks `query` against `context`.
pub open spec fn augmented(context: Seq<char>, query: Seq<char>) -> Seq<char> {
    "Context:\n"@ + context + "\n\nQuestion: "@ + query + "\n\nAnswer based on the context above."@
}

/// The line of the context for the result at position `i` (counted from
/// zero), whose score reads `score` and whose document's text is `content`.
pub open spec fn context_line(i: nat, score: Seq<char>, content: Seq<char>) -> Seq<char> {
    "["@ + decimal(i + 1) + "] (score: "@ + score + ") "@ + content
}

/// The lines of the context for the first `n` results, joined by newlines.
pub open spec fn context_text(contents: Seq<Seq<char>>, scores: Seq<Seq<char>>, n: nat) -> Seq<
    char,
>
    decreases n,
{
    if n == 0 {
        Seq::empty()
    } else if n == 1 {
        context_line(0, scores[0], contents[0])
    } else {
        context_text(contents, scores, (n - 1) as nat) + "\n"@ + context_line(
            (n - 1) as nat,
            scores[n - 1],
            contents[n - 1],
        )
    }
}

/// The texts of the documents of some search results.
pub open spec fn result_contents(results: Seq<SearchResult>) -> Seq<Seq<char>> {
    result_views(results).map_values(|r: ((Seq<char>, Seq<char>, Seq<u64>), u64)| r.0.1)
}

/// The views of a sequence of strings.
pub open spec fn string_views(s: Seq<String>) -> Seq<Seq<char>> {
    s.map_values(|t: String| t@)
}

/// Lays out the retrieved documents as numbered lines, one per result,
/// with its score as `score_texts` renders it and the document's text.
pub fn format_context(results: &[SearchResult], score_texts: &[String]) -> (s: String)
    requires
        results@.len() == score_texts@.len(),
        results@.len() < u64::MAX,
    ensures
        s@ == context_text(result_contents(results@), string_views(score_texts@), results@.len()),
        s@ == Seq::new(
            results@.len(),
            |i: int|
                if i == 0 {
                    context_line(
                        0,
                        string_views(score_texts@)[0],
                        result_contents(results@)[0],
                    )
                } else {
                    "\n"@ + context_line(
                        i as nat,
                        string_views(score_texts@)[i],
                        result_contents(results@)[i],
                    )
                },
        ).flatten(),
{
    proof {
        reveal_strlit("[");
        reveal_strlit("] (score: ");
        reveal_strlit(") ");
        reveal_strlit("\n");
    }
    let n = results.len();
    let ghost contents = result_contents(results@);
    let ghost scores = string_views(score_texts@);
    let mut s = String::new();
    let mut i: usize = 0;
    while i < n
        invariant
            n == results@.len(),
            n == score_texts@.len(),
            n < u64::MAX,
            i <= n,
            contents == result_contents(results@),
            scores == string_views(score_texts@),
            s@ == context_text(contents, scores, i as nat),
        decreases n - i,
    {
        if i > 0 {
            s.append("\n");
        }
        s.append("[");
        let number = decimal_string((i as u64) + 1);
        s.append(number.as_str());
        s.append("] (score: ");
        s.append(score_texts[i].as_str());
        s.append(") ");
        s.append(results[i].document().content());
        proof {
            assert(contents[i as int] == results@[i as int]@.0.1);
            assert(scores[i as int] == score_texts@[i as int]@);
            if i == 0 {
                assert(s@ =~= context_line(0, scores[0], contents[0]));
            } else {
                assert(s@ =~= context_text(contents, scores, i as nat) + "\n"@ + context_line(
                    i as nat,
                    scores[i as int],
                    contents[i as int],
                ));
            }
        }
        i = i + 1;
    }
    proof {
        law_context_is_lines_joined_by_newlines(contents, scores, n as nat);
    }
    s
}

/// Builds the augmented prompt: the context, the question, and the
/// instruction to answer from the context.
pub fn augmented_prompt(context: &str, query: &str) -> (s: String)
    ensures
        s@ == augmented(context@, query@),
{
    let mut s = String::from_str("Context:\n");
    s.append(context);
    s.append("\n\nQuestion: ");
    s.append(query);
    s.append("\n\nAnswer based on the context above.");
    s
}

/// The request for the augmented prompt: the preamble, if there is one,
/// as a system message, then the prompt as a user message.
pub fn rag_request(preamble: &Option<String>, prompt: &str) -> (r: CompletionRequest)
    ensures
        r@ == (prompt_messages(optional_text(*preamble), prompt@), None::<u64>, None::<u32>),
{
    CompletionRequest::new(prompt_message_list(preamble, prompt))
}

/// The embedding that stands for the query: the first one returned, or
/// an empty one where none was.
pub fn query_embedding(embeddings: Vec<Embedding>) -> (e: Embedding)
    ensures
        embeddings@.len() > 0 ==> e@ == embeddings@[0]@,
        embeddings@.len() == 0 ==> e@ == Seq::<u64>::empty(),
{
    let mut embeddings = embeddings;
    if embeddings.len() > 0 {
        embeddings.swap_remove(0)
    } else {
        Embedding::new(Vec::new())
    }
}

/// The context is its lines, one per result, joined by newlines: a single
/// newline between every two consecutive lines, none before the first or
/// after the last.
pub proof fn law_context_is_lines_joined_by_newlines(
    contents: Seq<Seq<char>>,
    scores: Seq<Seq<char>>,
    n: nat,
)
    ensures
        context_text(contents, scores, n) == Seq::new(
            n,
            |i: int|
                if i == 0 {
                    context_line(0, scores[0], contents[0])
                } else {
                    "\n"@ + context_line(i as nat, scores[i], contents[i])
                },
        ).flatten(),
    decreases n,
{
    let lines = Seq::new(
        n,
        |i: int|
            if i == 0 {
                context_line(0, scores[0], contents[0])
            } else {
                "\n"@ + context_line(i as nat, scores[i], contents[i])
            },
    );
    if n == 0 {
        assert(lines =~= Seq::<Seq<char>>::empty());
        assert(lines.flatten() =~= Seq::<char>::empty());
    } else if n == 1 {
        lines.lemma_flatten_singleton();
    } else {
        let m = (n - 1) as nat;
        law_context_is_lines_joined_by_newlines(contents, scores, m);
        let shorter = Seq::new(
            m,
            |i: int|
                if i == 0 {
                    context_line(0, scores[0], contents[0])
                } else {
                    "\n"@ + context_line(i as nat, scores[i], contents[i])
                },
        );
        assert(lines =~= shorter.push("\n"@ + context_line(m, scores[m as int], contents[m as int])));
        shorter.lemma_flatten_push("\n"@ + context_line(m, scores[m as int], contents[m as int]));
        assert(context_text(contents, scores, n) =~= shorter.flatten() + ("\n"@ + context_line(
            m,
            scores[m as int],
            contents[m as int],
        )));
    }
}

} // verus!
