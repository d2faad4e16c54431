# rig_cat

An LLM agent framework with its logic verified by Verus: conversation
messages and completion requests, embeddings and similarity ranking, tool
dispatch, agents, the pure steps of a retrieval-augmented generation
pipeline, and the request and reply shapes of the OpenAI and Anthropic
APIs.

Effects are `comp_cat_rs` values (`Io`, `Stream`): nothing runs until
`.run()`.

## Layout

- `src/` — the verified library.
  - `model`, `embedding`, `tool`, `vector_store`, `agent`: the data types,
    the `CompletionModel`, `EmbeddingModel` and `Tool` traits, and their
    logic.
  - `ranking`: best-first ranking of scored items, cut to `k`, with the
    proof that it is the stable top-`k` order.
  - `pipeline`: the context, prompt and request of a retrieval pipeline.
  - `provider`: request bodies and reply reading for OpenAI and Anthropic.
  - `error`, `text`: the error type and its text.
  - `effect`, `json`: the outside types and calls the library relies on.
- `app/` — the effectful edge: HTTP calls, JSON (de)serialization, cosine
  similarity in floating point, the `VectorStoreIndex` trait and the `rag`
  pipeline.
- `tests/` — tests of the library.

Floating-point values (temperatures, embedding components, similarity
scores) travel through the library as their IEEE-754 bit patterns
(`f64::to_bits`); `ranking::score_less` compares two of them as `<` on
`f64` does.
