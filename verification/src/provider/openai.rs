//! `OpenAI` provider: completion and embedding models.
use vstd::prelude::*;
use crate::embedding::{Embedding, EmbeddingRequest, text_views};
use crate::agent::prompt_messages;
use crate::model::{CompletionRequest, CompletionResponse, Message, Role};

verus! {

/// Newtype for the `OpenAI` API key.
pub struct ApiKey(String);

impl View for ApiKey {
    type V = Seq<char>;

    closed spec fn view(&self) -> Seq<char> {
        self.0@
    }
}

impl Clone for ApiKey {
    /// A copy that keeps the text unchanged.
    fn clone(&self) -> (c: Self)
        ensures
            c@ == self@,
    {
        ApiKey(self.0.clone())
    }
}

impl ApiKey {
    pub fn new(key: String) -> (k: Self)
        ensures
            k@ == key@,
    {
        ApiKey(key)
    }

    fn as_str(&self) -> (s: &str)
        ensures
            s@ == self@,
    {
        self.0.as_str()
    }
}

/// Newtype for a model name.
pub struct ModelName(String);

impl View for ModelName {
    type V = Seq<char>;

    closed spec fn view(&self) -> Seq<char> {
        self.0@
    }
}

impl Clone for ModelName {
    /// A copy that keeps the text unchanged.
    fn clone(&self) -> (c: Self)
        ensures
            c@ == self@,
    {
        ModelName(self.0.clone())
    }
}

impl ModelName {
    pub fn new(name: String) -> (m: Self)
        ensures
            m@ == name@,
    {
        ModelName(name)
    }

    fn as_str(&self) -> (s: &str)
        ensures
            s@ == self@,
    {
        self.0.as_str()
    }
}

/// The value of the `Authorization` header for an API key.
pub open spec fn bearer(key: Seq<char>) -> Seq<char> {
    "Bearer "@ + key
}

fn bearer_header(key: &ApiKey) -> (s: String)
    ensures
        s@ == bearer(key@),
{
    let mut s = String::from_str("Bearer ");
    s.append(key.as_str());
    proof {
        reveal_strlit("Bearer ");
    }
    s
}

/// `OpenAI` completion model.
pub struct OpenAiCompletion {
    api_key: ApiKey,
    model: ModelName,
}

impl View for OpenAiCompletion {
    /// The API key and the model name.
    type V = (Seq<char>, Seq<char>);

    closed spec fn view(&self) -> (Seq<char>, Seq<char>) {
        (self.api_key@, self.model@)
    }
}

/// `OpenAI` embedding model.
pub struct OpenAiEmbedding {
    api_key: ApiKey,
    model: ModelName,
}

impl View for OpenAiEmbedding {
    /// The API key and the model name.
    type V = (Seq<char>, Seq<char>);

    closed spec fn view(&self) -> (Seq<char>, Seq<char>) {
        (self.api_key@, self.model@)
    }
}

// --- Request/response shapes of the JSON API ---
/// The body of a chat completion request.
pub struct ChatRequest {
    pub model: String,
    pub messages: Vec<ChatMessage>,
    /// The bit pattern of the temperature, if one is sent.
    pub temperature: Option<u64>,
    pub max_tokens: Option<u32>,
}

/// One message of a chat completion request.
pub struct ChatMessage {
    pub role: String,
    pub content: String,
}

/// The body of a chat completion reply.
pub struct ChatResponse {
    pub choices: Vec<ChatChoice>,
    pub model: String,
}

/// One choice of a chat completion reply.
pub struct ChatChoice {
    pub message: ChatChoiceMessage,
}

/// The message of a choice.
pub struct ChatChoiceMessage {
    pub content: Option<String>,
}

/// The body of an embedding request.
pub struct EmbedRequest {
    pub model: String,
    pub input: Vec<String>,
}

/// The body of an embedding reply.
pub struct EmbedResponse {
    pub data: Vec<EmbedData>,
}

/// One embedding of an embedding reply, as the bit patterns of its
/// components.
pub struct EmbedData {
    pub embedding: Vec<u64>,
}

/// The embeddings of an embedding reply, as the bit patterns of their
/// components.
pub open spec fn reply_embeddings(data: Seq<EmbedData>) -> Seq<Seq<u64>> {
    data.map_values(|d: EmbedData| d.embedding@)
}

/// The name the chat API gives a role.
pub open spec fn role_name(role: Role) -> Seq<char> {
    match role {
        Role::System => "system"@,
        Role::User => "user"@,
        Role::Assistant => "assistant"@,
    }
}

/// The views of chat messages: role name and text.
pub open spec fn chat_message_views(messages: Seq<ChatMessage>) -> Seq<(Seq<char>, Seq<char>)> {
    messages.map_values(|m: ChatMessage| (m.role@, m.content@))
}

/// The chat messages for the library's messages.
pub open spec fn chat_messages(messages: Seq<(Role, Seq<char>)>) -> Seq<(Seq<char>, Seq<char>)> {
    messages.map_values(|m: (Role, Seq<char>)| (role_name(m.0), m.1))
}

/// The text of a chat reply: the content of its first choice, or nothing
/// where there is no choice or the first one has no content.
pub open spec fn chat_reply_text(choices: Seq<ChatChoice>) -> Seq<char> {
    if choices.len() > 0 && choices[0].message.content is Some {
        choices[0].message.content->0@
    } else {
        Seq::empty()
    }
}

fn role_text(role: &Role) -> (s: String)
    ensures
        s@ == role_name(*role),
{
    match role {
        Role::System => String::from_str("system"),
        Role::User => String::from_str("user"),
        Role::Assistant => String::from_str("assistant"),
    }
}

impl OpenAiCompletion {
    pub fn new(api_key: ApiKey, model: ModelName) -> (c: Self)
        ensures
            c@ == (api_key@, model@),
    {
        OpenAiCompletion { api_key, model }
    }

    /// The value of the `Authorization` header of the requests.
    pub fn authorization(&self) -> (s: String)
        ensures
            s@ == bearer(self@.0),
    {
        bearer_header(&self.api_key)
    }

    /// The body of the chat completion request for `request`: the model
    /// name, each message with its role's name, the temperature and the
    /// token limit.
    pub fn chat_request(&self, request: &CompletionRequest) -> (r: ChatRequest)
        ensures
            r.model@ == self@.1,
            chat_message_views(r.messages@) == chat_messages(request@.0),
            r.temperature == request@.1,
            r.max_tokens == request@.2,
    {
        let messages: &[Message] = request.messages();
        let n = messages.len();
        let mut chat: Vec<ChatMessage> = Vec::new();
        let mut i: usize = 0;
        while i < n
            invariant
                n == messages@.len(),
                i <= n,
                crate::model::message_views(messages@) == request@.0,
                chat_message_views(chat@) =~= chat_messages(request@.0).take(i as int),
            decreases n - i,
        {
            let m = &messages[i];
            proof {
                assert(request@.0[i as int] == messages@[i as int]@);
            }
            let ghost before = chat@;
            chat.push(
                ChatMessage { role: role_text(m.role()), content: String::from_str(m.content()) },
            );
            assert(chat_message_views(chat@) =~= chat_message_views(before).push(
                chat_messages(request@.0)[i as int],
            ));
            i = i + 1;
        }
        assert(chat_message_views(chat@) =~= chat_messages(request@.0));
        ChatRequest {
            model: String::from_str(self.model.as_str()),
            messages: chat,
            temperature: request.temperature(),
            max_tokens: request.max_tokens(),
        }
    }

    /// The completion that a chat reply carries: the text of its first
    /// choice (empty where there is none), and the model name it reports.
    pub fn completion_from_chat(reply: ChatResponse) -> (r: CompletionResponse)
        ensures
            r@ == (chat_reply_text(reply.choices@), reply.model@),
    {
        let ChatResponse { choices, model } = reply;
        let mut choices = choices;
        let content = if choices.len() > 0 {
            let first = choices.swap_remove(0);
            match first.message.content {
                Some(c) => c,
                None => String::new(),
            }
        } else {
            String::new()
        };
        CompletionResponse::new(content, model)
    }
}

impl OpenAiEmbedding {
    pub fn new(api_key: ApiKey, model: ModelName) -> (e: Self)
        ensures
            e@ == (api_key@, model@),
    {
        OpenAiEmbedding { api_key, model }
    }

    /// The value of the `Authorization` header of the requests.
    pub fn authorization(&self) -> (s: String)
        ensures
            s@ == bearer(self@.0),
    {
        bearer_header(&self.api_key)
    }

    /// The body of the embedding request for `request`: the model name and
    /// the texts.
    pub fn embed_request(&self, request: &EmbeddingRequest) -> (r: EmbedRequest)
        ensures
            r.model@ == self@.1,
            text_views(r.input@) == request@,
            r.input@.len() == request@.len(),
            forall|i: int| 0 <= i < r.input@.len() ==> #[trigger] r.input@[i]@ == request@[i],
    {
        let texts: &[String] = request.texts();
        let n = texts.len();
        let mut input: Vec<String> = Vec::new();
        let mut i: usize = 0;
        while i < n
            invariant
                n == texts@.len(),
                i <= n,
                text_views(texts@) == request@,
                text_views(input@) =~= text_views(texts@).take(i as int),
            decreases n - i,
        {
            let ghost before = input@;
            input.push(texts[i].clone());
            assert(text_views(input@) =~= text_views(before).push(text_views(texts@)[i as int]));
            i = i + 1;
        }
        assert(text_views(input@) =~= request@);
        assert forall|i: int| 0 <= i < input@.len() implies #[trigger] input@[i]@ == request@[i] by {
            assert(text_views(input@)[i] == input@[i]@);
        }
        EmbedRequest { model: String::from_str(self.model.as_str()), input }
    }

    /// The embeddings that an embedding reply carries, in order.
    pub fn embeddings_from_reply(reply: EmbedResponse) -> (r: Vec<Embedding>)
        ensures
            crate::vector_store::embedding_views(r@) == reply_embeddings(reply.data@),
            r@.len() == reply.data@.len(),
            forall|i: int|
                0 <= i < r@.len() ==> #[trigger] r@[i]@ == reply.data@[i].embedding@,
    {
        let data = reply.data;
        let n = data.len();
        let mut out: Vec<Embedding> = Vec::new();
        let mut i: usize = 0;
        while i < n
            invariant
                n == data@.len(),
                i <= n,
                crate::vector_store::embedding_views(out@) =~= reply_embeddings(data@).take(
                    i as int,
                ),
            decreases n - i,
        {
            let values = data[i].embedding.clone();
            assert(values@ =~= data@[i as int].embedding@);
            let ghost before = out@;
            out.push(Embedding::new(values));
            assert(crate::vector_store::embedding_views(out@) =~= crate::vector_store::embedding_views(
                before,
            ).push(reply_embeddings(data@)[i as int]));
            i = i + 1;
        }
        assert(crate::vector_store::embedding_views(out@) =~= reply_embeddings(data@));
        proof {
            law_reply_embeddings_keep_each_vector(data@);
            assert forall|i: int| 0 <= i < out@.len() implies #[trigger] out@[i]@
                == data@[i].embedding@ by {
                assert(crate::vector_store::embedding_views(out@)[i] == out@[i]@);
            }
        }
        out
    }
}

/// The request an agent builds for an input reaches the chat API as the
/// preamble, if there is one, as a "system" message, then the input as a
/// "user" message.
pub proof fn law_agent_request_in_chat_shape(preamble: Option<Seq<char>>, input: Seq<char>)
    ensures
        chat_messages(prompt_messages(preamble, input)) == match preamble {
            Some(p) => seq![("system"@, p), ("user"@, input)],
            None => seq![("user"@, input)],
        },
{
    match preamble {
        Some(p) => {
            assert(chat_messages(prompt_messages(preamble, input)) =~= seq![
                ("system"@, p),
                ("user"@, input),
            ]);
        },
        None => {
            assert(chat_messages(prompt_messages(preamble, input)) =~= seq![("user"@, input)]);
        },
    }
}

/// The embeddings read from a reply are its vectors, one per entry, in
/// order, each with its components unchanged and in their order.
pub proof fn law_reply_embeddings_keep_each_vector(data: Seq<EmbedData>)
    ensures
        reply_embeddings(data).len() == data.len(),
        forall|i: int|
            #![trigger reply_embeddings(data)[i]]
            0 <= i < data.len() ==> reply_embeddings(data)[i].len() == data[i].embedding@.len()
                && forall|j: int|
                0 <= j < data[i].embedding@.len() ==> #[trigger] reply_embeddings(data)[i][j]
                    == data[i].embedding@[j],
{
}

/// Each chat message keeps its text and the role of the message it comes
/// from: "system", "user" or "assistant", whatever precedes it.
pub proof fn law_chat_messages_keep_each_role(messages: Seq<(Role, Seq<char>)>)
    ensures
        chat_messages(messages).len() == messages.len(),
        forall|i: int|
            0 <= i < messages.len() ==> #[trigger] chat_messages(messages)[i] == (
                match messages[i].0 {
                    Role::System => "system"@,
                    Role::User => "user"@,
                    Role::Assistant => "assistant"@,
                },
                messages[i].1,
            ),
{
}

} // verus!
