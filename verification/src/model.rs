//! Completion model trait: the core LLM abstraction.
//!
//! A `CompletionModel` takes a request and returns a response,
//! wrapped in `Io` for composable effect handling.
use vstd::prelude::*;
use comp_cat_rs::effect::io::Io;
use comp_cat_rs::effect::stream::Stream;
use crate::error::Error;

verus! {

/// The role of a message sender.
#[derive(Debug, Clone, Copy, PartialEq, Eq, Structural)]
pub enum Role {
    System,
    User,
    Assistant,
}

/// A message in a conversation.
#[derive(Debug, Clone)]
pub struct Message {
    role: Role,
    content: String,
}

impl View for Message {
    /// The sender's role and the text.
    type V = (Role, Seq<char>);

    closed spec fn view(&self) -> (Role, Seq<char>) {
        (self.role, self.content@)
    }
}

/// The views of a sequence of messages.
pub open spec fn message_views(messages: Seq<Message>) -> Seq<(Role, Seq<char>)> {
    messages.map_values(|m: Message| m@)
}

impl Message {
    pub fn new(role: Role, content: String) -> (m: Self)
        ensures
            m@ == (role, content@),
    {
        Message { role, content }
    }

    pub fn role(&self) -> (r: &Role)
        ensures
            *r == self@.0,
    {
        &self.role
    }

    pub fn content(&self) -> (c: &str)
        ensures
            c@ == self@.1,
    {
        self.content.as_str()
    }

    /// A copy of the message, equal in view.
    pub fn duplicate(&self) -> (m: Self)
        ensures
            m@ == self@,
    {
        Message { role: self.role, content: self.content.clone() }
    }

    pub fn system(content: String) -> (m: Self)
        ensures
            m@ == (Role::System, content@),
    {
        Self::new(Role::System, content)
    }

    pub fn user(content: String) -> (m: Self)
        ensures
            m@ == (Role::User, content@),
    {
        Self::new(Role::User, content)
    }

    pub fn assistant(content: String) -> (m: Self)
        ensures
            m@ == (Role::Assistant, content@),
    {
        Self::new(Role::Assistant, content)
    }
}

/// A completion request.
///
/// The sampling temperature is a 64-bit IEEE-754 value, carried as its bit
/// pattern (`f64::to_bits`): the library passes it through untouched.
#[derive(Debug, Clone)]
pub struct CompletionRequest {
    messages: Vec<Message>,
    temperature: Option<u64>,
    max_tokens: Option<u32>,
}

impl View for CompletionRequest {
    /// The messages, the temperature's bit pattern and the token limit.
    type V = (Seq<(Role, Seq<char>)>, Option<u64>, Option<u32>);

    closed spec fn view(&self) -> (Seq<(Role, Seq<char>)>, Option<u64>, Option<u32>) {
        (message_views(self.messages@), self.temperature, self.max_tokens)
    }
}

impl CompletionRequest {
    pub fn new(messages: Vec<Message>) -> (r: Self)
        ensures
            r@ == (message_views(messages@), None::<u64>, None::<u32>),
    {
        CompletionRequest { messages, temperature: None, max_tokens: None }
    }

    pub fn messages(&self) -> (m: &[Message])
        ensures
            message_views(m@) == self@.0,
    {
        self.messages.as_slice()
    }

    /// The temperature's bit pattern, if one was set.
    pub fn temperature(&self) -> (t: Option<u64>)
        ensures
            t == self@.1,
    {
        self.temperature
    }

    pub fn max_tokens(&self) -> (n: Option<u32>)
        ensures
            n == self@.2,
    {
        self.max_tokens
    }

    /// Sets the temperature, given as its bit pattern.
    pub fn with_temperature(self, t: u64) -> (r: Self)
        ensures
            r@ == (self@.0, Some(t), self@.2),
    {
        CompletionRequest { temperature: Some(t), ..self }
    }

    pub fn with_max_tokens(self, n: u32) -> (r: Self)
        ensures
            r@ == (self@.0, self@.1, Some(n)),
    {
        CompletionRequest { max_tokens: Some(n), ..self }
    }
}

/// A completion response.
#[derive(Debug, Clone)]
pub struct CompletionResponse {
    content: String,
    model: String,
}

impl View for CompletionResponse {
    /// The generated text and the name of the model that wrote it.
    type V = (Seq<char>, Seq<char>);

    closed spec fn view(&self) -> (Seq<char>, Seq<char>) {
        (self.content@, self.model@)
    }
}

impl CompletionResponse {
    pub fn new(content: String, model: String) -> (r: Self)
        ensures
            r@ == (content@, model@),
    {
        CompletionResponse { content, model }
    }

    pub fn content(&self) -> (c: &str)
        ensures
            c@ == self@.0,
    {
        self.content.as_str()
    }

    pub fn model(&self) -> (m: &str)
        ensures
            m@ == self@.1,
    {
        self.model.as_str()
    }

    /// Gives up the response for its text.
    pub fn into_content(self) -> (c: String)
        ensures
            c@ == self@.0,
    {
        self.content
    }
}

/// A token chunk from a streaming response.
#[derive(Debug, Clone)]
pub struct StreamChunk {
    delta: String,
}

impl View for StreamChunk {
    type V = Seq<char>;

    closed spec fn view(&self) -> Seq<char> {
        self.delta@
    }
}

impl StreamChunk {
    pub fn new(delta: String) -> (c: Self)
        ensures
            c@ == delta@,
    {
        StreamChunk { delta }
    }

    pub fn delta(&self) -> (d: &str)
        ensures
            d@ == self@,
    {
        self.delta.as_str()
    }
}

/// The core LLM abstraction: send a request, get a response.
///
/// All provider-specific logic is behind this trait.
pub trait CompletionModel {
    /// Send a completion request and get a full response.
    fn complete(&self, request: CompletionRequest) -> Io<Error, CompletionResponse>;

    /// Send a completion request and get a streaming response.
    fn stream(&self, request: CompletionRequest) -> Stream<Error, StreamChunk>;
}

} // verus!
