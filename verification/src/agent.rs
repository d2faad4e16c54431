//! Agent: the high-level LLM abstraction.
//!
//! An agent composes a completion model, a system preamble and optional
//! tools into a single `.prompt()` call that returns `Io<Error, String>`.
use vstd::prelude::*;
use comp_cat_rs::effect::io::Io;
use comp_cat_rs::effect::stream::Stream;
use crate::effect::io_map;
use crate::error::Error;
use crate::model::{CompletionModel, CompletionRequest, CompletionResponse, Message, Role,
    StreamChunk, message_views};
use crate::tool::{Tool, Toolbox};

verus! {

/// The messages of a request for `input`: the preamble, if there is one,
/// as a system message, then the input as a user message.
pub open spec fn prompt_messages(preamble: Option<Seq<char>>, input: Seq<char>) -> Seq<
    (Role, Seq<char>),
> {
    match preamble {
        Some(p) => seq![(Role::System, p), (Role::User, input)],
        None => seq![(Role::User, input)],
    }
}

/// The view of an optional string.
pub open spec fn optional_text(s: Option<String>) -> Option<Seq<char>> {
    match s {
        Some(t) => Some(t@),
        None => None,
    }
}

/// The messages for `input` after the optional preamble.
pub fn prompt_message_list(preamble: &Option<String>, input: &str) -> (m: Vec<Message>)
    ensures
        message_views(m@) == prompt_messages(optional_text(*preamble), input@),
{
    let mut messages: Vec<Message> = Vec::new();
    match preamble {
        Some(p) => messages.push(Message::system(p.clone())),
        None => {},
    }
    messages.push(Message::user(String::from_str(input)));
    assert(message_views(messages@) =~= prompt_messages(optional_text(*preamble), input@));
    messages
}

/// An agent: a configured LLM with preamble, tools, and context.
///
/// Built via `AgentBuilder`.  Generic over:
/// - `M`: the completion model
/// - `T`: the tool type (use an enum for heterogeneous tools)
pub struct Agent<M: CompletionModel, T: Tool> {
    model: M,
    preamble: Option<String>,
    tools: Toolbox<T>,
    temperature: Option<u64>,
    max_tokens: Option<u32>,
}

/// Builder for constructing an `Agent`.
pub struct AgentBuilder<M: CompletionModel, T: Tool> {
    model: M,
    preamble: Option<String>,
    tools: Toolbox<T>,
    temperature: Option<u64>,
    max_tokens: Option<u32>,
}

impl<M: CompletionModel, T: Tool> View for AgentBuilder<M, T> {
    /// The model, the preamble, the tools, the temperature's bit pattern
    /// and the token limit.
    type V = (M, Option<Seq<char>>, Seq<T>, Option<u64>, Option<u32>);

    closed spec fn view(&self) -> (M, Option<Seq<char>>, Seq<T>, Option<u64>, Option<u32>) {
        (self.model, optional_text(self.preamble), self.tools@, self.temperature, self.max_tokens)
    }
}

impl<M: CompletionModel, T: Tool> View for Agent<M, T> {
    /// The model, the preamble, the tools, the temperature's bit pattern
    /// and the token limit.
    type V = (M, Option<Seq<char>>, Seq<T>, Option<u64>, Option<u32>);

    closed spec fn view(&self) -> (M, Option<Seq<char>>, Seq<T>, Option<u64>, Option<u32>) {
        (self.model, optional_text(self.preamble), self.tools@, self.temperature, self.max_tokens)
    }
}

impl<M: CompletionModel, T: Tool> AgentBuilder<M, T> {
    /// Start building an agent with the given model: no preamble, no
    /// tools, no temperature and no token limit.
    pub fn new(model: M) -> (b: Self)
        ensures
            b@ == (model, None::<Seq<char>>, Seq::<T>::empty(), None::<u64>, None::<u32>),
    {
        AgentBuilder {
            model,
            preamble: None,
            tools: Toolbox::new(),
            temperature: None,
            max_tokens: None,
        }
    }

    /// Set the system preamble.
    pub fn preamble(self, preamble: &str) -> (b: Self)
        ensures
            b@ == (self@.0, Some(preamble@), self@.2, self@.3, self@.4),
    {
        AgentBuilder { preamble: Some(String::from_str(preamble)), ..self }
    }

    /// Set the tools available to the agent.
    pub fn tools(self, tools: Toolbox<T>) -> (b: Self)
        ensures
            b@ == (self@.0, self@.1, tools@, self@.3, self@.4),
    {
        AgentBuilder { tools, ..self }
    }

    /// Set the temperature, given as its bit pattern.
    pub fn temperature(self, t: u64) -> (b: Self)
        ensures
            b@ == (self@.0, self@.1, self@.2, Some(t), self@.4),
    {
        AgentBuilder { temperature: Some(t), ..self }
    }

    /// Set the max tokens.
    pub fn max_tokens(self, n: u32) -> (b: Self)
        ensures
            b@ == (self@.0, self@.1, self@.2, self@.3, Some(n)),
    {
        AgentBuilder { max_tokens: Some(n), ..self }
    }

    /// Build the agent.
    pub fn build(self) -> (a: Agent<M, T>)
        ensures
            a@ == self@,
    {
        Agent {
            model: self.model,
            preamble: self.preamble,
            tools: self.tools,
            temperature: self.temperature,
            max_tokens: self.max_tokens,
        }
    }
}

impl<M: CompletionModel, T: Tool> Agent<M, T> {
    /// Send a prompt and get a complete response: the text of what the
    /// model answers to `build_request(user_input)`.
    pub fn prompt(&self, user_input: &str) -> (r: Io<Error, String>)
        ensures
            exists|req: CompletionRequest, c: Io<Error, CompletionResponse>|
                req@ == (prompt_messages(self@.1, user_input@), self@.3, self@.4) && call_ensures(
                    M::complete,
                    (&self@.0, req),
                    c,
                ),
    {
        let request = self.build_request(user_input);
        let ghost sent = request;
        let completion = self.model.complete(request);
        assert(call_ensures(M::complete, (&self@.0, sent), completion));
        io_map(completion, CompletionResponse::into_content)
    }

    /// Send a prompt and get a streaming response to
    /// `build_request(user_input)`.
    pub fn prompt_stream(&self, user_input: &str) -> (r: Stream<Error, StreamChunk>)
        ensures
            exists|req: CompletionRequest|
                req@ == (prompt_messages(self@.1, user_input@), self@.3, self@.4) && call_ensures(
                    M::stream,
                    (&self@.0, req),
                    r,
                ),
    {
        let request = self.build_request(user_input);
        self.model.stream(request)
    }

    /// Access the toolbox.
    pub fn tools(&self) -> (t: &Toolbox<T>)
        ensures
            t@ == self@.2,
    {
        &self.tools
    }

    /// The request the agent sends for `user_input`: the preamble as a
    /// system message if there is one, then the input as a user message,
    /// with the agent's temperature and token limit.
    pub fn build_request(&self, user_input: &str) -> (r: CompletionRequest)
        ensures
            r@ == (prompt_messages(self@.1, user_input@), self@.3, self@.4),
    {
        let messages = prompt_message_list(&self.preamble, user_input);
        let request = CompletionRequest::new(messages);
        let request = match self.temperature {
            Some(t) => request.with_temperature(t),
            None => request,
        };
        match self.max_tokens {
            Some(n) => request.with_max_tokens(n),
            None => request,
        }
    }
}

} // verus!
