//! Anthropic provider: completion model.
use vstd::prelude::*;
use crate::agent::{optional_text, prompt_messages};
use crate::model::{CompletionRequest, CompletionResponse, Message, Role, message_views};

verus! {

/// Newtype for the Anthropic API key.
pub struct ApiKey(String);

impl View for ApiKey {
    type V = Seq<char>;

    closed spec fn view(&self) -> Seq<char> {
        self.0@
    }
}

impl Clone for ApiKey {
    /// A copy that keeps the text unchanged.
    fn clone(&self) -> (c: Self)
        ensures
            c@ == self@,
    {
        ApiKey(self.0.clone())
    }
}

impl ApiKey {
    pub fn new(key: String) -> (k: Self)
        ensures
            k@ == key@,
    {
        ApiKey(key)
    }

    fn as_str(&self) -> (s: &str)
        ensures
            s@ == self@,
    {
        self.0.as_str()
    }
}

/// Newtype for a model name.
pub struct ModelName(String);

impl View for ModelName {
    type V = Seq<char>;

    closed spec fn view(&self) -> Seq<char> {
        self.0@
    }
}

impl Clone for ModelName {
    /// A copy that keeps the text unchanged.
    fn clone(&self) -> (c: Self)
        ensures
            c@ == self@,
    {
        ModelName(self.0.clone())
    }
}

impl ModelName {
    pub fn new(name: String) -> (m: Self)
        ensures
            m@ == name@,
    {
        ModelName(name)
    }

    fn as_str(&self) -> (s: &str)
        ensures
            s@ == self@,
    {
        self.0.as_str()
    }
}

/// Anthropic completion model.
pub struct AnthropicCompletion {
    api_key: ApiKey,
    model: ModelName,
    max_tokens: u32,
}

impl View for AnthropicCompletion {
    /// The API key, the model name and the default token limit.
    type V = (Seq<char>, Seq<char>, u32);

    closed spec fn view(&self) -> (Seq<char>, Seq<char>, u32) {
        (self.api_key@, self.model@, self.max_tokens)
    }
}

// --- Request/response shapes of the JSON API ---
/// The body of a messages request.
pub struct MessagesRequest {
    pub model: String,
    pub max_tokens: u32,
    pub system: Option<String>,
    pub messages: Vec<AnthropicMessage>,
    /// The bit pattern of the temperature, if one is sent.
    pub temperature: Option<u64>,
}

/// One message of a messages request.
pub struct AnthropicMessage {
    pub role: String,
    pub content: String,
}

/// The body of a messages reply.
pub struct MessagesResponse {
    pub content: Vec<ContentBlock>,
    pub model: String,
}

/// One block of the content of a messages reply.
pub struct ContentBlock {
    pub text: Option<String>,
}

impl View for MessagesRequest {
    /// The model name, the token limit, the system prompt, the messages
    /// (role name and text) and the temperature's bit pattern.
    type V = (Seq<char>, u32, Option<Seq<char>>, Seq<(Seq<char>, Seq<char>)>, Option<u64>);

    open spec fn view(&self) -> (Seq<char>, u32, Option<Seq<char>>, Seq<(Seq<char>, Seq<char>)>, Option<u64>) {
        (
            self.model@,
            self.max_tokens,
            optional_text(self.system),
            anthropic_message_views(self.messages@),
            self.temperature,
        )
    }
}

/// The body of the messages request that a model named `model`, with
/// default token limit `limit`, sends for a request with view `request`.
pub open spec fn messages_body(
    model: Seq<char>,
    limit: u32,
    request: (Seq<(Role, Seq<char>)>, Option<u64>, Option<u32>),
) -> (Seq<char>, u32, Option<Seq<char>>, Seq<(Seq<char>, Seq<char>)>, Option<u64>) {
    (
        model,
        match request.2 {
            Some(n) => n,
            None => limit,
        },
        first_system_text(request.0),
        conversation(request.0),
        request.1,
    )
}

/// The name the messages API gives a role other than the system's.
pub open spec fn role_name(role: Role) -> Seq<char> {
    match role {
        Role::Assistant => "assistant"@,
        _ => "user"@,
    }
}

/// The text of the first system message, if there is one.
pub open spec fn first_system_text(messages: Seq<(Role, Seq<char>)>) -> Option<Seq<char>>
    decreases messages.len(),
{
    if messages.len() == 0 {
        None
    } else {
        match first_system_text(messages.drop_last()) {
            Some(t) => Some(t),
            None => if messages.last().0 == Role::System {
                Some(messages.last().1)
            } else {
                None
            },
        }
    }
}

/// The messages other than the system's, each with its role's name.
pub open spec fn conversation(messages: Seq<(Role, Seq<char>)>) -> Seq<(Seq<char>, Seq<char>)>
    decreases messages.len(),
{
    if messages.len() == 0 {
        Seq::empty()
    } else {
        let rest = conversation(messages.drop_last());
        if messages.last().0 == Role::System {
            rest
        } else {
            rest.push((role_name(messages.last().0), messages.last().1))
        }
    }
}

/// The views of the messages of a request: role name and text.
pub open spec fn anthropic_message_views(messages: Seq<AnthropicMessage>) -> Seq<
    (Seq<char>, Seq<char>),
> {
    messages.map_values(|m: AnthropicMessage| (m.role@, m.content@))
}

/// The text of a reply: the texts of its blocks, in order, run together.
pub open spec fn reply_text(blocks: Seq<ContentBlock>) -> Seq<char>
    decreases blocks.len(),
{
    if blocks.len() == 0 {
        Seq::empty()
    } else {
        reply_text(blocks.drop_last()) + match blocks.last().text {
            Some(t) => t@,
            None => Seq::empty(),
        }
    }
}

impl AnthropicCompletion {
    pub fn new(api_key: ApiKey, model: ModelName, max_tokens: u32) -> (c: Self)
        ensures
            c@ == (api_key@, model@, max_tokens),
    {
        AnthropicCompletion { api_key, model, max_tokens }
    }

    /// The value of the `x-api-key` header of the requests.
    pub fn api_key_header(&self) -> (s: String)
        ensures
            s@ == self@.0,
    {
        String::from_str(self.api_key.as_str())
    }

    /// The body of the messages request for `request`: the model name, the
    /// request's token limit or else the model's, the first system message
    /// as the system prompt, the other messages with their roles' names,
    /// and the temperature.
    pub fn messages_request(&self, request: &CompletionRequest) -> (r: MessagesRequest)
        ensures
            r.model@ == self@.1,
            r.max_tokens == match request@.2 {
                Some(n) => n,
                None => self@.2,
            },
            optional_text(r.system) == first_system_text(request@.0),
            anthropic_message_views(r.messages@) == conversation(request@.0),
            r.temperature == request@.1,
            r@ == messages_body(self@.1, self@.2, request@),
    {
        let messages: &[Message] = request.messages();
        let ghost views = request@.0;
        let n = messages.len();
        let mut system: Option<String> = None;
        let mut conv: Vec<AnthropicMessage> = Vec::new();
        let mut i: usize = 0;
        while i < n
            invariant
                n == messages@.len(),
                i <= n,
                message_views(messages@) == views,
                views.len() == n,
                optional_text(system) == first_system_text(views.take(i as int)),
                anthropic_message_views(conv@) == conversation(views.take(i as int)),
            decreases n - i,
        {
            let m = &messages[i];
            let ghost prefix = views.take(i as int);
            proof {
                assert(views.take(i + 1).drop_last() =~= prefix);
                assert(views.take(i + 1).last() == views[i as int]);
                assert(views[i as int] == messages@[i as int]@);
            }
            match m.role() {
                Role::System => {
                    if system.is_none() {
                        system = Some(String::from_str(m.content()));
                    }
                },
                Role::User => {
                    conv.push(
                        AnthropicMessage {
                            role: String::from_str("user"),
                            content: String::from_str(m.content()),
                        },
                    );
                    assert(anthropic_message_views(conv@) =~= conversation(views.take(i + 1)));
                },
                Role::Assistant => {
                    conv.push(
                        AnthropicMessage {
                            role: String::from_str("assistant"),
                            content: String::from_str(m.content()),
                        },
                    );
                    assert(anthropic_message_views(conv@) =~= conversation(views.take(i + 1)));
                },
            }
            i = i + 1;
        }
        proof {
            assert(views.take(n as int) =~= views);
        }
        let max_tokens = match request.max_tokens() {
            Some(k) => k,
            None => self.max_tokens,
        };
        MessagesRequest {
            model: String::from_str(self.model.as_str()),
            max_tokens,
            system,
            messages: conv,
            temperature: request.temperature(),
        }
    }

    /// The completion that a messages reply carries: the texts of its
    /// blocks run together, and the model name it reports.
    pub fn completion_from_reply(reply: MessagesResponse) -> (r: CompletionResponse)
        ensures
            r@ == (reply_text(reply.content@), reply.model@),
    {
        let MessagesResponse { content, model } = reply;
        let n = content.len();
        let mut text = String::new();
        let mut i: usize = 0;
        while i < n
            invariant
                n == content@.len(),
                i <= n,
                text@ == reply_text(content@.take(i as int)),
            decreases n - i,
        {
            proof {
                assert(content@.take(i + 1).drop_last() =~= content@.take(i as int));
            }
            match &content[i].text {
                Some(t) => text.append(t.as_str()),
                None => {},
            }
            proof {
                assert(text@ =~= reply_text(content@.take(i + 1)));
            }
            i = i + 1;
        }
        proof {
            assert(content@.take(n as int) =~= content@);
        }
        CompletionResponse::new(text, model)
    }
}

/// The body of a messages request does not depend on the API key: two
/// models with the same name and default token limit send the same body
/// for the same request, and the key is none of its parts.
pub proof fn law_messages_body_ignores_key(
    a: AnthropicCompletion,
    b: AnthropicCompletion,
    request: CompletionRequest,
)
    requires
        a@.1 == b@.1,
        a@.2 == b@.2,
    ensures
        messages_body(a@.1, a@.2, request@) == messages_body(b@.1, b@.2, request@),
{
}

/// The request an agent builds for an input (its preamble, if it has one,
/// then the input) reaches the messages API with the preamble as the
/// system prompt and the input, as a user message, as the whole
/// conversation.
pub proof fn law_agent_request_in_messages_shape(preamble: Option<Seq<char>>, input: Seq<char>)
    ensures
        first_system_text(prompt_messages(preamble, input)) == preamble,
        conversation(prompt_messages(preamble, input)) == seq![("user"@, input)],
{
    let msgs = prompt_messages(preamble, input);
    let none: Seq<(Role, Seq<char>)> = Seq::empty();
    assert(conversation(none) == Seq::<(Seq<char>, Seq<char>)>::empty());
    assert(first_system_text(none) == None::<Seq<char>>);
    match preamble {
        Some(p) => {
            let head = seq![(Role::System, p)];
            assert(head.drop_last() =~= none);
            assert(conversation(head) == conversation(none));
            assert(first_system_text(head) == Some(p));
            assert(msgs.drop_last() =~= head);
            assert(msgs.last() == (Role::User, input));
            assert(first_system_text(msgs) == Some(p));
            assert(conversation(msgs) =~= seq![("user"@, input)]);
        },
        None => {
            assert(msgs.drop_last() =~= none);
            assert(conversation(msgs) =~= seq![("user"@, input)]);
        },
    }
}

/// Whether a message is not the system's.
pub open spec fn is_turn(m: (Role, Seq<char>)) -> bool {
    m.0 != Role::System
}

/// The conversation sent to the messages API is the non-system messages,
/// in order, each with its own text and its own role: an assistant
/// message as "assistant", a user message as "user", whatever precedes it.
pub proof fn law_conversation_keeps_each_role(messages: Seq<(Role, Seq<char>)>)
    ensures
        conversation(messages).len() == messages.filter(|m: (Role, Seq<char>)| is_turn(m)).len(),
        forall|j: int|
            0 <= j < conversation(messages).len() ==> {
                let m = messages.filter(|m: (Role, Seq<char>)| is_turn(m))[j];
                #[trigger] conversation(messages)[j] == (
                    if m.0 == Role::Assistant {
                        "assistant"@
                    } else {
                        "user"@
                    },
                    m.1,
                )
            },
    decreases messages.len(),
{
    reveal(Seq::filter);
    let turns = messages.filter(|m: (Role, Seq<char>)| is_turn(m));
    if messages.len() > 0 {
        let rest = messages.drop_last();
        law_conversation_keeps_each_role(rest);
        let rest_turns = rest.filter(|m: (Role, Seq<char>)| is_turn(m));
        assert(turns == if is_turn(messages.last()) {
            rest_turns.push(messages.last())
        } else {
            rest_turns
        });
        assert forall|j: int| 0 <= j < conversation(messages).len() implies {
            let m = turns[j];
            #[trigger] conversation(messages)[j] == (
                if m.0 == Role::Assistant {
                    "assistant"@
                } else {
                    "user"@
                },
                m.1,
            )
        } by {
            if j < conversation(rest).len() {
                assert(conversation(rest)[j] == conversation(messages)[j]);
                assert(rest_turns[j] == turns[j]);
            }
        }
    }
}

/// The system prompt is the text of the first system message, and there is
/// none exactly where no message is the system's.
pub proof fn law_system_prompt_is_first_system_message(messages: Seq<(Role, Seq<char>)>)
    ensures
        first_system_text(messages) is None <==> forall|i: int|
            0 <= i < messages.len() ==> #[trigger] messages[i].0 != Role::System,
        first_system_text(messages) matches Some(t) ==> exists|i: int|
            0 <= i < messages.len() && messages[i] == (Role::System, t) && forall|j: int|
                0 <= j < i ==> #[trigger] messages[j].0 != Role::System,
    decreases messages.len(),
{
    if messages.len() > 0 {
        let rest = messages.drop_last();
        law_system_prompt_is_first_system_message(rest);
        assert forall|i: int| 0 <= i < rest.len() implies #[trigger] rest[i] == messages[i] by {}
        match first_system_text(rest) {
            Some(t) => {
                let i = choose|i: int|
                    0 <= i < rest.len() && rest[i] == (Role::System, t) && forall|j: int|
                        0 <= j < i ==> #[trigger] rest[j].0 != Role::System;
                assert(messages[i] == (Role::System, t));
                assert forall|j: int| 0 <= j < i implies #[trigger] messages[j].0
                    != Role::System by {
                    assert(rest[j] == messages[j]);
                }
                assert(rest[i].0 == Role::System);
            },
            None => {
                if messages.last().0 == Role::System {
                    let i = messages.len() - 1;
                    assert forall|j: int| 0 <= j < i implies #[trigger] messages[j].0
                        != Role::System by {
                        assert(rest[j] == messages[j]);
                    }
                } else {
                    assert forall|i: int| 0 <= i < messages.len() implies #[trigger] messages[i].0
                        != Role::System by {
                        if i < rest.len() {
                            assert(rest[i] == messages[i]);
                        }
                    }
                }
            },
        }
    }
}

/// The text of a reply is the texts of its blocks, in order, run together,
/// a block without text adding nothing.
pub proof fn law_reply_text_runs_blocks_together(blocks: Seq<ContentBlock>)
    ensures
        reply_text(blocks) == Seq::new(
            blocks.len(),
            |i: int|
                match blocks[i].text {
                    Some(t) => t@,
                    None => Seq::<char>::empty(),
                },
        ).flatten(),
    decreases blocks.len(),
{
    let parts = Seq::new(
        blocks.len(),
        |i: int|
            match blocks[i].text {
                Some(t) => t@,
                None => Seq::<char>::empty(),
            },
    );
    if blocks.len() == 0 {
        assert(parts =~= Seq::<Seq<char>>::empty());
        assert(parts.flatten() =~= Seq::<char>::empty());
    } else {
        let rest = blocks.drop_last();
        law_reply_text_runs_blocks_together(rest);
        let shorter = Seq::new(
            rest.len(),
            |i: int|
                match rest[i].text {
                    Some(t) => t@,
                    None => Seq::<char>::empty(),
                },
        );
        let last = match blocks.last().text {
            Some(t) => t@,
            None => Seq::<char>::empty(),
        };
        assert(parts =~= shorter.push(last));
        shorter.lemma_flatten_push(last);
    }
}

} // verus!
