use rig_cat::embedding::EmbeddingRequest;
use rig_cat::model::{CompletionRequest, Message};
use rig_cat::provider::anthropic::{self, AnthropicCompletion, ContentBlock, MessagesResponse};
use rig_cat::provider::openai::{
    self, ChatChoice, ChatChoiceMessage, ChatResponse, EmbedData, EmbedResponse, OpenAiCompletion,
    OpenAiEmbedding,
};

fn conversation() -> CompletionRequest {
    CompletionRequest::new(vec![
        Message::system("be brief".into()),
        Message::user("hi".into()),
        Message::assistant("hello".into()),
        Message::system("second system".into()),
        Message::user("bye".into()),
    ])
}

#[test]
fn chat_request_names_roles_and_passes_options() {
    let model = OpenAiCompletion::new(openai::ApiKey::new("sk-1".into()), openai::ModelName::new("gpt-4o".into()));
    let req = conversation().with_temperature(0.7f64.to_bits()).with_max_tokens(50);
    let body = model.chat_request(&req);
    assert_eq!(body.model, "gpt-4o");
    let roles: Vec<&str> = body.messages.iter().map(|m| m.role.as_str()).collect();
    assert_eq!(roles, vec!["system", "user", "assistant", "system", "user"]);
    assert_eq!(body.messages[2].content, "hello");
    assert_eq!(body.temperature.map(f64::from_bits), Some(0.7));
    assert_eq!(body.max_tokens, Some(50));
    assert_eq!(model.authorization(), "Bearer sk-1");
}

#[test]
fn chat_reply_takes_the_first_choice() {
    let reply = ChatResponse {
        choices: vec![
            ChatChoice { message: ChatChoiceMessage { content: Some("first".into()) } },
            ChatChoice { message: ChatChoiceMessage { content: Some("second".into()) } },
        ],
        model: "gpt-4o-2024".into(),
    };
    let r = OpenAiCompletion::completion_from_chat(reply);
    assert_eq!(r.content(), "first");
    assert_eq!(r.model(), "gpt-4o-2024");
    let empty = ChatResponse { choices: vec![], model: "m".into() };
    assert_eq!(OpenAiCompletion::completion_from_chat(empty).content(), "");
    let no_content = ChatResponse {
        choices: vec![ChatChoice { message: ChatChoiceMessage { content: None } }],
        model: "m".into(),
    };
    assert_eq!(OpenAiCompletion::completion_from_chat(no_content).content(), "");
}

#[test]
fn embed_request_and_reply() {
    let model = OpenAiEmbedding::new(openai::ApiKey::new("k".into()), openai::ModelName::new("text-embedding-3-small".into()));
    let body = model.embed_request(&EmbeddingRequest::new(vec!["a".into(), "b".into()]));
    assert_eq!(body.model, "text-embedding-3-small");
    assert_eq!(body.input, vec!["a".to_string(), "b".to_string()]);
    assert_eq!(model.authorization(), "Bearer k");
    let reply = EmbedResponse {
        data: vec![
            EmbedData { embedding: vec![1.0f64.to_bits(), 2.0f64.to_bits()] },
            EmbedData { embedding: vec![3.0f64.to_bits()] },
        ],
    };
    let embs = OpenAiEmbedding::embeddings_from_reply(reply);
    assert_eq!(embs.len(), 2);
    assert_eq!(embs[0].dimension(), 2);
    assert_eq!(f64::from_bits(embs[1].values()[0]), 3.0);
}

#[test]
fn messages_request_lifts_the_first_system_message() {
    let model = AnthropicCompletion::new(
        anthropic::ApiKey::new("ak".into()),
        anthropic::ModelName::new("sonnet-4-20250514".into()),
        4096,
    );
    let body = model.messages_request(&conversation());
    assert_eq!(body.model, "sonnet-4-20250514");
    assert_eq!(body.max_tokens, 4096);
    assert_eq!(body.system.as_deref(), Some("be brief"));
    let turns: Vec<(&str, &str)> = body.messages.iter().map(|m| (m.role.as_str(), m.content.as_str())).collect();
    assert_eq!(turns, vec![("user", "hi"), ("assistant", "hello"), ("user", "bye")]);
    assert!(body.temperature.is_none());
    assert_eq!(model.api_key_header(), "ak");
    let capped = model.messages_request(&conversation().with_max_tokens(10));
    assert_eq!(capped.max_tokens, 10);
}

#[test]
fn messages_request_without_system_message() {
    let model = AnthropicCompletion::new(anthropic::ApiKey::new("ak".into()), anthropic::ModelName::new("m".into()), 5);
    let body = model.messages_request(&CompletionRequest::new(vec![Message::user("q".into())]));
    assert!(body.system.is_none());
    assert_eq!(body.messages.len(), 1);
}

#[test]
fn messages_reply_runs_the_texts_together() {
    let reply = MessagesResponse {
        content: vec![
            ContentBlock { text: Some("Hel".into()) },
            ContentBlock { text: None },
            ContentBlock { text: Some("lo".into()) },
        ],
        model: "sonnet".into(),
    };
    let r = AnthropicCompletion::completion_from_reply(reply);
    assert_eq!(r.content(), "Hello");
    assert_eq!(r.model(), "sonnet");
}

#[test]
fn cloned_keys_and_names_keep_their_text() {
    let key = openai::ApiKey::new("sk-9".into());
    let name = openai::ModelName::new("m1".into());
    let model = OpenAiCompletion::new(key.clone(), name.clone());
    assert_eq!(model.authorization(), "Bearer sk-9");
    let body = OpenAiCompletion::new(key, name).chat_request(&CompletionRequest::new(vec![]));
    assert_eq!(body.model, "m1");
    let akey = anthropic::ApiKey::new("ak-9".into());
    let aname = anthropic::ModelName::new("m2".into());
    let a = AnthropicCompletion::new(akey.clone(), aname.clone(), 3);
    assert_eq!(a.api_key_header(), "ak-9");
    assert_eq!(a.messages_request(&CompletionRequest::new(vec![])).model, "m2");
}

#[test]
fn messages_body_does_not_depend_on_the_key() {
    let req = conversation().with_temperature(0.3f64.to_bits());
    let a = AnthropicCompletion::new(anthropic::ApiKey::new("k1".into()), anthropic::ModelName::new("m".into()), 9);
    let b = AnthropicCompletion::new(anthropic::ApiKey::new("k2".into()), anthropic::ModelName::new("m".into()), 9);
    let (x, y) = (a.messages_request(&req), b.messages_request(&req));
    assert_eq!(x.model, y.model);
    assert_eq!(x.max_tokens, y.max_tokens);
    assert_eq!(x.system, y.system);
    assert_eq!(x.temperature, y.temperature);
    let turns = |r: &anthropic::MessagesRequest| -> Vec<(String, String)> {
        r.messages.iter().map(|m| (m.role.clone(), m.content.clone())).collect()
    };
    assert_eq!(turns(&x), turns(&y));
    assert_ne!(a.api_key_header(), b.api_key_header());
}
