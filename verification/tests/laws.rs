use comp_cat_rs::effect::io::Io;
use comp_cat_rs::effect::stream::Stream;
use rig_cat::agent::{Agent, AgentBuilder};
use rig_cat::embedding::Embedding;
use rig_cat::error::Error;
use rig_cat::model::{CompletionModel, CompletionRequest, CompletionResponse, StreamChunk};
use rig_cat::provider::{anthropic, openai};
use rig_cat::tool::{Tool, ToolDefinition};
use rig_cat::vector_store::{Document, InMemoryVectorStore};
use serde_json::Value;

struct EchoModel;

impl CompletionModel for EchoModel {
    fn complete(&self, _request: CompletionRequest) -> Io<Error, CompletionResponse> {
        Io::pure(CompletionResponse::new(String::new(), "echo".into()))
    }

    fn stream(&self, _request: CompletionRequest) -> Stream<Error, StreamChunk> {
        Stream::empty()
    }
}

struct NoTool;

impl Tool for NoTool {
    fn definition(&self) -> ToolDefinition {
        ToolDefinition::new("none".into(), "none".into(), Value::Null)
    }

    fn call(&self, args: Value) -> Io<Error, Value> {
        Io::pure(args)
    }
}

#[test]
fn agent_request_reaches_messages_api_with_preamble_as_system() {
    let agent: Agent<EchoModel, NoTool> = AgentBuilder::new(EchoModel).preamble("rules").build();
    let request = agent.build_request("input");
    let model = anthropic::AnthropicCompletion::new(
        anthropic::ApiKey::new("k".into()),
        anthropic::ModelName::new("m".into()),
        64,
    );
    let body = model.messages_request(&request);
    assert_eq!(body.system.as_deref(), Some("rules"));
    assert_eq!(body.messages.len(), 1);
    assert_eq!(body.messages[0].role, "user");
    assert_eq!(body.messages[0].content, "input");
}

#[test]
fn agent_request_reaches_chat_api_as_system_then_user() {
    let agent: Agent<EchoModel, NoTool> = AgentBuilder::new(EchoModel).preamble("rules").build();
    let model = openai::OpenAiCompletion::new(openai::ApiKey::new("k".into()), openai::ModelName::new("m".into()));
    let body = model.chat_request(&agent.build_request("input"));
    let turns: Vec<(&str, &str)> = body.messages.iter().map(|m| (m.role.as_str(), m.content.as_str())).collect();
    assert_eq!(turns, vec![("system", "rules"), ("user", "input")]);
    let bare: Agent<EchoModel, NoTool> = AgentBuilder::new(EchoModel).build();
    let body = model.chat_request(&bare.build_request("input"));
    assert_eq!(body.messages.len(), 1);
    assert_eq!(body.messages[0].role, "user");
}

#[test]
fn search_keeps_the_best_k_of_the_stored_documents() -> Result<(), Error> {
    let docs: Vec<Document> = (0..5)
        .map(|i| Document::new(format!("d{i}"), format!("text {i}"), Embedding::new(vec![])))
        .collect();
    let store = InMemoryVectorStore::new().with_documents(docs);
    let scores = [0.2f64, -0.5, 0.7, 0.2, f64::NEG_INFINITY];
    let scored = scores.iter().map(|s| Ok(s.to_bits())).collect();
    let results = store.rank_scored(scored, 3)?;
    let ids: Vec<&str> = results.iter().map(|r| r.document().id()).collect();
    assert_eq!(ids, vec!["d2", "d0", "d3"]);
    for r in &results {
        let i: usize = r.document().id()[1..].parse().unwrap();
        assert_eq!(f64::from_bits(r.score()), scores[i]);
        assert_eq!(r.document().content(), format!("text {i}"));
    }
    let all = store.rank_scored(scores.iter().map(|s| Ok(s.to_bits())).collect(), 9)?;
    assert_eq!(all.len(), 5);
    Ok(())
}
