use comp_cat_rs::effect::io::Io;
use comp_cat_rs::effect::stream::Stream;
use rig_cat::agent::{Agent, AgentBuilder};
use rig_cat::error::Error;
use rig_cat::model::{CompletionModel, CompletionRequest, CompletionResponse, Role, StreamChunk};
use rig_cat::tool::{Tool, ToolDefinition, Toolbox};
use serde_json::Value;

struct FakeModel;

impl CompletionModel for FakeModel {
    fn complete(&self, request: CompletionRequest) -> Io<Error, CompletionResponse> {
        let content = request
            .messages()
            .iter()
            .map(|m| m.content().to_owned())
            .collect::<Vec<_>>()
            .join("|");
        Io::pure(CompletionResponse::new(content, "fake".into()))
    }

    fn stream(&self, _request: CompletionRequest) -> Stream<Error, StreamChunk> {
        Stream::empty()
    }
}

struct FakeTool;

impl Tool for FakeTool {
    fn definition(&self) -> ToolDefinition {
        ToolDefinition::new("fake".into(), "fake".into(), Value::Object(serde_json::Map::new()))
    }
    fn call(&self, _args: Value) -> Io<Error, Value> {
        Io::pure(Value::Object(serde_json::Map::new()))
    }
}

#[test]
fn agent_includes_preamble_in_request() -> Result<(), Error> {
    let agent: Agent<FakeModel, FakeTool> = AgentBuilder::new(FakeModel)
        .preamble("You are helpful.")
        .build();
    let response = agent.prompt("hello").run()?;
    assert!(response.contains("You are helpful."));
    assert!(response.contains("hello"));
    Ok(())
}

#[test]
fn agent_without_preamble_sends_only_user_message() -> Result<(), Error> {
    let agent: Agent<FakeModel, FakeTool> = AgentBuilder::new(FakeModel).build();
    let response = agent.prompt("hello").run()?;
    assert_eq!(response, "hello");
    Ok(())
}

#[test]
fn agent_applies_temperature_and_max_tokens() {
    let agent: Agent<FakeModel, FakeTool> = AgentBuilder::new(FakeModel)
        .temperature(0.5f64.to_bits())
        .max_tokens(100)
        .build();
    let request = agent.build_request("test");
    assert!((request.temperature().map(f64::from_bits).unwrap_or(0.0) - 0.5).abs() < 1e-10);
    assert_eq!(request.max_tokens(), Some(100));
}

#[test]
fn agent_request_puts_preamble_first() {
    let agent: Agent<FakeModel, FakeTool> = AgentBuilder::new(FakeModel)
        .preamble("be brief")
        .build();
    let request = agent.build_request("question");
    let messages = request.messages();
    assert_eq!(messages.len(), 2);
    assert_eq!(*messages[0].role(), Role::System);
    assert_eq!(messages[0].content(), "be brief");
    assert_eq!(*messages[1].role(), Role::User);
    assert_eq!(messages[1].content(), "question");
    assert!(request.temperature().is_none());
    assert!(request.max_tokens().is_none());
}

#[test]
fn agent_prompt_returns_the_model_text() -> Result<(), Error> {
    let agent: Agent<FakeModel, FakeTool> = AgentBuilder::new(FakeModel).preamble("p").build();
    assert_eq!(agent.prompt("q").run()?, "p|q");
    Ok(())
}

#[test]
fn agent_keeps_its_tools_and_streams() -> Result<(), Error> {
    let agent: Agent<FakeModel, FakeTool> = AgentBuilder::new(FakeModel)
        .tools(Toolbox::new().with_tool(FakeTool).with_tool(FakeTool))
        .build();
    assert_eq!(agent.tools().len(), 2);
    assert!(agent.prompt_stream("x").collect().run()?.is_empty());
    Ok(())
}
