use agent_core::message::{
    Message, MessageContent, Role, Tool, ToolAnnotations, ToolCall, ToolRequest,
};
use agent_core::pipeline::{
    categorize_tool_requests, categorize_tools_by_annotation, generate_turn, plan_stream,
    prepare_tools_and_prompt, process_stream_increment, CurrentModel, StreamPlan,
};
use agent_core::toolshim::{
    convert_tool_messages_to_text, modify_system_prompt_for_tool_json, parse_tool_calls,
};
use agent_core::usage::{ProviderUsage, Usage};

fn tool(name: &str, description: &str, read_only: Option<bool>) -> Tool {
    Tool {
        name: name.to_string(),
        description: description.to_string(),
        annotations: read_only.map(|h| ToolAnnotations { read_only_hint: Some(h) }),
    }
}

fn text(s: &str) -> MessageContent {
    MessageContent::Text(s.to_string())
}

fn request(id: &str, name: &str, arguments: &str) -> MessageContent {
    MessageContent::ToolRequest(ToolRequest {
        id: id.to_string(),
        tool_call: Ok(ToolCall { name: name.to_string(), arguments: arguments.to_string() }),
    })
}

fn bad_request(id: &str, error: &str) -> MessageContent {
    MessageContent::ToolRequest(ToolRequest {
        id: id.to_string(),
        tool_call: Err(error.to_string()),
    })
}

fn message(content: Vec<MessageContent>) -> Message {
    Message { id: Some("m1".to_string()), role: Role::Assistant, created: 42, content }
}

#[test]
fn categorize_tools_splits_by_read_only_annotation() {
    let tools = vec![
        tool("ls", "list", Some(true)),
        tool("rm", "remove", Some(false)),
        tool("cat", "read", Some(true)),
        tool("sh", "shell", None),
        tool("ls", "list again", Some(true)),
    ];
    let (read_only, non_read) = categorize_tools_by_annotation(&tools);
    assert_eq!(read_only, vec!["ls".to_string(), "cat".to_string()]);
    assert_eq!(non_read, vec!["rm".to_string(), "sh".to_string()]);
}

#[test]
fn categorize_tool_requests_partitions_and_filters() {
    let response = message(vec![
        text("intro"),
        request("r1", "browser_click", "{}"),
        request("r2", "shell", "{\"cmd\":\"ls\"}"),
        bad_request("r3", "unparseable"),
        text("outro"),
    ]);
    let frontend = vec!["browser_click".to_string()];
    let (front, other, filtered) = categorize_tool_requests(&response, &frontend);

    assert_eq!(front.len(), 1);
    assert_eq!(front[0].id, "r1");

    assert_eq!(other.len(), 2);
    assert_eq!(other[0].id, "r2");
    assert_eq!(other[1].id, "r3");

    assert_eq!(filtered.id.as_deref(), Some("m1"));
    assert_eq!(filtered.created, 42);
    assert_eq!(filtered.content.len(), 4);
    assert!(matches!(&filtered.content[0], MessageContent::Text(s) if s == "intro"));
    assert!(matches!(&filtered.content[1], MessageContent::ToolRequest(r) if r.id == "r2"));
    assert!(matches!(&filtered.content[2], MessageContent::ToolRequest(r) if r.id == "r3"));
    assert!(matches!(&filtered.content[3], MessageContent::Text(s) if s == "outro"));
}

#[test]
fn prepare_turn_prefers_routed_tools() {
    let routed = vec![tool("a", "", None)];
    let fallback = vec![tool("b", "", None)];
    let frontend = vec![tool("f", "", None)];
    let (provider_tools, shim_tools, prompt) =
        prepare_tools_and_prompt(true, routed, fallback, frontend, "base", false);
    let names: Vec<&str> = provider_tools.iter().map(|t| t.name.as_str()).collect();
    assert_eq!(names, vec!["a", "f"]);
    assert!(shim_tools.is_empty());
    assert_eq!(prompt, "base");
}

#[test]
fn prepare_turn_falls_back_when_router_disabled_and_empty() {
    let fallback = vec![tool("b", "", None)];
    let (provider_tools, _, _) =
        prepare_tools_and_prompt(false, vec![], fallback, vec![], "base", false);
    let names: Vec<&str> = provider_tools.iter().map(|t| t.name.as_str()).collect();
    assert_eq!(names, vec!["b"]);
}

#[test]
fn prepare_turn_with_toolshim_empties_provider_tools_and_rewrites_prompt() {
    let routed = vec![tool("echo", "repeat text", None)];
    let (provider_tools, shim_tools, prompt) =
        prepare_tools_and_prompt(true, routed, vec![], vec![], "You are an agent.", true);
    assert!(provider_tools.is_empty());
    assert_eq!(shim_tools.len(), 1);
    assert_eq!(shim_tools[0].name, "echo");
    assert_eq!(
        prompt,
        "You are an agent.\n\nThis provider has no native tool calling. To call a tool, \
         write a line of the form:\nTOOL <name> <arguments as JSON, on the same line>\n\
         Available tools:\n- echo: repeat text"
    );
}

#[test]
fn prompt_rewrite_lists_every_tool() {
    let tools = vec![tool("a", "first", None), tool("b", "second", None)];
    let prompt = modify_system_prompt_for_tool_json("p", &tools);
    assert!(prompt.starts_with("p\n\nThis provider has no native tool calling."));
    assert!(prompt.ends_with("Available tools:\n- a: first\n- b: second"));
}

#[test]
fn tool_messages_become_plain_text() {
    let messages = vec![message(vec![
        text("hello"),
        request("r1", "shell", "{\"cmd\":\"ls\"}"),
        bad_request("r2", "syntax"),
        MessageContent::ToolResponse { id: "r1".to_string(), output: "ok".to_string() },
    ])];
    let rewritten = convert_tool_messages_to_text(&messages);
    assert_eq!(rewritten.len(), 1);
    assert_eq!(rewritten[0].id.as_deref(), Some("m1"));
    assert_eq!(rewritten[0].created, 42);
    let texts: Vec<&str> = rewritten[0]
        .content
        .iter()
        .map(|c| match c {
            MessageContent::Text(s) => s.as_str(),
            other => panic!("expected text only, got {:?}", other),
        })
        .collect();
    assert_eq!(
        texts,
        vec![
            "hello",
            "tool call: shell {\"cmd\":\"ls\"}",
            "failed tool call: syntax",
            "tool result: ok",
        ]
    );
}

#[test]
fn parse_tool_calls_reads_marked_lines_only() {
    let reply = "I will list the files.\nTOOL shell {\"cmd\":\"ls\"}\nsome chatter\nTOOL echo\nTOOL  leading-space\nTOOL\n";
    let calls = parse_tool_calls(reply);
    // "TOOL echo" has no arguments; "TOOL  ..." has an empty name and is
    // dropped; the bare "TOOL" line is no call at all.
    assert_eq!(calls.len(), 2);
    assert_eq!(calls[0].name, "shell");
    assert_eq!(calls[0].arguments, "{\"cmd\":\"ls\"}");
    assert_eq!(calls[1].name, "echo");
    assert_eq!(calls[1].arguments, "");
}

#[test]
fn plan_stream_decides_the_three_paths() {
    assert_eq!(plan_stream(true, true), StreamPlan::InterpretedSingle);
    assert_eq!(plan_stream(true, false), StreamPlan::InterpretedSingle);
    assert_eq!(plan_stream(false, true), StreamPlan::NativeStream);
    assert_eq!(plan_stream(false, false), StreamPlan::CompleteThenWrap);
}

#[test]
fn toolshim_generate_returns_interpreted_tool_calls() {
    // The provider reply carries no structured tool calls, only text in
    // the shim protocol.
    let raw = message(vec![text("Working.\nTOOL echo {\"text\":\"hi\"}\nTOOL rogue {}")]);
    let shim_tools = vec![tool("echo", "repeat text", None)];
    let usage = Usage { input_tokens: None, output_tokens: None, total_tokens: None };
    let mut observed = CurrentModel::new();

    let (reply, usage) = generate_turn(
        raw,
        usage,
        "local-model",
        true,
        &shim_tools,
        80,
        20,
        &mut observed,
    );

    // The tool-call content was produced by text interpretation: the
    // unknown tool was dropped, the known one was appended.
    assert_eq!(reply.content.len(), 2);
    match &reply.content[1] {
        MessageContent::ToolRequest(req) => {
            assert_eq!(req.id, "toolshim_0");
            let call = req.tool_call.as_ref().expect("parsed call");
            assert_eq!(call.name, "echo");
            assert_eq!(call.arguments, "{\"text\":\"hi\"}");
        }
        other => panic!("expected an interpreted tool request, got {:?}", other),
    }

    // Missing token counts were backfilled with the estimates.
    assert_eq!(usage.input_tokens, Some(80));
    assert_eq!(usage.output_tokens, Some(20));
    assert_eq!(usage.total_tokens, Some(100));

    // The model name was published to the observability slot.
    assert_eq!(observed.name.as_deref(), Some("local-model"));
}

#[test]
fn stream_increment_republishes_model_and_passes_message_through() {
    let mut observed = CurrentModel::new();
    let usage = Some(ProviderUsage {
        model: "streaming-model".to_string(),
        usage: Usage { input_tokens: Some(1), output_tokens: Some(2), total_tokens: Some(3) },
    });
    let increment = Some(message(vec![text("chunk")]));
    let out = process_stream_increment(increment, &usage, false, &vec![], &mut observed);
    assert_eq!(observed.name.as_deref(), Some("streaming-model"));
    let out = out.expect("message passes through");
    assert!(matches!(&out.content[0], MessageContent::Text(s) if s == "chunk"));

    // An increment without usage publishes nothing new.
    let out = process_stream_increment(None, &None, false, &vec![], &mut observed);
    assert!(out.is_none());
    assert_eq!(observed.name.as_deref(), Some("streaming-model"));
}

#[test]
fn generate_without_toolshim_passes_reply_through() {
    let raw = message(vec![text("TOOL echo {}"), request("r1", "shell", "{}")]);
    let usage = Usage { input_tokens: Some(7), output_tokens: Some(5), total_tokens: Some(12) };
    let mut observed = CurrentModel::new();
    let (reply, usage) =
        generate_turn(raw, usage, "big-model", false, &vec![], 1, 1, &mut observed);
    // Nothing is parsed and nothing appended: the raw reply passes through.
    assert_eq!(reply.content.len(), 2);
    assert!(matches!(&reply.content[0], MessageContent::Text(s) if s == "TOOL echo {}"));
    // Reported counts are kept over estimates.
    assert_eq!(usage.total_tokens, Some(12));
    assert_eq!(observed.name.as_deref(), Some("big-model"));
}
