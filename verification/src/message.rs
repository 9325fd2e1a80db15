//! Conversation data model: messages, their content items, and tool
//! descriptions.
//!
//! Tool-call arguments and results reach this crate as rendered JSON
//! text; the host parses or serialises them at the boundary.

use vstd::prelude::*;

verus! {

/// Who authored a message.
#[derive(Clone, Copy, Debug, PartialEq, Eq, Structural)]
pub enum Role {
    User,
    Assistant,
}

/// A successfully parsed tool invocation: a tool name plus its
/// arguments as rendered JSON text.
#[derive(Clone, Debug)]
pub struct ToolCall {
    pub name: String,
    pub arguments: String,
}

/// A requested tool invocation: either a parsed call or the parse error
/// text. The id correlates the request with a future tool result.
#[derive(Debug)]
pub struct ToolRequest {
    pub id: String,
    pub tool_call: Result<ToolCall, String>,
}

/// One content item of a message.
#[derive(Debug)]
pub enum MessageContent {
    /// Plain text.
    Text(String),
    /// A tool-call request emitted by the assistant.
    ToolRequest(ToolRequest),
    /// The result of an earlier tool call, as rendered text.
    ToolResponse { id: String, output: String },
}

/// An ordered list of content items with identity, role and creation
/// time. Immutable once constructed; filtering produces a copy.
#[derive(Debug)]
pub struct Message {
    pub id: Option<String>,
    pub role: Role,
    pub created: i64,
    pub content: Vec<MessageContent>,
}

/// Behavioural annotations of a tool.
#[derive(Clone, Debug)]
pub struct ToolAnnotations {
    /// Whether the tool only reads and never mutates its environment.
    pub read_only_hint: Option<bool>,
}

/// Description of one callable tool as handed to the provider.
#[derive(Clone, Debug)]
pub struct Tool {
    pub name: String,
    pub description: String,
    pub annotations: Option<ToolAnnotations>,
}

/// Clones an optional string; the copy equals the original.
pub fn clone_opt_string(o: &Option<String>) -> (r: Option<String>)
    ensures
        r == *o,
{
    match o {
        None => None,
        Some(s) => Some(s.clone()),
    }
}

/// Clones a tool request; the copy equals the original.
pub fn clone_tool_request(req: &ToolRequest) -> (r: ToolRequest)
    ensures
        r == *req,
{
    let tool_call = match &req.tool_call {
        Ok(call) => Ok(ToolCall { name: call.name.clone(), arguments: call.arguments.clone() }),
        Err(e) => Err(e.clone()),
    };
    ToolRequest { id: req.id.clone(), tool_call }
}

/// Clones a content item; the copy equals the original.
pub fn clone_message_content(c: &MessageContent) -> (r: MessageContent)
    ensures
        r == *c,
{
    match c {
        MessageContent::Text(s) => MessageContent::Text(s.clone()),
        MessageContent::ToolRequest(req) => MessageContent::ToolRequest(clone_tool_request(req)),
        MessageContent::ToolResponse { id, output } => MessageContent::ToolResponse {
            id: id.clone(),
            output: output.clone(),
        },
    }
}

} // verus!
