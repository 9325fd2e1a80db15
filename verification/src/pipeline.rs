//! Response generation pipeline: prepares the tool set and system prompt
//! for one provider turn, reconciles token accounting, and classifies
//! the tool requests of a reply.
//!
//! The provider itself is an outside capability driven by the host; the
//! functions here take its inputs and outputs as values and decide
//! everything in between.

use vstd::prelude::*;

use crate::message::{
    clone_message_content, clone_opt_string, clone_tool_request, Message, MessageContent, Tool,
    ToolRequest,
};
use crate::strutil::str_eq;
use crate::toolshim::{
    spec_augmented_message, spec_toolshim_prompt, augment_message_with_tool_calls,
    modify_system_prompt_for_tool_json,
};
use crate::usage::Usage;

verus! {

/// Whether a list holds a string of this text.
pub open spec fn spec_contains_name(names: Seq<String>, name: Seq<char>) -> bool {
    exists|i: int| 0 <= i < names.len() && (#[trigger] names[i])@ == name
}

/// Whether a name names a frontend tool, against a snapshot of the
/// frontend-tool registry.
#[verifier::loop_isolation(false)]
pub fn contains_name(names: &Vec<String>, name: &str) -> (r: bool)
    ensures
        r == spec_contains_name(names@, name@),
{
    let n = names.len();
    let mut i: usize = 0;
    while i < n
        invariant
            i <= n,
            forall|j: int| 0 <= j < i ==> (#[trigger] names@[j])@ != name@,
        decreases n - i,
    {
        if str_eq(names[i].as_str(), name) {
            return true;
        }
        i += 1;
    }
    false
}

/// Whether some tool of the list carries this name and is (or is not)
/// annotated read-only, as `want_read_only` asks.
pub open spec fn spec_name_of_tool_kind(name: Seq<char>, tools: Seq<Tool>, want_read_only: bool) -> bool {
    exists|k: int|
        0 <= k < tools.len() && (#[trigger] tools[k]).name@ == name && spec_tool_read_only(
            tools[k],
        ) == want_read_only
}

/// Whether a tool is annotated as read-only.
pub open spec fn spec_tool_read_only(t: Tool) -> bool {
    match t.annotations {
        Option::Some(a) => a.read_only_hint == Option::Some(true),
        Option::None => false,
    }
}

/// Splits the tool names into those annotated read-only and the rest.
/// Each side lists every qualifying name exactly once.
#[verifier::loop_isolation(false)]
pub fn categorize_tools_by_annotation(tools: &Vec<Tool>) -> (r: (Vec<String>, Vec<String>))
    ensures
        forall|j: int|
            #![trigger r.0@[j]]
            0 <= j < r.0@.len() ==> spec_name_of_tool_kind(r.0@[j]@, tools@, true),
        forall|k: int|
            0 <= k < tools@.len() && spec_tool_read_only(#[trigger] tools@[k])
                ==> spec_contains_name(r.0@, tools@[k].name@),
        forall|i: int, j: int| 0 <= i < j < r.0@.len() ==> r.0@[i]@ != r.0@[j]@,
        forall|j: int|
            #![trigger r.1@[j]]
            0 <= j < r.1@.len() ==> spec_name_of_tool_kind(r.1@[j]@, tools@, false),
        forall|k: int|
            0 <= k < tools@.len() && !spec_tool_read_only(#[trigger] tools@[k])
                ==> spec_contains_name(r.1@, tools@[k].name@),
        forall|i: int, j: int| 0 <= i < j < r.1@.len() ==> r.1@[i]@ != r.1@[j]@,
{
    let n = tools.len();
    let mut read_only: Vec<String> = Vec::new();
    let mut non_read: Vec<String> = Vec::new();
    let mut i: usize = 0;
    while i < n
        invariant
            i <= n,
            forall|j: int|
                #![trigger read_only@[j]]
                0 <= j < read_only@.len() ==> spec_name_of_tool_kind(read_only@[j]@, tools@, true),
            forall|k: int|
                0 <= k < i && spec_tool_read_only(#[trigger] tools@[k]) ==> spec_contains_name(
                    read_only@,
                    tools@[k].name@,
                ),
            forall|a: int, b: int| 0 <= a < b < read_only@.len() ==> read_only@[a]@
                != read_only@[b]@,
            forall|j: int|
                #![trigger non_read@[j]]
                0 <= j < non_read@.len() ==> spec_name_of_tool_kind(non_read@[j]@, tools@, false),
            forall|k: int|
                0 <= k < i && !spec_tool_read_only(#[trigger] tools@[k]) ==> spec_contains_name(
                    non_read@,
                    tools@[k].name@,
                ),
            forall|a: int, b: int| 0 <= a < b < non_read@.len() ==> non_read@[a]@ != non_read@[b]@,
        decreases n - i,
    {
        let is_read_only = match &tools[i].annotations {
            Some(a) => match a.read_only_hint {
                Some(h) => h,
                None => false,
            },
            None => false,
        };
        if is_read_only {
            if !contains_name(&read_only, tools[i].name.as_str()) {
                let ghost pre = read_only@;
                read_only.push(tools[i].name.clone());
                proof {
                    assert(forall|j: int|
                        0 <= j < pre.len() ==> read_only@[j] == pre[j]);
                    assert(read_only@[pre.len() as int] == tools@[i as int].name);
                    assert forall|k: int|
                        0 <= k < i + 1 && spec_tool_read_only(#[trigger] tools@[k])
                            implies spec_contains_name(read_only@, tools@[k].name@) by {
                        if k < i {
                            let w = choose|j: int|
                                0 <= j < pre.len() && (#[trigger] pre[j])@ == tools@[k].name@;
                            assert(read_only@[w]@ == tools@[k].name@);
                        } else {
                            assert(read_only@[pre.len() as int]@ == tools@[k].name@);
                        }
                    }
                }
            }
        } else {
            if !contains_name(&non_read, tools[i].name.as_str()) {
                let ghost pre = non_read@;
                non_read.push(tools[i].name.clone());
                proof {
                    assert(forall|j: int|
                        0 <= j < pre.len() ==> non_read@[j] == pre[j]);
                    assert(non_read@[pre.len() as int] == tools@[i as int].name);
                    assert forall|k: int|
                        0 <= k < i + 1 && !spec_tool_read_only(#[trigger] tools@[k])
                            implies spec_contains_name(non_read@, tools@[k].name@) by {
                        if k < i {
                            let w = choose|j: int|
                                0 <= j < pre.len() && (#[trigger] pre[j])@ == tools@[k].name@;
                            assert(non_read@[w]@ == tools@[k].name@);
                        } else {
                            assert(non_read@[pre.len() as int]@ == tools@[k].name@);
                        }
                    }
                }
            }
        }
        i += 1;
    }
    (read_only, non_read)
}

/// Whether a content item is a successfully parsed tool request naming a
/// frontend tool.
pub open spec fn spec_content_is_frontend_request(
    c: MessageContent,
    frontend: Seq<String>,
) -> bool {
    &&& c matches MessageContent::ToolRequest(req)
    &&& req.tool_call matches Result::Ok(call)
    &&& spec_contains_name(frontend, call.name@)
}

/// A message's content with the frontend-handled tool requests removed;
/// the order of the remaining items is preserved.
pub open spec fn spec_filtered_content(
    content: Seq<MessageContent>,
    frontend: Seq<String>,
) -> Seq<MessageContent>
    decreases content.len(),
{
    if content.len() == 0 {
        Seq::empty()
    } else {
        let prefix = spec_filtered_content(content.drop_last(), frontend);
        if spec_content_is_frontend_request(content.last(), frontend) {
            prefix
        } else {
            prefix.push(content.last())
        }
    }
}

/// The tool requests of a content list that are parsed calls naming a
/// frontend tool, in order.
pub open spec fn spec_frontend_requests(
    content: Seq<MessageContent>,
    frontend: Seq<String>,
) -> Seq<ToolRequest>
    decreases content.len(),
{
    if content.len() == 0 {
        Seq::empty()
    } else {
        let prefix = spec_frontend_requests(content.drop_last(), frontend);
        if content.last() matches MessageContent::ToolRequest(req)
            && spec_content_is_frontend_request(content.last(), frontend) {
            prefix.push(content.last()->ToolRequest_0)
        } else {
            prefix
        }
    }
}

/// All other tool requests of a content list — parse errors included —
/// in order.
pub open spec fn spec_other_requests(
    content: Seq<MessageContent>,
    frontend: Seq<String>,
) -> Seq<ToolRequest>
    decreases content.len(),
{
    if content.len() == 0 {
        Seq::empty()
    } else {
        let prefix = spec_other_requests(content.drop_last(), frontend);
        if content.last() matches MessageContent::ToolRequest(req)
            && !spec_content_is_frontend_request(content.last(), frontend) {
            prefix.push(content.last()->ToolRequest_0)
        } else {
            prefix
        }
    }
}

/// Partitions a reply's tool requests into frontend-handled and
/// agent-handled ones — a request whose call failed to parse counts as
/// agent-handled — and returns a copy of the message with the
/// frontend-handled requests removed, the order of everything else
/// preserved.
#[verifier::loop_isolation(false)]
pub fn categorize_tool_requests(response: &Message, frontend_tool_names: &Vec<String>) -> (r: (
    Vec<ToolRequest>,
    Vec<ToolRequest>,
    Message,
))
    ensures
        r.0@ == spec_frontend_requests(response.content@, frontend_tool_names@),
        r.1@ == spec_other_requests(response.content@, frontend_tool_names@),
        r.2.id == response.id,
        r.2.role == response.role,
        r.2.created == response.created,
        r.2.content@ == spec_filtered_content(response.content@, frontend_tool_names@),
{
    let n = response.content.len();
    let mut frontend_requests: Vec<ToolRequest> = Vec::new();
    let mut other_requests: Vec<ToolRequest> = Vec::new();
    let mut filtered_content: Vec<MessageContent> = Vec::new();
    let mut i: usize = 0;
    proof {
        assert(response.content@.subrange(0, 0) =~= Seq::<MessageContent>::empty());
    }
    while i < n
        invariant
            i <= n,
            frontend_requests@ == spec_frontend_requests(
                response.content@.subrange(0, i as int),
                frontend_tool_names@,
            ),
            other_requests@ == spec_other_requests(
                response.content@.subrange(0, i as int),
                frontend_tool_names@,
            ),
            filtered_content@ == spec_filtered_content(
                response.content@.subrange(0, i as int),
                frontend_tool_names@,
            ),
        decreases n - i,
    {
        let ghost prefix = response.content@.subrange(0, i as int);
        let ghost next_prefix = response.content@.subrange(0, i as int + 1);
        proof {
            assert(next_prefix.drop_last() =~= prefix);
            assert(next_prefix.last() == response.content@[i as int]);
        }
        let item = &response.content[i];
        let is_frontend = match item {
            MessageContent::ToolRequest(req) => match &req.tool_call {
                Ok(call) => contains_name(frontend_tool_names, call.name.as_str()),
                Err(_) => false,
            },
            _ => false,
        };
        match item {
            MessageContent::ToolRequest(req) => {
                if is_frontend {
                    frontend_requests.push(clone_tool_request(req));
                } else {
                    other_requests.push(clone_tool_request(req));
                    filtered_content.push(clone_message_content(item));
                }
            },
            _ => {
                filtered_content.push(clone_message_content(item));
            },
        }
        i += 1;
    }
    proof {
        assert(response.content@.subrange(0, n as int) =~= response.content@);
    }
    let filtered_message = Message {
        id: clone_opt_string(&response.id),
        role: response.role,
        created: response.created,
        content: filtered_content,
    };
    (frontend_requests, other_requests, filtered_message)
}

/// Moves every element of `extra` to the end of `base`.
#[verifier::loop_isolation(false)]
fn append_tools(base: &mut Vec<Tool>, extra: Vec<Tool>)
    ensures
        final(base)@ == old(base)@ + extra@,
{
    let ghost initial = base@;
    let ghost all = extra@;
    let mut remaining = extra;
    let n = remaining.len();
    let mut i: usize = 0;
    while i < n
        invariant
            i <= n,
            n == all.len(),
            remaining@ == all.subrange(i as int, n as int),
            base@ == initial + all.subrange(0, i as int),
        decreases n - i,
    {
        let t = remaining.remove(0);
        proof {
            assert(t == all[i as int]);
        }
        base.push(t);
        proof {
            assert(remaining@ =~= all.subrange(i as int + 1, n as int));
            assert(base@ =~= initial + all.subrange(0, i as int + 1));
        }
        i += 1;
    }
    proof {
        assert(all.subrange(0, n as int) =~= all);
    }
}

/// Prepares the tool set and system prompt for one provider turn.
///
/// The router-curated tools are preferred; when routing is disabled and
/// yields nothing, the full tool list takes their place. Frontend-only
/// tools are appended. Without toolshim the prompt goes out unchanged
/// and the shim list is empty; with toolshim the prompt is rewritten for
/// the textual protocol, the provider sees no tools at all, and the
/// gathered list is retained for reply parsing.
pub fn prepare_tools_and_prompt(
    router_enabled: bool,
    routed_tools: Vec<Tool>,
    fallback_tools: Vec<Tool>,
    frontend_tools: Vec<Tool>,
    base_prompt: &str,
    toolshim: bool,
) -> (r: (Vec<Tool>, Vec<Tool>, String))
    ensures
        ({
            let selected = if !router_enabled && routed_tools@.len() == 0 {
                fallback_tools@
            } else {
                routed_tools@
            };
            let gathered = selected + frontend_tools@;
            if toolshim {
                &&& r.0@.len() == 0
                &&& r.1@ == gathered
                &&& r.2@ == spec_toolshim_prompt(base_prompt@, gathered)
            } else {
                &&& r.0@ == gathered
                &&& r.1@.len() == 0
                &&& r.2@ == base_prompt@
            }
        }),
{
    let mut tools = if !router_enabled && routed_tools.len() == 0 {
        fallback_tools
    } else {
        routed_tools
    };
    append_tools(&mut tools, frontend_tools);
    if toolshim {
        let prompt = modify_system_prompt_for_tool_json(base_prompt, &tools);
        (Vec::new(), tools, prompt)
    } else {
        (tools, Vec::new(), base_prompt.to_owned())
    }
}

/// How a streaming request is served: toolshim needs the full reply
/// before interpretation, so it degrades to a single generated message;
/// otherwise native streaming is used when the provider supports it, and
/// a one-shot completion is wrapped as a one-item stream when it does
/// not.
#[derive(Clone, Copy, Debug, PartialEq, Eq, Structural)]
pub enum StreamPlan {
    InterpretedSingle,
    NativeStream,
    CompleteThenWrap,
}

/// Decides how to serve a streaming request.
pub fn plan_stream(toolshim: bool, supports_streaming: bool) -> (p: StreamPlan)
    ensures
        p == (if toolshim {
            StreamPlan::InterpretedSingle
        } else if supports_streaming {
            StreamPlan::NativeStream
        } else {
            StreamPlan::CompleteThenWrap
        }),
{
    if toolshim {
        StreamPlan::InterpretedSingle
    } else if supports_streaming {
        StreamPlan::NativeStream
    } else {
        StreamPlan::CompleteThenWrap
    }
}

/// The explicit observability slot for the model that served the last
/// turn. Takes the place of ambient process-wide state: the host owns
/// one and hands it to the pipeline.
pub struct CurrentModel {
    pub name: Option<String>,
}

impl CurrentModel {
    /// An empty slot: no model observed yet.
    pub fn new() -> (m: CurrentModel)
        ensures
            m.name is None,
    {
        CurrentModel { name: None }
    }

    /// Publishes the name of the model that served the last turn.
    pub fn publish(&mut self, model: &str)
        ensures
            final(self).name matches Option::Some(n) && n@ == model@,
    {
        self.name = Some(model.to_owned());
    }
}

/// Post-processes one yielded increment of a streamed reply: an
/// increment carrying usage republishes the model name, and a complete
/// message is re-interpreted when toolshim is active. Toolshim forces
/// the non-streaming path, so with toolshim this only ever runs on the
/// degraded single-message stream.
pub fn process_stream_increment(
    message: Option<Message>,
    usage: &Option<crate::usage::ProviderUsage>,
    toolshim: bool,
    toolshim_tools: &Vec<Tool>,
    observed: &mut CurrentModel,
) -> (r: Option<Message>)
    ensures
        usage matches Option::Some(u) ==> final(observed).name matches Option::Some(n) && n@
            == u.model@,
        usage is None ==> *final(observed) == *old(observed),
        match message {
            Option::None => r is None,
            Option::Some(m) => r matches Option::Some(out) && (if toolshim {
                spec_augmented_message(m, toolshim_tools@, out)
            } else {
                out == m
            }),
        },
{
    if let Some(u) = usage {
        observed.publish(u.model.as_str());
    }
    match message {
        None => None,
        Some(m) => {
            if toolshim {
                Some(augment_message_with_tool_calls(m, toolshim_tools))
            } else {
                Some(m)
            }
        },
    }
}

/// Finishes one batch generation turn from the provider's raw reply:
/// missing token counts are backfilled with the given estimates, the
/// model name is published, and — when toolshim is active — the reply's
/// text is interpreted into structured tool calls appended to the
/// message. Without toolshim the reply passes through unchanged.
pub fn generate_turn(
    raw_response: Message,
    usage: Usage,
    model: &str,
    toolshim: bool,
    toolshim_tools: &Vec<Tool>,
    estimated_input_tokens: i32,
    estimated_output_tokens: i32,
    observed: &mut CurrentModel,
) -> (r: (Message, Usage))
    requires
        estimated_input_tokens >= 0,
        estimated_output_tokens >= 0,
    ensures
        toolshim ==> spec_augmented_message(raw_response, toolshim_tools@, r.0),
        !toolshim ==> r.0 == raw_response,
        r.1 == crate::usage::spec_ensure_tokens(
            usage,
            estimated_input_tokens,
            estimated_output_tokens,
        ),
        final(observed).name matches Option::Some(n) && n@ == model@,
{
    let mut usage = usage;
    crate::usage::ensure_tokens(&mut usage, estimated_input_tokens, estimated_output_tokens);
    observed.publish(model);
    let message = if toolshim {
        augment_message_with_tool_calls(raw_response, toolshim_tools)
    } else {
        raw_response
    };
    (message, usage)
}

} // verus!
