//! Toolshim adapter: a text-based emulation of structured tool calling
//! for providers without native support.
//!
//! Going out, the system prompt is rewritten to describe a line-oriented
//! protocol and to list the available tools, and tool-carrying messages
//! are rewritten to plain text. Coming back, the provider's free-text
//! reply is parsed: every line of the form `TOOL <name> <arguments>`
//! whose tool name is among the retained tools becomes a structured tool
//! request appended to the reply message.

use vstd::prelude::*;

use crate::message::{clone_opt_string, Message, MessageContent, Tool, ToolCall, ToolRequest};
use crate::strutil::{
    spec_find_char, spec_split_lines, spec_u64_text, find_char, lemma_find_char_props, split_lines,
    str_eq, u64_to_string,
};

verus! {

/// One tool entry in the rewritten system prompt.
pub open spec fn spec_tool_list_entry(t: Tool) -> Seq<char> {
    "\n- "@ + t.name@ + ": "@ + t.description@
}

/// The tool list appended to the rewritten system prompt.
pub open spec fn spec_tool_list_text(tools: Seq<Tool>) -> Seq<char>
    decreases tools.len(),
{
    if tools.len() == 0 {
        Seq::empty()
    } else {
        spec_tool_list_text(tools.drop_last()) + spec_tool_list_entry(tools.last())
    }
}

/// The system prompt rewritten for the textual tool-call protocol: the
/// original prompt, the protocol instructions, and the tool list.
pub open spec fn spec_toolshim_prompt(base: Seq<char>, tools: Seq<Tool>) -> Seq<char> {
    base
        + "\n\nThis provider has no native tool calling. To call a tool, write a line of the form:\nTOOL <name> <arguments as JSON, on the same line>\nAvailable tools:"@
        + spec_tool_list_text(tools)
}

/// Rewrites a system prompt for the textual tool-call protocol,
/// appending the protocol instructions and the list of available tools.
#[verifier::loop_isolation(false)]
pub fn modify_system_prompt_for_tool_json(prompt: &str, tools: &Vec<Tool>) -> (r: String)
    ensures
        r@ == spec_toolshim_prompt(prompt@, tools@),
{
    let mut out = prompt.to_owned();
    out.append(
        "\n\nThis provider has no native tool calling. To call a tool, write a line of the form:\nTOOL <name> <arguments as JSON, on the same line>\nAvailable tools:",
    );
    let n = tools.len();
    let mut i: usize = 0;
    proof {
        assert(spec_tool_list_text(tools@.subrange(0, 0)) =~= Seq::<char>::empty());
        assert(out@ =~= spec_toolshim_prompt(prompt@, tools@.subrange(0, 0)));
    }
    while i < n
        invariant
            i <= n,
            out@ == spec_toolshim_prompt(prompt@, tools@.subrange(0, i as int)),
        decreases n - i,
    {
        let ghost prefix = tools@.subrange(0, i as int);
        let ghost next_prefix = tools@.subrange(0, i as int + 1);
        out.append("\n- ");
        out.append(tools[i].name.as_str());
        out.append(": ");
        out.append(tools[i].description.as_str());
        proof {
            assert(next_prefix.drop_last() =~= prefix);
            assert(next_prefix.last() == tools@[i as int]);
            assert(out@ =~= spec_toolshim_prompt(prompt@, next_prefix));
        }
        i += 1;
    }
    proof {
        assert(tools@.subrange(0, n as int) =~= tools@);
    }
    out
}

/// The plain-text rendering of one content item, used when tool items
/// must be handed to a provider that only understands text.
pub open spec fn spec_content_as_text(c: MessageContent) -> Seq<char> {
    match c {
        MessageContent::Text(s) => s@,
        MessageContent::ToolRequest(req) => match req.tool_call {
            Result::Ok(call) => "tool call: "@ + call.name@ + " "@ + call.arguments@,
            Result::Err(e) => "failed tool call: "@ + e@,
        },
        MessageContent::ToolResponse { id, output } => "tool result: "@ + output@,
    }
}

/// A message rewritten for a text-only provider: same identity, role and
/// creation time, every content item replaced by its text rendering.
pub open spec fn spec_message_textified(pre: Message, post: Message) -> bool {
    &&& post.id == pre.id
    &&& post.role == pre.role
    &&& post.created == pre.created
    &&& post.content@.len() == pre.content@.len()
    &&& forall|i: int|
        0 <= i < pre.content@.len() ==> {
            &&& (#[trigger] post.content@[i]) matches MessageContent::Text(s)
            &&& s@ == spec_content_as_text(pre.content@[i])
        }
}

/// Renders one content item as plain text.
fn content_as_text(c: &MessageContent) -> (r: MessageContent)
    ensures
        r matches MessageContent::Text(s) && s@ == spec_content_as_text(*c),
{
    match c {
        MessageContent::Text(s) => MessageContent::Text(s.clone()),
        MessageContent::ToolRequest(req) => match &req.tool_call {
            Ok(call) => {
                let mut out = String::from_str("tool call: ");
                out.append(call.name.as_str());
                out.append(" ");
                out.append(call.arguments.as_str());
                proof {
                    assert(out@ =~= spec_content_as_text(*c));
                }
                MessageContent::Text(out)
            },
            Err(e) => {
                let mut out = String::from_str("failed tool call: ");
                out.append(e.as_str());
                proof {
                    assert(out@ =~= spec_content_as_text(*c));
                }
                MessageContent::Text(out)
            },
        },
        MessageContent::ToolResponse { id: _, output } => {
            let mut out = String::from_str("tool result: ");
            out.append(output.as_str());
            proof {
                assert(out@ =~= spec_content_as_text(*c));
            }
            MessageContent::Text(out)
        },
    }
}

/// Rewrites every message for a text-only provider: tool requests and
/// tool results become plain text renderings, text stays text.
#[verifier::loop_isolation(false)]
pub fn convert_tool_messages_to_text(messages: &Vec<Message>) -> (r: Vec<Message>)
    ensures
        r@.len() == messages@.len(),
        forall|i: int|
            0 <= i < messages@.len() ==> spec_message_textified(messages@[i], #[trigger] r@[i]),
{
    let n = messages.len();
    let mut out: Vec<Message> = Vec::new();
    let mut i: usize = 0;
    while i < n
        invariant
            i <= n,
            out@.len() == i,
            forall|j: int|
                0 <= j < i ==> spec_message_textified(messages@[j], #[trigger] out@[j]),
        decreases n - i,
    {
        let m = &messages[i];
        let k = m.content.len();
        let mut content: Vec<MessageContent> = Vec::new();
        let mut j: usize = 0;
        while j < k
            invariant
                j <= k,
                k == m.content@.len(),
                content@.len() == j,
                forall|l: int|
                    0 <= l < j ==> {
                        &&& (#[trigger] content@[l]) matches MessageContent::Text(s)
                        &&& s@ == spec_content_as_text(m.content@[l])
                    },
            decreases k - j,
        {
            let item = content_as_text(&m.content[j]);
            content.push(item);
            j += 1;
        }
        let rewritten = Message {
            id: clone_opt_string(&m.id),
            role: m.role,
            created: m.created,
            content,
        };
        out.push(rewritten);
        i += 1;
    }
    out
}

/// What one reply line parses to: `TOOL <name> <arguments>` yields the
/// name and the rest of the line; the arguments may be empty; any other
/// line is no tool call.
pub open spec fn spec_parse_shim_line(line: Seq<char>) -> Option<(Seq<char>, Seq<char>)> {
    if line.len() >= 5 && line.subrange(0, 5) == "TOOL "@ {
        let rest = line.subrange(5, line.len() as int);
        if rest.len() == 0 {
            Option::None
        } else {
            let sp = spec_find_char(rest, ' ');
            if sp < 0 {
                Option::Some((rest, Seq::empty()))
            } else if sp == 0 {
                Option::None
            } else {
                Option::Some(
                    (rest.subrange(0, sp), rest.subrange(sp + 1, rest.len() as int)),
                )
            }
        }
    } else {
        Option::None
    }
}

/// Parses one reply line.
fn parse_shim_line(line: &str) -> (r: Option<ToolCall>)
    ensures
        match r {
            Option::Some(call) => spec_parse_shim_line(line@) matches Option::Some(p) && p.0
                == call.name@ && p.1 == call.arguments@,
            Option::None => spec_parse_shim_line(line@) is None,
        },
{
    let len = line.unicode_len();
    if len < 5 {
        return None;
    }
    let head = line.substring_char(0, 5);
    if !str_eq(head, "TOOL ") {
        return None;
    }
    let rest = line.substring_char(5, len);
    let rest_len = rest.unicode_len();
    if rest_len == 0 {
        return None;
    }
    match find_char(rest, ' ') {
        None => Some(
            ToolCall { name: rest.to_owned(), arguments: String::new() },
        ),
        Some(sp) => {
            proof {
                lemma_find_char_props(rest@, ' ');
            }
            if sp == 0 {
                None
            } else {
                let name = rest.substring_char(0, sp).to_owned();
                let arguments = rest.substring_char(sp + 1, rest_len).to_owned();
                Some(ToolCall { name, arguments })
            }
        },
    }
}

/// The tool calls parsed from a list of reply lines, in line order.
pub open spec fn spec_parsed_from_lines(lines: Seq<Seq<char>>) -> Seq<(Seq<char>, Seq<char>)>
    decreases lines.len(),
{
    if lines.len() == 0 {
        Seq::empty()
    } else {
        let prefix = spec_parsed_from_lines(lines.drop_last());
        match spec_parse_shim_line(lines.last()) {
            Option::Some(p) => prefix.push(p),
            Option::None => prefix,
        }
    }
}

/// The tool calls parsed from a free-text reply: one per `TOOL` line.
pub open spec fn spec_parsed_calls(text: Seq<char>) -> Seq<(Seq<char>, Seq<char>)> {
    spec_parsed_from_lines(spec_split_lines(text))
}

/// The (name, arguments) views of a call list.
pub open spec fn spec_call_views(calls: Seq<ToolCall>) -> Seq<(Seq<char>, Seq<char>)> {
    calls.map(|i: int, c: ToolCall| (c.name@, c.arguments@))
}

/// Parses a free-text reply into the tool calls it requests.
#[verifier::loop_isolation(false)]
pub fn parse_tool_calls(text: &str) -> (calls: Vec<ToolCall>)
    ensures
        spec_call_views(calls@) == spec_parsed_calls(text@),
{
    let lines = split_lines(text);
    let n = lines.len();
    let mut calls: Vec<ToolCall> = Vec::new();
    let mut i: usize = 0;
    proof {
        assert(spec_call_views(calls@) =~= spec_parsed_from_lines(
            crate::strutil::spec_line_views(lines@).subrange(0, 0),
        ));
    }
    while i < n
        invariant
            i <= n,
            spec_call_views(calls@) == spec_parsed_from_lines(
                crate::strutil::spec_line_views(lines@).subrange(0, i as int),
            ),
        decreases n - i,
    {
        let ghost views = crate::strutil::spec_line_views(lines@);
        let ghost prefix = views.subrange(0, i as int);
        let ghost next_prefix = views.subrange(0, i as int + 1);
        proof {
            assert(next_prefix.drop_last() =~= prefix);
            assert(next_prefix.last() == views[i as int]);
            assert(views[i as int] == lines@[i as int]@);
        }
        let parsed = parse_shim_line(lines[i].as_str());
        if let Some(call) = parsed {
            let ghost pre_calls = calls@;
            calls.push(call);
            proof {
                assert(spec_call_views(calls@) =~= spec_call_views(pre_calls).push(
                    (call.name@, call.arguments@),
                ));
            }
        }
        i += 1;
    }
    proof {
        assert(crate::strutil::spec_line_views(lines@).subrange(
            0,
            n as int,
        ) =~= crate::strutil::spec_line_views(lines@));
    }
    calls
}

/// Whether a tool of this name is among the retained tools.
pub open spec fn spec_tool_known(name: Seq<char>, tools: Seq<Tool>) -> bool {
    exists|i: int| 0 <= i < tools.len() && (#[trigger] tools[i]).name@ == name
}

/// The parsed calls whose tool name is among the retained tools, in
/// order.
pub open spec fn spec_known_calls(
    calls: Seq<(Seq<char>, Seq<char>)>,
    tools: Seq<Tool>,
) -> Seq<(Seq<char>, Seq<char>)>
    decreases calls.len(),
{
    if calls.len() == 0 {
        Seq::empty()
    } else {
        let prefix = spec_known_calls(calls.drop_last(), tools);
        if spec_tool_known(calls.last().0, tools) {
            prefix.push(calls.last())
        } else {
            prefix
        }
    }
}

/// Whether a tool of this name is among the given tools.
#[verifier::loop_isolation(false)]
fn tool_known(name: &str, tools: &Vec<Tool>) -> (r: bool)
    ensures
        r == spec_tool_known(name@, tools@),
{
    let n = tools.len();
    let mut i: usize = 0;
    while i < n
        invariant
            i <= n,
            forall|j: int| 0 <= j < i ==> (#[trigger] tools@[j]).name@ != name@,
        decreases n - i,
    {
        if str_eq(tools[i].name.as_str(), name) {
            return true;
        }
        i += 1;
    }
    false
}

/// The structured tool requests appended by the toolshim for a reply
/// whose known parsed calls are `calls`: one request per call, in order,
/// each carrying a synthetic id of the form `toolshim_<k>`.
pub open spec fn spec_shim_requests(
    calls: Seq<(Seq<char>, Seq<char>)>,
    appended: Seq<MessageContent>,
) -> bool {
    &&& appended.len() == calls.len()
    &&& forall|k: int|
        0 <= k < calls.len() ==> {
            &&& (#[trigger] appended[k]) matches MessageContent::ToolRequest(req)
            &&& req.id@ == "toolshim_"@ + spec_u64_text(k)
            &&& req.tool_call matches Result::Ok(call)
            &&& call.name@ == calls[k].0
            &&& call.arguments@ == calls[k].1
        }
}

/// Augments a reply message with the tool calls interpreted from its
/// text: each text item is parsed, calls naming unknown tools are
/// dropped, and the remaining calls are appended to the content as
/// structured tool requests. The original content is kept unchanged, in
/// order, in front.
pub open spec fn spec_augmented_message(pre: Message, tools: Seq<Tool>, post: Message) -> bool {
    &&& post.id == pre.id
    &&& post.role == pre.role
    &&& post.created == pre.created
    &&& post.content@.len() == pre.content@.len() + spec_known_calls(
        spec_message_calls(pre.content@),
        tools,
    ).len()
    &&& forall|i: int| 0 <= i < pre.content@.len() ==> post.content@[i] == pre.content@[i]
    &&& spec_shim_requests(
        spec_known_calls(spec_message_calls(pre.content@), tools),
        post.content@.subrange(pre.content@.len() as int, post.content@.len() as int),
    )
}

/// All tool calls parsed from the text items of a content list, in item
/// order.
pub open spec fn spec_message_calls(content: Seq<MessageContent>) -> Seq<(Seq<char>, Seq<char>)>
    decreases content.len(),
{
    if content.len() == 0 {
        Seq::empty()
    } else {
        let prefix = spec_message_calls(content.drop_last());
        match content.last() {
            MessageContent::Text(s) => prefix + spec_parsed_calls(s@),
            _ => prefix,
        }
    }
}

/// Parses the text items of a reply and appends the tool calls they
/// request as structured tool requests.
#[verifier::loop_isolation(false)]
pub fn augment_message_with_tool_calls(response: Message, toolshim_tools: &Vec<Tool>) -> (r:
    Message)
    ensures
        spec_augmented_message(response, toolshim_tools@, r),
{
    let mut message = response;
    let n = message.content.len();
    let ghost original = message.content@;

    // Collect the known calls from every text item, in order.
    let mut kept: Vec<ToolCall> = Vec::new();
    let mut i: usize = 0;
    proof {
        assert(spec_message_calls(original.subrange(0, 0)) =~= Seq::<(Seq<char>, Seq<char>)>::empty());
        assert(spec_known_calls(Seq::<(Seq<char>, Seq<char>)>::empty(), toolshim_tools@)
            =~= Seq::<(Seq<char>, Seq<char>)>::empty());
        assert(spec_call_views(kept@) =~= Seq::<(Seq<char>, Seq<char>)>::empty());
    }
    while i < n
        invariant
            i <= n,
            n == message.content@.len(),
            message.content@ == original,
            spec_call_views(kept@) == spec_known_calls(
                spec_message_calls(original.subrange(0, i as int)),
                toolshim_tools@,
            ),
        decreases n - i,
    {
        let ghost prefix = original.subrange(0, i as int);
        let ghost next_prefix = original.subrange(0, i as int + 1);
        proof {
            assert(next_prefix.drop_last() =~= prefix);
            assert(next_prefix.last() == original[i as int]);
        }
        if let MessageContent::Text(text) = &message.content[i] {
            let parsed = parse_tool_calls(text.as_str());
            let ghost parsed_views = spec_call_views(parsed@);
            let k = parsed.len();
            let mut j: usize = 0;
            proof {
                assert(parsed_views.subrange(0, 0) =~= Seq::<(Seq<char>, Seq<char>)>::empty());
                assert(spec_known_calls(
                    spec_message_calls(prefix) + parsed_views.subrange(0, 0),
                    toolshim_tools@,
                ) =~= spec_known_calls(spec_message_calls(prefix), toolshim_tools@)) by {
                    assert(spec_message_calls(prefix) + parsed_views.subrange(0, 0)
                        =~= spec_message_calls(prefix));
                }
            }
            while j < k
                invariant
                    j <= k,
                    k == parsed@.len(),
                    parsed_views == spec_call_views(parsed@),
                    spec_call_views(kept@) == spec_known_calls(
                        spec_message_calls(prefix) + parsed_views.subrange(0, j as int),
                        toolshim_tools@,
                    ),
                decreases k - j,
            {
                let ghost combined = spec_message_calls(prefix) + parsed_views.subrange(
                    0,
                    j as int,
                );
                let ghost next_combined = spec_message_calls(prefix) + parsed_views.subrange(
                    0,
                    j as int + 1,
                );
                proof {
                    assert(next_combined.drop_last() =~= combined);
                    assert(next_combined.last() == parsed_views[j as int]);
                    assert(parsed_views[j as int] == (parsed@[j as int].name@, parsed@[
                        j as int
                    ].arguments@));
                }
                let known = tool_known(parsed[j].name.as_str(), toolshim_tools);
                if known {
                    let ghost pre_kept = kept@;
                    let call = ToolCall {
                        name: parsed[j].name.clone(),
                        arguments: parsed[j].arguments.clone(),
                    };
                    kept.push(call);
                    proof {
                        assert(spec_call_views(kept@) =~= spec_call_views(pre_kept).push(
                            (call.name@, call.arguments@),
                        ));
                    }
                }
                j += 1;
            }
            proof {
                assert(parsed_views.subrange(0, k as int) =~= parsed_views);
                assert(spec_message_calls(next_prefix) =~= spec_message_calls(prefix)
                    + parsed_views);
            }
        } else {
            proof {
                assert(spec_message_calls(next_prefix) =~= spec_message_calls(prefix));
            }
        }
        i += 1;
    }
    proof {
        assert(original.subrange(0, n as int) =~= original);
    }

    // Append one structured request per kept call.
    let total = kept.len();
    let ghost known_calls = spec_known_calls(spec_message_calls(original), toolshim_tools@);
    let mut idx: usize = 0;
    let mut remaining = kept;
    proof {
        assert(known_calls.len() == total);
        assert(known_calls.subrange(0, total as int) =~= known_calls);
        assert(spec_call_views(remaining@) =~= known_calls.subrange(0, total as int));
        assert(known_calls.subrange(0, 0) =~= Seq::<(Seq<char>, Seq<char>)>::empty());
        assert(message.content@.subrange(
            original.len() as int,
            message.content@.len() as int,
        ).len() == 0);
    }
    let ghost message_at_entry = message;
    while idx < total
        invariant
            idx <= total,
            remaining@.len() + idx == total,
            spec_call_views(remaining@) == known_calls.subrange(idx as int, total as int),
            total == known_calls.len(),
            message.id == message_at_entry.id,
            message.role == message_at_entry.role,
            message.created == message_at_entry.created,
            message.content@.len() == original.len() + idx,
            forall|l: int| 0 <= l < original.len() ==> message.content@[l] == original[l],
            spec_shim_requests(
                known_calls.subrange(0, idx as int),
                message.content@.subrange(original.len() as int, message.content@.len() as int),
            ),
        decreases total - idx,
    {
        let ghost appended_pre = message.content@.subrange(
            original.len() as int,
            message.content@.len() as int,
        );
        let ghost pre_remaining = remaining@;
        let call = remaining.remove(0);
        proof {
            assert(call == pre_remaining[0]);
            assert(spec_call_views(pre_remaining)[0] == known_calls[idx as int]);
            assert(call.name@ == known_calls[idx as int].0);
            assert(call.arguments@ == known_calls[idx as int].1);
        }
        let mut id = String::from_str("toolshim_");
        let counter = u64_to_string(idx as u64);
        id.append(counter.as_str());
        let request = ToolRequest { id, tool_call: Ok(call) };
        message.content.push(MessageContent::ToolRequest(request));
        proof {
            assert(message.content@.subrange(
                original.len() as int,
                message.content@.len() as int,
            ) =~= appended_pre.push(MessageContent::ToolRequest(request)));
            assert(known_calls.subrange(0, idx as int + 1).drop_last() =~= known_calls.subrange(
                0,
                idx as int,
            ));
            assert(remaining@ =~= pre_remaining.drop_first());
            assert(spec_call_views(remaining@) =~= spec_call_views(pre_remaining).drop_first());
            assert(spec_call_views(pre_remaining).drop_first() =~= known_calls.subrange(
                idx as int + 1,
                total as int,
            ));
        }
        idx += 1;
    }
    proof {
        assert(known_calls.subrange(0, total as int) =~= known_calls);
    }
    message
}

} // verus!
