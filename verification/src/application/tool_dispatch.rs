//! Tool dispatch: find tool calls in LLM output, execute them through a
//! registry, and format results for the conversation.

use vstd::prelude::*;

use crate::domain::models::tool::{tool_error_text, ToolCall, ToolError, ToolResult};
use crate::domain::ports::tool_registry::ToolRegistry;
use crate::text::{
    chars_of, concat3, find_first, first_occurrence, lemma_first_unique, occurs_at, string_from_chars,
    trim, trim_str,
};

verus! {

/// The marker that opens a tool-call block.
pub const TOOL_CALL_START: &'static str = "[TOOL_CALL]";

/// The marker that closes a tool-call block.
pub const TOOL_CALL_END: &'static str = "[/TOOL_CALL]";

/// The text between the first start marker and the first end marker
/// (trimmed), and the trimmed text before and after the block, joined.
pub open spec fn tool_call_parts(o: Seq<char>) -> Option<(Seq<char>, Seq<char>)> {
    match (first_occurrence(o, "[TOOL_CALL]"@), first_occurrence(o, "[/TOOL_CALL]"@)) {
        (Some(s), Some(e)) => if e <= s {
            None
        } else {
            Some(
                (
                    trim(o.subrange(s + 11, e)),
                    trim(o.subrange(0, s)) + trim(o.subrange(e + 12, o.len() as int)),
                ),
            )
        },
        _ => None,
    }
}

/// Locate a tool-call block in LLM output: the JSON text inside the block and
/// the text around it. `None` when a marker is missing or the end marker comes
/// first.
pub fn split_tool_call(output: &str) -> (r: Option<(String, String)>)
    ensures
        match (r, tool_call_parts(output@)) {
            (Some((json, around)), Some((j, a))) => json@ == j && around@ == a,
            (None, None) => true,
            _ => false,
        },
{
    let o = chars_of(output);
    let start_marker = chars_of(TOOL_CALL_START);
    let end_marker = chars_of(TOOL_CALL_END);
    proof {
        reveal_strlit("[TOOL_CALL]");
        reveal_strlit("[/TOOL_CALL]");
    }
    let start = match find_first(&o, &start_marker) {
        Some(s) => s,
        None => {
            assert(first_occurrence(output@, "[TOOL_CALL]"@) is None);
            return None;
        },
    };
    proof {
        lemma_first_unique(output@, "[TOOL_CALL]"@, start as int);
    }
    let end = match find_first(&o, &end_marker) {
        Some(e) => e,
        None => {
            assert(first_occurrence(output@, "[/TOOL_CALL]"@) is None);
            return None;
        },
    };
    proof {
        lemma_first_unique(output@, "[/TOOL_CALL]"@, end as int);
    }
    if end <= start {
        return None;
    }
    proof {
        if end < start + 11 {
            let k = end - start;
            assert(o@.subrange(start as int, start + 11)[k] == o@[end as int]);
            assert(o@.subrange(end as int, end + 12)[0] == o@[end as int]);
        }
    }
    let inner = string_from_chars(&o, start + 11, end);
    let before = string_from_chars(&o, 0, start);
    let after = string_from_chars(&o, end + 12, o.len());
    let json = trim_str(inner.as_str());
    let b = trim_str(before.as_str());
    let a = trim_str(after.as_str());
    let mut around = b;
    around.append(a.as_str());
    Some((json, around))
}

/// The result of a dispatch, given what the registry returned.
pub open spec fn dispatch_result(call_tool: Seq<char>, outcome: Result<ToolResult, ToolError>) -> (bool, Seq<char>, Seq<char>) {
    match outcome {
        Ok(res) => (res.success, res.tool@, res.output@),
        Err(e) => (false, call_tool, tool_error_text(e)),
    }
}

/// Turn what the registry returned into the tool result: the registry's own
/// result, or a failed result for the call's tool carrying the error message.
pub fn dispatch_outcome(call: &ToolCall, outcome: Result<ToolResult, ToolError>) -> (r: ToolResult)
    ensures
        (r.success, r.tool@, r.output@) == dispatch_result(call.tool@, outcome),
{
    match outcome {
        Ok(result) => result,
        Err(e) => ToolResult { tool: call.tool.clone(), success: false, output: e.message() },
    }
}

/// Execute a tool call through the registry and report the result; an error
/// becomes a failed result naming the call's tool.
pub fn dispatch(registry: &dyn ToolRegistry, call: &ToolCall) -> (r: ToolResult)
    ensures
        exists|outcome: Result<ToolResult, ToolError>|
            #![trigger registry.may_return(*call, outcome)]
            registry.may_return(*call, outcome) && (r.success, r.tool@, r.output@) == dispatch_result(
                call.tool@,
                outcome,
            ),
{
    let outcome = registry.execute(call);
    let ghost o = outcome;
    let r = dispatch_outcome(call, outcome);
    assert((r.success, r.tool@, r.output@) == dispatch_result(call.tool@, o));
    r
}

/// The text that reports a tool result to the conversation.
pub open spec fn formatted_result(tool: Seq<char>, success: bool, output: Seq<char>) -> Seq<char> {
    "[TOOL_RESULT tool=\""@ + tool + (if success {
        "\" success=true]\n"@
    } else {
        "\" success=false]\n"@
    }) + output + "\n[/TOOL_RESULT]"@
}

/// Format a tool result for injection into the LLM conversation.
pub fn format_result(result: &ToolResult) -> (r: String)
    ensures
        r@ == formatted_result(result.tool@, result.success, result.output@),
{
    let head = if result.success {
        "\" success=true]\n"
    } else {
        "\" success=false]\n"
    };
    let mut r = concat3("[TOOL_RESULT tool=\"", result.tool.as_str(), head);
    r.append(result.output.as_str());
    r.append("\n[/TOOL_RESULT]");
    r
}

} // verus!
