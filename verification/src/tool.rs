//! Application tools and the default answer to the engine's host requests.
use vstd::prelude::*;
use crate::error::{invalid, Error, ErrorView, Result};
use crate::text::str_eq;

verus! {

/// How an application tool is offered to the model.
#[derive(Debug, Clone)]
pub struct ToolSpec {
    pub name: String,
    pub description: String,
    /// The JSON schema of the tool's arguments.
    pub parameters: serde_json::Value,
    /// Only mark tools without side effects as read-only.
    pub read_only: bool,
}

/// A request from the model to run an application tool.
#[derive(Debug, Clone)]
pub struct ToolCall {
    pub session_id: String,
    pub tool_call_id: String,
    pub name: String,
    pub arguments: serde_json::Value,
}

/// What a tool hands back to the model.
#[derive(Debug, Clone)]
pub struct ToolOutput {
    pub output: String,
    pub is_error: bool,
}

impl ToolOutput {
    /// A successful result with this text.
    pub fn text(output: String) -> (o: ToolOutput)
        ensures
            o.output == output,
            !o.is_error,
    {
        ToolOutput { output, is_error: false }
    }

    /// A failed result with this text.
    pub fn failure(output: String) -> (o: ToolOutput)
        ensures
            o.output == output,
            o.is_error,
    {
        ToolOutput { output, is_error: true }
    }
}

/// The answer of the default host handler.
#[derive(Debug, Clone, Copy, PartialEq, Eq)]
pub enum HostReply {
    /// The permission request is answered with the `cancelled` outcome.
    PermissionCancelled,
}

/// The default handler of the engine's requests to the host: it declines
/// every permission request and fails any other request.
pub fn default_host_reply(method: &str) -> (r: Result<HostReply>)
    ensures
        method@ == "session/request_permission"@ ==> r == Ok::<HostReply, Error>(
            HostReply::PermissionCancelled,
        ),
        method@ != "session/request_permission"@ ==> (r matches Err(e) && e@ == ErrorView::Invalid(
            "No host handler for "@ + method@,
        )),
{
    if str_eq(method, "session/request_permission") {
        Ok(HostReply::PermissionCancelled)
    } else {
        let mut message = String::from_str("No host handler for ");
        message.append(method);
        Err(Error::Invalid(message))
    }
}

/// How the harness answers an engine request to the host.
pub enum HostCall {
    /// Run the registered tool that the request names.
    RunTool,
    /// Hand the request to the client handler of the active turn (or the
    /// harness's own).
    AskHandler,
    /// Answer with this error.
    Fail(Error),
}

/// A tool call runs the tool it names, which must be registered; any other
/// request goes to the client handler.
pub fn plan_host_call(is_tool_call: bool, tool_registered: bool) -> (r: HostCall)
    ensures
        is_tool_call && tool_registered ==> r is RunTool,
        is_tool_call && !tool_registered ==> (r matches HostCall::Fail(e) && e@
            == ErrorView::Invalid("host tool is not registered"@)),
        !is_tool_call ==> r is AskHandler,
{
    if is_tool_call {
        if tool_registered {
            HostCall::RunTool
        } else {
            HostCall::Fail(invalid("host tool is not registered"))
        }
    } else {
        HostCall::AskHandler
    }
}

} // verus!
