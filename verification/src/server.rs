//! What the server does with each message: which handler a request or a
//! notification goes to, and what the server announces it can do.

use vstd::prelude::*;
use crate::strings::text_eq;
use crate::type_text::views;

verus! {

/// The handler a request goes to.
#[derive(Debug, Clone, Copy, PartialEq, Eq, Structural)]
pub enum RequestRoute {
    Completion,
    Hover,
    Definition,
    References,
    Formatting,
    WorkspaceSymbol,
    DocumentSymbol,
    Rename,
    /// Acknowledge with an empty result.
    Shutdown,
    /// Answer with a "method not found" error.
    MethodNotFound,
}

/// The handler a request method goes to.
pub open spec fn spec_request_route(method: Seq<char>) -> RequestRoute {
    if method == "textDocument/completion"@ {
        RequestRoute::Completion
    } else if method == "textDocument/hover"@ {
        RequestRoute::Hover
    } else if method == "textDocument/definition"@ {
        RequestRoute::Definition
    } else if method == "textDocument/references"@ {
        RequestRoute::References
    } else if method == "textDocument/formatting"@ {
        RequestRoute::Formatting
    } else if method == "workspace/symbol"@ {
        RequestRoute::WorkspaceSymbol
    } else if method == "textDocument/documentSymbol"@ {
        RequestRoute::DocumentSymbol
    } else if method == "textDocument/rename"@ {
        RequestRoute::Rename
    } else if method == "shutdown"@ {
        RequestRoute::Shutdown
    } else {
        RequestRoute::MethodNotFound
    }
}

/// Decide which handler a request goes to.
pub fn route_request(method: &str) -> (r: RequestRoute)
    ensures
        r == spec_request_route(method@),
{
    if text_eq(method, "textDocument/completion") {
        RequestRoute::Completion
    } else if text_eq(method, "textDocument/hover") {
        RequestRoute::Hover
    } else if text_eq(method, "textDocument/definition") {
        RequestRoute::Definition
    } else if text_eq(method, "textDocument/references") {
        RequestRoute::References
    } else if text_eq(method, "textDocument/formatting") {
        RequestRoute::Formatting
    } else if text_eq(method, "workspace/symbol") {
        RequestRoute::WorkspaceSymbol
    } else if text_eq(method, "textDocument/documentSymbol") {
        RequestRoute::DocumentSymbol
    } else if text_eq(method, "textDocument/rename") {
        RequestRoute::Rename
    } else if text_eq(method, "shutdown") {
        RequestRoute::Shutdown
    } else {
        RequestRoute::MethodNotFound
    }
}

/// The message of the error that answers an unknown request method.
pub fn method_not_found_message(method: &str) -> (r: String)
    ensures
        r@ == "Method not found: "@ + method@,
{
    String::from_str("Method not found: ").concat(method)
}

/// The handler a notification goes to.
#[derive(Debug, Clone, Copy, PartialEq, Eq, Structural)]
pub enum NotificationRoute {
    DidOpen,
    DidChange,
    DidClose,
    DidSave,
    /// Stop the server.
    Exit,
    /// Nothing to do.
    Ignore,
}

/// The handler a notification method goes to.
pub open spec fn spec_notification_route(method: Seq<char>) -> NotificationRoute {
    if method == "textDocument/didOpen"@ {
        NotificationRoute::DidOpen
    } else if method == "textDocument/didChange"@ {
        NotificationRoute::DidChange
    } else if method == "textDocument/didClose"@ {
        NotificationRoute::DidClose
    } else if method == "textDocument/didSave"@ {
        NotificationRoute::DidSave
    } else if method == "exit"@ {
        NotificationRoute::Exit
    } else {
        NotificationRoute::Ignore
    }
}

/// Decide which handler a notification goes to.
pub fn route_notification(method: &str) -> (r: NotificationRoute)
    ensures
        r == spec_notification_route(method@),
{
    if text_eq(method, "textDocument/didOpen") {
        NotificationRoute::DidOpen
    } else if text_eq(method, "textDocument/didChange") {
        NotificationRoute::DidChange
    } else if text_eq(method, "textDocument/didClose") {
        NotificationRoute::DidClose
    } else if text_eq(method, "textDocument/didSave") {
        NotificationRoute::DidSave
    } else if text_eq(method, "exit") {
        NotificationRoute::Exit
    } else {
        NotificationRoute::Ignore
    }
}

/// Whether an opened document is one the server keeps: a Qi document.
pub fn is_qi_document(language_id: &str) -> (r: bool)
    ensures
        r == (language_id@ == "qi"@),
{
    text_eq(language_id, "qi")
}

/// The characters that trigger completion.
pub open spec fn spec_trigger_characters() -> Seq<Seq<char>> {
    seq!["."@, "("@, " "@, "可"@, "函"@, "变"@]
}

/// The characters that trigger completion: `.`, `(`, a space, and the first
/// characters of common Chinese keywords.
pub fn completion_trigger_characters() -> (r: Vec<String>)
    ensures
        views(r@) == spec_trigger_characters(),
{
    let mut v: Vec<String> = Vec::new();
    v.push(String::from_str("."));
    v.push(String::from_str("("));
    v.push(String::from_str(" "));
    v.push(String::from_str("可"));
    v.push(String::from_str("函"));
    v.push(String::from_str("变"));
    assert(views(v@) =~= spec_trigger_characters());
    v
}

} // verus!
