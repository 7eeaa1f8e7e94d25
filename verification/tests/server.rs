use qi_lsp::server::{
    completion_trigger_characters, is_qi_document, method_not_found_message, route_notification,
    route_request, NotificationRoute, RequestRoute,
};

#[test]
fn requests_go_to_their_handlers() {
    assert_eq!(route_request("textDocument/completion"), RequestRoute::Completion);
    assert_eq!(route_request("textDocument/hover"), RequestRoute::Hover);
    assert_eq!(route_request("textDocument/definition"), RequestRoute::Definition);
    assert_eq!(route_request("textDocument/references"), RequestRoute::References);
    assert_eq!(route_request("textDocument/formatting"), RequestRoute::Formatting);
    assert_eq!(route_request("workspace/symbol"), RequestRoute::WorkspaceSymbol);
    assert_eq!(route_request("textDocument/documentSymbol"), RequestRoute::DocumentSymbol);
    assert_eq!(route_request("textDocument/rename"), RequestRoute::Rename);
    assert_eq!(route_request("shutdown"), RequestRoute::Shutdown);
    assert_eq!(route_request("textDocument/foldingRange"), RequestRoute::MethodNotFound);
    assert_eq!(method_not_found_message("x/y"), "Method not found: x/y");
}

#[test]
fn notifications_go_to_their_handlers() {
    assert_eq!(route_notification("textDocument/didOpen"), NotificationRoute::DidOpen);
    assert_eq!(route_notification("textDocument/didChange"), NotificationRoute::DidChange);
    assert_eq!(route_notification("textDocument/didClose"), NotificationRoute::DidClose);
    assert_eq!(route_notification("textDocument/didSave"), NotificationRoute::DidSave);
    assert_eq!(route_notification("exit"), NotificationRoute::Exit);
    assert_eq!(route_notification("initialized"), NotificationRoute::Ignore);
}

#[test]
fn qi_documents_and_trigger_characters() {
    assert!(is_qi_document("qi"));
    assert!(!is_qi_document("rust"));
    assert_eq!(completion_trigger_characters(), vec![".", "(", " ", "可", "函", "变"]);
}
