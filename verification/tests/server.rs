//! The Model Context Protocol server.

use harborbeacon_desktop::actionrun::Action;
use harborbeacon_desktop::bridge::{ActionResult, BridgeError};
use harborbeacon_desktop::json::{parse_json, render_json, Json};
use harborbeacon_desktop::mcp::{
    answer_tool_call, handle_request, handle_tool_call, parse_failure, tool_list, RpcAnswer,
    RpcStep, ToolCall,
};

fn json(raw: &str) -> Json {
    parse_json(raw).expect("a document")
}

fn run(raw: &str) -> Action {
    match handle_tool_call(&json(raw)) {
        ToolCall::Run(action) => action,
        other => panic!("unexpected: {:?}", other),
    }
}

#[test]
fn tools_on_offer() {
    assert_eq!(
        render_json(&tool_list()),
        concat_lines(&[
            r#"{"tools":[{"description":"Read a file inside the workspace (relative path).","inputSchema":{"properties":{"path":{"description":"Relative path to the file.","type":"string"}},"required":["path"],"type":"object"},"name":"read_file"},"#,
            r#"{"description":"List entries in a workspace directory.","inputSchema":{"properties":{"path":{"description":"Relative path to the directory.","type":"string"}},"required":["path"],"type":"object"},"name":"list_directory"},"#,
            r#"{"description":"Search for a text pattern in workspace files.","inputSchema":{"properties":{"path":{"description":"Relative directory to search.","type":"string"},"query":{"description":"Substring to find.","type":"string"}},"required":["path","query"],"type":"object"},"name":"search_text"}]}"#,
        ])
    );
}

fn concat_lines(lines: &[&str]) -> String {
    lines.concat()
}

#[test]
fn tool_calls() {
    assert_eq!(
        run(r#"{"name":"read_file","arguments":{"path":" a.md"}}"#),
        Action::Read(" a.md".to_string())
    );
    assert_eq!(run(r#"{"name":"read_file"}"#), Action::Read(String::new()));
    assert_eq!(run(r#"{"name":"list_directory"}"#), Action::List(".".to_string()));
    assert_eq!(
        run(r#"{"name":"search_text","arguments":{"query":"q","path":5}}"#),
        Action::Search { path: ".".to_string(), query: "q".to_string() }
    );
}

#[test]
fn unknown_tools() {
    match handle_tool_call(&json(r#"{"name":"rm"}"#)) {
        ToolCall::Answer(j) => assert_eq!(
            render_json(&j),
            r#"{"content":[{"text":"unknown tool: rm","type":"text"}],"isError":true}"#
        ),
        other => panic!("unexpected: {:?}", other),
    }
    assert!(matches!(handle_tool_call(&json("{}")), ToolCall::Answer(_)));
}

#[test]
fn tool_answers() {
    let ok = answer_tool_call(Ok(ActionResult { success: true, content: "c".to_string() }));
    assert_eq!(
        render_json(&ok),
        r#"{"content":[{"text":"c","type":"text"}],"isError":false}"#
    );
    let err = answer_tool_call(Err(BridgeError::PathEscape("../x".to_string())));
    assert_eq!(
        render_json(&err),
        r#"{"content":[{"text":"error: path escapes workspace sandbox: ../x","type":"text"}],"isError":true}"#
    );
}

#[test]
fn requests() {
    let none = json("null");
    match handle_request("initialize", &none, "1.2.3") {
        RpcStep::Answer(RpcAnswer::Result(j)) => assert_eq!(
            render_json(&j),
            r#"{"capabilities":{"tools":{}},"protocolVersion":"2024-11-05","serverInfo":{"name":"harborbeacon-desktop-mcp-server","version":"1.2.3"}}"#
        ),
        other => panic!("unexpected: {:?}", other),
    }
    assert!(matches!(
        handle_request("tools/list", &none, "1"),
        RpcStep::Answer(RpcAnswer::Result(_))
    ));
    match handle_request("tools/call", &json(r#"{"name":"list_directory"}"#), "1") {
        RpcStep::Run(action) => assert_eq!(action, Action::List(".".to_string())),
        other => panic!("unexpected: {:?}", other),
    }
    match handle_request("nope", &none, "1") {
        RpcStep::Answer(RpcAnswer::Error { code, message }) => {
            assert_eq!(code, -32601);
            assert_eq!(message, "method not found: nope");
        }
        other => panic!("unexpected: {:?}", other),
    }
    match parse_failure("bad") {
        RpcAnswer::Error { code, message } => {
            assert_eq!(code, -32700);
            assert_eq!(message, "parse error: bad");
        }
        other => panic!("unexpected: {:?}", other),
    }
}
