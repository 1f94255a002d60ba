use mcp_ssh_sessions::request::{
    method_from_name, method_of, same_text, tool_call_from_fields, tool_call_of, Method,
    RequestError, ToolCall,
};
use mcp_ssh_sessions::text::{connected_text, decimal_text, disconnected_text, sessions_text};

fn parse(s: &str) -> serde_json::Value {
    serde_json::from_str(s).unwrap()
}

#[test]
fn methods() {
    assert_eq!(method_from_name("initialize"), Ok(Method::Initialize));
    assert_eq!(method_from_name("tools/list"), Ok(Method::ListTools));
    assert_eq!(method_from_name("tools/call"), Ok(Method::CallTool));
    assert_eq!(method_from_name("ping"), Err(RequestError::UnknownMethod("ping".to_string())));
    assert_eq!(method_of(&parse(r#"{"method":"tools/list"}"#)), Ok(Method::ListTools));
    assert_eq!(method_of(&parse(r#"{"method":3}"#)), Err(RequestError::MissingMethod));
    assert_eq!(method_of(&parse(r#"{}"#)), Err(RequestError::MissingMethod));
}

#[test]
fn connect_defaults_session_to_host() {
    let r = tool_call_from_fields("ssh_connect", Some("h1"), None, None, None);
    assert_eq!(
        r,
        Ok(ToolCall::Connect { host: "h1".to_string(), session_id: "h1".to_string() })
    );
    let r = tool_call_from_fields("ssh_connect", Some("h1"), Some("s"), None, None);
    assert_eq!(r, Ok(ToolCall::Connect { host: "h1".to_string(), session_id: "s".to_string() }));
    assert_eq!(
        tool_call_from_fields("ssh_connect", Some(""), None, None, None),
        Err(RequestError::EmptyHost)
    );
    assert_eq!(
        tool_call_from_fields("ssh_connect", None, None, None, None),
        Err(RequestError::MissingHost)
    );
}

#[test]
fn execute_validation() {
    assert_eq!(
        tool_call_from_fields("ssh_execute", None, Some("s"), Some("ls"), Some(true)),
        Ok(ToolCall::Execute {
            session_id: "s".to_string(),
            command: "ls".to_string(),
            sudo: true
        })
    );
    assert_eq!(
        tool_call_from_fields("ssh_execute", None, Some("s"), Some(""), None),
        Err(RequestError::EmptyCommand)
    );
    assert_eq!(
        tool_call_from_fields("ssh_execute", None, None, Some("ls"), None),
        Err(RequestError::MissingSessionId)
    );
    assert_eq!(
        tool_call_from_fields("ssh_execute", None, Some("s"), None, None),
        Err(RequestError::MissingCommand)
    );
}

#[test]
fn other_tools() {
    assert_eq!(
        tool_call_from_fields("ssh_disconnect", None, Some("s"), None, None),
        Ok(ToolCall::Disconnect { session_id: "s".to_string() })
    );
    assert_eq!(
        tool_call_from_fields("ssh_list_sessions", None, None, None, None),
        Ok(ToolCall::ListSessions)
    );
    assert_eq!(
        tool_call_from_fields("rm_rf", None, None, None, None),
        Err(RequestError::UnknownTool("rm_rf".to_string()))
    );
}

#[test]
fn tool_call_from_json() {
    let req = parse(
        r#"{"method":"tools/call","params":{"name":"ssh_execute","arguments":{"session_id":"a","command":"uptime","sudo":true}}}"#,
    );
    assert_eq!(
        tool_call_of(&req),
        Ok(ToolCall::Execute {
            session_id: "a".to_string(),
            command: "uptime".to_string(),
            sudo: true
        })
    );
    let req = parse(r#"{"params":{"name":"ssh_connect","arguments":{"host":"srv"}}}"#);
    assert_eq!(
        tool_call_of(&req),
        Ok(ToolCall::Connect { host: "srv".to_string(), session_id: "srv".to_string() })
    );
    let req = parse(r#"{"params":{"name":"ssh_connect","arguments":{"host":5}}}"#);
    assert_eq!(tool_call_of(&req), Err(RequestError::MissingHost));
    assert_eq!(tool_call_of(&parse(r#"{"params":{}}"#)), Err(RequestError::MissingToolName));
}

#[test]
fn texts() {
    assert!(same_text("abc", "abc"));
    assert!(!same_text("abc", "abd"));
    assert_eq!(decimal_text(0), "0");
    assert_eq!(decimal_text(1205), "1205");
    assert_eq!(connected_text("h", "s"), "Successfully connected to h (session: s)");
    assert_eq!(disconnected_text("s"), "Successfully disconnected session: s");
    assert_eq!(sessions_text(&Vec::new()), "No active SSH sessions");
    assert_eq!(
        sessions_text(&vec!["a".to_string(), "b".to_string()]),
        "Active SSH sessions (2):\n  - a\n  - b"
    );
}
