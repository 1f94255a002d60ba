//! The outer operations: reading a JSON request into a typed call, and
//! registering a freshly bootstrapped channel.

use vstd::prelude::*;
use serde_json::Value;
use crate::channel::ConnectError;
use crate::registry::{insert_spec, SessionRegistry};

verus! {

#[verifier::external_type_specification]
#[verifier::external_body]
pub struct ExValue(serde_json::Value);

/// What `serde_json::Value::as_str` returns: depends on the value alone.
pub uninterp spec fn text_of(v: serde_json::Value) -> Option<Seq<char>>;

/// What `serde_json::Value::as_bool` returns: depends on the value alone.
pub uninterp spec fn bool_of(v: serde_json::Value) -> Option<bool>;

/// What `serde_json::Value::get` with a string key returns: depends on the
/// value and the key alone.
pub uninterp spec fn member_of(v: serde_json::Value, key: Seq<char>) -> Option<serde_json::Value>;

pub open spec fn opt_view(o: Option<&str>) -> Option<Seq<char>> {
    match o {
        Some(s) => Some(s@),
        None => None,
    }
}

pub open spec fn opt_value(o: Option<&Value>) -> Option<Value> {
    match o {
        Some(v) => Some(*v),
        None => None,
    }
}

/// `serde_json::Value::as_str`: the text of a JSON string, `None` otherwise.
pub assume_specification<'a>[ serde_json::Value::as_str ](v: &'a serde_json::Value) -> (r: Option<
    &'a str,
>)
    ensures
        opt_view(r) == text_of(*v),
;

/// `serde_json::Value::as_bool`: the value of a JSON boolean, `None` otherwise.
pub assume_specification[ serde_json::Value::as_bool ](v: &serde_json::Value) -> (r: Option<bool>)
    ensures
        r == bool_of(*v),
;

/// Relies on `serde_json::Value::get` with a string key: the member of that
/// name where `v` is an object that has one, `None` otherwise.
#[verifier::external_body]
fn member<'a>(v: &'a Value, key: &str) -> (r: Option<&'a Value>)
    ensures
        opt_value(r) == member_of(*v, key@),
{
    v.get(key)
}

/// The member `key` of `v`, where `v` is there and is an object that has one.
pub open spec fn member_in(v: Option<Value>, key: Seq<char>) -> Option<Value> {
    match v {
        Some(o) => member_of(o, key),
        None => None,
    }
}

/// The text of the string member `key` of `v`, if there is one.
pub open spec fn str_member(v: Option<Value>, key: Seq<char>) -> Option<Seq<char>> {
    match member_in(v, key) {
        Some(m) => text_of(m),
        None => None,
    }
}

/// The boolean member `key` of `v`, if there is one.
pub open spec fn bool_member(v: Option<Value>, key: Seq<char>) -> Option<bool> {
    match member_in(v, key) {
        Some(m) => bool_of(m),
        None => None,
    }
}

/// Whether two texts are equal.
pub fn same_text(a: &str, b: &str) -> (r: bool)
    ensures
        r == (a@ == b@),
{
    if a.unicode_len() != b.unicode_len() {
        return false;
    }
    let r = crate::decode::matches_at(a, b, 0);
    assert(a@.subrange(0, b@.len() as int) == a@);
    r
}

/// The methods of the outer protocol.
#[derive(Debug, Clone, Copy, PartialEq, Eq, Structural)]
pub enum Method {
    Initialize,
    ListTools,
    CallTool,
}

/// A request that cannot be served.
#[derive(Debug, PartialEq, Eq)]
pub enum RequestError {
    MissingMethod,
    UnknownMethod(String),
    MissingToolName,
    UnknownTool(String),
    /// `host` is absent or not a string.
    MissingHost,
    EmptyHost,
    /// `session_id` is absent or not a string.
    MissingSessionId,
    /// `command` is absent or not a string.
    MissingCommand,
    EmptyCommand,
}

/// A validated tool call.
#[derive(Debug, PartialEq, Eq)]
pub enum ToolCall {
    Connect { host: String, session_id: String },
    Execute { session_id: String, command: String, sudo: bool },
    Disconnect { session_id: String },
    ListSessions,
}

/// What a method name gives: its method, or the name back as unknown.
pub open spec fn method_result(name: Seq<char>, r: Result<Method, RequestError>) -> bool {
    &&& name == "initialize"@ ==> r == Ok::<Method, RequestError>(Method::Initialize)
    &&& name == "tools/list"@ ==> r == Ok::<Method, RequestError>(Method::ListTools)
    &&& name == "tools/call"@ ==> r == Ok::<Method, RequestError>(Method::CallTool)
    &&& name != "initialize"@ && name != "tools/list"@ && name != "tools/call"@ ==> (r matches Err(
        RequestError::UnknownMethod(m),
    ) && m@ == name)
}

/// Maps a method name to its method.
pub fn method_from_name(name: &str) -> (r: Result<Method, RequestError>)
    ensures
        method_result(name@, r),
{
    proof {
        reveal_strlit("initialize");
        reveal_strlit("tools/list");
        reveal_strlit("tools/call");
        assert("initialize"@[0] != "tools/list"@[0]);
        assert("initialize"@[0] != "tools/call"@[0]);
        assert("tools/list"@[6] != "tools/call"@[6]);
    }
    if same_text(name, "initialize") {
        Ok(Method::Initialize)
    } else if same_text(name, "tools/list") {
        Ok(Method::ListTools)
    } else if same_text(name, "tools/call") {
        Ok(Method::CallTool)
    } else {
        Err(RequestError::UnknownMethod(String::from_str(name)))
    }
}

/// What a tool call with these arguments gives: `sudo` defaults to false
/// and the session identifier of a connect defaults to the host.
pub open spec fn tool_call_result(
    name: Seq<char>,
    host: Option<Seq<char>>,
    session_id: Option<Seq<char>>,
    command: Option<Seq<char>>,
    sudo: Option<bool>,
    r: Result<ToolCall, RequestError>,
) -> bool {
    &&& name == "ssh_connect"@ ==> match host {
        None => r == Err::<ToolCall, RequestError>(RequestError::MissingHost),
        Some(h) => if h.len() == 0 {
            r == Err::<ToolCall, RequestError>(RequestError::EmptyHost)
        } else {
            r matches Ok(ToolCall::Connect { host: hh, session_id: id }) && hh@ == h && id@
                == match session_id {
                Some(s) => s,
                None => h,
            }
        },
    }
    &&& name == "ssh_execute"@ ==> match (session_id, command) {
        (None, _) => r == Err::<ToolCall, RequestError>(RequestError::MissingSessionId),
        (Some(_), None) => r == Err::<ToolCall, RequestError>(RequestError::MissingCommand),
        (Some(s), Some(c)) => if c.len() == 0 {
            r == Err::<ToolCall, RequestError>(RequestError::EmptyCommand)
        } else {
            r matches Ok(ToolCall::Execute { session_id: id, command: cc, sudo: su }) && id@
                == s && cc@ == c && su == match sudo {
                Some(b) => b,
                None => false,
            }
        },
    }
    &&& name == "ssh_disconnect"@ ==> match session_id {
        None => r == Err::<ToolCall, RequestError>(RequestError::MissingSessionId),
        Some(s) => r matches Ok(ToolCall::Disconnect { session_id: id }) && id@ == s,
    }
    &&& name == "ssh_list_sessions"@ ==> r == Ok::<ToolCall, RequestError>(ToolCall::ListSessions)
    &&& name != "ssh_connect"@ && name != "ssh_execute"@ && name != "ssh_disconnect"@ && name
        != "ssh_list_sessions"@ ==> (r matches Err(RequestError::UnknownTool(t)) && t@ == name)
}

/// Checks the arguments of a tool call. `sudo` defaults to false and the
/// session identifier of a connect defaults to the host.
pub fn tool_call_from_fields(
    name: &str,
    host: Option<&str>,
    session_id: Option<&str>,
    command: Option<&str>,
    sudo: Option<bool>,
) -> (r: Result<ToolCall, RequestError>)
    ensures
        tool_call_result(name@, opt_view(host), opt_view(session_id), opt_view(command), sudo, r),
{
    proof {
        reveal_strlit("ssh_connect");
        reveal_strlit("ssh_execute");
        reveal_strlit("ssh_disconnect");
        reveal_strlit("ssh_list_sessions");
        assert("ssh_connect"@[4] != "ssh_execute"@[4]);
        assert("ssh_connect"@.len() != "ssh_disconnect"@.len());
        assert("ssh_connect"@.len() != "ssh_list_sessions"@.len());
        assert("ssh_execute"@.len() != "ssh_disconnect"@.len());
        assert("ssh_execute"@.len() != "ssh_list_sessions"@.len());
        assert("ssh_disconnect"@.len() != "ssh_list_sessions"@.len());
    }
    if same_text(name, "ssh_connect") {
        match host {
            None => Err(RequestError::MissingHost),
            Some(h) => {
                if h.unicode_len() == 0 {
                    return Err(RequestError::EmptyHost);
                }
                let id = match session_id {
                    Some(s) => String::from_str(s),
                    None => String::from_str(h),
                };
                Ok(ToolCall::Connect { host: String::from_str(h), session_id: id })
            },
        }
    } else if same_text(name, "ssh_execute") {
        match (session_id, command) {
            (None, _) => Err(RequestError::MissingSessionId),
            (Some(_), None) => Err(RequestError::MissingCommand),
            (Some(s), Some(c)) => {
                if c.unicode_len() == 0 {
                    return Err(RequestError::EmptyCommand);
                }
                let su = match sudo {
                    Some(b) => b,
                    None => false,
                };
                Ok(
                    ToolCall::Execute {
                        session_id: String::from_str(s),
                        command: String::from_str(c),
                        sudo: su,
                    },
                )
            },
        }
    } else if same_text(name, "ssh_disconnect") {
        match session_id {
            None => Err(RequestError::MissingSessionId),
            Some(s) => Ok(ToolCall::Disconnect { session_id: String::from_str(s) }),
        }
    } else if same_text(name, "ssh_list_sessions") {
        Ok(ToolCall::ListSessions)
    } else {
        Err(RequestError::UnknownTool(String::from_str(name)))
    }
}

/// The string member `key` of `v`, if `v` is an object that has one.
fn string_member<'a>(v: Option<&'a Value>, key: &str) -> (r: Option<&'a str>)
    ensures
        opt_view(r) == str_member(opt_value(v), key@),
{
    match v {
        Some(o) => match member(o, key) {
            Some(m) => m.as_str(),
            None => None,
        },
        None => None,
    }
}

/// The method of a request.
pub fn method_of(request: &Value) -> (r: Result<Method, RequestError>)
    ensures
        match str_member(Some(*request), "method"@) {
            None => r == Err::<Method, RequestError>(RequestError::MissingMethod),
            Some(m) => method_result(m, r),
        },
{
    match string_member(Some(request), "method") {
        None => Err(RequestError::MissingMethod),
        Some(m) => method_from_name(m),
    }
}

/// The tool call a `tools/call` request carries: its name is read from
/// `params.name`, its arguments from `params.arguments`.
pub fn tool_call_of(request: &Value) -> (r: Result<ToolCall, RequestError>)
    ensures
        ({
            let params = member_of(*request, "params"@);
            let args = member_in(params, "arguments"@);
            match str_member(params, "name"@) {
                None => r == Err::<ToolCall, RequestError>(RequestError::MissingToolName),
                Some(name) => tool_call_result(
                    name,
                    str_member(args, "host"@),
                    str_member(args, "session_id"@),
                    str_member(args, "command"@),
                    bool_member(args, "sudo"@),
                    r,
                ),
            }
        }),
{
    let params = member(request, "params");
    let name = match string_member(params, "name") {
        None => {
            return Err(RequestError::MissingToolName);
        },
        Some(n) => n,
    };
    let args = match params {
        Some(p) => member(p, "arguments"),
        None => None,
    };
    let sudo = match args {
        Some(a) => match member(a, "sudo") {
            Some(b) => b.as_bool(),
            None => None,
        },
        None => None,
    };
    tool_call_from_fields(
        name,
        string_member(args, "host"),
        string_member(args, "session_id"),
        string_member(args, "command"),
        sudo,
    )
}

/// Why a connect did not leave a session behind.
pub enum ConnectFailure<C> {
    /// Bootstrap failed; no channel exists.
    Bootstrap(ConnectError),
    /// The identifier was taken meanwhile; the live channel is handed back
    /// for teardown.
    Conflict(C),
}

/// Registers the result of a bootstrap under `id`. A failed bootstrap, a
/// timeout included, leaves the registry as it was.
pub fn register_connected<C>(
    registry: &mut SessionRegistry<C>,
    id: String,
    outcome: Result<C, ConnectError>,
) -> (r: Result<(), ConnectFailure<C>>)
    requires
        old(registry).wf(),
    ensures
        final(registry).wf(),
        match outcome {
            Err(e) => r == Err::<(), ConnectFailure<C>>(ConnectFailure::Bootstrap(e))
                && final(registry)@ == old(registry)@,
            Ok(c) => match insert_spec(old(registry)@, id@, c) {
                Some(es) => r is Ok && final(registry)@ == es,
                None => r == Err::<(), ConnectFailure<C>>(ConnectFailure::Conflict(c))
                    && final(registry)@ == old(registry)@,
            },
        },
{
    match outcome {
        Err(e) => Err(ConnectFailure::Bootstrap(e)),
        Ok(c) => match registry.insert(id, c) {
            Ok(()) => Ok(()),
            Err((_, c)) => Err(ConnectFailure::Conflict(c)),
        },
    }
}

} // verus!
