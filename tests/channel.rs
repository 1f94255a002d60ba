use mcp_ssh_sessions::channel::{
    is_ready_line, Bootstrap, BootstrapAction, BootstrapEvent, BootstrapPhase, ConnectError,
    Exchange, ExchangeError, READY_TIMEOUT_SECS, RELAY_SCRIPT,
};
use mcp_ssh_sessions::decode::{DecodeStep, ProtocolError};
use mcp_ssh_sessions::registry::SessionRegistry;
use mcp_ssh_sessions::request::{register_connected, ConnectFailure};

#[test]
fn readiness_marker() {
    assert!(is_ready_line("READY"));
    assert!(is_ready_line("relay READY now"));
    assert!(!is_ready_line("X11:NONE"));
    assert!(!is_ready_line("READ"));
    assert!(!is_ready_line(""));
}

#[test]
fn bootstrap_happy_path() {
    let mut b = Bootstrap::new();
    assert_eq!(b.step(BootstrapEvent::Uploaded { success: true }), BootstrapAction::StartTransport);
    assert_eq!(
        b.step(BootstrapEvent::Started { success: true }),
        BootstrapAction::AwaitReady { timeout_secs: READY_TIMEOUT_SECS }
    );
    assert_eq!(b.step(BootstrapEvent::ReadySignal), BootstrapAction::Complete);
    assert_eq!(b.phase, BootstrapPhase::Ready);
    assert_eq!(b.step(BootstrapEvent::ReadySignal), BootstrapAction::Ignore);
}

#[test]
fn bootstrap_failures() {
    let mut b = Bootstrap::new();
    assert_eq!(
        b.step(BootstrapEvent::Uploaded { success: false }),
        BootstrapAction::Abort(ConnectError::UploadFailed)
    );
    let mut b = Bootstrap::new();
    b.step(BootstrapEvent::Uploaded { success: true });
    assert_eq!(
        b.step(BootstrapEvent::Started { success: false }),
        BootstrapAction::Abort(ConnectError::StartFailed)
    );
}

#[test]
fn bootstrap_timeout_leaves_no_session() {
    let mut b = Bootstrap::new();
    b.step(BootstrapEvent::Uploaded { success: true });
    b.step(BootstrapEvent::Started { success: true });
    assert_eq!(
        b.step(BootstrapEvent::WaitTimedOut),
        BootstrapAction::KillAndAbort(ConnectError::BootstrapTimeout)
    );
    assert_eq!(b.step(BootstrapEvent::ReadySignal), BootstrapAction::Ignore);
    let mut reg: SessionRegistry<u32> = SessionRegistry::new();
    let r = register_connected(&mut reg, "h".to_string(), Err(ConnectError::BootstrapTimeout));
    assert!(matches!(r, Err(ConnectFailure::Bootstrap(ConnectError::BootstrapTimeout))));
    assert!(reg.list().is_empty());
}

#[test]
fn register_connected_conflict_hands_channel_back() {
    let mut reg: SessionRegistry<u32> = SessionRegistry::new();
    assert!(register_connected(&mut reg, "h".to_string(), Ok(1)).is_ok());
    let r = register_connected(&mut reg, "h".to_string(), Ok(2));
    assert!(matches!(r, Err(ConnectFailure::Conflict(2))));
    assert_eq!(reg.get("h"), Ok(&1));
}

/// A fake backend: records every write and read on the wire, in order.
#[test]
fn exchanges_never_interleave() {
    let mut ex = Exchange::new();
    let mut wire: Vec<String> = Vec::new();
    let first = ex.begin("echo one", false).unwrap();
    wire.push(format!("W {}", first.trim_end()));
    // a second request on the same channel must wait for the first response
    assert_eq!(ex.begin("echo two", false), Err(ExchangeError::Busy));
    assert!(ex.is_busy());
    assert_eq!(ex.on_line("one\n"), DecodeStep::Pending);
    wire.push("R one".to_string());
    let done = ex.on_line("<<<EXIT:0>>>\n");
    assert_eq!(done, DecodeStep::Complete { output: "one".to_string(), exit_code: 0 });
    wire.push("R <<<EXIT:0>>>".to_string());
    assert!(!ex.is_busy());
    let second = ex.begin("echo two", false).unwrap();
    wire.push(format!("W {}", second.trim_end()));
    assert_eq!(
        wire,
        vec![
            "W run \"echo one\"".to_string(),
            "R one".to_string(),
            "R <<<EXIT:0>>>".to_string(),
            "W run \"echo two\"".to_string(),
        ]
    );
}

#[test]
fn exchange_line_has_terminator_and_eof_ends_it() {
    let mut ex = Exchange::new();
    assert_eq!(ex.begin("id", true), Ok("sudo_run \"id\"\n".to_string()));
    assert_eq!(ex.on_line("uid=0\n"), DecodeStep::Pending);
    assert_eq!(ex.on_eof(), ProtocolError::UnexpectedEof { lines_read: 1 });
    assert!(!ex.is_busy());
    ex.begin("x", false).unwrap();
    ex.abandon();
    assert!(!ex.is_busy());
}

#[test]
fn relay_script_speaks_the_protocol() {
    assert!(RELAY_SCRIPT.contains("echo \"<<<EXIT:$?>>>\""));
    assert!(RELAY_SCRIPT.contains("echo \"READY\" >&2"));
    assert!(RELAY_SCRIPT.contains("sudo_run()"));
    assert!(RELAY_SCRIPT.lines().any(is_ready_line));
}
