//! One remote execution channel, as decisions over plain events: the
//! bootstrap sequence, and the strictly serialised request/response exchange.
//! The caller performs the I/O each decision asks for and reports back.

use vstd::prelude::*;
use crate::codec::{encode_request, encode_spec};
use crate::decode::{
    matches_at, step_spec, trim_end_spec, DecodeStep, ProtocolError, ResponseDecoder,
};

verus! {

/// The execution loop run on the remote host: it announces readiness on
/// standard error, then evaluates each line it reads. `run` and `sudo_run`
/// merge standard error into the output and end it with the exit sentinel.
pub const RELAY_SCRIPT: &'static str = "#!/bin/bash

export SUDO_ASKPASS='/usr/bin/ssh-askpass'

# Check X11 forwarding
[ -n \"$DISPLAY\" ] && echo \"X11:$DISPLAY\" >&2 || echo \"X11:NONE\" >&2

# Command execution
run() {
    bash -c \"$*\" 2>&1
    echo \"<<<EXIT:$?>>>\"
}

# Sudo command execution  
sudo_run() {
    sudo -A bash -c \"$*\" 2>&1
    echo \"<<<EXIT:$?>>>\"
}

echo \"READY\" >&2

# Main loop
while IFS= read -r line; do
    eval \"$line\"
done
";

/// How long bootstrap waits for the readiness marker, in seconds.
pub const READY_TIMEOUT_SECS: u64 = 10;

/// Whether `pat` occurs somewhere in `s`.
pub open spec fn contains_spec(s: Seq<char>, pat: Seq<char>) -> bool {
    exists|i: int| 0 <= i && i + pat.len() <= s.len() && #[trigger] s.subrange(i, i + pat.len()) == pat
}

/// A diagnostic line that announces the remote loop is ready: it holds `READY`.
pub open spec fn is_ready_spec(line: Seq<char>) -> bool {
    contains_spec(line, "READY"@)
}

/// Whether a diagnostic line carries the readiness marker.
pub fn is_ready_line(line: &str) -> (r: bool)
    ensures
        r == is_ready_spec(line@),
{
    let pat = "READY";
    proof {
        reveal_strlit("READY");
    }
    let n = line.unicode_len();
    let m: usize = 5;
    if n < m {
        return false;
    }
    let mut i: usize = 0;
    while i <= n - m
        invariant
            n == line@.len(),
            m == pat@.len(),
            m == 5,
            pat@ == "READY"@,
            m <= n,
            i <= n - m + 1,
            forall|k: int| 0 <= k < i ==> #[trigger] line@.subrange(k, k + m) != pat@,
        decreases n - m + 1 - i,
    {
        if matches_at(line, pat, i) {
            assert(line@.subrange(i as int, i + pat@.len()) == pat@);
            return true;
        }
        i = i + 1;
    }
    false
}

/// Why a channel could not be opened.
#[derive(Debug, Clone, Copy, PartialEq, Eq, Structural)]
pub enum ConnectError {
    /// The execution-loop script could not be copied to the host.
    UploadFailed,
    /// The transport process could not be started.
    StartFailed,
    /// The readiness marker did not come within the bound.
    BootstrapTimeout,
}

/// Where a bootstrap stands.
#[derive(Debug, Clone, Copy, PartialEq, Eq, Structural)]
pub enum BootstrapPhase {
    Uploading,
    Starting,
    AwaitingReady,
    Ready,
    Failed,
}

/// What the caller observed.
#[derive(Debug, Clone, Copy, PartialEq, Eq, Structural)]
pub enum BootstrapEvent {
    /// The script copy finished, successfully or not.
    Uploaded { success: bool },
    /// The transport process was spawned, or could not be.
    Started { success: bool },
    /// The readiness signal fired.
    ReadySignal,
    /// The bounded wait for the signal ran out.
    WaitTimedOut,
}

/// What the caller must do next.
#[derive(Debug, Clone, Copy, PartialEq, Eq, Structural)]
pub enum BootstrapAction {
    /// Spawn the transport attached to the uploaded script.
    StartTransport,
    /// Wait for the readiness signal, at most this many seconds.
    AwaitReady { timeout_secs: u64 },
    /// The channel is live: hand it out.
    Complete,
    /// Give up; nothing is running that needs stopping.
    Abort(ConnectError),
    /// Terminate the transport process, then give up.
    KillAndAbort(ConnectError),
    /// The event does not apply in this phase.
    Ignore,
}

/// The bootstrap transition: phase and event to next phase and action.
pub open spec fn bootstrap_next(p: BootstrapPhase, e: BootstrapEvent) -> (
    BootstrapPhase,
    BootstrapAction,
) {
    match (p, e) {
        (BootstrapPhase::Uploading, BootstrapEvent::Uploaded { success }) => if success {
            (BootstrapPhase::Starting, BootstrapAction::StartTransport)
        } else {
            (BootstrapPhase::Failed, BootstrapAction::Abort(ConnectError::UploadFailed))
        },
        (BootstrapPhase::Starting, BootstrapEvent::Started { success }) => if success {
            (
                BootstrapPhase::AwaitingReady,
                BootstrapAction::AwaitReady { timeout_secs: READY_TIMEOUT_SECS },
            )
        } else {
            (BootstrapPhase::Failed, BootstrapAction::Abort(ConnectError::StartFailed))
        },
        (BootstrapPhase::AwaitingReady, BootstrapEvent::ReadySignal) => (
            BootstrapPhase::Ready,
            BootstrapAction::Complete,
        ),
        (BootstrapPhase::AwaitingReady, BootstrapEvent::WaitTimedOut) => (
            BootstrapPhase::Failed,
            BootstrapAction::KillAndAbort(ConnectError::BootstrapTimeout),
        ),
        _ => (p, BootstrapAction::Ignore),
    }
}

/// A bootstrap whose wait for readiness runs out fails with a timeout and
/// asks for the transport to be killed; after that no event can complete it,
/// so no channel comes out of it.
pub proof fn lemma_timeout_is_final(e: BootstrapEvent)
    ensures
        bootstrap_next(BootstrapPhase::AwaitingReady, BootstrapEvent::WaitTimedOut) == (
            BootstrapPhase::Failed,
            BootstrapAction::KillAndAbort(ConnectError::BootstrapTimeout),
        ),
        bootstrap_next(BootstrapPhase::Failed, e) == (
            BootstrapPhase::Failed,
            BootstrapAction::Ignore,
        ),
{
}

/// The decisions of one bootstrap attempt.
pub struct Bootstrap {
    pub phase: BootstrapPhase,
}

impl Bootstrap {
    pub fn new() -> (r: Self)
        ensures
            r.phase == BootstrapPhase::Uploading,
    {
        Bootstrap { phase: BootstrapPhase::Uploading }
    }

    /// Takes in one event and says what to do. A readiness signal that comes
    /// again, or after the wait ran out, changes nothing.
    pub fn step(&mut self, e: BootstrapEvent) -> (r: BootstrapAction)
        ensures
            (final(self).phase, r) == bootstrap_next(old(self).phase, e),
    {
        let (p, a) = match (self.phase, e) {
            (BootstrapPhase::Uploading, BootstrapEvent::Uploaded { success }) => if success {
                (BootstrapPhase::Starting, BootstrapAction::StartTransport)
            } else {
                (BootstrapPhase::Failed, BootstrapAction::Abort(ConnectError::UploadFailed))
            },
            (BootstrapPhase::Starting, BootstrapEvent::Started { success }) => if success {
                (
                    BootstrapPhase::AwaitingReady,
                    BootstrapAction::AwaitReady { timeout_secs: READY_TIMEOUT_SECS },
                )
            } else {
                (BootstrapPhase::Failed, BootstrapAction::Abort(ConnectError::StartFailed))
            },
            (BootstrapPhase::AwaitingReady, BootstrapEvent::ReadySignal) => (
                BootstrapPhase::Ready,
                BootstrapAction::Complete,
            ),
            (BootstrapPhase::AwaitingReady, BootstrapEvent::WaitTimedOut) => (
                BootstrapPhase::Failed,
                BootstrapAction::KillAndAbort(ConnectError::BootstrapTimeout),
            ),
            _ => (self.phase, BootstrapAction::Ignore),
        };
        self.phase = p;
        a
    }
}

/// Why an exchange could not start.
#[derive(Debug, Clone, Copy, PartialEq, Eq, Structural)]
pub enum ExchangeError {
    /// A request is already in flight on this channel.
    Busy,
}

/// The request/response side of a live channel. The protocol carries no
/// request identifiers, so at most one request is in flight: a new one is
/// refused until the previous response has ended.
pub struct Exchange {
    decoder: ResponseDecoder,
    in_flight: bool,
}

impl Exchange {
    pub closed spec fn wf(&self) -> bool {
        self.decoder.wf() && (!self.in_flight ==> self.decoder@.len() == 0)
    }

    /// Whether a request awaits its response.
    pub closed spec fn busy(&self) -> bool {
        self.in_flight
    }

    /// The output lines of the response so far.
    pub closed spec fn pending_output(&self) -> Seq<Seq<char>> {
        self.decoder@
    }

    pub fn new() -> (r: Self)
        ensures
            r.wf(),
            !r.busy(),
    {
        Exchange { decoder: ResponseDecoder::new(), in_flight: false }
    }

    pub fn is_busy(&self) -> (r: bool)
        ensures
            r == self.busy(),
    {
        self.in_flight
    }

    /// Starts a request: the line to write, terminator included. Refused
    /// while another request is in flight.
    pub fn begin(&mut self, command: &str, use_sudo: bool) -> (r: Result<String, ExchangeError>)
        requires
            old(self).wf(),
        ensures
            final(self).wf(),
            old(self).busy() ==> r == Err::<String, ExchangeError>(ExchangeError::Busy)
                && *final(self) == *old(self),
            !old(self).busy() ==> (r matches Ok(line) && line@ == encode_spec(command@, use_sudo)
                + seq!['\n'] && final(self).busy() && final(self).pending_output().len() == 0),
    {
        if self.in_flight {
            return Err(ExchangeError::Busy);
        }
        let mut line = encode_request(command, use_sudo);
        proof {
            reveal_strlit("\n");
        }
        line.append("\n");
        self.in_flight = true;
        Ok(line)
    }

    /// Takes in one raw line of the response. The exchange stays busy until
    /// the response ends.
    pub fn on_line(&mut self, raw: &str) -> (r: DecodeStep)
        requires
            old(self).wf(),
            old(self).busy(),
        ensures
            final(self).wf(),
            crate::decode::step_matches(
                r,
                step_spec(old(self).pending_output(), trim_end_spec(raw@)).0,
            ),
            final(self).pending_output() == step_spec(
                old(self).pending_output(),
                trim_end_spec(raw@),
            ).1,
            final(self).busy() == (r is Pending),
    {
        let r = self.decoder.feed_line(raw);
        self.in_flight = match r {
            DecodeStep::Pending => true,
            _ => false,
        };
        r
    }

    /// The stream closed before the sentinel.
    pub fn on_eof(&mut self) -> (r: ProtocolError)
        requires
            old(self).wf(),
        ensures
            final(self).wf(),
            !final(self).busy(),
            r == (ProtocolError::UnexpectedEof {
                lines_read: old(self).pending_output().len() as usize,
            }),
    {
        self.in_flight = false;
        self.decoder.finish_eof()
    }

    /// A read or write failed: the request is given up.
    pub fn abandon(&mut self)
        requires
            old(self).wf(),
        ensures
            final(self).wf(),
            !final(self).busy(),
    {
        self.in_flight = false;
        let _ = self.decoder.finish_eof();
    }
}

} // verus!
