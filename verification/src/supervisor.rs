//! Lifecycle of the process-wide runtime slot.
//!
//! The supervisor decides what a start, stop or command submission does to
//! the single session slot. The caller owns the thread and the command
//! channel; it carries out the returned decisions: spawning a worker, sending
//! a stop to the previous one, or forwarding a command.

use crate::mode::{mode_key_of, RunMode};
use crate::worker::RuntimeCmd;
use vstd::prelude::*;
use vstd::string::*;

verus! {

/// Error surfaced synchronously to a command submitter.
pub enum LbError {
    /// Commands were issued while no session is running.
    NoActiveSession,
    /// The worker thread has already exited, so its channel is closed.
    ChannelClosed,
}

impl LbError {
    /// The error text shown to the caller.
    pub fn message(&self) -> (r: String)
        ensures
            self is NoActiveSession ==> r@ == "Load bank polling not running"@,
            self is ChannelClosed ==> r@ == "runtime channel closed"@,
    {
        match self {
            LbError::NoActiveSession => "Load bank polling not running".to_owned(),
            LbError::ChannelClosed => "runtime channel closed".to_owned(),
        }
    }
}

/// Identity of the running session's handle: its mode key, baud rate, and a
/// serial number that distinguishes successive sessions.
pub struct SessionMeta {
    pub mode_key: String,
    pub baud: u32,
    pub session_id: u64,
}

/// Abstract slot contents.
pub struct SlotView {
    pub mode_key: Seq<char>,
    pub baud: u32,
    pub session_id: int,
}

/// Abstract supervisor state: the optional running session and the serial
/// number the next session will get.
pub struct SupervisorView {
    pub slot: Option<SlotView>,
    pub next_id: int,
}

/// Process-wide session slot: at most one session runs at a time.
pub struct Supervisor {
    pub slot: Option<SessionMeta>,
    pub next_id: u64,
}

impl View for Supervisor {
    type V = SupervisorView;

    open spec fn view(&self) -> SupervisorView {
        SupervisorView {
            slot: match self.slot {
                Option::None => Option::None,
                Option::Some(m) => Option::Some(
                    SlotView { mode_key: m.mode_key@, baud: m.baud, session_id: m.session_id as int },
                ),
            },
            next_id: self.next_id as int,
        }
    }
}

/// Effect of a start request on the supervisor state: reuse the running
/// session when its key and baud match, else replace the slot with a fresh
/// session. The flag says whether a new session was created.
pub open spec fn spec_start(s: SupervisorView, key: Seq<char>, baud: u32) -> (SupervisorView, bool) {
    if s.slot matches Some(m) && m.mode_key == key && m.baud == baud {
        (s, false)
    } else {
        (
            SupervisorView {
                slot: Some(SlotView { mode_key: key, baud, session_id: s.next_id }),
                next_id: s.next_id + 1,
            },
            true,
        )
    }
}

/// Law: starting is idempotent. After one start, a second start with the same
/// key and baud changes nothing and creates no new session handle.
pub proof fn lemma_start_idempotent(s: SupervisorView, key: Seq<char>, baud: u32)
    ensures
        ({
            let (s1, _c) = spec_start(s, key, baud);
            let (s2, created2) = spec_start(s1, key, baud);
            s2 == s1 && !created2
        }),
{
}

/// What the caller must do after a start request.
pub enum StartAction {
    /// The same session is already running; nothing to do.
    AlreadyRunning,
    /// Spawn a fresh worker; first stop and join the previous session when
    /// the flag says one was running.
    Start { stop_previous: bool },
}

impl Supervisor {
    /// An empty slot; the first session gets serial number zero.
    pub fn new() -> (s: Supervisor)
        ensures
            s@.slot is None,
            s@.next_id == 0,
    {
        Supervisor { slot: None, next_id: 0 }
    }

    /// Start request for the given selector and baud: a no-op when the same
    /// key and baud are already running, else the slot is replaced by a fresh
    /// session and the caller is told to spawn it (stopping any previous one
    /// first).
    pub fn start(&mut self, selector: &str, baud: u32) -> (r: StartAction)
        requires
            old(self).next_id < u64::MAX,
        ensures
            final(self)@ == spec_start(old(self)@, mode_key_of(selector@), baud).0,
            (r is AlreadyRunning) <==> !spec_start(old(self)@, mode_key_of(selector@), baud).1,
            r is AlreadyRunning ==> *final(self) == *old(self),
            r matches StartAction::Start { stop_previous } ==> stop_previous == (old(
                self,
            )@.slot is Some),
    {
        let mode = RunMode::from_port_name(selector);
        let key = mode.key();
        proof {
            assert(key@ == mode_key_of(selector@));
        }
        let same = match &self.slot {
            Some(m) => m.baud == baud && m.mode_key == key,
            None => false,
        };
        if same {
            return StartAction::AlreadyRunning;
        }
        let stop_previous = match &self.slot {
            Some(_) => true,
            None => false,
        };
        let id = self.next_id;
        self.next_id = id + 1;
        self.slot = Some(SessionMeta { mode_key: key, baud, session_id: id });
        StartAction::Start { stop_previous }
    }

    /// Stop request: empty the slot. Returns whether a session was running,
    /// so the caller knows to stop and join it.
    pub fn stop(&mut self) -> (had: bool)
        ensures
            had == (old(self)@.slot is Some),
            final(self)@.slot is None,
            final(self)@.next_id == old(self)@.next_id,
    {
        let had = match &self.slot {
            Some(_) => true,
            None => false,
        };
        self.slot = None;
        had
    }

    /// Submission of raw bytes to transmit: the command to forward, or the
    /// no-session error.
    pub fn write(&self, data: Vec<u8>) -> (r: Result<RuntimeCmd, LbError>)
        ensures
            r is Ok <==> self@.slot is Some,
            r matches Ok(cmd) ==> cmd matches RuntimeCmd::Write(d) && d@ == data@,
            r matches Err(e) ==> e is NoActiveSession,
    {
        match &self.slot {
            Some(_) => Ok(RuntimeCmd::Write(data)),
            None => Err(LbError::NoActiveSession),
        }
    }

    /// Submission of a polling configuration: the command to forward, or the
    /// no-session error.
    pub fn set_polling(&self, every_ms: u64, frame: Option<Vec<u8>>) -> (r: Result<
        RuntimeCmd,
        LbError,
    >)
        ensures
            r is Ok <==> self@.slot is Some,
            r matches Ok(cmd) ==> cmd matches RuntimeCmd::SetPolling { every_ms: e, frame: f }
                && e == every_ms && f == frame,
            r matches Err(e) ==> e is NoActiveSession,
    {
        match &self.slot {
            Some(_) => Ok(RuntimeCmd::SetPolling { every_ms, frame }),
            None => Err(LbError::NoActiveSession),
        }
    }
}

} // verus!
