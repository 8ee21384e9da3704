//! Worker state machine of one polling session.
//!
//! The worker owns the session state: acquisition mode, receive buffer,
//! polling configuration, link-health tracking and timers. Every method is a
//! pure state transition: the caller performs the serial input/output around
//! it, hands the worker plain values (received bytes, the current monotonic
//! time in milliseconds, open results) and carries out the returned decisions
//! (bytes to transmit, events to emit).

use crate::codec::{
    find_first_valid_status, first_valid_from, status_matches_frame, LoadBankStatus, LB_FRAME_LEN,
};
use crate::diag::{hex_of, to_hex};
use crate::mode::RunMode;
use vstd::prelude::*;
use vstd::slice::{slice_subrange, slice_to_vec};
use vstd::string::*;

verus! {

/// Floor kept in the receive buffer when trimming; the ceiling is four times
/// this many bytes.
pub const BUF_KEEP: usize = 2048;

/// Link-health event: emitted on every online/offline transition and on
/// open or read failures.
pub struct LoadBankHealth {
    pub port_name: String,
    pub online: bool,
    pub last_seen_ms: u128,
    pub reason: Option<String>,
}

/// Raw received chunk with its hex rendering, for diagnostics.
pub struct SerialRxChunk {
    pub port_name: String,
    pub bytes: Vec<u8>,
    pub hex: String,
}

/// Raw transmitted chunk with its hex rendering, for diagnostics.
pub struct SerialTxChunk {
    pub port_name: String,
    pub bytes: Vec<u8>,
    pub hex: String,
}

/// Commands accepted by a running session, applied in submission order.
pub enum RuntimeCmd {
    /// Transmit the given bytes immediately; ignored while no port is open.
    Write(Vec<u8>),
    /// Configure polling: an interval of zero disables the timer, an absent
    /// frame disables the periodic write while keeping the timer inert.
    SetPolling { every_ms: u64, frame: Option<Vec<u8>> },
    /// End the session.
    Stop,
}

/// Milliseconds passed since `last`, by a clock that reads `now`; zero when
/// the clock appears to have moved backwards.
pub open spec fn elapsed_ms(last: u64, now: u64) -> int {
    if now >= last {
        now - last
    } else {
        0
    }
}

fn elapsed(last: u64, now: u64) -> (r: u64)
    ensures
        r == elapsed_ms(last, now),
{
    if now >= last {
        now - last
    } else {
        0
    }
}

/// State of one polling session.
pub struct Worker {
    /// Acquisition mode, fixed for the life of the session.
    pub mode: RunMode,
    /// Baud rate, fixed for the life of the session.
    pub baud: u32,
    /// Silence longer than this while online drops the port.
    pub offline_after_ms: u64,
    /// Minimum delay between two acquisition attempts.
    pub scan_every_ms: u64,
    /// How long one auto-discovery candidate is listened to.
    pub probe_window_ms: u64,
    /// Whether valid frames have been seen recently.
    pub online: bool,
    /// Time of the last decoded frame (or of adoption).
    pub last_seen_ms: u64,
    /// Time of the last acquisition attempt.
    pub last_scan_ms: u64,
    /// Name of the adopted port; empty while disconnected.
    pub active_port_name: String,
    /// Whether a port handle is currently held by the caller.
    pub port_open: bool,
    /// Receive buffer: bytes read but not yet consumed as frames.
    pub buf: Vec<u8>,
    /// Polling interval; zero disables periodic writes.
    pub poll_every_ms: u64,
    /// Frame written on each poll, when configured.
    pub poll_frame: Option<Vec<u8>>,
    /// Time of the last periodic write.
    pub last_poll_ms: u64,
}

/// The fields fixed at session start agree between two states.
pub open spec fn same_config(a: Worker, b: Worker) -> bool {
    &&& a.mode == b.mode
    &&& a.baud == b.baud
    &&& a.offline_after_ms == b.offline_after_ms
    &&& a.scan_every_ms == b.scan_every_ms
    &&& a.probe_window_ms == b.probe_window_ms
}

/// The polling configuration agrees between two states.
pub open spec fn same_polling(a: Worker, b: Worker) -> bool {
    &&& a.poll_every_ms == b.poll_every_ms
    &&& a.poll_frame == b.poll_frame
    &&& a.last_poll_ms == b.last_poll_ms
}

/// Name reported in health events: the adopted port, else the fixed selector,
/// else a placeholder for auto-discovery.
pub open spec fn spec_health_port_name(w: Worker) -> Seq<char> {
    if w.active_port_name@.len() > 0 {
        w.active_port_name@
    } else {
        match w.mode {
            RunMode::Fixed(p) => p@,
            RunMode::Auto => "(auto)"@,
        }
    }
}

/// The receive buffer after bound enforcement: over the ceiling of
/// `4 * BUF_KEEP` bytes, only the last `BUF_KEEP` bytes survive.
pub open spec fn trim_tail(s: Seq<u8>) -> Seq<u8> {
    if s.len() > 4 * BUF_KEEP {
        s.skip(s.len() - BUF_KEEP)
    } else {
        s
    }
}

/// The byte windows of the frames that scanning extracts from `buf`, in
/// consumption order: repeatedly take the first valid frame and continue
/// right after it.
pub open spec fn extracted_frames(buf: Seq<u8>) -> Seq<Seq<u8>>
    decreases buf.len(),
{
    match first_valid_from(buf, 0) {
        Option::None => Seq::empty(),
        Option::Some(off) => {
            if 0 <= off && off + LB_FRAME_LEN <= buf.len() {
                seq![buf.subrange(off, off + LB_FRAME_LEN)] + extracted_frames(
                    buf.skip(off + LB_FRAME_LEN),
                )
            } else {
                Seq::empty()
            }
        },
    }
}

/// What remains of `buf` after every extractable frame has been consumed.
pub open spec fn frames_rest(buf: Seq<u8>) -> Seq<u8>
    decreases buf.len(),
{
    match first_valid_from(buf, 0) {
        Option::None => buf,
        Option::Some(off) => {
            if 0 <= off && off + LB_FRAME_LEN <= buf.len() {
                frames_rest(buf.skip(off + LB_FRAME_LEN))
            } else {
                buf
            }
        },
    }
}

impl Worker {
    /// Fresh session state: offline, no port, empty buffer, polling disabled,
    /// and the first acquisition attempt due immediately.
    pub fn new(mode: RunMode, baud: u32, now_ms: u64) -> (w: Worker)
        ensures
            w.mode == mode,
            w.baud == baud,
            w.offline_after_ms == 800,
            w.scan_every_ms == 500,
            w.probe_window_ms == 250,
            !w.online,
            w.last_seen_ms == now_ms,
            w.last_scan_ms == if now_ms >= 500 {
                now_ms - 500
            } else {
                0
            },
            w.active_port_name@.len() == 0,
            !w.port_open,
            w.buf@.len() == 0,
            w.poll_every_ms == 0,
            w.poll_frame is None,
            w.last_poll_ms == now_ms,
    {
        let last_scan_ms = if now_ms >= 500 {
            now_ms - 500
        } else {
            0
        };
        Worker {
            mode,
            baud,
            offline_after_ms: 800,
            scan_every_ms: 500,
            probe_window_ms: 250,
            online: false,
            last_seen_ms: now_ms,
            last_scan_ms,
            active_port_name: String::new(),
            port_open: false,
            buf: Vec::new(),
            poll_every_ms: 0,
            poll_frame: None,
            last_poll_ms: now_ms,
        }
    }

    /// Port name used in health events.
    pub fn health_port_name(&self) -> (r: String)
        ensures
            r@ == spec_health_port_name(*self),
    {
        if self.active_port_name.as_str().unicode_len() > 0 {
            self.active_port_name.clone()
        } else {
            match &self.mode {
                RunMode::Fixed(p) => p.clone(),
                RunMode::Auto => "(auto)".to_owned(),
            }
        }
    }

    /// Health event describing the current state, with the given flag and
    /// reason.
    pub fn health_event(&self, online: bool, now_ms: u64, reason: Option<String>) -> (h:
        LoadBankHealth)
        ensures
            h.port_name@ == spec_health_port_name(*self),
            h.online == online,
            h.last_seen_ms == elapsed_ms(self.last_seen_ms, now_ms),
            h.reason == reason,
    {
        LoadBankHealth {
            port_name: self.health_port_name(),
            online,
            last_seen_ms: elapsed(self.last_seen_ms, now_ms) as u128,
            reason,
        }
    }

    /// Drop the adopted port: go offline, clear the adopted name and the
    /// buffer. Returns the offline health event when there was a port or the
    /// session was online, with the given reason.
    pub fn drop_port(&mut self, reason: &str, now_ms: u64) -> (r: Option<LoadBankHealth>)
        ensures
            r is Some <==> (old(self).port_open || old(self).online),
            r matches Some(h) ==> {
                &&& !h.online
                &&& h.port_name@ == spec_health_port_name(*old(self))
                &&& h.last_seen_ms == elapsed_ms(old(self).last_seen_ms, now_ms)
                &&& h.reason matches Some(t) && t@ == reason@
            },
            !final(self).online,
            !final(self).port_open,
            final(self).active_port_name@.len() == 0,
            final(self).buf@.len() == 0,
            same_config(*final(self), *old(self)),
            same_polling(*final(self), *old(self)),
            final(self).last_seen_ms == old(self).last_seen_ms,
            final(self).last_scan_ms == old(self).last_scan_ms,
    {
        let r = if self.port_open || self.online {
            Some(self.health_event(false, now_ms, Some(reason.to_owned())))
        } else {
            None
        };
        self.online = false;
        self.port_open = false;
        self.active_port_name = String::new();
        self.buf = Vec::new();
        r
    }

    /// Transmit decision for raw bytes: the chunk to write and emit when a
    /// port is open, nothing otherwise.
    pub fn tx_chunk(&self, bytes: &[u8]) -> (r: Option<SerialTxChunk>)
        ensures
            r is Some <==> self.port_open,
            r matches Some(c) ==> {
                &&& c.port_name@ == spec_health_port_name(*self)
                &&& c.bytes@ == bytes@
                &&& c.hex@ == hex_of(bytes@)
            },
    {
        if self.port_open {
            Some(
                SerialTxChunk {
                    port_name: self.health_port_name(),
                    bytes: slice_to_vec(bytes),
                    hex: to_hex(bytes),
                },
            )
        } else {
            None
        }
    }

    /// Record a received chunk: append it to the buffer and describe it for
    /// diagnostics.
    pub fn read_chunk(&mut self, chunk: &[u8]) -> (r: SerialRxChunk)
        ensures
            final(self).buf@ == old(self).buf@ + chunk@,
            *final(self) == (Worker { buf: final(self).buf, ..*old(self) }),
            r.port_name@ == spec_health_port_name(*old(self)),
            r.bytes@ == chunk@,
            r.hex@ == hex_of(chunk@),
    {
        let r = SerialRxChunk {
            port_name: self.health_port_name(),
            bytes: slice_to_vec(chunk),
            hex: to_hex(chunk),
        };
        let mut tail = slice_to_vec(chunk);
        self.buf.append(&mut tail);
        r
    }

    /// Update the polling configuration and restart its timer.
    pub fn set_polling(&mut self, every_ms: u64, frame: Option<Vec<u8>>, now_ms: u64)
        ensures
            *final(self) == (Worker {
                poll_every_ms: every_ms,
                poll_frame: frame,
                last_poll_ms: now_ms,
                ..*old(self)
            }),
    {
        self.poll_every_ms = every_ms;
        self.poll_frame = frame;
        self.last_poll_ms = now_ms;
    }

    /// Periodic-poll decision: returns the configured frame exactly when the
    /// interval is enabled and has elapsed, a frame is configured and a port
    /// is open; marks the poll time when it does.
    pub fn poll_if_due(&mut self, now_ms: u64) -> (r: Option<Vec<u8>>)
        ensures
            r is Some <==> {
                &&& old(self).poll_every_ms != 0
                &&& elapsed_ms(old(self).last_poll_ms, now_ms) >= old(self).poll_every_ms
                &&& old(self).poll_frame is Some
                &&& old(self).port_open
            },
            r matches Some(f) ==> {
                &&& old(self).poll_frame matches Some(pf) && f@ == pf@
                &&& *final(self) == (Worker { last_poll_ms: now_ms, ..*old(self) })
            },
            r is None ==> *final(self) == *old(self),
    {
        if self.poll_every_ms == 0 {
            return None;
        }
        if elapsed(self.last_poll_ms, now_ms) < self.poll_every_ms {
            return None;
        }
        if !self.port_open {
            return None;
        }
        match &self.poll_frame {
            Some(f) => {
                let out = f.clone();
                proof {
                    assert(out@ == self.poll_frame->0@);
                }
                self.last_poll_ms = now_ms;
                Some(out)
            },
            None => None,
        }
    }

    /// Acquisition rate limit: true when a new attempt is allowed, marking
    /// the attempt time; false while the previous attempt is too recent.
    pub fn scan_due(&mut self, now_ms: u64) -> (due: bool)
        ensures
            due <==> elapsed_ms(old(self).last_scan_ms, now_ms) >= old(self).scan_every_ms,
            due ==> *final(self) == (Worker { last_scan_ms: now_ms, ..*old(self) }),
            !due ==> *final(self) == *old(self),
    {
        if elapsed(self.last_scan_ms, now_ms) >= self.scan_every_ms {
            self.last_scan_ms = now_ms;
            true
        } else {
            false
        }
    }

    /// Adopt a fixed port that the caller has just opened: it becomes active
    /// immediately, still offline until frames arrive. Returns the health
    /// event announcing the connection.
    pub fn adopt_fixed(&mut self, fixed_port: &str, now_ms: u64) -> (h: LoadBankHealth)
        ensures
            final(self).active_port_name@ == fixed_port@,
            final(self).port_open,
            final(self).last_seen_ms == now_ms,
            final(self).online == old(self).online,
            final(self).buf == old(self).buf,
            same_config(*final(self), *old(self)),
            same_polling(*final(self), *old(self)),
            final(self).last_scan_ms == old(self).last_scan_ms,
            h.port_name@ == spec_health_port_name(*final(self)),
            !h.online,
            h.last_seen_ms == 0,
            h.reason matches Some(t) && t@ == "connected (awaiting frames)"@,
    {
        self.active_port_name = fixed_port.to_owned();
        self.port_open = true;
        self.last_seen_ms = now_ms;
        self.health_event(false, now_ms, Some("connected (awaiting frames)".to_owned()))
    }

    /// Health event for a failed open attempt, with the failure text.
    pub fn open_failed(&self, err: &str, now_ms: u64) -> (h: LoadBankHealth)
        ensures
            h.port_name@ == spec_health_port_name(*self),
            !h.online,
            h.last_seen_ms == elapsed_ms(self.last_seen_ms, now_ms),
            h.reason matches Some(t) && t@ == "open failed: "@ + err@,
    {
        let mut msg = "open failed: ".to_owned();
        msg.append(err);
        self.health_event(false, now_ms, Some(msg))
    }

    /// Adopt an auto-discovered port whose probe yielded a valid frame at
    /// `offset` of the probe buffer: the candidate becomes active and online,
    /// and the probe bytes after the consumed frame carry over into the
    /// session buffer. Returns the online health event.
    pub fn adopt_auto(&mut self, candidate: &str, probe_buf: &[u8], offset: usize, now_ms: u64) -> (h:
        LoadBankHealth)
        requires
            offset + LB_FRAME_LEN <= probe_buf@.len(),
        ensures
            final(self).active_port_name@ == candidate@,
            final(self).port_open,
            final(self).online,
            final(self).last_seen_ms == now_ms,
            final(self).buf@ == old(self).buf@ + probe_buf@.skip(offset + LB_FRAME_LEN),
            same_config(*final(self), *old(self)),
            same_polling(*final(self), *old(self)),
            final(self).last_scan_ms == old(self).last_scan_ms,
            h.port_name@ == spec_health_port_name(*final(self)),
            h.online,
            h.last_seen_ms == 0,
            h.reason is None,
    {
        self.active_port_name = candidate.to_owned();
        self.port_open = true;
        let n = probe_buf.len();
        let consume_to = offset + LB_FRAME_LEN;
        let mut tail = slice_to_vec(slice_subrange(probe_buf, consume_to, n));
        self.buf.append(&mut tail);
        self.last_seen_ms = now_ms;
        self.online = true;
        self.health_event(true, now_ms, None)
    }

    /// Extract and hand out every decodable frame, in buffer order.
    ///
    /// While a port is adopted, repeatedly take the first valid frame out of
    /// the buffer, decode it, and mark the link as seen now; the first frame
    /// after being offline also produces the online health event. Afterwards
    /// the buffer bound is enforced: it never leaves this method longer than
    /// `4 * BUF_KEEP` bytes.
    pub fn parse_frames(&mut self, now_ms: u64) -> (r: (Vec<LoadBankStatus>, Option<
        LoadBankHealth,
    >))
        ensures
            same_config(*final(self), *old(self)),
            same_polling(*final(self), *old(self)),
            final(self).last_scan_ms == old(self).last_scan_ms,
            final(self).port_open == old(self).port_open,
            final(self).active_port_name == old(self).active_port_name,
            final(self).buf@.len() <= 4 * BUF_KEEP,
            old(self).active_port_name@.len() == 0 ==> {
                &&& r.0@.len() == 0
                &&& r.1 is None
                &&& final(self).buf@ == trim_tail(old(self).buf@)
                &&& final(self).online == old(self).online
                &&& final(self).last_seen_ms == old(self).last_seen_ms
            },
            old(self).active_port_name@.len() > 0 ==> {
                let frames = extracted_frames(old(self).buf@);
                &&& r.0@.len() == frames.len()
                &&& (forall|k: int|
                    0 <= k < frames.len() ==> status_matches_frame(
                        #[trigger] r.0@[k],
                        frames[k],
                        old(self).active_port_name@,
                    ))
                &&& final(self).buf@ == trim_tail(frames_rest(old(self).buf@))
                &&& final(self).online == (old(self).online || frames.len() > 0)
                &&& (if frames.len() > 0 {
                    final(self).last_seen_ms == now_ms
                } else {
                    final(self).last_seen_ms == old(self).last_seen_ms
                })
                &&& (r.1 is Some <==> (!old(self).online && frames.len() > 0))
                &&& (r.1 matches Some(h) ==> {
                    &&& h.online
                    &&& h.port_name@ == old(self).active_port_name@
                    &&& h.last_seen_ms == 0
                    &&& h.reason is None
                })
            },
    {
        let mut statuses: Vec<LoadBankStatus> = Vec::new();
        let mut transition: Option<LoadBankHealth> = None;
        let ghost b0 = self.buf@;
        let ghost port = self.active_port_name@;
        let ghost w0 = *self;
        if self.active_port_name.as_str().unicode_len() > 0 {
            let ghost mut gframes: Seq<Seq<u8>> = Seq::empty();
            proof {
                assert(gframes + extracted_frames(self.buf@) =~= extracted_frames(b0));
            }
            loop
                invariant
                    self.active_port_name@ == port,
                    port.len() > 0,
                    same_config(*self, w0),
                    same_polling(*self, w0),
                    self.last_scan_ms == w0.last_scan_ms,
                    self.port_open == w0.port_open,
                    self.active_port_name == w0.active_port_name,
                    extracted_frames(b0) == gframes + extracted_frames(self.buf@),
                    frames_rest(b0) == frames_rest(self.buf@),
                    statuses@.len() == gframes.len(),
                    forall|k: int|
                        0 <= k < gframes.len() ==> status_matches_frame(
                            #[trigger] statuses@[k],
                            gframes[k],
                            port,
                        ),
                    self.online == (w0.online || gframes.len() > 0),
                    (if gframes.len() > 0 {
                        self.last_seen_ms == now_ms
                    } else {
                        self.last_seen_ms == w0.last_seen_ms
                    }),
                    (transition is Some <==> (!w0.online && gframes.len() > 0)),
                    transition matches Some(h) ==> {
                        &&& h.online
                        &&& h.port_name@ == port
                        &&& h.last_seen_ms == 0
                        &&& h.reason is None
                    },
                ensures
                    first_valid_from(self.buf@, 0) is None,
                decreases self.buf@.len(),
            {
                let found = find_first_valid_status(
                    self.buf.as_slice(),
                    self.active_port_name.as_str(),
                );
                match found {
                    None => {
                        break ;
                    },
                    Some((offset, status)) => {
                        let blen = self.buf.len();
                        let consume_to = offset + LB_FRAME_LEN;
                        let ghost prev = self.buf@;
                        proof {
                            assert(extracted_frames(prev) == seq![
                                prev.subrange(offset as int, offset + LB_FRAME_LEN),
                            ] + extracted_frames(prev.skip(offset + LB_FRAME_LEN)));
                        }
                        self.buf = slice_to_vec(
                            slice_subrange(self.buf.as_slice(), consume_to, blen),
                        );
                        proof {
                            assert(self.buf@ =~= prev.skip(consume_to as int));
                            gframes = gframes.push(
                                prev.subrange(offset as int, offset + LB_FRAME_LEN),
                            );
                            assert(gframes + extracted_frames(self.buf@) =~= extracted_frames(
                                b0,
                            ));
                        }
                        self.last_seen_ms = now_ms;
                        if !self.online {
                            self.online = true;
                            transition = Some(self.health_event(true, now_ms, None));
                        }
                        statuses.push(status);
                    },
                }
            }
            proof {
                assert(extracted_frames(self.buf@) =~= Seq::<Seq<u8>>::empty());
                assert(gframes + extracted_frames(self.buf@) =~= gframes);
                assert(frames_rest(self.buf@) == self.buf@);
            }
        }
        if self.buf.len() > BUF_KEEP * 4 {
            let blen = self.buf.len();
            let start = blen - BUF_KEEP;
            let ghost pre_trim = self.buf@;
            self.buf = slice_to_vec(slice_subrange(self.buf.as_slice(), start, blen));
            proof {
                assert(self.buf@ =~= trim_tail(pre_trim));
            }
        }
        (statuses, transition)
    }

    /// Liveness check: while online, silence longer than the configured
    /// threshold drops the port and returns exactly one offline event with
    /// reason `"no valid frames"`; otherwise nothing changes.
    pub fn offline_check(&mut self, now_ms: u64) -> (r: Option<LoadBankHealth>)
        ensures
            r is Some <==> (old(self).online && elapsed_ms(old(self).last_seen_ms, now_ms) > old(
                self,
            ).offline_after_ms),
            r matches Some(h) ==> {
                &&& !h.online
                &&& h.port_name@ == spec_health_port_name(*old(self))
                &&& h.last_seen_ms == elapsed_ms(old(self).last_seen_ms, now_ms)
                &&& h.reason matches Some(t) && t@ == "no valid frames"@
                &&& !final(self).online
                &&& !final(self).port_open
                &&& final(self).active_port_name@.len() == 0
                &&& final(self).buf@.len() == 0
                &&& same_config(*final(self), *old(self))
                &&& same_polling(*final(self), *old(self))
            },
            r is None ==> *final(self) == *old(self),
    {
        if self.online && elapsed(self.last_seen_ms, now_ms) > self.offline_after_ms {
            self.drop_port("no valid frames", now_ms)
        } else {
            None
        }
    }
}

/// What the caller should do next to acquire a port.
pub enum AcquisitionPlan {
    /// A port is already open; nothing to acquire.
    AlreadyOpen,
    /// The previous attempt is too recent; try again later.
    NotYet,
    /// Attempt to open this fixed port now.
    OpenFixed(String),
    /// Enumerate candidate ports and probe each now.
    ScanAuto,
}

/// Receive buffer of one auto-discovery probe: bytes read from a candidate
/// port while testing whether it speaks the protocol.
pub struct Probe {
    pub buf: Vec<u8>,
}

impl Probe {
    /// An empty probe buffer.
    pub fn new() -> (p: Probe)
        ensures
            p.buf@.len() == 0,
    {
        Probe { buf: Vec::new() }
    }

    /// Feed bytes read from the candidate and look for a first valid frame.
    /// Without a match the probe buffer is kept, trimmed to its last 1024
    /// bytes once it exceeds 4096; with a match it is kept whole so the bytes
    /// after the frame can carry over into the session.
    pub fn feed(&mut self, chunk: &[u8], port_name: &str) -> (r: Option<(usize, LoadBankStatus)>)
        ensures
            ({
                let merged = old(self).buf@ + chunk@;
                &&& (r is Some <==> first_valid_from(merged, 0) is Some)
                &&& (r is None ==> final(self).buf@ == (if merged.len() > 4096 {
                    merged.skip(merged.len() - 1024)
                } else {
                    merged
                }))
                &&& (r is None ==> final(self).buf@.len() <= 4096)
                &&& (r matches Some((off, st)) ==> {
                    &&& final(self).buf@ == merged
                    &&& Some(off as int) == first_valid_from(merged, 0)
                    &&& off + LB_FRAME_LEN <= merged.len()
                    &&& status_matches_frame(
                        st,
                        merged.subrange(off as int, off + LB_FRAME_LEN),
                        port_name@,
                    )
                })
            }),
    {
        let mut tail = slice_to_vec(chunk);
        self.buf.append(&mut tail);
        match find_first_valid_status(self.buf.as_slice(), port_name) {
            Some((off, st)) => Some((off, st)),
            None => {
                if self.buf.len() > 4096 {
                    let blen = self.buf.len();
                    let start = blen - 1024;
                    self.buf = slice_to_vec(slice_subrange(self.buf.as_slice(), start, blen));
                }
                None
            },
        }
    }
}

impl Worker {
    /// Acquisition decision for one loop iteration: nothing while a port is
    /// open; otherwise, once the scan interval has elapsed, an open attempt
    /// for the fixed port or a scan over candidates, marking the attempt
    /// time. Between due attempts the state is untouched.
    pub fn acquisition_plan(&mut self, now_ms: u64) -> (r: AcquisitionPlan)
        ensures
            old(self).port_open ==> r is AlreadyOpen && *final(self) == *old(self),
            (!old(self).port_open && elapsed_ms(old(self).last_scan_ms, now_ms) < old(
                self,
            ).scan_every_ms) ==> r is NotYet && *final(self) == *old(self),
            (!old(self).port_open && elapsed_ms(old(self).last_scan_ms, now_ms) >= old(
                self,
            ).scan_every_ms) ==> {
                &&& *final(self) == (Worker { last_scan_ms: now_ms, ..*old(self) })
                &&& (old(self).mode matches RunMode::Fixed(p) ==> r matches
                    AcquisitionPlan::OpenFixed(q) && q@ == p@)
                &&& (old(self).mode is Auto ==> r is ScanAuto)
            },
    {
        if self.port_open {
            return AcquisitionPlan::AlreadyOpen;
        }
        if !self.scan_due(now_ms) {
            return AcquisitionPlan::NotYet;
        }
        match &self.mode {
            RunMode::Fixed(p) => AcquisitionPlan::OpenFixed(p.clone()),
            RunMode::Auto => AcquisitionPlan::ScanAuto,
        }
    }
}

} // verus!
