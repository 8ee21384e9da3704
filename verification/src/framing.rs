//! Escaped-delimiter framing used for handshake traffic.
//!
//! Frames are delimited by dedicated start and stop bytes; payload bytes that
//! collide with a delimiter or with the escape byte are escaped by prefixing
//! the escape byte and flipping them with a fixed mask. The last unescaped
//! byte of a frame is a bitwise CRC-8 over the payload.

use vstd::prelude::*;
use vstd::slice::{slice_subrange, slice_to_vec};

verus! {

/// Byte-level framing parameters: delimiters, escaping and CRC configuration.
pub struct FrameConfig {
    pub start: u8,
    pub stop: u8,
    pub esc: u8,
    pub esc_xor: u8,
    pub crc8_poly: u8,
    pub crc_init: u8,
    pub crc_final_xor: u8,
}

/// Parser position: between frames, or collecting the bytes of one frame.
pub enum ParseState {
    SeekStart,
    InFrame(Vec<u8>),
}

/// Abstract parser position: `None` between frames, `Some` with the bytes
/// collected so far inside a frame.
pub open spec fn state_view(s: ParseState) -> Option<Seq<u8>> {
    match s {
        ParseState::SeekStart => None,
        ParseState::InFrame(buf) => Some(buf@),
    }
}

/// Undo the escape encoding: an escape byte consumes the next byte and emits
/// it xored with the mask; a trailing lone escape byte emits nothing.
pub open spec fn unescape_spec(data: Seq<u8>, esc: u8, esc_xor: u8) -> Seq<u8>
    decreases data.len(),
{
    if data.len() == 0 {
        Seq::empty()
    } else if data[0] == esc {
        if data.len() >= 2 {
            seq![(data[1] ^ esc_xor)] + unescape_spec(data.skip(2), esc, esc_xor)
        } else {
            Seq::empty()
        }
    } else {
        seq![data[0]] + unescape_spec(data.skip(1), esc, esc_xor)
    }
}

/// Remove the escape encoding from a byte sequence.
pub fn unescape_bytes(data: &[u8], cfg: &FrameConfig) -> (out: Vec<u8>)
    ensures
        out@ == unescape_spec(data@, cfg.esc, cfg.esc_xor),
{
    let mut out: Vec<u8> = Vec::new();
    let mut i: usize = 0;
    proof {
        assert(data@.skip(0) =~= data@);
        assert(out@ + unescape_spec(data@, cfg.esc, cfg.esc_xor) =~= unescape_spec(
            data@,
            cfg.esc,
            cfg.esc_xor,
        ));
    }
    while i < data.len()
        invariant
            i <= data@.len(),
            unescape_spec(data@, cfg.esc, cfg.esc_xor) == out@ + unescape_spec(
                data@.skip(i as int),
                cfg.esc,
                cfg.esc_xor,
            ),
        decreases data@.len() - i,
    {
        let b = data[i];
        proof {
            assert(data@.skip(i as int)[0] == data@[i as int]);
        }
        if b == cfg.esc {
            if i + 1 < data.len() {
                proof {
                    assert(data@.skip(i as int).skip(2) =~= data@.skip(i + 2));
                    assert(data@.skip(i as int)[1] == data@[i + 1]);
                }
                out.push(data[i + 1] ^ cfg.esc_xor);
                i += 2;
            } else {
                proof {
                    assert(data@.skip(i as int).len() == 1);
                }
                i += 1;
            }
        } else {
            proof {
                assert(data@.skip(i as int).skip(1) =~= data@.skip(i + 1));
            }
            out.push(b);
            i += 1;
        }
    }
    proof {
        assert(data@.skip(data@.len() as int) =~= Seq::<u8>::empty());
        assert(out@ =~= out@ + Seq::<u8>::empty());
    }
    out
}

/// Encoding of one byte: delimiters and the escape byte itself travel as the
/// escape byte followed by the original xored with the mask.
pub open spec fn escaped_byte(b: u8, cfg: FrameConfig) -> Seq<u8> {
    if b == cfg.start || b == cfg.stop || b == cfg.esc {
        seq![cfg.esc, b ^ cfg.esc_xor]
    } else {
        seq![b]
    }
}

/// Append the escape encoding of one byte to `out`.
pub fn escape_byte(b: u8, cfg: &FrameConfig, out: &mut Vec<u8>)
    ensures
        final(out)@ == old(out)@ + escaped_byte(b, *cfg),
{
    if b == cfg.start || b == cfg.stop || b == cfg.esc {
        out.push(cfg.esc);
        out.push(b ^ cfg.esc_xor);
    } else {
        out.push(b);
    }
    proof {
        assert(final(out)@ =~= old(out)@ + escaped_byte(b, *cfg));
    }
}

/// One shift round of the bitwise CRC: polynomial 0x07, no reflection.
pub open spec fn crc8_atm_shift(crc: u8) -> u8 {
    if crc & 0x80 != 0 {
        (crc << 1) ^ 0x07
    } else {
        crc << 1
    }
}

/// `n` shift rounds applied in sequence.
pub open spec fn crc8_atm_shift_n(crc: u8, n: nat) -> u8
    decreases n,
{
    if n == 0 {
        crc
    } else {
        crc8_atm_shift(crc8_atm_shift_n(crc, (n - 1) as nat))
    }
}

/// Feed one byte into the bitwise CRC: xor it in, then shift eight times.
pub open spec fn crc8_atm_byte(crc: u8, b: u8) -> u8 {
    crc8_atm_shift_n(crc ^ b, 8)
}

/// Bitwise CRC-8 of a byte sequence: polynomial 0x07, init 0, no reflection,
/// no final xor.
pub open spec fn crc8_atm_spec(bytes: Seq<u8>) -> u8
    decreases bytes.len(),
{
    if bytes.len() == 0 {
        0u8
    } else {
        crc8_atm_byte(crc8_atm_spec(bytes.drop_last()), bytes.last())
    }
}

/// Compute the bitwise CRC-8 of the given bytes.
pub fn crc8_atm(bytes: &[u8]) -> (r: u8)
    ensures
        r == crc8_atm_spec(bytes@),
{
    let mut crc: u8 = 0x00;
    let mut i: usize = 0;
    while i < bytes.len()
        invariant
            i <= bytes@.len(),
            crc == crc8_atm_spec(bytes@.take(i as int)),
        decreases bytes@.len() - i,
    {
        crc = crc ^ bytes[i];
        let mut round: usize = 0;
        while round < 8
            invariant
                round <= 8,
                crc == crc8_atm_shift_n(
                    crc8_atm_spec(bytes@.take(i as int)) ^ bytes@[i as int],
                    round as nat,
                ),
        decreases 8 - round,
        {
            crc = if (crc & 0x80) != 0 {
                (crc << 1) ^ 0x07
            } else {
                crc << 1
            };
            round += 1;
        }
        proof {
            assert(bytes@.take(i + 1).drop_last() =~= bytes@.take(i as int));
            assert(bytes@.take(i + 1).last() == bytes@[i as int]);
        }
        i += 1;
    }
    proof {
        assert(bytes@.take(bytes@.len() as int) =~= bytes@);
    }
    crc
}

/// Payload delivered when a stop byte closes a frame whose collected bytes are
/// `buf`: unescape, split off the trailing CRC byte, keep the payload only
/// when the CRC matches.
pub open spec fn frame_payload(buf: Seq<u8>, cfg: FrameConfig) -> Option<Seq<u8>> {
    let data = unescape_spec(buf, cfg.esc, cfg.esc_xor);
    if data.len() < 1 {
        None
    } else if data.last() == crc8_atm_spec(data.drop_last()) {
        Some(data.drop_last())
    } else {
        None
    }
}

/// Effect of one input byte on the parser: the next position, and the payload
/// delivered by that byte, if any.
pub open spec fn feed_step(st: Option<Seq<u8>>, b: u8, cfg: FrameConfig) -> (
    Option<Seq<u8>>,
    Option<Seq<u8>>,
) {
    match st {
        None => {
            if b == cfg.start {
                (Some(Seq::<u8>::empty()), None)
            } else {
                (None, None)
            }
        },
        Some(buf) => {
            if b == cfg.stop {
                (None, frame_payload(buf, cfg))
            } else {
                (Some(buf.push(b)), None)
            }
        },
    }
}

/// Effect of a whole chunk on the parser: the final position and the payloads
/// delivered, in input order.
pub open spec fn feed_all(st: Option<Seq<u8>>, chunk: Seq<u8>, cfg: FrameConfig) -> (
    Option<Seq<u8>>,
    Seq<Seq<u8>>,
)
    decreases chunk.len(),
{
    if chunk.len() == 0 {
        (st, Seq::empty())
    } else {
        let (st1, delivered) = feed_step(st, chunk[0], cfg);
        let (st2, rest) = feed_all(st1, chunk.skip(1), cfg);
        (
            st2,
            match delivered {
                None => rest,
                Some(p) => seq![p] + rest,
            },
        )
    }
}

/// Feed a chunk of received bytes into the parser and collect every payload
/// whose frame completed with a matching CRC, in input order.
pub fn feed_bytes(state: &mut ParseState, chunk: &[u8], cfg: &FrameConfig) -> (frames: Vec<
    Vec<u8>,
>)
    ensures
        state_view(*final(state)) == feed_all(state_view(*old(state)), chunk@, *cfg).0,
        frames.deep_view() == feed_all(state_view(*old(state)), chunk@, *cfg).1,
{
    let mut frames: Vec<Vec<u8>> = Vec::new();
    let mut i: usize = 0;
    proof {
        assert(chunk@.skip(0) =~= chunk@);
        assert(frames.deep_view() =~~= Seq::<Seq<u8>>::empty());
        assert(frames.deep_view() + feed_all(state_view(*state), chunk@, *cfg).1 =~= feed_all(
            state_view(*state),
            chunk@,
            *cfg,
        ).1);
    }
    while i < chunk.len()
        invariant
            i <= chunk@.len(),
            feed_all(state_view(*old(state)), chunk@, *cfg).0 == feed_all(
                state_view(*state),
                chunk@.skip(i as int),
                *cfg,
            ).0,
            feed_all(state_view(*old(state)), chunk@, *cfg).1 == frames.deep_view() + feed_all(
                state_view(*state),
                chunk@.skip(i as int),
                *cfg,
            ).1,
        decreases chunk@.len() - i,
    {
        let b = chunk[i];
        proof {
            assert(chunk@.skip(i as int)[0] == chunk@[i as int]);
            assert(chunk@.skip(i as int).skip(1) =~= chunk@.skip(i + 1));
        }
        let ghost pre_frames = frames.deep_view();
        let ghost pre_state = state_view(*state);
        match state {
            ParseState::SeekStart => {
                if b == cfg.start {
                    *state = ParseState::InFrame(Vec::new());
                }
            },
            ParseState::InFrame(buf) => {
                if b == cfg.stop {
                    let data = unescape_bytes(buf.as_slice(), cfg);
                    if data.len() >= 1 {
                        let crc_byte = data[data.len() - 1];
                        let payload = slice_to_vec(
                            slice_subrange(data.as_slice(), 0, data.len() - 1),
                        );
                        proof {
                            assert(payload@ =~= data@.drop_last());
                        }
                        let calc = crc8_atm(payload.as_slice());
                        if crc_byte == calc {
                            let ghost pv = payload@;
                            frames.push(payload);
                            proof {
                                assert(frames.deep_view() =~~= pre_frames.push(pv));
                            }
                        }
                    }
                    *state = ParseState::SeekStart;
                } else {
                    buf.push(b);
                }
            },
        }
        proof {
            let stepped = feed_step(pre_state, b, *cfg);
            assert(state_view(*state) == stepped.0);
            match stepped.1 {
                None => {
                    assert(frames.deep_view() =~= pre_frames);
                },
                Some(p) => {
                    assert(frames.deep_view() == pre_frames.push(p));
                    assert(pre_frames + (seq![p] + feed_all(
                        state_view(*state),
                        chunk@.skip(i + 1),
                        *cfg,
                    ).1) =~= frames.deep_view() + feed_all(
                        state_view(*state),
                        chunk@.skip(i + 1),
                        *cfg,
                    ).1);
                },
            }
        }
        i += 1;
    }
    proof {
        assert(chunk@.skip(chunk@.len() as int) =~= Seq::<u8>::empty());
        assert(frames.deep_view() + Seq::<Seq<u8>>::empty() =~= frames.deep_view());
    }
    frames
}

/// A complete encoded frame: start byte, escaped payload, escaped CRC byte,
/// stop byte.
pub open spec fn escape_all(payload: Seq<u8>, cfg: FrameConfig) -> Seq<u8>
    decreases payload.len(),
{
    if payload.len() == 0 {
        Seq::empty()
    } else {
        escape_all(payload.drop_last(), cfg) + escaped_byte(payload.last(), cfg)
    }
}

/// Bytes put on the wire for `payload`: delimiters around the escaped payload
/// and its escaped CRC byte.
pub open spec fn framed(payload: Seq<u8>, cfg: FrameConfig) -> Seq<u8> {
    seq![cfg.start] + escape_all(payload, cfg) + escaped_byte(crc8_atm_spec(payload), cfg)
        + seq![cfg.stop]
}

/// A configuration whose escaped output never contains the stop byte: the
/// escape byte differs from the stop byte, and no escaped pair's second byte
/// equals the stop byte.
pub open spec fn wire_config_ok(cfg: FrameConfig) -> bool {
    &&& cfg.esc != cfg.stop
    &&& cfg.start ^ cfg.esc_xor != cfg.stop
    &&& cfg.stop ^ cfg.esc_xor != cfg.stop
    &&& cfg.esc ^ cfg.esc_xor != cfg.stop
}

proof fn lemma_escape_all_front(p: Seq<u8>, cfg: FrameConfig)
    requires
        p.len() > 0,
    ensures
        escape_all(p, cfg) == escaped_byte(p[0], cfg) + escape_all(p.skip(1), cfg),
    decreases p.len(),
{
    if p.len() == 1 {
        assert(p.drop_last().len() == 0);
        assert(p.skip(1).len() == 0);
        assert(p[0] == p.last());
        assert(escape_all(p.drop_last(), cfg) =~= Seq::<u8>::empty());
        assert(escape_all(p.skip(1), cfg) =~= Seq::<u8>::empty());
        assert(Seq::<u8>::empty() + escaped_byte(p.last(), cfg) =~= escaped_byte(p.last(), cfg));
        assert(escaped_byte(p[0], cfg) + Seq::<u8>::empty() =~= escaped_byte(p[0], cfg));
    } else {
        lemma_escape_all_front(p.drop_last(), cfg);
        assert(p.drop_last()[0] == p[0]);
        assert(p.skip(1).drop_last() =~= p.drop_last().skip(1));
        assert(p.skip(1).len() > 0);
        assert(p.skip(1).last() == p.last());
        assert((escaped_byte(p[0], cfg) + escape_all(p.drop_last().skip(1), cfg)) + escaped_byte(
            p.last(),
            cfg,
        ) =~= escaped_byte(p[0], cfg) + (escape_all(p.drop_last().skip(1), cfg) + escaped_byte(
            p.last(),
            cfg,
        )));
    }
}

proof fn lemma_unescape_escape_all(p: Seq<u8>, tail: Seq<u8>, cfg: FrameConfig)
    ensures
        unescape_spec(escape_all(p, cfg) + tail, cfg.esc, cfg.esc_xor) == p + unescape_spec(
            tail,
            cfg.esc,
            cfg.esc_xor,
        ),
    decreases p.len(),
{
    if p.len() == 0 {
        assert(escape_all(p, cfg) + tail =~= tail);
        assert(p + unescape_spec(tail, cfg.esc, cfg.esc_xor) =~= unescape_spec(
            tail,
            cfg.esc,
            cfg.esc_xor,
        ));
    } else {
        lemma_escape_all_front(p, cfg);
        lemma_unescape_escape_all(p.skip(1), tail, cfg);
        let b = p[0];
        let rest = escape_all(p.skip(1), cfg) + tail;
        if b == cfg.start || b == cfg.stop || b == cfg.esc {
            let s = seq![cfg.esc, b ^ cfg.esc_xor] + rest;
            assert(escape_all(p, cfg) + tail =~= s);
            assert(s[0] == cfg.esc);
            assert(s[1] == (b ^ cfg.esc_xor));
            assert(s.skip(2) =~= rest);
            let x = cfg.esc_xor;
            assert(((b ^ x) ^ x) == b) by (bit_vector);
            assert(seq![b] + (p.skip(1) + unescape_spec(tail, cfg.esc, cfg.esc_xor)) =~= p
                + unescape_spec(tail, cfg.esc, cfg.esc_xor));
        } else {
            let s = seq![b] + rest;
            assert(escape_all(p, cfg) + tail =~= s);
            assert(s[0] == b);
            assert(b != cfg.esc);
            assert(s.skip(1) =~= rest);
            assert(seq![b] + (p.skip(1) + unescape_spec(tail, cfg.esc, cfg.esc_xor)) =~= p
                + unescape_spec(tail, cfg.esc, cfg.esc_xor));
        }
    }
}

proof fn lemma_escaped_byte_no_stop(b: u8, cfg: FrameConfig, j: int)
    requires
        wire_config_ok(cfg),
        0 <= j < escaped_byte(b, cfg).len(),
    ensures
        escaped_byte(b, cfg)[j] != cfg.stop,
{
}

proof fn lemma_escape_all_no_stop(p: Seq<u8>, cfg: FrameConfig, i: int)
    requires
        wire_config_ok(cfg),
        0 <= i < escape_all(p, cfg).len(),
    ensures
        escape_all(p, cfg)[i] != cfg.stop,
    decreases p.len(),
{
    if p.len() > 0 {
        let a = escape_all(p.drop_last(), cfg);
        if i < a.len() {
            lemma_escape_all_no_stop(p.drop_last(), cfg, i);
        } else {
            lemma_escaped_byte_no_stop(p.last(), cfg, i - a.len());
        }
    }
}

proof fn lemma_feed_no_stop(acc: Seq<u8>, mid: Seq<u8>, rest: Seq<u8>, cfg: FrameConfig)
    requires
        forall|i: int| 0 <= i < mid.len() ==> mid[i] != cfg.stop,
    ensures
        feed_all(Some(acc), mid + rest, cfg) == feed_all(Some(acc + mid), rest, cfg),
    decreases mid.len(),
{
    if mid.len() == 0 {
        assert(mid + rest =~= rest);
        assert(acc + mid =~= acc);
    } else {
        let s = mid + rest;
        assert(s[0] == mid[0]);
        assert(s.skip(1) =~= mid.skip(1) + rest);
        lemma_feed_no_stop(acc.push(mid[0]), mid.skip(1), rest, cfg);
        assert(acc.push(mid[0]) + mid.skip(1) =~= acc + mid);
    }
}

/// Law: a built frame survives the parser. For any configuration whose
/// escaped output cannot contain the stop byte, feeding the framed bytes of a
/// payload into a parser that is between frames delivers exactly that payload
/// and leaves the parser between frames again.
pub proof fn lemma_frame_round_trip(payload: Seq<u8>, cfg: FrameConfig)
    requires
        wire_config_ok(cfg),
    ensures
        feed_all(Option::None, framed(payload, cfg), cfg) == (
            Option::<Seq<u8>>::None,
            seq![payload],
        ),
{
    let crc = crc8_atm_spec(payload);
    let mid = escape_all(payload, cfg) + escaped_byte(crc, cfg);
    let f = framed(payload, cfg);
    assert(f =~= seq![cfg.start] + (mid + seq![cfg.stop]));
    assert(f[0] == cfg.start);
    assert(f.skip(1) =~= mid + seq![cfg.stop]);
    assert forall|i: int| 0 <= i < mid.len() implies mid[i] != cfg.stop by {
        if i < escape_all(payload, cfg).len() {
            lemma_escape_all_no_stop(payload, cfg, i);
        } else {
            lemma_escaped_byte_no_stop(crc, cfg, i - escape_all(payload, cfg).len());
        }
    }
    lemma_feed_no_stop(Seq::empty(), mid, seq![cfg.stop], cfg);
    assert(Seq::<u8>::empty() + mid =~= mid);
    let s = seq![cfg.stop];
    assert(s[0] == cfg.stop);
    assert(s.skip(1) =~= Seq::<u8>::empty());
    lemma_unescape_escape_all(payload, escaped_byte(crc, cfg), cfg);
    let x = cfg.esc_xor;
    assert(((crc ^ x) ^ x) == crc) by (bit_vector);
    let w = escaped_byte(crc, cfg);
    if crc == cfg.start || crc == cfg.stop || crc == cfg.esc {
        assert(w[0] == cfg.esc);
        assert(w[1] == (crc ^ cfg.esc_xor));
        assert(w.skip(2) =~= Seq::<u8>::empty());
        assert(unescape_spec(w, cfg.esc, cfg.esc_xor) =~= seq![crc]);
    } else {
        assert(w[0] == crc);
        assert(crc != cfg.esc);
        assert(w.skip(1) =~= Seq::<u8>::empty());
        assert(unescape_spec(w, cfg.esc, cfg.esc_xor) =~= seq![crc]);
    }
    let data = unescape_spec(mid, cfg.esc, cfg.esc_xor);
    assert(data =~= payload.push(crc));
    assert(data.drop_last() =~= payload);
    assert(data.last() == crc);
    assert(frame_payload(mid, cfg) == Some(payload));
    assert(feed_step(Option::None, cfg.start, cfg) == (
        Option::Some(Seq::<u8>::empty()),
        Option::<Seq<u8>>::None,
    ));
    assert(feed_all(Option::None, f, cfg).0 == feed_all(
        Option::Some(Seq::<u8>::empty()),
        f.skip(1),
        cfg,
    ).0);
    assert(feed_all(Option::None, f, cfg).1 == feed_all(
        Option::Some(Seq::<u8>::empty()),
        f.skip(1),
        cfg,
    ).1);
    let after_stop = feed_all(Option::Some(mid), s, cfg);
    assert(feed_step(Option::Some(mid), cfg.stop, cfg) == (
        Option::<Seq<u8>>::None,
        Option::Some(payload),
    ));
    assert(feed_all(Option::<Seq<u8>>::None, s.skip(1), cfg) == (
        Option::<Seq<u8>>::None,
        Seq::<Seq<u8>>::empty(),
    ));
    assert(seq![payload] + Seq::<Seq<u8>>::empty() =~= seq![payload]);
    assert(after_stop.0 == Option::<Seq<u8>>::None);
    assert(after_stop.1 == seq![payload]);
    assert(feed_all(Option::None, f, cfg).0 == Option::<Seq<u8>>::None);
    assert(feed_all(Option::None, f, cfg).1 == seq![payload]);
}

/// Encode a payload for transmission: start byte, escaped payload and CRC,
/// stop byte.
pub fn build_and_escape(payload: &[u8], cfg: &FrameConfig) -> (out: Vec<u8>)
    ensures
        out@ == framed(payload@, *cfg),
{
    let mut out: Vec<u8> = Vec::new();
    out.push(cfg.start);
    let crc = crc8_atm(payload);
    let mut i: usize = 0;
    while i < payload.len()
        invariant
            i <= payload@.len(),
            out@ == seq![cfg.start] + escape_all(payload@.take(i as int), *cfg),
        decreases payload@.len() - i,
    {
        escape_byte(payload[i], cfg, &mut out);
        proof {
            assert(payload@.take(i + 1).drop_last() =~= payload@.take(i as int));
            assert(payload@.take(i + 1).last() == payload@[i as int]);
            assert(out@ =~= seq![cfg.start] + escape_all(payload@.take(i + 1), *cfg));
        }
        i += 1;
    }
    proof {
        assert(payload@.take(payload@.len() as int) =~= payload@);
    }
    escape_byte(crc, cfg, &mut out);
    out.push(cfg.stop);
    proof {
        assert(out@ =~= framed(payload@, *cfg));
    }
    out
}

} // verus!
