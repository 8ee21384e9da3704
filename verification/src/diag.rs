//! Human-readable renderings of raw byte traffic, for diagnostics.

use crate::strutil::push_char;
use vstd::prelude::*;

verus! {

/// Character for one hexadecimal digit, upper case.
pub open spec fn hex_digit(n: u8) -> char
    recommends
        n < 16,
{
    if n < 10 {
        ((0x30 + n) as u8) as char
    } else {
        ((0x37 + n) as u8) as char
    }
}

/// Hex rendering of a byte sequence: two upper-case digits per byte, bytes
/// separated by single spaces.
pub open spec fn hex_of(bytes: Seq<u8>) -> Seq<char>
    decreases bytes.len(),
{
    if bytes.len() == 0 {
        Seq::empty()
    } else if bytes.len() == 1 {
        seq![hex_digit(bytes[0] / 16), hex_digit(bytes[0] % 16)]
    } else {
        hex_of(bytes.drop_last()) + seq![
            ' ',
            hex_digit(bytes.last() / 16),
            hex_digit(bytes.last() % 16),
        ]
    }
}

fn hex_digit_char(n: u8) -> (c: char)
    requires
        n < 16,
    ensures
        c == hex_digit(n),
{
    if n < 10 {
        (0x30 + n) as char
    } else {
        (0x37 + n) as char
    }
}

/// Render bytes as space-separated upper-case hex pairs.
pub fn to_hex(data: &[u8]) -> (r: String)
    ensures
        r@ == hex_of(data@),
{
    let mut out = String::new();
    let mut i: usize = 0;
    while i < data.len()
        invariant
            i <= data@.len(),
            out@ == hex_of(data@.take(i as int)),
        decreases data@.len() - i,
    {
        if i > 0 {
            push_char(&mut out, ' ');
        }
        let b = data[i];
        push_char(&mut out, hex_digit_char(b / 16));
        push_char(&mut out, hex_digit_char(b % 16));
        proof {
            assert(data@.take(i + 1).drop_last() =~= data@.take(i as int));
            assert(data@.take(i + 1).last() == data@[i as int]);
            assert(out@ =~= hex_of(data@.take(i + 1)));
        }
        i += 1;
    }
    proof {
        assert(data@.take(data@.len() as int) =~= data@);
    }
    out
}

/// Printable rendering of one byte: printable ASCII stays itself, carriage
/// return and line feed become their control-picture symbols, everything else
/// becomes a middle dot.
pub open spec fn ascii_pretty_char(b: u8) -> char {
    if 0x20 <= b && b <= 0x7E {
        b as char
    } else if b == 0x0D {
        '\u{240D}'
    } else if b == 0x0A {
        '\u{240A}'
    } else {
        '\u{00B7}'
    }
}

/// Printable rendering of a byte sequence, character for character.
pub open spec fn ascii_pretty(bytes: Seq<u8>) -> Seq<char> {
    bytes.map_values(|b: u8| ascii_pretty_char(b))
}

/// Render bytes as printable text for diagnostics.
pub fn to_ascii_pretty(data: &[u8]) -> (r: String)
    ensures
        r@ == ascii_pretty(data@),
{
    let mut out = String::new();
    let mut i: usize = 0;
    proof {
        assert(out@ =~= ascii_pretty(data@.take(0)));
    }
    while i < data.len()
        invariant
            i <= data@.len(),
            out@ == ascii_pretty(data@.take(i as int)),
        decreases data@.len() - i,
    {
        let b = data[i];
        let c = if 0x20 <= b && b <= 0x7E {
            b as char
        } else if b == 0x0D {
            '\u{240D}'
        } else if b == 0x0A {
            '\u{240A}'
        } else {
            '\u{00B7}'
        };
        push_char(&mut out, c);
        proof {
            assert(out@ =~= ascii_pretty(data@.take(i + 1)));
        }
        i += 1;
    }
    proof {
        assert(data@.take(data@.len() as int) =~= data@);
    }
    out
}

/// One send-and-listen exchange, with raw bytes and both renderings of each
/// direction.
pub struct Roundtrip {
    pub sent_bytes: Vec<u8>,
    pub recv_bytes: Vec<u8>,
    pub sent_hex: String,
    pub recv_hex: String,
    pub sent_ascii: String,
    pub recv_ascii: String,
}

impl Roundtrip {
    /// Build the exchange record for the given sent and received bytes.
    pub fn from_bytes(sent: Vec<u8>, recv: Vec<u8>) -> (r: Roundtrip)
        ensures
            r.sent_bytes@ == sent@,
            r.recv_bytes@ == recv@,
            r.sent_hex@ == hex_of(sent@),
            r.recv_hex@ == hex_of(recv@),
            r.sent_ascii@ == ascii_pretty(sent@),
            r.recv_ascii@ == ascii_pretty(recv@),
    {
        let sent_hex = to_hex(sent.as_slice());
        let recv_hex = to_hex(recv.as_slice());
        let sent_ascii = to_ascii_pretty(sent.as_slice());
        let recv_ascii = to_ascii_pretty(recv.as_slice());
        Roundtrip { sent_bytes: sent, recv_bytes: recv, sent_hex, recv_hex, sent_ascii, recv_ascii }
    }
}

} // verus!
