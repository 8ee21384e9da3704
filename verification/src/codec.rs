//! Fixed-length frame codec for the load-bank status protocol.
//!
//! A status frame is exactly [`LB_FRAME_LEN`] bytes long. Its last byte is a
//! table-driven CRC-8 over all preceding bytes; the remaining bytes map to the
//! fields of [`LoadBankStatus`] at fixed offsets.

use crate::diag::{hex_of, to_hex};
use vstd::prelude::*;
use vstd::slice::slice_subrange;

verus! {

/// Number of bytes in one status frame, checksum byte included.
pub const LB_FRAME_LEN: usize = 15;

/// Lookup table for the table-driven CRC-8 used by the status protocol.
pub const CRC8_TABLE: [u8; 256] = [
    0, 94, 188, 226, 97, 63, 221, 131, 194, 156, 126, 32, 163, 253, 31, 65, 157, 195, 33, 127, 252,
    162, 64, 30, 95, 1, 227, 189, 62, 96, 130, 220, 35, 125, 159, 193, 66, 28, 254, 160, 225, 191,
    93, 3, 128, 222, 60, 98, 190, 224, 2, 92, 223, 129, 99, 61, 124, 34, 192, 158, 29, 67, 161,
    255, 70, 24, 250, 164, 39, 121, 155, 197, 132, 218, 56, 102, 229, 187, 89, 7, 219, 133, 103,
    57, 186, 228, 6, 88, 25, 71, 165, 251, 120, 38, 196, 154, 101, 59, 217, 135, 4, 90, 184, 230,
    167, 249, 27, 69, 198, 152, 122, 36, 248, 166, 68, 26, 153, 199, 37, 123, 58, 100, 134, 216,
    91, 5, 231, 185, 140, 210, 48, 110, 237, 179, 81, 15, 78, 16, 242, 172, 47, 113, 147, 205, 17,
    79, 173, 243, 112, 46, 204, 146, 211, 141, 111, 49, 178, 236, 14, 80, 175, 241, 19, 77, 206,
    144, 114, 44, 109, 51, 209, 143, 12, 82, 176, 238, 50, 108, 142, 208, 83, 13, 239, 177, 240,
    174, 76, 18, 145, 207, 45, 115, 202, 148, 118, 40, 171, 245, 23, 73, 8, 86, 180, 234, 105, 55,
    213, 139, 87, 9, 235, 181, 54, 104, 138, 212, 149, 203, 41, 119, 244, 170, 72, 22, 233, 183,
    85, 11, 136, 214, 52, 106, 43, 117, 151, 201, 74, 20, 246, 168, 116, 42, 200, 150, 21, 75, 169,
    247, 182, 232, 10, 84, 215, 137, 107, 53,
];

/// One folding step of the CRC: feed one byte into the running value.
pub open spec fn crc8_step(crc: u8, b: u8) -> u8 {
    CRC8_TABLE[(crc ^ b) as int]
}

/// CRC-8 of a byte sequence: fold every byte through the table, starting at 0.
pub open spec fn crc8_fold(bytes: Seq<u8>) -> u8
    decreases bytes.len(),
{
    if bytes.len() == 0 {
        0u8
    } else {
        crc8_step(crc8_fold(bytes.drop_last()), bytes.last())
    }
}

/// CRC over the frame prefix, i.e. every byte except the trailing checksum.
pub open spec fn frame_crc(frame: Seq<u8>) -> u8 {
    crc8_fold(frame.take(LB_FRAME_LEN - 1))
}

/// Checksum of a status frame: the CRC-8 over all bytes before the last one.
/// Returns `None` when fewer than [`LB_FRAME_LEN`] bytes are given.
pub fn crc8_load_bank(frame: &[u8]) -> (r: Option<u8>)
    ensures
        r is Some <==> frame@.len() >= LB_FRAME_LEN,
        r is Some ==> r->0 == frame_crc(frame@),
{
    if frame.len() < LB_FRAME_LEN {
        return None;
    }
    let mut crc: u8 = 0;
    let mut i: usize = 0;
    while i < LB_FRAME_LEN - 1
        invariant
            i <= LB_FRAME_LEN - 1,
            frame@.len() >= LB_FRAME_LEN,
            crc == crc8_fold(frame@.take(i as int)),
        decreases LB_FRAME_LEN - 1 - i,
    {
        proof {
            assert(frame@.take(i + 1).drop_last() =~= frame@.take(i as int));
            assert(frame@.take(i + 1).last() == frame@[i as int]);
        }
        crc = CRC8_TABLE[(crc ^ frame[i]) as usize];
        i += 1;
    }
    Some(crc)
}

/// The 16-bit value encoded big-endian by a pair of bytes.
pub open spec fn be16(hi: u8, lo: u8) -> int {
    (hi as int) * 256 + (lo as int)
}

/// Combine a high and a low byte into one 16-bit value, big-endian.
pub fn u16_to_bytes(hi: u8, lo: u8) -> (r: u16)
    ensures
        r == be16(hi, lo),
{
    let encoded = ((hi as u16) << 8) | (lo as u16);
    proof {
        assert((((hi as u16) << 8) | (lo as u16)) == (hi as u16) * 256 + (lo as u16))
            by (bit_vector);
    }
    encoded
}

/// One decoded status record, produced per successfully parsed frame.
pub struct LoadBankStatus {
    pub port_name: String,
    pub version: u8,
    pub bank_power: u16,
    pub bank_no: u8,
    pub bank_health: u8,
    pub contactors_mask: u16,
    pub err_contactors: u16,
    pub err_fans: u16,
    pub err_thermals: u16,
    pub other_errors: u8,
    /// Raw frame bytes rendered as hex, for diagnostics.
    pub raw_frame_hex: String,
}

/// A whole frame is valid when it has exactly [`LB_FRAME_LEN`] bytes and its
/// last byte equals the CRC over the others.
pub open spec fn valid_frame(f: Seq<u8>) -> bool {
    f.len() == LB_FRAME_LEN && f[LB_FRAME_LEN - 1] == frame_crc(f)
}

/// The record `st` holds exactly the fields documented for frame `f`, adopted
/// from port `port`.
pub open spec fn status_matches_frame(st: LoadBankStatus, f: Seq<u8>, port: Seq<char>) -> bool {
    &&& st.port_name@ == port
    &&& st.version == f[0]
    &&& st.bank_power == be16(f[1], f[2])
    &&& st.bank_no == f[3]
    &&& st.bank_health == f[4]
    &&& st.contactors_mask == be16(f[5], f[6])
    &&& st.err_contactors == be16(f[7], f[8])
    &&& st.err_fans == be16(f[9], f[10])
    &&& st.err_thermals == be16(f[11], f[12])
    &&& st.other_errors == f[13]
    &&& st.raw_frame_hex@ == hex_of(f)
}

/// Decode one frame into a status record.
///
/// Succeeds exactly on byte slices that form a valid frame: correct length and
/// matching checksum. The record's fields come from the documented offsets.
pub fn parse_frame(frame: &[u8], port_name: &str) -> (r: Option<LoadBankStatus>)
    ensures
        r is Some <==> valid_frame(frame@),
        r is Some ==> status_matches_frame(r->0, frame@, port_name@),
{
    if frame.len() != LB_FRAME_LEN {
        return None;
    }
    let expected = match crc8_load_bank(frame) {
        Some(c) => c,
        None => {
            return None;
        },
    };
    if frame[LB_FRAME_LEN - 1] != expected {
        return None;
    }

    Some(
        LoadBankStatus {
            port_name: port_name.to_owned(),
            version: frame[0],
            bank_power: u16_to_bytes(frame[1], frame[2]),
            bank_no: frame[3],
            bank_health: frame[4],
            contactors_mask: u16_to_bytes(frame[5], frame[6]),
            err_contactors: u16_to_bytes(frame[7], frame[8]),
            err_fans: u16_to_bytes(frame[9], frame[10]),
            err_thermals: u16_to_bytes(frame[11], frame[12]),
            other_errors: frame[13],
            raw_frame_hex: to_hex(frame),
        },
    )
}

/// There is a valid frame in `buf` starting at offset `i`.
pub open spec fn valid_frame_at(buf: Seq<u8>, i: int) -> bool {
    0 <= i && i + LB_FRAME_LEN <= buf.len() && valid_frame(buf.subrange(i, i + LB_FRAME_LEN))
}

/// Offset of the first valid frame at or after `i`, if any.
pub open spec fn first_valid_from(buf: Seq<u8>, i: int) -> Option<int>
    decreases buf.len() - i,
{
    if i < 0 || i + LB_FRAME_LEN > buf.len() {
        None
    } else if valid_frame_at(buf, i) {
        Some(i)
    } else {
        first_valid_from(buf, i + 1)
    }
}

/// Slide a [`LB_FRAME_LEN`]-byte window over the buffer from the left and
/// return the first offset whose window decodes as a valid frame, with the
/// decoded record. Buffers shorter than one frame never match.
pub fn find_first_valid_status(buf: &[u8], port_name: &str) -> (r: Option<
    (usize, LoadBankStatus),
>)
    ensures
        buf@.len() < LB_FRAME_LEN ==> r is None,
        r is None <==> first_valid_from(buf@, 0) is None,
        r is None ==> forall|i: int| !valid_frame_at(buf@, i),
        r is Some ==> {
            let (off, st) = r->0;
            &&& Some(off as int) == first_valid_from(buf@, 0)
            &&& valid_frame_at(buf@, off as int)
            &&& forall|j: int| 0 <= j < off ==> !valid_frame_at(buf@, j)
            &&& status_matches_frame(
                st,
                buf@.subrange(off as int, off + LB_FRAME_LEN),
                port_name@,
            )
        },
{
    if buf.len() < LB_FRAME_LEN {
        proof {
            lemma_no_frame_past_end(buf@, 0);
        }
        return None;
    }
    let mut i: usize = 0;
    while i <= buf.len() - LB_FRAME_LEN
        invariant
            LB_FRAME_LEN <= buf@.len(),
            i <= buf@.len() - LB_FRAME_LEN + 1,
            first_valid_from(buf@, 0) == first_valid_from(buf@, i as int),
            forall|j: int| 0 <= j < i ==> !valid_frame_at(buf@, j),
        decreases buf@.len() - i,
    {
        let slice = slice_subrange(buf, i, i + LB_FRAME_LEN);
        if let Some(status) = parse_frame(slice, port_name) {
            return Some((i, status));
        }
        i += 1;
    }
    proof {
        lemma_no_frame_past_end(buf@, i as int);
    }
    None
}

proof fn lemma_no_frame_past_end(buf: Seq<u8>, i: int)
    requires
        i + LB_FRAME_LEN > buf.len(),
    ensures
        first_valid_from(buf, i) is None,
        forall|j: int| j >= i ==> !valid_frame_at(buf, j),
{
}

} // verus!
