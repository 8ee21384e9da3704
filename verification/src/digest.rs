//! Content digest used to identify imported calibration workbooks.

use crate::strutil::push_char;
use sha2::Digest;
use vstd::prelude::*;

verus! {

/// The SHA-256 digest of a byte sequence: its 32 digest bytes.
pub uninterp spec fn sha256_of(data: Seq<u8>) -> Seq<u8>;

/// Relies on `sha2::Sha256` through `Digest::digest`: the digest depends on
/// the input bytes alone, and is exactly 32 bytes long.
#[verifier::external_body]
fn sha256_digest(data: &[u8]) -> (r: Vec<u8>)
    ensures
        r@ == sha256_of(data@),
        r@.len() == 32,
{
    sha2::Sha256::digest(data).to_vec()
}

/// Character for one hexadecimal digit, lower case.
pub open spec fn hex_lower_digit(n: u8) -> char
    recommends
        n < 16,
{
    if n < 10 {
        ((0x30 + n) as u8) as char
    } else {
        ((0x57 + n) as u8) as char
    }
}

/// Contiguous lower-case hex rendering of a byte sequence, two digits per
/// byte.
pub open spec fn hex_lower_of(bytes: Seq<u8>) -> Seq<char>
    decreases bytes.len(),
{
    if bytes.len() == 0 {
        Seq::empty()
    } else {
        hex_lower_of(bytes.drop_last()) + seq![
            hex_lower_digit(bytes.last() / 16),
            hex_lower_digit(bytes.last() % 16),
        ]
    }
}

fn hex_lower_char(n: u8) -> (c: char)
    requires
        n < 16,
    ensures
        c == hex_lower_digit(n),
{
    if n < 10 {
        (0x30 + n) as char
    } else {
        (0x57 + n) as char
    }
}

/// Lower-case hex digest of a file's bytes, as stored alongside an imported
/// calibration workbook.
pub fn calibration_file_hash(data: &[u8]) -> (r: String)
    ensures
        r@ == hex_lower_of(sha256_of(data@)),
{
    let digest = sha256_digest(data);
    let mut out = String::new();
    let mut i: usize = 0;
    proof {
        assert(out@ =~= hex_lower_of(digest@.take(0)));
    }
    while i < digest.len()
        invariant
            i <= digest@.len(),
            digest@ == sha256_of(data@),
            out@ == hex_lower_of(digest@.take(i as int)),
        decreases digest@.len() - i,
    {
        let b = digest[i];
        push_char(&mut out, hex_lower_char(b / 16));
        push_char(&mut out, hex_lower_char(b % 16));
        proof {
            assert(digest@.take(i + 1).drop_last() =~= digest@.take(i as int));
            assert(digest@.take(i + 1).last() == digest@[i as int]);
            assert(out@ =~= hex_lower_of(digest@.take(i + 1)));
        }
        i += 1;
    }
    proof {
        assert(digest@.take(digest@.len() as int) =~= digest@);
    }
    out
}

} // verus!
