//! Classification of measurement-unit labels from calibration sheets.

use vstd::prelude::*;
use vstd::string::*;

verus! {

/// ASCII lower-case letters become upper case; everything else is unchanged.
pub open spec fn upper_char(c: char) -> char {
    if 'a' <= c && c <= 'z' {
        (((c as u32) - 32) as u8) as char
    } else {
        c
    }
}

/// The sequence with every character upper-cased.
pub open spec fn upper_seq(s: Seq<char>) -> Seq<char> {
    s.map_values(|c: char| upper_char(c))
}

/// The two given characters occur adjacently, in order, somewhere in `s`.
pub open spec fn has_pair(s: Seq<char>, a: char, b: char) -> bool {
    exists|k: int| 0 <= k && k + 2 <= s.len() && #[trigger] s[k] == a && s[k + 1] == b
}

/// The given character occurs somewhere in `s`.
pub open spec fn has_char(s: Seq<char>, a: char) -> bool {
    exists|k: int| 0 <= k < s.len() && s[k] == a
}

fn upper(c: char) -> (r: char)
    ensures
        r == upper_char(c),
{
    if 'a' <= c && c <= 'z' {
        (((c as u32) - 32) as u8) as char
    } else {
        c
    }
}

/// Split a unit column label into waveform and unit: a label mentioning `DC`
/// (in any case) is direct current, one mentioning `AC` is alternating
/// current, anything else defaults to direct current; a label mentioning `A`
/// measures current, anything else voltage.
pub fn to_wave_unit(unit_col: &str) -> (r: (String, String))
    ensures
        ({
            let up = upper_seq(unit_col@);
            &&& r.0@ == if has_pair(up, 'D', 'C') {
                "dc"@
            } else if has_pair(up, 'A', 'C') {
                "ac"@
            } else {
                "dc"@
            }
            &&& r.1@ == if has_char(up, 'A') {
                "A"@
            } else {
                "V"@
            }
        }),
{
    let ghost up = upper_seq(unit_col@);
    let n = unit_col.unicode_len();
    let mut has_dc = false;
    let mut has_ac = false;
    let mut has_a = false;
    let mut i: usize = 0;
    while i < n
        invariant
            i <= n,
            n == unit_col@.len(),
            up == upper_seq(unit_col@),
            has_a <==> exists|k: int| 0 <= k < i && up[k] == 'A',
            has_dc <==> exists|k: int| 0 <= k && k + 2 <= i && #[trigger] up[k] == 'D' && up[k + 1] == 'C',
            has_ac <==> exists|k: int| 0 <= k && k + 2 <= i && #[trigger] up[k] == 'A' && up[k + 1] == 'C',
        decreases n - i,
    {
        let c = upper(unit_col.get_char(i));
        proof {
            assert(up[i as int] == upper_char(unit_col@[i as int]));
        }
        if c == 'A' {
            has_a = true;
            proof {
                assert(up[i as int] == 'A');
            }
        }
        if i > 0 && c == 'C' {
            let p = upper(unit_col.get_char(i - 1));
            proof {
                assert(up[i - 1] == upper_char(unit_col@[i - 1]));
            }
            if p == 'D' {
                has_dc = true;
                proof {
                    assert(up[i - 1] == 'D' && up[i as int] == 'C');
                }
            }
            if p == 'A' {
                has_ac = true;
                proof {
                    assert(up[i - 1] == 'A' && up[i as int] == 'C');
                }
            }
        }
        i += 1;
    }
    let wave = if has_dc {
        "dc".to_owned()
    } else if has_ac {
        "ac".to_owned()
    } else {
        "dc".to_owned()
    };
    let unit = if has_a {
        "A".to_owned()
    } else {
        "V".to_owned()
    };
    (wave, unit)
}

} // verus!
