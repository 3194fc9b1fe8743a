//! Hexadecimal digits, runs of digits, and their numeric values.

use vstd::prelude::*;

verus! {

/// Whether `c` is an ASCII hexadecimal digit.
pub open spec fn is_hex_digit(c: char) -> bool {
    (48 <= c as int && c as int <= 57)  // '0' ..= '9'
    || (97 <= c as int && c as int <= 102)  // 'a' ..= 'f'
    || (65 <= c as int && c as int <= 70)  // 'A' ..= 'F'
}

/// The numeric value of one hexadecimal digit; 0 for any other character.
pub open spec fn hex_digit_val(c: char) -> nat {
    if 48 <= c as int && c as int <= 57 {
        (c as int - 48) as nat
    } else if 97 <= c as int && c as int <= 102 {
        (c as int - 87) as nat
    } else if 65 <= c as int && c as int <= 70 {
        (c as int - 55) as nat
    } else {
        0
    }
}

/// Whether every character of `s` is a hexadecimal digit.
pub open spec fn all_hex_digits(s: Seq<char>) -> bool {
    forall|i: int| 0 <= i < s.len() ==> is_hex_digit(s[i])
}

/// The big-endian numeric value of a run of hexadecimal digits.
pub open spec fn hex_seq_val(s: Seq<char>) -> nat
    decreases s.len(),
{
    if s.len() == 0 {
        0
    } else {
        hex_seq_val(s.drop_last()) * 16 + hex_digit_val(s.last())
    }
}

/// A longer run of digits never has a smaller value than one of its prefixes.
pub proof fn lemma_hex_seq_val_prefix(s: Seq<char>, i: int)
    requires
        0 <= i <= s.len(),
    ensures
        hex_seq_val(s.take(i)) <= hex_seq_val(s),
    decreases s.len() - i,
{
    if i == s.len() {
        assert(s.take(i) =~= s);
    } else {
        assert(s.take(i + 1).drop_last() =~= s.take(i));
        assert(s.take(i + 1).last() == s[i]);
        lemma_hex_seq_val_prefix(s, i + 1);
    }
}

/// The digit value of `c`, or `None` when `c` is no hexadecimal digit.
pub fn hex_digit_value(c: char) -> (r: Option<u8>)
    ensures
        r == (if is_hex_digit(c) {
            Some(hex_digit_val(c) as u8)
        } else {
            None::<u8>
        }),
{
    let v = c as u32;
    if 48 <= v && v <= 57 {
        Some((v - 48) as u8)
    } else if 97 <= v && v <= 102 {
        Some((v - 87) as u8)
    } else if 65 <= v && v <= 70 {
        Some((v - 55) as u8)
    } else {
        None
    }
}

/// The value of a nonempty all-hexadecimal `s` when it is at most `cap`;
/// `None` otherwise.
fn hex_value_capped(s: &str, cap: u32) -> (r: Option<u32>)
    requires
        cap <= 0xFFFF,
    ensures
        r == (if s@.len() > 0 && all_hex_digits(s@) && hex_seq_val(s@) <= cap {
            Some(hex_seq_val(s@) as u32)
        } else {
            None::<u32>
        }),
{
    let n = s.unicode_len();
    if n == 0 {
        return None;
    }
    let mut acc: u32 = 0;
    let mut i: usize = 0;
    while i < n
        invariant
            i <= n,
            n == s@.len(),
            cap <= 0xFFFF,
            all_hex_digits(s@.take(i as int)),
            acc as nat == hex_seq_val(s@.take(i as int)),
            acc <= cap,
        decreases n - i,
    {
        let c = s.get_char(i);
        match hex_digit_value(c) {
            None => {
                assert(!is_hex_digit(s@[i as int]));
                return None;
            },
            Some(d) => {
                proof {
                    assert(s@.take(i + 1).drop_last() =~= s@.take(i as int));
                    assert(s@.take(i + 1).last() == s@[i as int]);
                }
                let next: u32 = acc * 16 + d as u32;
                assert(next as nat == hex_seq_val(s@.take(i + 1)));
                if next > cap {
                    proof {
                        lemma_hex_seq_val_prefix(s@, i + 1);
                    }
                    return None;
                }
                acc = next;
                i += 1;
            },
        }
    }
    proof {
        assert(s@.take(n as int) =~= s@);
    }
    Some(acc)
}

/// The value of a run of hexadecimal digits that names a 16-bit integer.
pub open spec fn spec_parse_hex_u16(s: Seq<char>) -> Option<u16> {
    if s.len() > 0 && all_hex_digits(s) && hex_seq_val(s) <= 0xFFFF {
        Some(hex_seq_val(s) as u16)
    } else {
        None
    }
}

/// The value of a run of hexadecimal digits that names an 8-bit integer.
pub open spec fn spec_parse_hex_u8(s: Seq<char>) -> Option<u8> {
    if s.len() > 0 && all_hex_digits(s) && hex_seq_val(s) <= 0xFF {
        Some(hex_seq_val(s) as u8)
    } else {
        None
    }
}

/// The upper-case hexadecimal digit for a value below 16; '0' otherwise.
pub open spec fn hex_digit_char(d: nat) -> char {
    if d == 1 {
        '1'
    } else if d == 2 {
        '2'
    } else if d == 3 {
        '3'
    } else if d == 4 {
        '4'
    } else if d == 5 {
        '5'
    } else if d == 6 {
        '6'
    } else if d == 7 {
        '7'
    } else if d == 8 {
        '8'
    } else if d == 9 {
        '9'
    } else if d == 10 {
        'A'
    } else if d == 11 {
        'B'
    } else if d == 12 {
        'C'
    } else if d == 13 {
        'D'
    } else if d == 14 {
        'E'
    } else if d == 15 {
        'F'
    } else {
        '0'
    }
}

/// Encoding one digit and reading it back yields the digit again.
pub proof fn lemma_hex_digit_char_val(d: nat)
    requires
        d < 16,
    ensures
        is_hex_digit(hex_digit_char(d)),
        hex_digit_val(hex_digit_char(d)) == d,
{
}

/// Appends the upper-case hexadecimal digit for `d` to `s`.
pub(crate) fn push_hex_digit(s: &mut String, d: u8)
    requires
        d < 16,
    ensures
        final(s)@ == old(s)@ + seq![hex_digit_char(d as nat)],
{
    let digits = "0123456789ABCDEF";
    proof {
        reveal_strlit("0123456789ABCDEF");
    }
    let piece = digits.substring_char(d as usize, d as usize + 1);
    proof {
        assert(piece@ =~= seq![hex_digit_char(d as nat)]);
    }
    s.append(piece);
}

/// Parses `s` as a big-endian hexadecimal 16-bit integer.
pub fn parse_hex_u16(s: &str) -> (r: Option<u16>)
    ensures
        r == spec_parse_hex_u16(s@),
{
    match hex_value_capped(s, 0xFFFF) {
        Some(v) => Some(v as u16),
        None => None,
    }
}

/// Parses `s` as a big-endian hexadecimal 8-bit integer.
pub fn parse_hex_u8(s: &str) -> (r: Option<u8>)
    ensures
        r == spec_parse_hex_u8(s@),
{
    match hex_value_capped(s, 0xFF) {
        Some(v) => Some(v as u8),
        None => None,
    }
}

} // verus!
