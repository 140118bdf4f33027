use vstd::prelude::*;

use crate::text::{chars_of, concat3, hex, hex_char, zero_padded};

verus! {

/// The value of hexadecimal digit `c`, in either case.
pub open spec fn hex_digit_value(c: char) -> Option<nat> {
    if '0' <= c && c <= '9' {
        Some((c as nat - '0' as nat) as nat)
    } else if 'a' <= c && c <= 'f' {
        Some((c as nat - 'a' as nat + 10) as nat)
    } else if 'A' <= c && c <= 'F' {
        Some((c as nat - 'A' as nat + 10) as nat)
    } else {
        None
    }
}

/// The value of a non-empty run of hexadecimal digits.
pub open spec fn hex_digits_value(s: Seq<char>) -> Option<nat>
    decreases s.len(),
{
    if s.len() == 0 {
        None
    } else {
        match hex_digit_value(s.last()) {
            None => None,
            Some(d) => if s.len() == 1 {
                Some(d)
            } else {
                match hex_digits_value(s.drop_last()) {
                    Some(v) => Some(v * 16 + d),
                    None => None,
                }
            },
        }
    }
}

/// The number `from_str_radix(s, 16)` reads for an unsigned type, before the range
/// check: the digits may follow one `+`.
pub open spec fn radix16_value(s: Seq<char>) -> Option<nat> {
    if s.len() > 0 && s[0] == '+' {
        hex_digits_value(s.drop_first())
    } else {
        hex_digits_value(s)
    }
}

/// The value `from_hex` reads from `s`: `0x` followed by what `radix16_value` accepts.
pub open spec fn spec_hex_value(s: Seq<char>) -> Option<nat> {
    if s.len() >= 2 && s[0] == '0' && s[1] == 'x' {
        radix16_value(s.skip(2))
    } else {
        None
    }
}

/// Why a hexadecimal setting was refused.
#[derive(Debug, Clone, PartialEq, Eq)]
pub enum HexError {
    /// The text does not start with `0x`.
    MissingPrefix,
    /// The digits are not a number of the target type; the text is kept.
    Invalid(String),
}

impl HexError {
    pub fn message(&self) -> (r: String)
        ensures
            r@ == match self {
                HexError::MissingPrefix => "Hex number shall have a 0x prefix"@,
                HexError::Invalid(s) => "Could not parse "@ + s@ + " as hex value"@,
            },
    {
        match self {
            HexError::MissingPrefix => String::from_str("Hex number shall have a 0x prefix"),
            HexError::Invalid(s) => concat3("Could not parse ", s.as_str(), " as hex value"),
        }
    }
}

fn digit_value(c: char) -> (r: Option<u64>)
    ensures
        match hex_digit_value(c) {
            Some(d) => r == Some(d as u64),
            None => r is None,
        },
        r matches Some(d) ==> d < 16,
{
    if '0' <= c && c <= '9' {
        Some((c as u64) - 48)
    } else if 'a' <= c && c <= 'f' {
        Some((c as u64) - 97 + 10)
    } else if 'A' <= c && c <= 'F' {
        Some((c as u64) - 65 + 10)
    } else {
        None
    }
}

proof fn lemma_hex_digits_grow(s: Seq<char>, k: int)
    requires
        0 < k <= s.len(),
        hex_digits_value(s) is Some,
    ensures
        hex_digits_value(s.take(k)) is Some,
        hex_digits_value(s.take(k))->0 <= hex_digits_value(s)->0,
    decreases s.len(),
{
    if k < s.len() {
        assert(s.drop_last().take(k) =~= s.take(k));
        lemma_hex_digits_grow(s.drop_last(), k);
    } else {
        assert(s.take(k) =~= s);
    }
}

/// Reads the digits `s[start..]` as a hexadecimal number no greater than `max`.
fn parse_digits(s: &Vec<char>, start: usize, max: u64) -> (r: Option<u64>)
    requires
        start <= s@.len(),
    ensures
        match hex_digits_value(s@.skip(start as int)) {
            Some(v) => if v <= max {
                r == Some(v as u64)
            } else {
                r is None
            },
            None => r is None,
        },
{
    let ghost digits = s@.skip(start as int);
    if start >= s.len() {
        return None;
    }
    let mut value: u64 = 0;
    let mut i = start;
    while i < s.len()
        invariant
            start <= i <= s@.len(),
            start < s@.len(),
            digits == s@.skip(start as int),
            value <= max,
            i == start || hex_digits_value(digits.take(i - start)) == Some(value as nat),
            i == start ==> value == 0,
        decreases s@.len() - i,
    {
        let ghost prefix = digits.take(i - start + 1);
        assert(prefix.drop_last() =~= digits.take(i - start));
        assert(prefix.last() == s@[i as int]);
        match digit_value(s[i]) {
            None => {
                proof {
                    if hex_digits_value(digits) is Some {
                        lemma_hex_digits_grow(digits, i - start + 1);
                    }
                }
                return None;
            },
            Some(d) => {
                if d > max {
                    proof {
                        if hex_digits_value(digits) is Some {
                            lemma_hex_digits_grow(digits, i - start + 1);
                        }
                    }
                    return None;
                }
                if value > (max - d) / 16 {
                    proof {
                        assert(value * 16 + d > max) by (nonlinear_arith)
                            requires
                                value > (max - d) / 16,
                                d <= max,
                        ;
                        if hex_digits_value(digits) is Some {
                            lemma_hex_digits_grow(digits, i - start + 1);
                        }
                    }
                    return None;
                }
                assert(value * 16 + d <= max) by (nonlinear_arith)
                    requires
                        value <= (max - d) / 16,
                        d <= max,
                ;
                value = value * 16 + d;
            },
        }
        i = i + 1;
    }
    assert(digits.take(i - start) =~= digits);
    Some(value)
}

/// Reads a setting written as `0x` and hexadecimal digits (optionally after a `+`) as a
/// number no greater than `max`, the largest value of the target type.
pub fn from_hex(hex_value: &str, max: u64) -> (r: Result<u64, HexError>)
    ensures
        match r {
            Ok(v) => spec_hex_value(hex_value@) == Some(v as nat) && v <= max,
            Err(HexError::MissingPrefix) => !(hex_value@.len() >= 2 && hex_value@[0] == '0'
                && hex_value@[1] == 'x'),
            Err(HexError::Invalid(s)) => s@ == hex_value@ && hex_value@.len() >= 2 && hex_value@[0]
                == '0' && hex_value@[1] == 'x' && match spec_hex_value(hex_value@) {
                Some(v) => v > max,
                None => true,
            },
        },
{
    let s = chars_of(hex_value);
    if !(s.len() >= 2 && s[0] == '0' && s[1] == 'x') {
        return Err(HexError::MissingPrefix);
    }
    let start: usize = if s.len() > 2 && s[2] == '+' {
        3
    } else {
        2
    };
    proof {
        if s@.len() > 2 {
            assert(s@.skip(2).drop_first() =~= s@.skip(3));
        }
    }
    match parse_digits(&s, start, max) {
        Some(v) => Ok(v),
        None => Err(HexError::Invalid(String::from_str(hex_value))),
    }
}

/// Reads a setting written as `0x` and hexadecimal digits into a `u8`.
pub fn from_hex_u8(hex_value: &str) -> (r: Result<u8, HexError>)
    ensures
        match r {
            Ok(v) => spec_hex_value(hex_value@) == Some(v as nat),
            Err(HexError::MissingPrefix) => !(hex_value@.len() >= 2 && hex_value@[0] == '0'
                && hex_value@[1] == 'x'),
            Err(HexError::Invalid(s)) => s@ == hex_value@ && hex_value@.len() >= 2 && hex_value@[0]
                == '0' && hex_value@[1] == 'x' && match spec_hex_value(hex_value@) {
                Some(v) => v > u8::MAX,
                None => true,
            },
        },
{
    match from_hex(hex_value, 255) {
        Ok(v) => Ok(v as u8),
        Err(e) => Err(e),
    }
}

/// Reads a setting written as `0x` and hexadecimal digits into a `u16`.
pub fn from_hex_u16(hex_value: &str) -> (r: Result<u16, HexError>)
    ensures
        match r {
            Ok(v) => spec_hex_value(hex_value@) == Some(v as nat),
            Err(HexError::MissingPrefix) => !(hex_value@.len() >= 2 && hex_value@[0] == '0'
                && hex_value@[1] == 'x'),
            Err(HexError::Invalid(s)) => s@ == hex_value@ && hex_value@.len() >= 2 && hex_value@[0]
                == '0' && hex_value@[1] == 'x' && match spec_hex_value(hex_value@) {
                Some(v) => v > u16::MAX,
                None => true,
            },
        },
{
    match from_hex(hex_value, 65535) {
        Ok(v) => Ok(v as u16),
        Err(e) => Err(e),
    }
}

/// The hexadecimal digits written for `n` read back as `n`.
pub proof fn lemma_hex_digits_round_trip(n: nat, upper: bool)
    ensures
        hex_digits_value(hex(n, upper)) == Some(n),
    decreases n,
{
    lemma_hex_char_value((n % 16) as nat, upper);
    if n >= 16 {
        lemma_hex_digits_round_trip(n / 16, upper);
        assert(hex(n, upper).drop_last() =~= hex(n / 16, upper));
    } else {
        assert(n % 16 == n);
    }
}

proof fn lemma_hex_char_value(d: nat, upper: bool)
    requires
        d < 16,
    ensures
        hex_digit_value(hex_char(d, upper)) == Some(d),
{
    if d < 10 {
        assert(((48 + d) as u8) as char as nat == 48 + d);
    } else if upper {
        assert(((55 + d) as u8) as char as nat == 55 + d);
    } else {
        assert(((87 + d) as u8) as char as nat == 87 + d);
    }
}

/// Leading zeros do not change the value of a run of hexadecimal digits.
proof fn lemma_leading_zeros(k: nat, s: Seq<char>)
    requires
        s.len() > 0,
    ensures
        hex_digits_value(Seq::new(k, |i: int| '0') + s) == hex_digits_value(s),
    decreases s.len(),
{
    let z = Seq::new(k, |i: int| '0');
    let t = z + s;
    assert(t.last() == s.last());
    if s.len() == 1 {
        if k > 0 {
            assert(t.drop_last() =~= z);
            lemma_zeros_value(k);
        } else {
            assert(t =~= s);
        }
    } else {
        assert(t.drop_last() =~= z + s.drop_last());
        lemma_leading_zeros(k, s.drop_last());
    }
}

proof fn lemma_zeros_value(k: nat)
    requires
        k > 0,
    ensures
        hex_digits_value(Seq::new(k, |i: int| '0')) == Some(0nat),
    decreases k,
{
    let z = Seq::new(k, |i: int| '0');
    if k > 1 {
        assert(z.drop_last() =~= Seq::new((k - 1) as nat, |i: int| '0'));
        lemma_zeros_value((k - 1) as nat);
    }
}

/// What `0x` and the hexadecimal digits of `n`, padded with zeros to any width, spell is
/// read back as `n`: the settings format of vendor and product ids round-trips.
pub proof fn lemma_hex_setting_round_trip(n: nat, width: nat)
    ensures
        spec_hex_value("0x"@ + zero_padded(hex(n, false), width)) == Some(n),
{
    reveal_strlit("0x");
    let digits = hex(n, false);
    let padded = zero_padded(digits, width);
    let s = "0x"@ + padded;
    lemma_hex_digits_round_trip(n, false);
    lemma_hex_digits_nonempty(n, false);
    if digits.len() < width {
        lemma_leading_zeros((width - digits.len()) as nat, digits);
    }
    assert(s.skip(2) =~= padded);
    assert(padded.len() > 0);
    assert(padded[0] != '+') by {
        if digits.len() < width {
            assert(padded[0] == '0');
        } else {
            lemma_hex_first_char(n, false);
        }
    }
}

proof fn lemma_hex_digits_nonempty(n: nat, upper: bool)
    ensures
        hex(n, upper).len() > 0,
    decreases n,
{
    if n >= 16 {
        lemma_hex_digits_nonempty(n / 16, upper);
    }
}

proof fn lemma_hex_first_char(n: nat, upper: bool)
    ensures
        hex(n, upper).len() > 0,
        hex_digit_value(hex(n, upper)[0]) is Some,
    decreases n,
{
    if n >= 16 {
        lemma_hex_first_char(n / 16, upper);
        assert(hex(n, upper)[0] == hex(n / 16, upper)[0]);
    } else {
        lemma_hex_char_value(n, upper);
    }
}

} // verus!
