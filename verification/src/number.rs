//! Parsing of unsigned numbers typed at the monitor: decimal, or hexadecimal after
//! `0x`/`0X`, as `u64::from_str_radix` reads them.

use vstd::prelude::*;
use vstd::string::StringSliceAdditionalSpecFns;

verus! {

/// The value of a digit byte in the given radix (at most 36), if it is one.
pub open spec fn digit_of(b: u8, radix: nat) -> Option<nat> {
    let d: Option<nat> = if 0x30 <= b <= 0x39 {
        Some((b - 0x30) as nat)
    } else if 0x61 <= b <= 0x7A {
        Some((b - 0x61 + 10) as nat)
    } else if 0x41 <= b <= 0x5A {
        Some((b - 0x41 + 10) as nat)
    } else {
        None
    };
    match d {
        Some(v) => if v < radix { Some(v) } else { None },
        None => None,
    }
}

pub open spec fn all_digits(s: Seq<u8>, radix: nat) -> bool {
    forall|i: int| 0 <= i < s.len() ==> #[trigger] digit_of(s[i], radix) is Some
}

/// The number that a string of digits denotes.
pub open spec fn digits_value(s: Seq<u8>, radix: nat) -> nat
    decreases s.len(),
{
    if s.len() == 0 {
        0
    } else {
        digits_value(s.drop_last(), radix) * radix + match digit_of(s.last(), radix) {
            Some(d) => d,
            None => 0,
        }
    }
}

/// What `u64::from_str_radix` returns (as an `Option`): an optional leading `+`, then
/// at least one digit, and a value that fits.
pub open spec fn parse_radix(s: Seq<u8>, radix: nat) -> Option<u64> {
    let d = if s.len() > 0 && s[0] == 0x2B { s.drop_first() } else { s };
    if d.len() == 0 || !all_digits(d, radix) || digits_value(d, radix) > u64::MAX {
        None
    } else {
        Some(digits_value(d, radix) as u64)
    }
}

/// True when the text starts with `0x` or `0X`.
pub open spec fn has_hex_prefix(s: Seq<u8>) -> bool {
    s.len() >= 2 && s[0] == 0x30 && (s[1] == 0x78 || s[1] == 0x58)
}

/// The number a monitor argument denotes: hexadecimal after `0x`/`0X`, decimal otherwise.
pub open spec fn parse_number(s: Seq<u8>) -> Option<u64> {
    if has_hex_prefix(s) { parse_radix(s.subrange(2, s.len() as int), 16) } else { parse_radix(s, 10) }
}

proof fn lemma_digits_value_mono(s: Seq<u8>, radix: nat, i: int, j: int)
    requires
        0 <= i <= j <= s.len(),
        radix >= 1,
    ensures
        digits_value(s.take(i), radix) <= digits_value(s.take(j), radix),
    decreases j - i,
{
    if i < j {
        lemma_digits_value_mono(s, radix, i, j - 1);
        assert(s.take(j).drop_last() =~= s.take(j - 1));
        let v = digits_value(s.take(j - 1), radix);
        assert(v * radix >= v) by (nonlinear_arith)
            requires
                radix >= 1,
        ;
    }
}

fn digit_value(b: u8, radix: u64) -> (r: Option<u64>)
    requires
        radix <= 36,
    ensures
        r == match digit_of(b, radix as nat) {
            Some(v) => Some(v as u64),
            None => None::<u64>,
        },
{
    let d: u64 = if 0x30 <= b && b <= 0x39 {
        (b - 0x30) as u64
    } else if 0x61 <= b && b <= 0x7A {
        (b - 0x61 + 10) as u64
    } else if 0x41 <= b && b <= 0x5A {
        (b - 0x41 + 10) as u64
    } else {
        return None;
    };
    if d < radix { Some(d) } else { None }
}

/// `u64::from_str_radix` on bytes.
pub fn parse_radix_bytes(s: &[u8], radix: u64) -> (r: Option<u64>)
    requires
        2 <= radix <= 36,
    ensures
        r == parse_radix(s@, radix as nat),
{
    let ghost full = s@;
    let start: usize = if s.len() > 0 && s[0] == 0x2B { 1 } else { 0 };
    let ghost d = if full.len() > 0 && full[0] == 0x2B { full.drop_first() } else { full };
    assert(d =~= full.subrange(start as int, full.len() as int));
    if start == s.len() {
        return None;
    }
    let mut value: u64 = 0;
    let mut i: usize = start;
    while i < s.len()
        invariant
            start <= i <= s@.len(),
            full == s@,
            2 <= radix <= 36,
            d == full.subrange(start as int, full.len() as int),
            d == (if full.len() > 0 && full[0] == 0x2B { full.drop_first() } else { full }),
            d.len() > 0,
            all_digits(d.take(i - start), radix as nat),
            value == digits_value(d.take(i - start), radix as nat),
        decreases s@.len() - i,
    {
        let ghost k = (i - start) as int;
        assert(d.take(k + 1).drop_last() =~= d.take(k));
        assert(d[k] == s@[i as int]);
        let digit = match digit_value(s[i], radix) {
            Some(v) => v,
            None => {
                assert(!all_digits(d, radix as nat)) by {
                    assert(digit_of(d[k], radix as nat) is None);
                }
                return None;
            },
        };
        let next = match value.checked_mul(radix) {
            Some(m) => match m.checked_add(digit) {
                Some(v) => v,
                None => {
                    proof { lemma_overflow_is_none(d, radix as nat, k); }
                    return None;
                },
            },
            None => {
                proof {
                    assert(value * radix + digit >= value * radix);
                    lemma_overflow_is_none(d, radix as nat, k);
                }
                return None;
            },
        };
        assert(all_digits(d.take(k + 1), radix as nat)) by {
            assert forall|j: int| 0 <= j < k + 1 implies #[trigger] digit_of(d.take(k + 1)[j], radix as nat) is Some by {
                if j < k {
                    assert(d.take(k + 1)[j] == d.take(k)[j]);
                }
            }
        }
        value = next;
        i += 1;
    }
    assert(d.take(d.len() as int) =~= d);
    Some(value)
}

proof fn lemma_overflow_is_none(d: Seq<u8>, radix: nat, k: int)
    requires
        0 <= k < d.len(),
        radix >= 1,
        digits_value(d.take(k + 1), radix) > u64::MAX,
    ensures
        !all_digits(d, radix) || digits_value(d, radix) > u64::MAX,
{
    lemma_digits_value_mono(d, radix, k + 1, d.len() as int);
    assert(d.take(d.len() as int) =~= d);
}

/// Reads a monitor argument: hexadecimal after `0x`/`0X`, decimal otherwise.
pub fn parse_u64(text: &str) -> (r: Option<u64>)
    ensures
        r == parse_number(text.spec_bytes()),
{
    let bytes = text.as_bytes();
    if bytes.len() >= 2 && bytes[0] == 0x30 && (bytes[1] == 0x78 || bytes[1] == 0x58) {
        let hex = &bytes[2..bytes.len()];
        assert(hex@ =~= bytes@.subrange(2, bytes@.len() as int));
        return parse_radix_bytes(hex, 16);
    }
    parse_radix_bytes(bytes, 10)
}


/// Reads a decimal number, as `str::parse::<u64>` does.
pub fn parse_decimal(text: &str) -> (r: Option<u64>)
    ensures
        r == parse_radix(text.spec_bytes(), 10),
{
    parse_radix_bytes(text.as_bytes(), 10)
}

} // verus!
