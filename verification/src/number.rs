//! Integers as window records encode them: decimal text and 64-bit leaves.

use vstd::prelude::*;

verus! {

/// The number of values a 32-bit integer can take.
pub open spec fn modulus32() -> int {
    0x1_0000_0000
}

/// The 32-bit two's-complement reading of an arbitrary integer: the unique
/// value in the `i32` range that differs from `n` by a multiple of 2^32.
pub open spec fn wrap32(n: int) -> int {
    let low = n % modulus32();
    if low >= 0x8000_0000 {
        low - modulus32()
    } else {
        low
    }
}

/// Whether `n` is representable as an `i32`.
pub open spec fn fits_i32(n: int) -> bool {
    i32::MIN <= n <= i32::MAX
}

/// Narrows a signed 64-bit value to 32 bits, keeping the low 32 bits.
pub fn wrap_signed(v: i64) -> (r: i32)
    ensures
        r == wrap32(v as int),
{
    let low: i64 = v & 0xffff_ffff;
    assert(0 <= low < 0x1_0000_0000 && low == (v as int) % 0x1_0000_0000) by (bit_vector)
        requires
            low == v & 0xffff_ffff,
    ;
    if low >= 0x8000_0000 {
        (low - 0x1_0000_0000) as i32
    } else {
        low as i32
    }
}

/// Narrows an unsigned 64-bit value to 32 bits, keeping the low 32 bits.
pub fn wrap_unsigned(v: u64) -> (r: i32)
    ensures
        r == wrap32(v as int),
{
    let low: u64 = v & 0xffff_ffff;
    assert(low < 0x1_0000_0000 && low == v % 0x1_0000_0000) by (bit_vector)
        requires
            low == v & 0xffff_ffff,
    ;
    if low >= 0x8000_0000 {
        (low as i64 - 0x1_0000_0000) as i32
    } else {
        low as i32
    }
}

/// Whether `c` is one of the ten ASCII decimal digits.
pub open spec fn is_digit(c: char) -> bool {
    '0' <= c <= '9'
}

/// The value of a decimal digit.
pub open spec fn digit_value(c: char) -> int {
    c as int - '0' as int
}

/// Whether every character of `s` is a decimal digit.
pub open spec fn all_digits(s: Seq<char>) -> bool {
    forall|i: int| 0 <= i < s.len() ==> is_digit(#[trigger] s[i])
}

/// The natural number that a string of decimal digits denotes, most
/// significant digit first. The empty string denotes zero.
pub open spec fn digits_value(s: Seq<char>) -> int
    decreases s.len(),
{
    if s.len() == 0 {
        0
    } else {
        10 * digits_value(s.drop_last()) + digit_value(s.last())
    }
}

/// Whether `s` starts with a sign character.
pub open spec fn has_sign(s: Seq<char>) -> bool {
    s.len() > 0 && (s[0] == '+' || s[0] == '-')
}

/// The part of `s` after its optional sign.
pub open spec fn magnitude_digits(s: Seq<char>) -> Seq<char> {
    if has_sign(s) {
        s.subrange(1, s.len() as int)
    } else {
        s
    }
}

/// The integer that `s` denotes in base ten: an optional `+` or `-`, then
/// one or more decimal digits and nothing else. `None` for any other text.
pub open spec fn decimal(s: Seq<char>) -> Option<int> {
    let digits = magnitude_digits(s);
    if digits.len() == 0 || !all_digits(digits) {
        None
    } else if s[0] == '-' {
        Some(-digits_value(digits))
    } else {
        Some(digits_value(digits))
    }
}

/// The `i32` that `s` denotes in base ten, if it denotes an integer and that
/// integer is in range.
pub open spec fn decimal_i32(s: Seq<char>) -> Option<i32> {
    match decimal(s) {
        Some(v) => if fits_i32(v) {
            Some(v as i32)
        } else {
            None
        },
        None => None,
    }
}

/// A string of digits is worth at least as much as any of its prefixes.
pub proof fn digits_value_grows(s: Seq<char>, k: int)
    requires
        all_digits(s),
        0 <= k <= s.len(),
    ensures
        0 <= digits_value(s.subrange(0, k)) <= digits_value(s),
    decreases s.len() - k,
{
    if k == s.len() {
        assert(s.subrange(0, k) =~= s);
        digits_value_nonnegative(s);
    } else {
        digits_value_grows(s, k + 1);
        let longer = s.subrange(0, k + 1);
        assert(longer.drop_last() =~= s.subrange(0, k));
        assert(is_digit(s[k]));
        assert(longer.last() == s[k]);
        assert(all_digits(s.subrange(0, k))) by {
            assert forall|i: int| 0 <= i < k implies is_digit(#[trigger] s.subrange(0, k)[i]) by {
                assert(is_digit(s[i]));
            }
        }
        digits_value_nonnegative(s.subrange(0, k));
    }
}

/// A string of digits denotes a natural number.
pub proof fn digits_value_nonnegative(s: Seq<char>)
    requires
        all_digits(s),
    ensures
        0 <= digits_value(s),
    decreases s.len(),
{
    if s.len() > 0 {
        assert(is_digit(s.last()));
        assert(all_digits(s.drop_last())) by {
            assert forall|i: int| 0 <= i < s.len() - 1 implies is_digit(
                #[trigger] s.drop_last()[i],
            ) by {
                assert(is_digit(s[i]));
            }
        }
        digits_value_nonnegative(s.drop_last());
    }
}

/// Reads a base-ten `i32` from text: an optional sign, then digits only.
/// Text with any other character, without digits, or denoting a value
/// outside the `i32` range gives `None`.
pub fn parse_i32(text: &str) -> (r: Option<i32>)
    ensures
        r == decimal_i32(text@),
{
    if !text.is_ascii() {
        proof {
            let s = text@;
            let i = choose|i: int| 0 <= i < s.len() && !('\0' <= #[trigger] s[i] <= '\u{7f}');
            let digits = magnitude_digits(s);
            if has_sign(s) {
                assert(i != 0);
                assert(digits[i - 1] == s[i]);
                assert(!is_digit(digits[i - 1]));
            } else {
                assert(!is_digit(digits[i]));
            }
        }
        return None;
    }
    let bytes = text.as_bytes();
    let n: usize = bytes.len();
    proof {
        vstd::string::is_ascii_spec_bytes(text);
    }
    assert(n == text@.len());
    assert(forall|j: int| 0 <= j < n ==> #[trigger] bytes@[j] == text@[j] as u8);
    if n == 0 {
        return None;
    }
    let first: u8 = bytes[0];
    let negative: bool = first == 45;
    let start: usize = if first == 43 || first == 45 {
        1
    } else {
        0
    };
    assert(has_sign(text@) == (start == 1));
    assert(negative == (text@[0] == '-'));
    if start == n {
        return None;
    }
    let ghost digits = magnitude_digits(text@);
    let mut magnitude: i64 = 0;
    let mut i: usize = start;
    while i < n
        invariant
            vstd::string::is_ascii(text),
            n == text@.len(),
            n == bytes@.len(),
            forall|j: int| 0 <= j < n ==> #[trigger] bytes@[j] == text@[j] as u8,
            start <= i <= n,
            start <= 1,
            digits == magnitude_digits(text@),
            digits.len() == n - start,
            forall|j: int| 0 <= j < digits.len() ==> digits[j] == text@[j + start],
            all_digits(digits.subrange(0, i - start)),
            magnitude == digits_value(digits.subrange(0, i - start)),
            0 <= magnitude <= 0x8000_0000,
        decreases n - i,
    {
        let b: u8 = bytes[i];
        let ghost c = text@[i as int];
        if b < 48 || b > 57 {
            assert(!is_digit(digits[i - start]));
            return None;
        }
        let shorter = Ghost(digits.subrange(0, i - start));
        let longer = Ghost(digits.subrange(0, i - start + 1));
        proof {
            assert(is_digit(c));
            assert(longer@.drop_last() =~= shorter@);
            assert(longer@.last() == c);
            assert(digit_value(c) == b - 48);
            assert(all_digits(longer@)) by {
                assert forall|j: int| 0 <= j < longer@.len() implies is_digit(
                    #[trigger] longer@[j],
                ) by {
                    if j < i - start {
                        assert(is_digit(shorter@[j]));
                    }
                }
            }
        }
        let next: i64 = magnitude * 10 + (b - 48) as i64;
        if next > 0x8000_0000 {
            proof {
                if all_digits(digits) {
                    digits_value_grows(digits, i - start + 1);
                }
            }
            return None;
        }
        magnitude = next;
        i = i + 1;
    }
    assert(digits.subrange(0, n - start) =~= digits);
    if negative {
        Some((-magnitude) as i32)
    } else if magnitude > 0x7fff_ffff {
        None
    } else {
        Some(magnitude as i32)
    }
}

} // verus!
