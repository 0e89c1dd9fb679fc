//! Numbers as text: hexadecimal digits read into a signed 32-bit integer, and
//! unsigned integers written in decimal.

use vstd::prelude::*;
use vstd::std_specs::iter::IteratorSpec;
use vstd::string::*;

verus! {

/// Why a text is not a hexadecimal number that fits a signed 32-bit integer.
#[derive(Clone, Copy, Debug, PartialEq, Eq, Structural)]
pub enum ParseError {
    /// The text holds no character at all.
    Empty,
    /// Some character is not one of `0-9`, `a-f`, `A-F`.
    InvalidDigit,
    /// Every character is a digit, but the number is above `i32::MAX`.
    Overflow,
}

/// The value of one hexadecimal digit, in either case.
pub open spec fn hex_digit(c: char) -> Option<int> {
    let v = c as int;
    if 0x30 <= v <= 0x39 {
        Some(v - 0x30)
    } else if 0x61 <= v <= 0x66 {
        Some(v - 0x61 + 10)
    } else if 0x41 <= v <= 0x46 {
        Some(v - 0x41 + 10)
    } else {
        None
    }
}

/// Every character of `s` is a hexadecimal digit.
pub open spec fn all_hex(s: Seq<char>) -> bool {
    forall|i: int| 0 <= i < s.len() ==> (#[trigger] hex_digit(s[i])) is Some
}

/// The number that the digits of `s` write in base 16, most significant first.
pub open spec fn hex_value(s: Seq<char>) -> int
    decreases s.len(),
{
    if s.len() == 0 {
        0
    } else {
        16 * hex_value(s.drop_last()) + hex_digit(s.last()).unwrap_or(0)
    }
}

/// What reading `s` as a hexadecimal `i32` gives.
pub open spec fn parse_hex_i32_spec(s: Seq<char>) -> Result<i32, ParseError> {
    if s.len() == 0 {
        Err(ParseError::Empty)
    } else if !all_hex(s) {
        Err(ParseError::InvalidDigit)
    } else if hex_value(s) > i32::MAX {
        Err(ParseError::Overflow)
    } else {
        Ok(hex_value(s) as i32)
    }
}

/// Reads one hexadecimal digit.
pub fn hex_digit_of(c: char) -> (r: Option<u8>)
    ensures
        match r {
            Some(d) => hex_digit(c) == Some(d as int),
            None => hex_digit(c) is None,
        },
{
    let v: u32 = c as u32;
    if 0x30 <= v && v <= 0x39 {
        Some((v - 0x30) as u8)
    } else if 0x61 <= v && v <= 0x66 {
        Some((v - 0x61 + 10) as u8)
    } else if 0x41 <= v && v <= 0x46 {
        Some((v - 0x41 + 10) as u8)
    } else {
        None
    }
}

/// One more digit at the end multiplies by 16 and adds the digit.
pub proof fn lemma_hex_value_push(s: Seq<char>, c: char)
    ensures
        hex_value(s.push(c)) == 16 * hex_value(s) + hex_digit(c).unwrap_or(0),
        all_hex(s.push(c)) == (all_hex(s) && hex_digit(c) is Some),
{
    assert(s.push(c).drop_last() =~= s);
    assert(s.push(c).last() == c);
    if all_hex(s) && hex_digit(c) is Some {
        assert forall|i: int| 0 <= i < s.push(c).len() implies (#[trigger] hex_digit(
            s.push(c)[i],
        )) is Some by {
            if i < s.len() {
                assert(s.push(c)[i] == s[i]);
            }
        }
    }
    if all_hex(s.push(c)) {
        assert(hex_digit(s.push(c)[s.len() as int]) is Some);
        assert forall|i: int| 0 <= i < s.len() implies (#[trigger] hex_digit(s[i])) is Some by {
            assert(s.push(c)[i] == s[i]);
        }
    }
}

/// No text has a negative value.
pub proof fn lemma_hex_value_nonneg(s: Seq<char>)
    ensures
        hex_value(s) >= 0,
    decreases s.len(),
{
    if s.len() > 0 {
        lemma_hex_value_nonneg(s.drop_last());
    }
}

/// Reads `s` as a hexadecimal number without sign, in either case of the
/// letters, into an `i32`. A text with a character that is no digit is refused
/// as such, however long it is; a number above `i32::MAX` is refused, never
/// wrapped into the negative range.
pub fn parse_hex_i32(s: &str) -> (r: Result<i32, ParseError>)
    ensures
        r == parse_hex_i32_spec(s@),
{
    let mut it = s.chars();
    let ghost mut seen: Seq<char> = Seq::empty();
    let mut value: u32 = 0;
    let mut over = false;
    let mut valid = true;
    let mut any = false;
    loop
        invariant
            it.obeys_prophetic_iter_laws(),
            it.decrease() is Some,
            seen + it.remaining() == s@,
            any == (seen.len() > 0),
            valid == all_hex(seen),
            valid ==> (over <==> hex_value(seen) > i32::MAX),
            valid && !over ==> value == hex_value(seen),
            value <= i32::MAX,
        ensures
            seen == s@,
        decreases it.decrease()->0,
    {
        let ghost before = it.remaining();
        match it.next() {
            None => {
                assert(seen =~= s@);
                break ;
            },
            Some(c) => {
                proof {
                    lemma_hex_value_push(seen, c);
                    lemma_hex_value_nonneg(seen);
                    assert(seen.push(c) + it.remaining() =~= seen + before);
                    seen = seen.push(c);
                }
                any = true;
                match hex_digit_of(c) {
                    None => {
                        valid = false;
                    },
                    Some(d) => {
                        if !over {
                            if value > (i32::MAX as u32 - d as u32) / 16 {
                                over = true;
                                value = 0;
                            } else {
                                value = value * 16 + d as u32;
                            }
                        }
                    },
                }
            },
        }
    }
    if !any {
        Err(ParseError::Empty)
    } else if !valid {
        Err(ParseError::InvalidDigit)
    } else if over {
        Err(ParseError::Overflow)
    } else {
        Ok(value as i32)
    }
}

/// The character that writes the decimal digit `d`.
pub open spec fn digit_char(d: nat) -> char {
    if d == 0 {
        '0'
    } else if d == 1 {
        '1'
    } else if d == 2 {
        '2'
    } else if d == 3 {
        '3'
    } else if d == 4 {
        '4'
    } else if d == 5 {
        '5'
    } else if d == 6 {
        '6'
    } else if d == 7 {
        '7'
    } else if d == 8 {
        '8'
    } else {
        '9'
    }
}

/// `n` in decimal, without sign and without leading zeros; zero is `"0"`.
pub open spec fn decimal(n: nat) -> Seq<char>
    decreases n,
{
    if n < 10 {
        seq![digit_char(n)]
    } else {
        decimal(n / 10).push(digit_char(n % 10))
    }
}

/// `n` in decimal, with a leading `-` where it is negative.
pub open spec fn decimal_int(n: int) -> Seq<char> {
    if n < 0 {
        seq!['-'] + decimal((-n) as nat)
    } else {
        decimal(n as nat)
    }
}

/// The number that the decimal digits of `s` write, most significant first.
pub open spec fn decimal_value(s: Seq<char>) -> nat
    decreases s.len(),
{
    if s.len() == 0 {
        0
    } else {
        10 * decimal_value(s.drop_last()) + (s.last() as int - 0x30) as nat
    }
}

/// Reading the decimal text of a number gives the number back.
pub proof fn lemma_decimal_value(n: nat)
    ensures
        decimal_value(decimal(n)) == n,
        decimal(n).len() >= 1,
    decreases n,
{
    if n < 10 {
        assert(decimal(n).drop_last() =~= Seq::<char>::empty());
        assert(decimal_value(decimal(n).drop_last()) == 0);
        assert(decimal(n).last() == digit_char(n));
    } else {
        lemma_decimal_value(n / 10);
        assert(decimal(n).drop_last() =~= decimal(n / 10));
        assert(decimal(n).last() == digit_char(n % 10));
    }
}

/// Ten to the power `k`.
pub open spec fn pow10(k: nat) -> nat
    decreases k,
{
    if k == 0 {
        1
    } else {
        10 * pow10((k - 1) as nat)
    }
}

/// A number below ten to the power `k` takes at most `k` digits.
pub proof fn lemma_decimal_len(n: nat, k: nat)
    requires
        k >= 1,
        n < pow10(k),
    ensures
        1 <= decimal(n).len() <= k,
    decreases k,
{
    reveal_with_fuel(pow10, 2);
    if n >= 10 {
        assert(k >= 2);
        assert(n / 10 < pow10((k - 1) as nat));
        lemma_decimal_len(n / 10, (k - 1) as nat);
    }
}

/// The longest decimal text of a `u64`.
pub const U64_DECIMAL_MAX_LEN: usize = 20;

/// A `u64` takes at least one digit and at most twenty.
pub proof fn lemma_decimal_len_u64(n: u64)
    ensures
        1 <= decimal(n as nat).len() <= U64_DECIMAL_MAX_LEN,
{
    reveal_with_fuel(pow10, 21);
    assert(pow10(20) == 100000000000000000000);
    lemma_decimal_len(n as nat, 20);
}

/// A decimal digit, `0` to `9`.
pub open spec fn is_decimal_digit(c: char) -> bool {
    0x30 <= c as int <= 0x39
}

/// The decimal text of a number holds digits and nothing else.
pub proof fn lemma_decimal_is_digits(n: nat)
    ensures
        forall|i: int| 0 <= i < decimal(n).len() ==> is_decimal_digit(#[trigger] decimal(n)[i]),
    decreases n,
{
    if n >= 10 {
        lemma_decimal_is_digits(n / 10);
        assert forall|i: int| 0 <= i < decimal(n).len() implies is_decimal_digit(
            #[trigger] decimal(n)[i],
        ) by {
            if i < decimal(n / 10).len() {
                assert(decimal(n)[i] == decimal(n / 10)[i]);
            }
        }
    }
}

/// Two numbers with the same decimal text are the same number.
pub proof fn lemma_decimal_injective(a: nat, b: nat)
    requires
        decimal(a) == decimal(b),
    ensures
        a == b,
{
    lemma_decimal_value(a);
    lemma_decimal_value(b);
}

/// The one-character text of a decimal digit.
fn digit_text(d: u8) -> (r: &'static str)
    requires
        d < 10,
    ensures
        r@ == seq![digit_char(d as nat)],
{
    proof {
        reveal_strlit("0");
        reveal_strlit("1");
        reveal_strlit("2");
        reveal_strlit("3");
        reveal_strlit("4");
        reveal_strlit("5");
        reveal_strlit("6");
        reveal_strlit("7");
        reveal_strlit("8");
        reveal_strlit("9");
    }
    let r = if d == 0 {
        "0"
    } else if d == 1 {
        "1"
    } else if d == 2 {
        "2"
    } else if d == 3 {
        "3"
    } else if d == 4 {
        "4"
    } else if d == 5 {
        "5"
    } else if d == 6 {
        "6"
    } else if d == 7 {
        "7"
    } else if d == 8 {
        "8"
    } else {
        "9"
    };
    assert(r@ =~= seq![digit_char(d as nat)]);
    r
}

/// Writes `n` in decimal at the end of `out`.
pub fn push_decimal(out: &mut String, n: u64)
    ensures
        final(out)@ == old(out)@ + decimal(n as nat),
    decreases n,
{
    if n >= 10 {
        push_decimal(out, n / 10);
    }
    out.append(digit_text((n % 10) as u8));
    assert(final(out)@ =~= old(out)@ + decimal(n as nat));
}

/// Writes `n` in decimal at the end of `out`, `-` first where it is negative.
pub fn push_decimal_i32(out: &mut String, n: i32)
    ensures
        final(out)@ == old(out)@ + decimal_int(n as int),
{
    if n < 0 {
        proof {
            reveal_strlit("-");
        }
        out.append("-");
        let magnitude: u64 = (-(n as i64)) as u64;
        push_decimal(out, magnitude);
        assert(final(out)@ =~= old(out)@ + decimal_int(n as int));
    } else {
        push_decimal(out, n as u64);
    }
}

} // verus!
