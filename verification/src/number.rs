//! Numbers as text: decimal and hexadecimal numerals, durations, and reading a numeral back.

use vstd::prelude::*;

use crate::text::{chars_of, is_space, trimmed};

verus! {

/// The character for a digit below 16.
pub open spec fn digit_char(digit: nat) -> char {
    if digit < 10 {
        (0x30 + digit) as char
    } else {
        (0x57 + digit) as char
    }
}

/// The decimal numeral, without leading zeros.
pub open spec fn decimal(n: nat) -> Seq<char>
    decreases n,
{
    if n < 10 {
        seq![digit_char(n)]
    } else {
        decimal(n / 10).push(digit_char(n % 10))
    }
}

/// The decimal numeral of a number that may be negative.
pub open spec fn signed_decimal(n: int) -> Seq<char> {
    if n < 0 {
        "-"@ + decimal((-n) as nat)
    } else {
        decimal(n as nat)
    }
}

/// The hexadecimal numeral, without leading zeros.
pub open spec fn hexadecimal(n: nat) -> Seq<char>
    decreases n,
{
    if n < 16 {
        seq![digit_char(n)]
    } else {
        hexadecimal(n / 16).push(digit_char(n % 16))
    }
}

/// The hexadecimal numeral of a number's 32 bits, with two digits at least.
pub open spec fn hex_bits(n: i32) -> Seq<char> {
    let bits: nat = if n < 0 {
        (n + 0x1_0000_0000) as nat
    } else {
        n as nat
    };
    if bits < 16 {
        "0"@ + hexadecimal(bits)
    } else {
        hexadecimal(bits)
    }
}

/// The digits of a number of thousandths below 1000, behind a point and without trailing
/// zeros; nothing for 0.
pub open spec fn thousandths(n: nat) -> Seq<char> {
    if n == 0 {
        Seq::empty()
    } else if n % 100 == 0 {
        "."@ + decimal(n / 100)
    } else if n % 10 == 0 {
        "."@ + decimal(n / 100) + decimal(n / 10 % 10)
    } else {
        "."@ + decimal(n / 100) + decimal(n / 10 % 10) + decimal(n % 10)
    }
}

/// A time in milliseconds: in seconds from one second up, in milliseconds below.
pub open spec fn duration_text(millis: nat) -> Seq<char> {
    if millis >= 1000 {
        decimal(millis / 1000) + thousandths(millis % 1000) + "s"@
    } else if millis > 0 {
        decimal(millis) + "ms"@
    } else {
        "0ns"@
    }
}

fn digit_text(digit: u8) -> (text: &'static str)
    requires
        digit < 16,
    ensures
        text@ == seq![digit_char(digit as nat)],
{
    proof {
        reveal_strlit("0");
        reveal_strlit("1");
        reveal_strlit("2");
        reveal_strlit("3");
        reveal_strlit("4");
        reveal_strlit("5");
        reveal_strlit("6");
        reveal_strlit("7");
        reveal_strlit("8");
        reveal_strlit("9");
        reveal_strlit("a");
        reveal_strlit("b");
        reveal_strlit("c");
        reveal_strlit("d");
        reveal_strlit("e");
        reveal_strlit("f");
    }
    match digit {
        0 => "0",
        1 => "1",
        2 => "2",
        3 => "3",
        4 => "4",
        5 => "5",
        6 => "6",
        7 => "7",
        8 => "8",
        9 => "9",
        10 => "a",
        11 => "b",
        12 => "c",
        13 => "d",
        14 => "e",
        _ => "f",
    }
}

/// The decimal numeral of a number.
pub fn decimal_text(n: u64) -> (text: String)
    ensures
        text@ == decimal(n as nat),
    decreases n,
{
    if n < 10 {
        digit_text(n as u8).to_owned()
    } else {
        let mut text = decimal_text(n / 10);
        text.append(digit_text((n % 10) as u8));
        assert(text@ == decimal(n as nat));
        text
    }
}

/// The decimal numeral of a number that may be negative.
pub fn signed_decimal_text(n: i32) -> (text: String)
    ensures
        text@ == signed_decimal(n as int),
{
    if n < 0 {
        let mut text = "-".to_owned();
        text.append(decimal_text((-(n as i64)) as u64).as_str());
        text
    } else {
        decimal_text(n as u64)
    }
}

fn hexadecimal_text(n: u32) -> (text: String)
    ensures
        text@ == hexadecimal(n as nat),
    decreases n,
{
    if n < 16 {
        digit_text(n as u8).to_owned()
    } else {
        let mut text = hexadecimal_text(n / 16);
        text.append(digit_text((n % 16) as u8));
        assert(text@ == hexadecimal(n as nat));
        text
    }
}

/// The hexadecimal numeral of a number's 32 bits, with two digits at least.
pub fn hex_bits_text(n: i32) -> (text: String)
    ensures
        text@ == hex_bits(n),
{
    let bits: u32 = if n < 0 {
        (n as i64 + 0x1_0000_0000) as u32
    } else {
        n as u32
    };
    if bits < 16 {
        let mut text = "0".to_owned();
        text.append(hexadecimal_text(bits).as_str());
        text
    } else {
        hexadecimal_text(bits)
    }
}

/// A time in milliseconds as text.
pub fn duration_as_text(millis: u64) -> (text: String)
    ensures
        text@ == duration_text(millis as nat),
{
    if millis >= 1000 {
        let mut text = decimal_text(millis / 1000);
        let rest: u64 = millis % 1000;
        let ghost whole = text@;
        if rest != 0 {
            let mut fraction = ".".to_owned();
            fraction.append(digit_text((rest / 100) as u8));
            if rest % 100 != 0 {
                fraction.append(digit_text((rest / 10 % 10) as u8));
                if rest % 10 != 0 {
                    fraction.append(digit_text((rest % 10) as u8));
                }
            }
            assert(fraction@ == thousandths(rest as nat));
            text.append(fraction.as_str());
        } else {
            assert(whole == whole + thousandths(rest as nat));
        }
        text.append("s");
        text
    } else if millis > 0 {
        let mut text = decimal_text(millis);
        text.append("ms");
        text
    } else {
        "0ns".to_owned()
    }
}

/// Why a text is not the numeral of a `u32`.
#[derive(Copy, Clone, Debug, PartialEq, Eq, Structural)]
pub enum NumberError {
    /// There is no text.
    Empty,
    /// A character is no digit, or there are no digits behind the sign.
    InvalidDigit,
    /// The number is above the largest `u32`.
    PosOverflow,
}

/// A decimal digit.
pub open spec fn is_digit(c: char) -> bool {
    '0' <= c <= '9'
}

/// How many characters from the first one on are digits.
pub open spec fn digit_count(text: Seq<char>) -> nat
    decreases text.len(),
{
    if text.len() == 0 || !is_digit(text[0]) {
        0
    } else {
        1 + digit_count(text.drop_first())
    }
}

/// The number that a row of digits stands for.
pub open spec fn digits_value(digits: Seq<char>) -> nat
    decreases digits.len(),
{
    if digits.len() == 0 {
        0
    } else {
        digits_value(digits.drop_last()) * 10 + (digits.last() as nat - '0' as nat) as nat
    }
}

/// The number that a row of characters stands for: the digits at its beginning must fit into
/// a `u32`, and nothing may follow them.
pub open spec fn parsed_digits(text: Seq<char>) -> Result<u32, NumberError> {
    let value = digits_value(text.take(digit_count(text) as int));
    if value > u32::MAX {
        Err(NumberError::PosOverflow)
    } else if digit_count(text) < text.len() {
        Err(NumberError::InvalidDigit)
    } else {
        Ok(value as u32)
    }
}

/// The number that a text stands for: digits, with or without a plus sign before them.
pub open spec fn parsed_u32(text: Seq<char>) -> Result<u32, NumberError> {
    if text.len() == 0 {
        Err(NumberError::Empty)
    } else if text[0] != '+' {
        parsed_digits(text)
    } else if text.len() == 1 {
        Err(NumberError::InvalidDigit)
    } else {
        parsed_digits(text.drop_first())
    }
}

proof fn lemma_digit_count(text: Seq<char>, n: int)
    requires
        0 <= n <= text.len(),
        forall|k: int| 0 <= k < n ==> is_digit(#[trigger] text[k]),
        n == text.len() || !is_digit(text[n]),
    ensures
        digit_count(text) == n,
    decreases n,
{
    if n > 0 {
        assert(is_digit(text[0]));
        let rest = text.drop_first();
        assert forall|k: int| 0 <= k < n - 1 implies is_digit(#[trigger] rest[k]) by {
            assert(rest[k] == text[k + 1]);
        }
        lemma_digit_count(rest, n - 1);
    }
}

proof fn lemma_digit_count_bounds(text: Seq<char>)
    ensures
        0 <= digit_count(text) <= text.len(),
        forall|k: int| 0 <= k < digit_count(text) ==> is_digit(#[trigger] text[k]),
        digit_count(text) == text.len() || !is_digit(text[digit_count(text) as int]),
    decreases text.len(),
{
    if text.len() > 0 && is_digit(text[0]) {
        let rest = text.drop_first();
        lemma_digit_count_bounds(rest);
        assert forall|k: int| 0 <= k < digit_count(text) implies is_digit(#[trigger] text[k]) by {
            if k > 0 {
                assert(rest[k - 1] == text[k]);
            }
        }
    }
}

proof fn lemma_prefix_value(digits: Seq<char>, n: int)
    requires
        0 <= n <= digits.len(),
    ensures
        digits_value(digits.take(n)) <= digits_value(digits),
    decreases digits.len() - n,
{
    if n < digits.len() {
        lemma_prefix_value(digits, n + 1);
        assert(digits.take(n + 1).drop_last() == digits.take(n));
    } else {
        assert(digits.take(n) == digits);
    }
}

/// Reads a decimal numeral. What is wrong first, from the left, decides on the error.
pub fn parse_u32(text: &str) -> (number: Result<u32, NumberError>)
    ensures
        number == parsed_u32(text@),
{
    let chars = chars_of(text);
    if chars.len() == 0 {
        return Err(NumberError::Empty);
    }
    let start: usize = if chars[0] == '+' {
        1
    } else {
        0
    };
    if start == chars.len() {
        return Err(NumberError::InvalidDigit);
    }
    let ghost body = text@.skip(start as int);
    assert(start == 0 ==> body == text@);
    assert(start == 1 ==> body == text@.drop_first());
    proof {
        lemma_digit_count_bounds(body);
    }
    let ghost count = digit_count(body) as int;
    let ghost digits = body.take(count);
    let mut value: u32 = 0;
    let mut i: usize = start;
    assert(body.take(0) == Seq::<char>::empty());
    while i < chars.len()
        invariant
            chars@ == text@,
            start <= i <= chars.len(),
            body == text@.skip(start as int),
            parsed_u32(text@) == parsed_digits(body),
            count == digit_count(body),
            digits == body.take(count),
            0 <= i - start <= count <= body.len(),
            count == body.len() || !is_digit(body[count]),
            value == digits_value(body.take(i - start)),
        decreases chars.len() - i,
    {
        let c: char = chars[i];
        let ghost at = i - start;
        assert(c == body[at]);
        if c < '0' || c > '9' {
            proof {
                if at < count {
                    lemma_digit_count_bounds(body);
                    assert(is_digit(body[at]));
                }
            }
            return Err(NumberError::InvalidDigit);
        }
        let digit: u32 = c as u32 - '0' as u32;
        let next: u64 = value as u64 * 10 + digit as u64;
        proof {
            assert(at < count);
            assert(body.take(at + 1).drop_last() == body.take(at));
            assert(next == digits_value(body.take(at + 1)));
            assert(digits.take(at + 1) == body.take(at + 1));
            lemma_prefix_value(digits, at + 1);
        }
        if next > u32::MAX as u64 {
            return Err(NumberError::PosOverflow);
        }
        value = next as u32;
        i += 1;
    }
    assert(body.take(i - start) == digits);
    Ok(value)
}

proof fn lemma_decimal_digits(n: nat)
    ensures
        decimal(n).len() > 0,
        forall|k: int| 0 <= k < decimal(n).len() ==> is_digit(#[trigger] decimal(n)[k]),
        digits_value(decimal(n)) == n,
    decreases n,
{
    if n < 10 {
        assert(decimal(n).drop_last() == Seq::<char>::empty());
        assert(digits_value(decimal(n).drop_last()) == 0);
    } else {
        lemma_decimal_digits(n / 10);
        assert(decimal(n).drop_last() == decimal(n / 10));
    }
}

/// A number that was written down in decimal is read back as itself.
pub proof fn law_decimal_reads_back(n: u32)
    ensures
        parsed_u32(decimal(n as nat)) == Ok::<u32, NumberError>(n),
{
    let text = decimal(n as nat);
    lemma_decimal_digits(n as nat);
    lemma_digit_count(text, text.len() as int);
    assert(is_digit(text[0]));
    assert(text.take(text.len() as int) == text);
}

/// No two numbers have the same decimal numeral.
pub proof fn law_decimal_injective(a: nat, b: nat)
    requires
        decimal(a) == decimal(b),
    ensures
        a == b,
{
    lemma_decimal_digits(a);
    lemma_decimal_digits(b);
}

/// A numeral has no white space at its ends.
pub proof fn law_decimal_trimmed(n: nat)
    ensures
        trimmed(decimal(n)) == decimal(n),
{
    lemma_decimal_digits(n);
    let text = decimal(n);
    assert(is_digit(text[0]) && !is_space(text[0]));
    assert(is_digit(text[text.len() - 1]) && !is_space(text.last()));
}

/// A numeral consists of digits, does not begin with 0 unless it is 0, and stands for the
/// number: the last digit counts once, and what stands before it ten times.
pub proof fn law_decimal_stands_for_number(n: nat)
    ensures
        decimal(n).len() > 0,
        forall|k: int| 0 <= k < decimal(n).len() ==> '0' <= #[trigger] decimal(n)[k] <= '9',
        n > 0 ==> decimal(n)[0] != '0',
        decimal(n).last() as nat == '0' as nat + n % 10,
        n >= 10 ==> decimal(n).drop_last() == decimal(n / 10),
        n < 10 ==> decimal(n).len() == 1,
    decreases n,
{
    lemma_decimal_digits(n);
    assert forall|k: int| 0 <= k < decimal(n).len() implies '0' <= #[trigger] decimal(n)[k]
        <= '9' by {
        assert(is_digit(decimal(n)[k]));
    }
    if n >= 10 {
        law_decimal_stands_for_number(n / 10);
        assert(decimal(n).drop_last() == decimal(n / 10));
        assert(decimal(n)[0] == decimal(n / 10)[0]);
    }
}

/// A negative number is written as the positive one behind a minus sign.
pub proof fn law_sign(n: nat)
    ensures
        signed_decimal(n as int) == decimal(n),
        n > 0 ==> signed_decimal(-(n as int)).len() == 1 + decimal(n).len(),
        n > 0 ==> signed_decimal(-(n as int))[0] == '-',
        n > 0 ==> signed_decimal(-(n as int)).drop_first() == decimal(n),
{
    reveal_strlit("-");
    if n > 0 {
        assert(signed_decimal(-(n as int)).drop_first() == decimal(n));
    }
}

/// The value of a hexadecimal digit.
pub open spec fn hex_digit_value(c: char) -> int {
    if '0' <= c <= '9' {
        c as int - '0' as int
    } else {
        c as int - 'a' as int + 10
    }
}

/// The number that a row of hexadecimal digits stands for.
pub open spec fn hex_value(digits: Seq<char>) -> int
    decreases digits.len(),
{
    if digits.len() == 0 {
        0
    } else {
        hex_value(digits.drop_last()) * 16 + hex_digit_value(digits.last())
    }
}

proof fn lemma_hexadecimal_digits(n: nat)
    ensures
        hexadecimal(n).len() > 0,
        forall|k: int|
            0 <= k < hexadecimal(n).len() ==> is_digit(#[trigger] hexadecimal(n)[k]) || 'a'
                <= hexadecimal(n)[k] <= 'f',
        hex_value(hexadecimal(n)) == n,
        n > 0 ==> hexadecimal(n)[0] != '0',
        n >= 16 ==> hexadecimal(n).len() >= 2,
        n < 16 ==> hexadecimal(n).len() == 1,
    decreases n,
{
    if n < 16 {
        assert(hexadecimal(n).drop_last() == Seq::<char>::empty());
        assert(hex_value(hexadecimal(n).drop_last()) == 0);
    } else {
        lemma_hexadecimal_digits(n / 16);
        assert(hexadecimal(n).drop_last() == hexadecimal(n / 16));
        assert(hexadecimal(n)[0] == hexadecimal(n / 16)[0]);
    }
}

/// The hexadecimal numeral of 32 bits consists of digits and the letters from a to f, of two at
/// least, begins with 0 only to be that long, and stands for the number; a negative one counts
/// from 2 to the power of 32 down.
pub proof fn law_hex_stands_for_bits(n: i32)
    ensures
        hex_bits(n).len() >= 2,
        forall|k: int|
            0 <= k < hex_bits(n).len() ==> '0' <= #[trigger] hex_bits(n)[k] <= '9' || 'a'
                <= hex_bits(n)[k] <= 'f',
        hex_bits(n).len() > 2 ==> hex_bits(n)[0] != '0',
        n >= 0 ==> hex_value(hex_bits(n)) == n,
        n < 0 ==> hex_value(hex_bits(n)) == n + 0x1_0000_0000,
{
    reveal_strlit("0");
    let bits: nat = if n < 0 {
        (n + 0x1_0000_0000) as nat
    } else {
        n as nat
    };
    lemma_hexadecimal_digits(bits);
    let text = hex_bits(n);
    if bits < 16 {
        assert(text.drop_last() == "0"@);
        assert("0"@.drop_last() == Seq::<char>::empty());
        assert(hexadecimal(bits).drop_last() == Seq::<char>::empty());
        assert(text.last() == hexadecimal(bits).last());
        reveal_with_fuel(hex_value, 3);
        assert(hex_value(text) == bits);
    }
    assert forall|k: int| 0 <= k < text.len() implies '0' <= #[trigger] text[k] <= '9' || 'a'
        <= text[k] <= 'f' by {
        if bits < 16 {
            if k > 0 {
                assert(text[k] == hexadecimal(bits)[k - 1]);
            }
        } else {
            assert(text[k] == hexadecimal(bits)[k]);
        }
    }
}

/// A time below a second is a number of milliseconds, and no time at all has its own text.
pub proof fn law_short_durations(millis: nat)
    requires
        millis < 1000,
    ensures
        millis > 0 ==> duration_text(millis) == decimal(millis) + "ms"@,
        millis == 0 ==> duration_text(millis) == "0ns"@,
{
}

/// A time from a second up is a number of seconds. Where it is not a whole number, up to three
/// digits follow behind a point, the last of which is not 0.
pub proof fn law_long_durations(seconds: nat, tenths: nat, hundredths: nat, thousandth: nat)
    requires
        seconds >= 1,
        tenths < 10,
        hundredths < 10,
        thousandth < 10,
    ensures
        ({
            let millis = seconds * 1000 + tenths * 100 + hundredths * 10 + thousandth;
            let text = duration_text(millis);
            &&& thousandth > 0 ==> text == decimal(seconds) + "."@ + decimal(tenths) + decimal(
                hundredths,
            ) + decimal(thousandth) + "s"@
            &&& thousandth == 0 && hundredths > 0 ==> text == decimal(seconds) + "."@ + decimal(
                tenths,
            ) + decimal(hundredths) + "s"@
            &&& thousandth == 0 && hundredths == 0 && tenths > 0 ==> text == decimal(seconds)
                + "."@ + decimal(tenths) + "s"@
            &&& thousandth == 0 && hundredths == 0 && tenths == 0 ==> text == decimal(seconds)
                + "s"@
        }),
{
    let rest = tenths * 100 + hundredths * 10 + thousandth;
    let millis = seconds * 1000 + rest;
    assert(millis / 1000 == seconds);
    assert(millis % 1000 == rest);
    assert(rest / 100 == tenths);
    assert(rest / 10 % 10 == hundredths);
    assert(rest % 10 == thousandth);
    assert(rest % 100 == hundredths * 10 + thousandth);
}

/// A row of digits is read as a number as long as that fits, with or without a plus sign. Each
/// digit more counts the others ten times.
pub proof fn law_digits_are_read(digits: Seq<char>)
    requires
        digits.len() > 0,
        forall|k: int| 0 <= k < digits.len() ==> '0' <= #[trigger] digits[k] <= '9',
    ensures
        ({
            let value = digits_value(digits);
            let plus = seq!['+'] + digits;
            &&& value <= u32::MAX ==> parsed_u32(digits) == Ok::<u32, NumberError>(value as u32)
            &&& value > u32::MAX ==> parsed_u32(digits) == Err::<u32, NumberError>(
                NumberError::PosOverflow,
            )
            &&& parsed_u32(plus) == parsed_u32(digits)
            &&& digits.len() == 1 ==> value == digits[0] as int - '0' as int
            &&& digits.len() > 1 ==> value == 10 * digits_value(digits.drop_last())
                + digits.last() as int - '0' as int
        }),
{
    let plus = seq!['+'] + digits;
    assert('0' <= digits[0] <= '9');
    assert('0' <= digits[digits.len() - 1] <= '9');
    assert forall|k: int| 0 <= k < digits.len() implies is_digit(#[trigger] digits[k]) by {
        assert('0' <= digits[k] <= '9');
    }
    lemma_digit_count(digits, digits.len() as int);
    assert(digits.take(digits.len() as int) == digits);
    assert(plus[0] == '+');
    assert(plus.drop_first() == digits);
    if digits.len() == 1 {
        assert(digits_value(digits.drop_last()) == 0);
    }
}

/// What is read as a number is a row of digits, with or without a plus sign, and only where
/// there is no text at all it is called empty.
pub proof fn law_only_digits_are_read(text: Seq<char>)
    ensures
        parsed_u32(text) matches Err(NumberError::Empty) <==> text.len() == 0,
        parsed_u32(text) is Ok ==> ({
            let digits = if text[0] == '+' {
                text.drop_first()
            } else {
                text
            };
            &&& digits.len() > 0
            &&& forall|k: int| 0 <= k < digits.len() ==> '0' <= #[trigger] digits[k] <= '9'
        }),
{
    if parsed_u32(text) is Ok {
        let digits = if text[0] == '+' {
            text.drop_first()
        } else {
            text
        };
        lemma_digit_count_bounds(digits);
        assert forall|k: int| 0 <= k < digits.len() implies '0' <= #[trigger] digits[k] <= '9' by {
            assert(is_digit(digits[k]));
        }
    }
}

/// A character that is no digit stops the reading, unless the digits before it are too many
/// already. A sign alone, or no digit at the beginning, is no number either.
pub proof fn law_other_characters_are_refused(digits: Seq<char>, other: char, tail: Seq<char>)
    requires
        forall|k: int| 0 <= k < digits.len() ==> '0' <= #[trigger] digits[k] <= '9',
        !('0' <= other <= '9'),
        digits.len() == 0 ==> other != '+' || tail.len() == 0,
    ensures
        parsed_u32(digits + seq![other] + tail) == Err::<u32, NumberError>(
            if digits_value(digits) > u32::MAX {
                NumberError::PosOverflow
            } else {
                NumberError::InvalidDigit
            },
        ),
{
    let text = digits + seq![other] + tail;
    let n = digits.len() as int;
    assert(text[n] == other);
    assert forall|k: int| 0 <= k < n implies is_digit(#[trigger] text[k]) by {
        assert(text[k] == digits[k]);
    }
    if n > 0 {
        assert(text[0] == digits[0]);
        assert('0' <= digits[0] <= '9');
    }
    lemma_digit_count(text, n);
    assert(text.take(n) == digits);
}

} // verus!
