//! Model versions in decimal: the text of a request to a number, and the number
//! of a response to text.

use vstd::prelude::*;
use vstd::string::{is_ascii_spec_bytes, StringExecFns};

verus! {

/// The byte of the character `-`.
const MINUS: u8 = 45;

/// The byte of the character `+`.
const PLUS: u8 = 43;

/// The byte of the character `0`.
const ZERO: u8 = 48;

/// The byte of the character `9`.
const NINE: u8 = 57;

/// One of the characters `0` to `9`.
pub open spec fn is_digit(c: char) -> bool {
    '0' <= c <= '9'
}

/// The number that a digit stands for.
pub open spec fn digit_value(c: char) -> int {
    c as int - '0' as int
}

/// Every character is a digit.
pub open spec fn all_digits(text: Seq<char>) -> bool {
    forall|i: int| 0 <= i < text.len() ==> is_digit(#[trigger] text[i])
}

/// The number that a string of digits stands for.
pub open spec fn digits_value(text: Seq<char>) -> int
    decreases text.len(),
{
    if text.len() == 0 {
        0
    } else {
        10 * digits_value(text.drop_last()) + digit_value(text.last())
    }
}

/// Whether the text starts with a sign.
pub open spec fn has_sign(text: Seq<char>) -> bool {
    text.len() > 0 && (text[0] == '-' || text[0] == '+')
}

/// The text without its sign.
pub open spec fn unsigned_part(text: Seq<char>) -> Seq<char> {
    if has_sign(text) {
        text.subrange(1, text.len() as int)
    } else {
        text
    }
}

/// The number that a decimal text stands for: an optional sign and then one or
/// more digits, within the range of `i64`. `None` for every other text.
pub open spec fn parse_decimal(text: Seq<char>) -> Option<i64> {
    let digits = unsigned_part(text);
    let value = if text.len() > 0 && text[0] == '-' {
        -digits_value(digits)
    } else {
        digits_value(digits)
    };
    if digits.len() > 0 && all_digits(digits) && i64::MIN <= value <= i64::MAX {
        Some(value as i64)
    } else {
        None
    }
}

/// The model version that a request asks for: the number that its text stands
/// for, and -1, the latest version, where the text is no number.
pub open spec fn model_version_of(text: Seq<char>) -> i64 {
    match parse_decimal(text) {
        Some(version) => version,
        None => -1i64,
    }
}

/// The digit that stands for a number below ten.
pub open spec fn digit_char(digit: int) -> char {
    if digit == 0 {
        '0'
    } else if digit == 1 {
        '1'
    } else if digit == 2 {
        '2'
    } else if digit == 3 {
        '3'
    } else if digit == 4 {
        '4'
    } else if digit == 5 {
        '5'
    } else if digit == 6 {
        '6'
    } else if digit == 7 {
        '7'
    } else if digit == 8 {
        '8'
    } else {
        '9'
    }
}

/// The digits of a natural number, without leading zeros.
pub open spec fn digits_of(number: nat) -> Seq<char>
    decreases number,
{
    if number < 10 {
        seq![digit_char(number as int)]
    } else {
        digits_of(number / 10).push(digit_char((number % 10) as int))
    }
}

/// The decimal text of a number: a minus sign where it is negative, then its digits.
pub open spec fn decimal_of(number: int) -> Seq<char> {
    if number < 0 {
        seq!['-'] + digits_of((-number) as nat)
    } else {
        digits_of(number as nat)
    }
}

/// A string of digits stands for at least as much as each of its prefixes, and
/// for at least 0.
pub proof fn lemma_digits_value_grows(text: Seq<char>, shorter: int)
    requires
        all_digits(text),
        0 <= shorter <= text.len(),
    ensures
        0 <= digits_value(text.take(shorter)) <= digits_value(text),
    decreases text.len() - shorter,
{
    if shorter == text.len() {
        assert(text.take(shorter) =~= text);
        lemma_digits_value_grows_from_zero(text);
    } else {
        lemma_digits_value_grows(text, shorter + 1);
        let longer = text.take(shorter + 1);
        assert(longer.drop_last() =~= text.take(shorter));
        lemma_digits_value_grows_from_zero(text.take(shorter));
    }
}

/// A string of digits stands for at least 0.
pub proof fn lemma_digits_value_grows_from_zero(text: Seq<char>)
    requires
        all_digits(text),
    ensures
        0 <= digits_value(text),
    decreases text.len(),
{
    if text.len() > 0 {
        lemma_digits_value_grows_from_zero(text.drop_last());
    }
}

/// Reads the model version of a request: the number that the text stands for, and
/// -1 where the text is no decimal number or does not fit in 64 bits.
pub fn parse_model_version(text: &str) -> (version: i64)
    ensures
        version == model_version_of(text@),
{
    broadcast use is_ascii_spec_bytes;

    if !text.is_ascii() {
        proof {
            let at = choose|i: int| 0 <= i < text@.len() && !('\0' <= #[trigger] text@[i] <= '\u{7f}');
            let digits = unsigned_part(text@);
            if at > 0 && has_sign(text@) {
                assert(!is_digit(digits[at - 1]));
            }
        }
        return -1;
    }
    let bytes = text.as_bytes();
    let length = bytes.len();
    if length == 0 {
        return -1;
    }
    let negative = bytes[0] == MINUS;
    let start: usize = if bytes[0] == MINUS || bytes[0] == PLUS {
        1
    } else {
        0
    };
    let ghost digits = unsigned_part(text@);
    if start == length {
        return -1;
    }
    let mut magnitude: u64 = 0;
    let mut i: usize = start;
    while i < length
        invariant
            start <= i <= length,
            length == bytes@.len(),
            bytes@ == Seq::new(text@.len(), |k: int| text@[k] as u8),
            '\0' <= text@[i as int] <= '\u{7f}' || i == length,
            forall|k: int| 0 <= k < text@.len() ==> '\0' <= #[trigger] text@[k] <= '\u{7f}',
            digits == unsigned_part(text@),
            digits.len() == length - start,
            has_sign(text@) == (start == 1),
            start <= 1,
            all_digits(digits.take(i - start)),
            magnitude == digits_value(digits.take(i - start)),
            magnitude <= 9223372036854775809,
        decreases length - i,
    {
        let byte = bytes[i];
        if byte < ZERO || byte > NINE {
            assert(!is_digit(digits[i - start]));
            return -1;
        }
        let ghost longer = digits.take(i - start + 1);
        proof {
            assert(longer.drop_last() =~= digits.take(i - start));
            assert(all_digits(longer)) by {
                assert forall|k: int| 0 <= k < longer.len() implies is_digit(
                    #[trigger] longer[k],
                ) by {}
            }
        }
        // Ten times more than this is more than the magnitude of any `i64`.
        if magnitude > 922337203685477580 {
            proof {
                if all_digits(digits) {
                    lemma_digits_value_grows(digits, i - start + 1);
                }
            }
            return -1;
        }
        magnitude = magnitude * 10 + (byte - ZERO) as u64;
        i += 1;
    }
    assert(digits.take(i - start) =~= digits);
    if negative {
        if magnitude > 9223372036854775808 {
            -1
        } else if magnitude == 9223372036854775808 {
            i64::MIN
        } else {
            -(magnitude as i64)
        }
    } else {
        if magnitude > 9223372036854775807 {
            -1
        } else {
            magnitude as i64
        }
    }
}

/// The text of one digit.
fn digit_text(digit: u8) -> (text: &'static str)
    requires
        digit < 10,
    ensures
        text@ == seq![digit_char(digit as int)],
{
    proof {
        reveal_strlit("0");
        reveal_strlit("1");
        reveal_strlit("2");
        reveal_strlit("3");
        reveal_strlit("4");
        reveal_strlit("5");
        reveal_strlit("6");
        reveal_strlit("7");
        reveal_strlit("8");
        reveal_strlit("9");
    }
    if digit == 0 {
        "0"
    } else if digit == 1 {
        "1"
    } else if digit == 2 {
        "2"
    } else if digit == 3 {
        "3"
    } else if digit == 4 {
        "4"
    } else if digit == 5 {
        "5"
    } else if digit == 6 {
        "6"
    } else if digit == 7 {
        "7"
    } else if digit == 8 {
        "8"
    } else {
        "9"
    }
}

/// The text of a list of digits that holds the lowest first: the highest digit
/// comes first in the text.
pub open spec fn high_digits_first(low_first: Seq<u8>) -> Seq<char> {
    Seq::new(low_first.len(), |i: int| digit_char(low_first[low_first.len() - 1 - i] as int))
}

/// Writes the model version of a response in decimal.
pub fn version_to_string(version: i64) -> (text: String)
    ensures
        text@ == decimal_of(version as int),
{
    let mut rest: u64 = if version >= 0 {
        version as u64
    } else if version == i64::MIN {
        9223372036854775808
    } else {
        (-version) as u64
    };
    let ghost magnitude = rest as nat;
    let mut low_first: Vec<u8> = Vec::new();
    while rest >= 10
        invariant
            forall|k: int| 0 <= k < low_first@.len() ==> low_first@[k] < 10,
            digits_of(magnitude) == digits_of(rest as nat) + high_digits_first(low_first@),
        decreases rest,
    {
        low_first.push((rest % 10) as u8);
        rest = rest / 10;
    }
    let mut text = String::new();
    if version < 0 {
        proof {
            reveal_strlit("-");
        }
        text.append("-");
    }
    text.append(digit_text(rest as u8));
    let ghost head = text@;
    let mut left: usize = low_first.len();
    while left > 0
        invariant
            left <= low_first@.len(),
            forall|k: int| 0 <= k < low_first@.len() ==> low_first@[k] < 10,
            text@ == head + high_digits_first(low_first@).take(low_first@.len() - left),
        decreases left,
    {
        left -= 1;
        text.append(digit_text(low_first[left]));
    }
    text
}

/// The digits of a number are digits, at least one, and stand for the number.
pub proof fn lemma_digits_of(number: nat)
    ensures
        digits_of(number).len() > 0,
        all_digits(digits_of(number)),
        digits_value(digits_of(number)) == number,
    decreases number,
{
    let text = digits_of(number);
    if number < 10 {
        assert(digits_value(text.drop_last()) == 0);
    } else {
        lemma_digits_of(number / 10);
        assert(text.drop_last() =~= digits_of(number / 10));
        assert forall|i: int| 0 <= i < text.len() implies is_digit(#[trigger] text[i]) by {}
    }
}

/// A version that was written in decimal is read back as it was.
pub proof fn lemma_version_round_trip(version: i64)
    ensures
        parse_decimal(decimal_of(version as int)) == Some(version),
        model_version_of(decimal_of(version as int)) == version,
{
    let text = decimal_of(version as int);
    if version < 0 {
        let digits = digits_of((-version) as nat);
        lemma_digits_of((-version) as nat);
        assert(unsigned_part(text) =~= digits);
    } else {
        lemma_digits_of(version as nat);
    }
}

} // verus!
