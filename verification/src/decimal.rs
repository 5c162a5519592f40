//! Decimal notation.

use vstd::prelude::*;

verus! {

/// The digit that stands for a number below ten.
pub open spec fn digit(value: nat) -> char {
    (48 + value) as u8 as char
}

/// Whether the character is one of the ten digits.
pub open spec fn is_digit(ch: char) -> bool {
    '0' <= ch <= '9'
}

/// The decimal notation of a number, without leading zeros.
pub open spec fn decimal(value: nat) -> Seq<char>
    decreases value,
{
    if value < 10 {
        seq![digit(value)]
    } else {
        decimal(value / 10).push(digit(value % 10))
    }
}

/// Whether all characters are digits.
pub open spec fn all_digits(text: Seq<char>) -> bool {
    forall|i: int| 0 <= i < text.len() ==> is_digit(#[trigger] text[i])
}

/// The number that a sequence of digits stands for.
pub open spec fn digits_value(text: Seq<char>) -> nat
    decreases text.len(),
{
    if text.len() == 0 {
        0
    } else {
        digits_value(text.drop_last()) * 10 + (text.last() as nat - 48) as nat
    }
}

/// The digits behind an optional plus sign.
pub open spec fn unsigned_digits(text: Seq<char>) -> Seq<char> {
    if text.len() > 0 && text[0] == '+' {
        text.skip(1)
    } else {
        text
    }
}

/// Reads an unsigned number: an optional plus sign, then one or more digits whose value fits in
/// 32 bits.
pub open spec fn parse_decimal(text: Seq<char>) -> Option<u32> {
    let digits = unsigned_digits(text);
    if digits.len() > 0 && all_digits(digits) && digits_value(digits) <= u32::MAX {
        Some(digits_value(digits) as u32)
    } else {
        None
    }
}

/// What `decimal` writes is made of digits, is not empty, and stands for the number written.
pub proof fn lemma_decimal_value(value: nat)
    ensures
        decimal(value).len() > 0,
        all_digits(decimal(value)),
        digits_value(decimal(value)) == value,
    decreases value,
{
    if value < 10 {
        let text = decimal(value);
        assert(text.drop_last() =~= Seq::<char>::empty());
        assert(digits_value(text.drop_last()) == 0);
        assert(text.last() as nat == 48 + value);
    } else {
        lemma_decimal_value(value / 10);
        let text = decimal(value);
        assert(text.drop_last() =~= decimal(value / 10));
        assert(text.last() as nat == 48 + value % 10);
    }
}

/// Reading back what `decimal` wrote gives the number written.
pub proof fn law_decimal_round_trip(value: u32)
    ensures
        parse_decimal(decimal(value as nat)) == Some(value),
{
    lemma_decimal_value(value as nat);
    let text = decimal(value as nat);
    assert(is_digit(text[0]));
    assert(text[0] != '+');
}

/// Two numbers with the same decimal notation are equal.
pub proof fn law_decimal_injective(left: u32, right: u32)
    requires
        decimal(left as nat) == decimal(right as nat),
    ensures
        left == right,
{
    law_decimal_round_trip(left);
    law_decimal_round_trip(right);
}

/// Writes a number in decimal notation.
pub fn decimal_text(value: u32) -> (text: String)
    ensures
        text@ == decimal(value as nat),
    decreases value,
{
    let mut text = if value < 10 {
        String::new()
    } else {
        decimal_text(value / 10)
    };
    let last: u8 = 48 + (value % 10) as u8;
    text.push(last as char);
    proof {
        if value < 10 {
            assert(text@ =~= decimal(value as nat));
        }
    }
    text
}

/// The value of a sequence of digits does not fall as digits are added.
proof fn lemma_digits_value_grows(text: Seq<char>, count: int)
    requires
        0 <= count <= text.len(),
        all_digits(text),
    ensures
        digits_value(text.take(count)) <= digits_value(text),
    decreases text.len() - count,
{
    if count < text.len() {
        let longer = text.take(count + 1);
        assert(longer.drop_last() =~= text.take(count));
        assert(is_digit(text[count]));
        lemma_digits_value_grows(text, count + 1);
    } else {
        assert(text.take(count) =~= text);
    }
}

/// Reads an unsigned decimal number of 32 bits.
pub fn parsed_decimal(text: &str) -> (value: Option<u32>)
    ensures
        value == parse_decimal(text@),
{
    let chars = crate::text::chars_of(text);
    let first: usize = if chars.len() > 0 && chars[0] == '+' {
        1
    } else {
        0
    };
    let ghost digits = unsigned_digits(text@);
    assert(digits =~= chars@.skip(first as int));
    if first == chars.len() {
        return None;
    }
    let mut value: u64 = 0;
    let mut i: usize = first;
    while i < chars.len()
        invariant
            first <= i <= chars@.len(),
            digits == chars@.skip(first as int),
            digits == unsigned_digits(text@),
            all_digits(digits.take(i - first)),
            value == digits_value(digits.take(i - first)),
            value <= u32::MAX,
        decreases chars@.len() - i,
    {
        let ch = chars[i];
        assert(ch == digits[i - first]);
        if ch < '0' || '9' < ch {
            assert(!is_digit(digits[i - first]));
            return None;
        }
        let units: u8 = ch as u8;
        value = value * 10 + (units - 48) as u64;
        proof {
            let longer = digits.take(i - first + 1);
            assert(longer.drop_last() =~= digits.take(i - first));
            assert(longer.last() == ch);
        }
        if value > u32::MAX as u64 {
            proof {
                if all_digits(digits) {
                    lemma_digits_value_grows(digits, i - first + 1);
                }
            }
            return None;
        }
        i = i + 1;
    }
    assert(digits.take(digits.len() as int) =~= digits);
    Some(value as u32)
}

}
