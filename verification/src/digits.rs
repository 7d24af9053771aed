//! Numbers written in digits.

use crate::text;
use vstd::prelude::*;

verus! {

/// The decimal digit of a number below ten.
pub open spec fn digit(value: nat) -> char {
    ((48 + value) as u32) as char
}

/// A number in decimal.
pub open spec fn decimal(value: nat) -> Seq<char>
    decreases value,
{
    if value < 10 {
        seq![digit(value)]
    } else {
        decimal(value / 10).push(digit(value % 10))
    }
}

/// Appends a number in decimal.
pub fn push_decimal(out: &mut String, value: u64)
    ensures
        final(out)@ == old(out)@ + decimal(value as nat),
    decreases value,
{
    if value >= 10 {
        push_decimal(out, value / 10);
    }
    out.push((48u8 + (value % 10) as u8) as char);
    assert(out@ =~= old(out)@ + decimal(value as nat));
}

/// A number in decimal.
pub fn decimal_text(value: u64) -> (out: String)
    ensures
        out@ == decimal(value as nat),
{
    let mut out = String::new();
    push_decimal(&mut out, value);
    assert(out@ =~= decimal(value as nat));
    out
}

/// Whether a character is a decimal digit.
pub open spec fn is_digit(c: char) -> bool {
    '0' <= c <= '9'
}

/// The number that a sequence of decimal digits writes.
pub open spec fn digits_value(digits: Seq<char>) -> nat
    decreases digits.len(),
{
    if digits.len() == 0 {
        0
    } else {
        digits_value(digits.drop_last()) * 10 + (digits.last() as nat - 48) as nat
    }
}

/// A text without the plus sign that may stand before a number.
pub open spec fn unsigned_part(text: Seq<char>) -> Seq<char> {
    if text.len() > 0 && text[0] == '+' {
        text.skip(1)
    } else {
        text
    }
}

/// The 64-bit number that a text writes: an optional plus sign and decimal digits, nothing else,
/// in range.
pub open spec fn parsed_u64(text: Seq<char>) -> Option<u64> {
    let digits = unsigned_part(text);
    if digits.len() > 0 && (forall|index: int|
        0 <= index < digits.len() ==> is_digit(#[trigger] digits[index])) && digits_value(digits)
        <= u64::MAX {
        Some(digits_value(digits) as u64)
    } else {
        None
    }
}

/// A longer run of digits does not write a smaller number.
proof fn lemma_digits_value_grows(digits: Seq<char>, upto: int)
    requires
        0 <= upto <= digits.len(),
    ensures
        digits_value(digits.take(upto)) <= digits_value(digits),
    decreases digits.len(),
{
    if upto == digits.len() {
        assert(digits.take(upto) =~= digits);
    } else {
        lemma_digits_value_grows(digits.drop_last(), upto);
        assert(digits.drop_last().take(upto) =~= digits.take(upto));
    }
}

/// The 64-bit number that a text writes.
pub fn parse_u64(text: &str) -> (value: Option<u64>)
    ensures
        value == parsed_u64(text@),
{
    let chars = text::chars_of(text);
    let ghost digits = unsigned_part(text@);
    let mut start: usize = 0;
    if chars.len() > 0 && chars[0] == '+' {
        start = 1;
    }
    assert(digits =~= chars@.skip(start as int));
    if start == chars.len() {
        return None;
    }
    let mut value: u64 = 0;
    let mut index: usize = start;
    assert(digits.take(0) =~= Seq::<char>::empty());
    while index < chars.len()
        invariant
            start <= index <= chars@.len(),
            digits == chars@.skip(start as int),
            digits == unsigned_part(text@),
            value == digits_value(digits.take(index - start)),
            forall|at: int| 0 <= at < index - start ==> is_digit(#[trigger] digits[at]),
        decreases chars@.len() - index,
    {
        let c: char = chars[index];
        let ghost next = digits.take(index - start + 1);
        proof {
            assert(digits[index - start] == c);
            assert(next.drop_last() =~= digits.take(index - start));
            lemma_digits_value_grows(digits, index - start + 1);
        }
        if !('0' <= c && c <= '9') {
            return None;
        }
        let unit: u64 = (c as u32 - 48) as u64;
        if value > u64::MAX / 10 {
            return None;
        }
        let tens: u64 = value * 10;
        if tens > u64::MAX - unit {
            return None;
        }
        value = tens + unit;
        index = index + 1;
    }
    assert(digits.take(digits.len() as int) =~= digits);
    Some(value)
}

/// A number in decimal is made of digits, of which there is at least one, and they write it.
pub proof fn lemma_decimal_digits(value: nat)
    ensures
        decimal(value).len() > 0,
        forall|index: int| 0 <= index < decimal(value).len() ==> is_digit(
            #[trigger] decimal(value)[index],
        ),
        digits_value(decimal(value)) == value,
    decreases value,
{
    if value < 10 {
        let one = decimal(value);
        assert(one.drop_last() =~= Seq::<char>::empty());
        assert(digits_value(one.drop_last()) == 0);
    } else {
        lemma_decimal_digits(value / 10);
        let front = decimal(value / 10);
        assert(decimal(value).drop_last() =~= front);
        assert forall|index: int| 0 <= index < decimal(value).len() implies is_digit(
            #[trigger] decimal(value)[index],
        ) by {
            if index < front.len() {
                assert(decimal(value)[index] == front[index]);
            }
        }
    }
}

/// A number that is written in decimal is read back.
pub proof fn law_decimal_reads_back(value: u64)
    ensures
        parsed_u64(decimal(value as nat)) == Some(value),
{
    lemma_decimal_digits(value as nat);
    let out = decimal(value as nat);
    assert(is_digit(out[0]));
    assert(unsigned_part(out) == out);
}

/// Different numbers are written differently.
pub proof fn law_decimal_is_injective(left: nat, right: nat)
    requires
        decimal(left) == decimal(right),
    ensures
        left == right,
{
    lemma_decimal_digits(left);
    lemma_decimal_digits(right);
}

/// The hexadecimal digit, in lower case, of a number below sixteen.
pub open spec fn hex_digit(value: nat) -> char {
    if value < 10 {
        ((48 + value) as u32) as char
    } else {
        ((87 + value) as u32) as char
    }
}

/// The `width` low hexadecimal digits of a number, in lower case.
pub open spec fn hex(value: nat, width: nat) -> Seq<char>
    decreases width,
{
    if width == 0 {
        Seq::empty()
    } else {
        hex(value / 16, (width - 1) as nat).push(hex_digit(value % 16))
    }
}

/// Appends the `width` low hexadecimal digits of a number.
fn push_hex(out: &mut String, value: u64, width: usize)
    ensures
        final(out)@ == old(out)@ + hex(value as nat, width as nat),
    decreases width,
{
    if width > 0 {
        push_hex(out, value / 16, width - 1);
        let low: u8 = (value % 16) as u8;
        if low < 10 {
            out.push((48u8 + low) as char);
        } else {
            out.push((87u8 + low) as char);
        }
    }
    assert(out@ =~= old(out)@ + hex(value as nat, width as nat));
}

/// A 64-bit number in sixteen hexadecimal digits, in lower case.
pub fn hex16(value: u64) -> (out: String)
    ensures
        out@ == hex(value as nat, 16),
{
    let mut out = String::new();
    push_hex(&mut out, value, 16);
    assert(out@ =~= hex(value as nat, 16));
    out
}

/// Whether a character is a hexadecimal digit, in lower case.
pub open spec fn is_hex_digit(c: char) -> bool {
    '0' <= c <= '9' || 'a' <= c <= 'f'
}

/// `hex` is as wide as asked for, and made of hexadecimal digits.
pub proof fn lemma_hex_digits(value: nat, width: nat)
    ensures
        hex(value, width).len() == width,
        forall|index: int| 0 <= index < width ==> is_hex_digit(#[trigger] hex(value, width)[index]),
    decreases width,
{
    if width > 0 {
        lemma_hex_digits(value / 16, (width - 1) as nat);
        let front = hex(value / 16, (width - 1) as nat);
        assert forall|index: int| 0 <= index < width implies is_hex_digit(
            #[trigger] hex(value, width)[index],
        ) by {
            if index < width - 1 {
                assert(hex(value, width)[index] == front[index]);
            }
        }
    }
}

/// A number is written as the number without its last digit and that digit behind it; a number of
/// one digit is written as the digit.
pub proof fn law_decimal_is_written_digit_by_digit(front: nat, last: nat)
    requires
        last < 10,
    ensures
        decimal(last).len() == 1,
        decimal(last)[0] as u32 == 48 + last,
        front > 0 ==> decimal(10 * front + last) == decimal(front) + decimal(last),
{
    if front > 0 {
        assert((10 * front + last) / 10 == front);
        assert((10 * front + last) % 10 == last);
        assert(decimal(10 * front + last) =~= decimal(front) + decimal(last));
    }
}

/// A text of digits is read from left to right, as long as the number fits; a plus sign may stand
/// before it, and nothing else may stand anywhere.
pub proof fn law_numbers_are_read_digit_by_digit(front: Seq<char>, last: char)
    requires
        front.len() > 0 ==> front[0] != '+',
    ensures
        parsed_u64(Seq::<char>::empty()) is None,
        !(48 <= last as u32 <= 57) ==> parsed_u64(front.push(last)) is None,
        48 <= last as u32 <= 57 && front.len() == 0 ==> parsed_u64(front.push(last)) == Some(
            (last as u32 - 48) as u64,
        ),
        48 <= last as u32 <= 57 && front.len() > 0 ==> parsed_u64(front.push(last)) == (
        match parsed_u64(front) {
            Some(value) => if 10 * value + (last as u32 - 48) <= 0xffff_ffff_ffff_ffff {
                Some((10 * value + (last as u32 - 48)) as u64)
            } else {
                None
            },
            None => None,
        }),
        front.len() > 0 ==> parsed_u64(seq!['+'] + front) == parsed_u64(front),
        parsed_u64(seq!['+']) is None,
{
    let none = Seq::<char>::empty();
    let whole = front.push(last);
    assert(unsigned_part(none) == none);
    assert((seq!['+'] + front).skip(1) =~= front);
    assert(seq!['+'].skip(1) =~= none);
    assert(front.len() > 0 ==> unsigned_part(front) == front);
    if last == '+' && front.len() == 0 {
        assert(whole.skip(1) =~= none);
    } else {
        assert(unsigned_part(whole) == whole);
        assert(whole.drop_last() =~= front);
        assert(whole[front.len() as int] == last);
        assert forall|index: int| 0 <= index < front.len() implies whole[index] == front[index] by {
        }
        if is_digit(last) {
            if forall|index: int| 0 <= index < front.len() ==> is_digit(#[trigger] front[index]) {
                assert forall|index: int| 0 <= index < whole.len() implies is_digit(
                    #[trigger] whole[index],
                ) by {
                    if index < front.len() {
                        assert(is_digit(front[index]));
                    }
                }
            } else {
                let bad = choose|bad: int|
                    0 <= bad < front.len() && !is_digit(#[trigger] front[bad]);
                assert(!is_digit(whole[bad]));
            }
            if front.len() == 0 {
                assert(front =~= none);
                assert(digits_value(none) == 0);
            }
        }
    }
}

/// The last hexadecimal digit of a number is its remainder by sixteen, in lower case, and the
/// digits before it are those of the number divided by sixteen.
pub proof fn law_hex_is_written_digit_by_digit(front: nat, last: nat, width: nat)
    requires
        last < 16,
    ensures
        hex(front, 0).len() == 0,
        ({
            let whole = hex(16 * front + last, width + 1);
            &&& whole.drop_last() == hex(front, width)
            &&& last < 10 ==> whole.last() as u32 == 48 + last
            &&& last >= 10 ==> whole.last() as u32 == 87 + last
        }),
{
    assert((16 * front + last) / 16 == front);
    assert((16 * front + last) % 16 == last);
    assert(hex(16 * front + last, width + 1).drop_last() =~= hex(front, width));
}

} // verus!
