//! Decimal numbers in texts.
use vstd::prelude::*;

use crate::text::to_chars;

verus! {

/// The decimal digit of a value below ten.
pub open spec fn digit(value: nat) -> char {
    (48 + value) as char
}

/// A number in decimal digits, without leading zeros.
pub open spec fn decimal(n: nat) -> Seq<char>
    decreases n,
{
    if n < 10 {
        seq![digit(n)]
    } else {
        decimal(n / 10).push(digit(n % 10))
    }
}

/// A number in decimal digits, without leading zeros.
pub fn decimal_text(n: u128) -> (text: String)
    ensures
        text@ == decimal(n as nat),
    decreases n,
{
    if n < 10 {
        let mut text = String::new();
        text.push((48 + n as u8) as char);
        assert(text@ =~= seq![digit(n as nat)]);
        text
    } else {
        let mut text = decimal_text(n / 10);
        text.push((48 + (n % 10) as u8) as char);
        text
    }
}

/// Whether a character is a decimal digit.
pub open spec fn is_digit(c: char) -> bool {
    '0' <= c <= '9'
}

/// The number that a sequence of decimal digits stands for.
pub open spec fn digits_value(digits: Seq<char>) -> nat
    decreases digits.len(),
{
    if digits.len() == 0 {
        0
    } else {
        (digits_value(digits.drop_last()) * 10 + (digits.last() as u32 - 48)) as nat
    }
}

/// The digits of a number in a text: what stands behind an optional plus sign.
pub open spec fn unsigned_digits(text: Seq<char>) -> Seq<char> {
    if text.len() > 0 && text[0] == '+' {
        text.drop_first()
    } else {
        text
    }
}

/// The unsigned 16-bit number that a text stands for: an optional plus sign
/// followed by one or more digits, whose value is at most 65535.
pub open spec fn parsed_u16(text: Seq<char>) -> Option<u16> {
    let digits = unsigned_digits(text);
    if digits.len() > 0 && (forall|i: int| 0 <= i < digits.len() ==> is_digit(#[trigger] digits[i]))
        && digits_value(digits) <= 65535 {
        Some(digits_value(digits) as u16)
    } else {
        None
    }
}

/// The unsigned 16-bit number that the text stands for.
pub fn parse_u16(text: &str) -> (value: Option<u16>)
    ensures
        value == parsed_u16(text@),
{
    let chars = to_chars(text);
    let n = chars.len();
    let start: usize = if n > 0 && chars[0] == '+' {
        1
    } else {
        0
    };
    let ghost digits = unsigned_digits(text@);
    assert(digits =~= chars@.subrange(start as int, n as int));
    if start == n {
        return None;
    }
    let mut value: u32 = 0;
    let mut i = start;
    while i < n
        invariant
            start <= i <= n == chars@.len(),
            start < n,
            chars@ == text@,
            digits == unsigned_digits(text@),
            digits == chars@.subrange(start as int, n as int),
            value <= 65535,
            value == digits_value(digits.take(i - start)),
            forall|j: int| 0 <= j < i - start ==> is_digit(#[trigger] digits[j]),
        decreases n - i,
    {
        let c = chars[i];
        assert(digits[i - start] == c);
        if !('0' <= c && c <= '9') {
            return None;
        }
        assert(digits.take(i + 1 - start).drop_last() =~= digits.take(i - start));
        value = value * 10 + (c as u32 - 48);
        if value > 65535 {
            proof {
                digits_value_grows(digits, i + 1 - start);
            }
            return None;
        }
        i += 1;
    }
    assert(digits.take(n - start) =~= digits);
    Some(value as u16)
}

/// A longer sequence of digits stands for no smaller a number.
proof fn digits_value_grows(digits: Seq<char>, k: int)
    requires
        0 <= k <= digits.len(),
    ensures
        (forall|i: int| 0 <= i < digits.len() ==> is_digit(#[trigger] digits[i])) ==> digits_value(
            digits.take(k),
        ) <= digits_value(digits),
    decreases digits.len(),
{
    if k == digits.len() {
        assert(digits.take(k) =~= digits);
    } else if forall|i: int| 0 <= i < digits.len() ==> is_digit(#[trigger] digits[i]) {
        let shorter = digits.drop_last();
        assert(shorter.take(k) =~= digits.take(k));
        assert forall|i: int| 0 <= i < shorter.len() implies is_digit(#[trigger] shorter[i]) by {
            assert(shorter[i] == digits[i]);
        }
        digits_value_grows(shorter, k);
        assert(is_digit(digits.last()));
    }
}

/// The decimal digits of a number stand for that number.
pub proof fn decimal_reads_back(n: nat)
    ensures
        decimal(n).len() > 0,
        forall|i: int| 0 <= i < decimal(n).len() ==> is_digit(#[trigger] decimal(n)[i]),
        digits_value(decimal(n)) == n,
    decreases n,
{
    if n < 10 {
        assert(decimal(n).drop_last() =~= Seq::<char>::empty());
        assert(digits_value(Seq::<char>::empty()) == 0);
    } else {
        decimal_reads_back(n / 10);
        assert(decimal(n).drop_last() =~= decimal(n / 10));
    }
}

/// A 16-bit number written in decimal is read back as that number.
pub proof fn u16_reads_back(n: u16)
    ensures
        parsed_u16(decimal(n as nat)) == Some(n),
{
    decimal_reads_back(n as nat);
    assert(is_digit(decimal(n as nat)[0]));
    assert(unsigned_digits(decimal(n as nat)) == decimal(n as nat));
}

/// A number is written without needless zeros at the start, and its digits are
/// those of the number without the last one, and the last one.
pub proof fn decimal_has_no_leading_zero(n: nat)
    ensures
        n > 0 ==> decimal(n)[0] != '0',
        n == 0 ==> decimal(n) == seq!['0'],
        decimal(n).last() as int == 48 + n % 10,
        n >= 10 ==> decimal(n) == decimal(n / 10).push(decimal(n).last()),
    decreases n,
{
    if n >= 10 {
        decimal_has_no_leading_zero(n / 10);
        decimal_reads_back(n / 10);
        assert(decimal(n) =~= decimal(n / 10).push(decimal(n).last()));
        assert(decimal(n)[0] == decimal(n / 10)[0]);
    }
}

/// Different numbers are written differently.
pub proof fn decimal_tells_numbers_apart(a: nat, b: nat)
    requires
        decimal(a) == decimal(b),
    ensures
        a == b,
{
    decimal_reads_back(a);
    decimal_reads_back(b);
}

/// Each digit counts ten times what the one behind it counts.
pub proof fn digits_count_by_tens(digits: Seq<char>, last: char)
    ensures
        digits_value(Seq::empty()) == 0,
        48 <= last as int <= 57 ==> digits_value(digits.push(last)) == 10 * digits_value(digits)
            + (last as int - 48),
{
    assert(digits.push(last).drop_last() =~= digits);
}

/// A 16-bit number is read from digits alone, or digits behind a plus sign,
/// and only if it is in range.
pub proof fn only_numbers_in_range_are_read(digits: Seq<char>)
    requires
        digits.len() > 0,
    ensures
        (forall|i: int| 0 <= i < digits.len() ==> 48 <= (#[trigger] digits[i]) as int <= 57) ==> {
            &&& parsed_u16(digits) is Some <==> digits_value(digits) <= 65535
            &&& parsed_u16(seq!['+'] + digits) is Some <==> digits_value(digits) <= 65535
            &&& parsed_u16(digits) matches Some(v) ==> v as nat == digits_value(digits)
            &&& parsed_u16(seq!['+'] + digits) matches Some(v) ==> v as nat == digits_value(digits)
        },
        (exists|i: int|
            0 <= i < digits.len() && !(48 <= (#[trigger] digits[i]) as int <= 57)) ==> {
            &&& parsed_u16(seq!['+'] + digits) is None
            &&& digits[0] != '+' ==> parsed_u16(digits) is None
        },
        parsed_u16(Seq::empty()) is None,
        parsed_u16(seq!['+']) is None,
{
    let signed = seq!['+'] + digits;
    assert(unsigned_digits(signed) =~= digits);
    if digits[0] != '+' {
        assert(unsigned_digits(digits) == digits);
    }
    if forall|i: int| 0 <= i < digits.len() ==> 48 <= (#[trigger] digits[i]) as int <= 57 {
        assert(48 <= digits[0] as int <= 57);
        assert(forall|i: int| 0 <= i < digits.len() ==> is_digit(#[trigger] digits[i]));
    } else {
        let i = choose|i: int|
            0 <= i < digits.len() && !(48 <= (#[trigger] digits[i]) as int <= 57);
        assert(!is_digit(digits[i]));
    }
    assert(unsigned_digits(seq!['+']) =~= Seq::empty() || unsigned_digits(seq!['+']) =~= seq!['+']);
}

} // verus!
