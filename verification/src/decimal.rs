//! Non-negative integers in decimal notation, written and read.
use vstd::prelude::*;
use vstd::string::StringExecFns;

verus! {

/// The character that stands for a value below ten.
pub open spec fn digit(value: nat) -> char
    recommends
        value < 10,
{
    (('0' as u8) + value) as u8 as char
}

/// `value` in decimal notation: no sign, and no leading zero but for zero
/// itself.
pub open spec fn decimal(value: nat) -> Seq<char>
    decreases value,
{
    if value < 10 {
        seq![digit(value)]
    } else {
        decimal(value / 10).push(digit(value % 10))
    }
}

/// `c` is one of the ten decimal digits.
pub open spec fn is_digit(c: char) -> bool {
    '0' <= c <= '9'
}

/// The value that a decimal digit stands for.
pub open spec fn digit_value(c: char) -> nat
    recommends
        is_digit(c),
{
    (c as u8 - '0' as u8) as nat
}

/// `digits` holds decimal digits only.
pub open spec fn all_digits(digits: Seq<char>) -> bool {
    forall|i: int| 0 <= i < digits.len() ==> is_digit(#[trigger] digits[i])
}

/// The number that a run of decimal digits stands for; leading zeros count
/// for nothing.
pub open spec fn digits_value(digits: Seq<char>) -> nat
    decreases digits.len(),
{
    if digits.len() == 0 {
        0
    } else {
        digits_value(digits.drop_last()) * 10 + digit_value(digits.last())
    }
}

/// What is left of `text` once one leading `+` is taken off.
pub open spec fn unsigned_part(text: Seq<char>) -> Seq<char> {
    if text.len() > 0 && text[0] == '+' {
        text.drop_first()
    } else {
        text
    }
}

/// The non-negative integer that `text` denotes: an optional `+`, then one
/// decimal digit or more, and nothing else.
pub open spec fn parse_decimal(text: Seq<char>) -> Option<nat> {
    let digits = unsigned_part(text);
    if digits.len() > 0 && all_digits(digits) {
        Some(digits_value(digits))
    } else {
        None
    }
}

/// Decimal notation is made of digits, begins with no zero but for zero
/// itself, and reads back as the value that it was written for.
pub proof fn lemma_decimal(value: nat)
    ensures
        decimal(value).len() > 0,
        all_digits(decimal(value)),
        value > 0 ==> decimal(value)[0] != '0',
        digits_value(decimal(value)) == value,
        parse_decimal(decimal(value)) == Some(value),
    decreases value,
{
    assert(digit_value(digit(value % 10)) == value % 10);
    assert(is_digit(digit(value % 10)));
    if value < 10 {
        assert(decimal(value).drop_last() =~= Seq::<char>::empty());
        assert(digits_value(Seq::<char>::empty()) == 0);
    } else {
        lemma_decimal(value / 10);
        let longer = decimal(value);
        assert(longer.drop_last() =~= decimal(value / 10));
        assert(longer.last() == digit(value % 10));
        assert(longer[0] == decimal(value / 10)[0]);
        assert forall|i: int| 0 <= i < longer.len() implies is_digit(#[trigger] longer[i]) by {
            if i < longer.len() - 1 {
                assert(longer[i] == decimal(value / 10)[i]);
            }
        }
    }
    assert(is_digit(decimal(value)[0]));
}

/// The digit for a value below ten, as a text of its own.
fn digitText(value: usize) -> (text: &'static str)
    requires
        value < 10,
    ensures
        text@ == seq![digit(value as nat)],
{
    proof {
        reveal_strlit("0");
        reveal_strlit("1");
        reveal_strlit("2");
        reveal_strlit("3");
        reveal_strlit("4");
        reveal_strlit("5");
        reveal_strlit("6");
        reveal_strlit("7");
        reveal_strlit("8");
        reveal_strlit("9");
    }
    let text = match value {
        0 => "0",
        1 => "1",
        2 => "2",
        3 => "3",
        4 => "4",
        5 => "5",
        6 => "6",
        7 => "7",
        8 => "8",
        _ => "9",
    };
    assert(text@ =~= seq![digit(value as nat)]);
    text
}

/// Appends `value` in decimal notation to `out`.
pub fn writeDecimal(value: usize, out: &mut String)
    ensures
        final(out)@ == old(out)@ + decimal(value as nat),
    decreases value,
{
    if value >= 10 {
        writeDecimal(value / 10, out);
    }
    out.append(digitText(value % 10));
    proof {
        if value >= 10 {
            assert(out@ =~= old(out)@ + decimal(value as nat / 10).push(digit(value as nat % 10)));
        } else {
            assert(out@ =~= old(out)@ + seq![digit(value as nat)]);
        }
    }
}

/// `value` in decimal notation.
pub fn decimalText(value: usize) -> (text: String)
    ensures
        text@ == decimal(value as nat),
{
    let mut text = String::new();
    writeDecimal(value, &mut text);
    assert(text@ =~= decimal(value as nat));
    text
}

/// The first digits of a number stand for no more than the whole number.
proof fn lemma_digits_value_grows(digits: Seq<char>, shorter: int)
    requires
        0 <= shorter <= digits.len(),
    ensures
        digits_value(digits.take(shorter)) <= digits_value(digits),
    decreases digits.len(),
{
    if shorter == digits.len() {
        assert(digits.take(shorter) =~= digits);
    } else {
        lemma_digits_value_grows(digits.drop_last(), shorter);
        assert(digits.drop_last().take(shorter) =~= digits.take(shorter));
    }
}

/// Reads the non-negative integer that `text` denotes. There is none where
/// `text` is no such notation, and none where the number does not fit.
pub fn parseDecimal(text: &str) -> (value: Option<usize>)
    ensures
        value == match parse_decimal(text@) {
            Some(number) => if number <= usize::MAX {
                Some(number as usize)
            } else {
                None
            },
            None => None,
        },
{
    let ghost digits = unsigned_part(text@);
    let ghost start: int = if text@.len() > 0 && text@[0] == '+' {
        1
    } else {
        0
    };
    assert(digits =~= text@.skip(start));
    let mut signed = false;
    let mut seen = false;
    let mut value: usize = 0;
    for c in it: text.chars()
        invariant
            it.seq() == text@,
            digits == text@.skip(start),
            digits == unsigned_part(text@),
            0 <= start <= 1,
            start == 1 <==> text@.len() > 0 && text@[0] == '+',
            signed <==> it.index() > 0 && start == 1,
            seen <==> it.index() > start,
            it.index() < start ==> value == 0,
            it.index() >= start ==> all_digits(digits.take(it.index() - start)),
            it.index() >= start ==> value == digits_value(digits.take(it.index() - start)),
    {
        let ghost at = it.index() as int;
        assert(text@[at] == c);
        if !signed && !seen && c == '+' {
            signed = true;
            assert(digits.take(0) =~= Seq::<char>::empty());
        } else {
            assert(digits[at - start] == c);
            if c < '0' || c > '9' {
                assert(!is_digit(digits[at - start]));
                return None;
            }
            let d: usize = (c as u8 - '0' as u8) as usize;
            let ghost longer = digits.take(at - start + 1);
            assert(longer.drop_last() =~= digits.take(at - start));
            assert(longer.last() == c);
            assert(all_digits(longer));
            if value > (usize::MAX - d) / 10 {
                proof {
                    assert(digits_value(longer) > usize::MAX);
                    lemma_digits_value_grows(digits, at - start + 1);
                    if all_digits(digits) {
                        assert(digits_value(digits) > usize::MAX);
                    }
                }
                return None;
            }
            value = value * 10 + d;
            seen = true;
        }
    }
    proof {
        if seen {
            assert(digits.take(text@.len() - start) =~= digits);
        }
    }
    if seen {
        Some(value)
    } else {
        None
    }
}

} // verus!
