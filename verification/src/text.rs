//! Decimal text: how numbers are written in messages and fingerprints.

use vstd::prelude::*;
use vstd::string::StringExecFns;

verus! {

/// The character of a decimal digit.
pub open spec fn digit(value: int) -> char
    recommends
        0 <= value < 10,
{
    (48 + value) as char
}

/// The decimal digits of a natural number, without leading zeros.
pub open spec fn decimal_nat(value: nat) -> Seq<char>
    decreases value,
{
    if value < 10 {
        seq![digit(value as int)]
    } else {
        decimal_nat(value / 10).push(digit((value % 10) as int))
    }
}

/// The decimal text of an integer, with a leading `-` below zero.
pub open spec fn decimal(value: int) -> Seq<char> {
    if value < 0 {
        seq!['-'] + decimal_nat((-value) as nat)
    } else {
        decimal_nat(value as nat)
    }
}

/// The decimal text of a natural number, padded with one zero below ten.
pub open spec fn two_digits(value: nat) -> Seq<char> {
    if value < 10 {
        seq!['0', digit(value as int)]
    } else {
        decimal_nat(value)
    }
}

fn digit_text(value: u64) -> (result: &'static str)
    requires
        value < 10,
    ensures
        result@ == seq![digit(value as int)],
{
    proof {
        reveal_strlit("0");
        reveal_strlit("1");
        reveal_strlit("2");
        reveal_strlit("3");
        reveal_strlit("4");
        reveal_strlit("5");
        reveal_strlit("6");
        reveal_strlit("7");
        reveal_strlit("8");
        reveal_strlit("9");
    }
    match value {
        0 => "0",
        1 => "1",
        2 => "2",
        3 => "3",
        4 => "4",
        5 => "5",
        6 => "6",
        7 => "7",
        8 => "8",
        _ => "9",
    }
}

/// Appends the decimal digits of `value`.
pub fn append_nat(out: &mut String, value: u64)
    ensures
        final(out)@ == old(out)@ + decimal_nat(value as nat),
    decreases value,
{
    if value >= 10 {
        append_nat(out, value / 10);
    }
    out.append(digit_text(value % 10));
}

/// Appends the decimal text of `value`.
pub fn append_decimal(out: &mut String, value: i64)
    ensures
        final(out)@ == old(out)@ + decimal(value as int),
{
    if value < 0 {
        proof {
            reveal_strlit("-");
        }
        assert("-"@ == seq!['-']);
        out.append("-");
        let magnitude: u64 = (-(value + 1)) as u64 + 1;
        append_nat(out, magnitude);
        assert(out@ == old(out)@ + (seq!['-'] + decimal_nat((-value) as nat)));
    } else {
        append_nat(out, value as u64);
    }
}

/// Appends `value`, padded with one zero below ten.
pub fn append_two_digits(out: &mut String, value: u64)
    ensures
        final(out)@ == old(out)@ + two_digits(value as nat),
{
    if value < 10 {
        proof {
            reveal_strlit("0");
        }
        out.append("0");
        append_nat(out, value);
        assert(out@ == old(out)@ + seq!['0', digit(value as int)]);
    } else {
        append_nat(out, value);
    }
}

/// The number that a text of decimal digits stands for.
pub open spec fn digits_value(text: Seq<char>) -> int
    decreases text.len(),
{
    if text.len() == 0 {
        0
    } else {
        digits_value(text.drop_last()) * 10 + (text.last() as int - 48)
    }
}

/// Whether a text is made of decimal digits, without a zero in front of
/// others.
pub open spec fn is_digits(text: Seq<char>) -> bool {
    &&& text.len() > 0
    &&& text.len() > 1 ==> text[0] != '0'
    &&& forall|i: int| 0 <= i < text.len() ==> '0' <= #[trigger] text[i] <= '9'
}

proof fn lemma_digits_read_back(value: nat)
    ensures
        digits_value(decimal_nat(value)) == value,
        is_digits(decimal_nat(value)),
        value > 0 ==> decimal_nat(value)[0] != '0',
    decreases value,
{
    reveal_with_fuel(digits_value, 2);
    let text = decimal_nat(value);
    if value >= 10 {
        lemma_digits_read_back(value / 10);
        assert(text.drop_last() =~= decimal_nat(value / 10));
        assert(text.last() == digit((value % 10) as int));
        assert(text[0] == decimal_nat(value / 10)[0]);
    } else {
        assert(text.drop_last() =~= Seq::<char>::empty());
    }
}

/// A number that is written is read back: digits alone from zero on, and below
/// zero a sign and the digits of the number without it.
pub proof fn law_decimal_reads_back(value: int)
    ensures
        value >= 0 ==> is_digits(decimal(value)) && digits_value(decimal(value)) == value,
        value < 0 ==> {
            &&& decimal(value).len() > 1
            &&& decimal(value)[0] == '-'
            &&& is_digits(decimal(value).skip(1))
            &&& digits_value(decimal(value).skip(1)) == -value
        },
{
    if value >= 0 {
        lemma_digits_read_back(value as nat);
    } else {
        lemma_digits_read_back((-value) as nat);
        assert(decimal(value).skip(1) =~= decimal_nat((-value) as nat));
    }
}

/// Below a hundred the padded text of a number has two digits, and they are
/// read back; from there on it is the text of the number.
pub proof fn law_two_digits_read_back(value: nat)
    ensures
        value < 100 ==> {
            &&& two_digits(value).len() == 2
            &&& '0' <= two_digits(value)[0] <= '9'
            &&& '0' <= two_digits(value)[1] <= '9'
            &&& digits_value(two_digits(value)) == value
        },
        value >= 100 ==> two_digits(value) == decimal(value as int),
{
    reveal_with_fuel(digits_value, 3);
    let text = two_digits(value);
    lemma_digits_read_back(value);
    if value < 10 {
        assert(text.drop_last() =~= seq!['0']);
        assert(text.drop_last().drop_last() =~= Seq::<char>::empty());
    } else if value < 100 {
        lemma_digits_read_back(value / 10);
        assert(decimal_nat(value / 10).len() == 1);
        assert(text.len() == 2);
    }
}

} // verus!
