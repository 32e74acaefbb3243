//! The text that printing a value gives.

use vstd::prelude::*;
use vstd::string::*;
use crate::value::{Value, ValueView};

verus! {

/// The character of the decimal digit `d`.
pub open spec fn digit(d: int) -> char
    recommends
        0 <= d < 10,
{
    if d == 0 {
        '0'
    } else if d == 1 {
        '1'
    } else if d == 2 {
        '2'
    } else if d == 3 {
        '3'
    } else if d == 4 {
        '4'
    } else if d == 5 {
        '5'
    } else if d == 6 {
        '6'
    } else if d == 7 {
        '7'
    } else if d == 8 {
        '8'
    } else {
        '9'
    }
}

/// The decimal numeral of a natural number, without leading zeros.
pub open spec fn numeral(n: nat) -> Seq<char>
    decreases n,
{
    if n < 10 {
        seq![digit(n as int)]
    } else {
        numeral(n / 10).push(digit((n % 10) as int))
    }
}

/// The decimal numeral of an integer: a minus sign before the numeral of the
/// magnitude if the integer is negative.
pub open spec fn decimal(i: int) -> Seq<char> {
    if i < 0 {
        seq!['-'] + numeral((-i) as nat)
    } else {
        numeral(i as nat)
    }
}

/// The text of a value, for the kinds of value whose text is fixed here: the decimal
/// numeral of an integer, `true` or `false` for a truth value, a string as it is,
/// `None` for the absence of a value. Single-precision numbers and functions are left
/// to the embedding program.
pub open spec fn rendered(value: ValueView) -> Option<Seq<char>> {
    match value {
        ValueView::Int(i) => Some(decimal(i as int)),
        ValueView::Bool(b) => Some(
            if b {
                "true"@
            } else {
                "false"@
            },
        ),
        ValueView::Str(s) => Some(s),
        ValueView::Unit => Some("None"@),
        _ => None,
    }
}

/// The digits of a numeral, given from the lowest place up, as text from the highest
/// place down.
pub open spec fn digits_text(digits: Seq<u8>) -> Seq<char>
    decreases digits.len(),
{
    if digits.len() == 0 {
        Seq::empty()
    } else {
        seq![digit(digits.last() as int)] + digits_text(digits.drop_last())
    }
}

/// The text of one decimal digit.
fn digit_text(d: u8) -> (text: &'static str)
    requires
        d < 10,
    ensures
        text@ == seq![digit(d as int)],
{
    proof {
        reveal_strlit("0");
        reveal_strlit("1");
        reveal_strlit("2");
        reveal_strlit("3");
        reveal_strlit("4");
        reveal_strlit("5");
        reveal_strlit("6");
        reveal_strlit("7");
        reveal_strlit("8");
        reveal_strlit("9");
    }
    let text = match d {
        0 => "0",
        1 => "1",
        2 => "2",
        3 => "3",
        4 => "4",
        5 => "5",
        6 => "6",
        7 => "7",
        8 => "8",
        _ => "9",
    };
    assert(text@ =~= seq![digit(d as int)]);
    text
}

/// The decimal numeral of `i`.
pub fn decimal_text(i: i32) -> (text: String)
    ensures
        text@ == decimal(i as int),
{
    let magnitude: u32 = if i < 0 {
        (-(i as i64)) as u32
    } else {
        i as u32
    };
    let mut digits: Vec<u8> = Vec::new();
    let mut rest: u32 = magnitude;
    assert(numeral(magnitude as nat) =~= numeral(rest as nat) + digits_text(digits@));
    while rest >= 10
        invariant
            numeral(magnitude as nat) == numeral(rest as nat) + digits_text(digits@),
            forall|j: int| 0 <= j < digits.len() ==> digits@[j] < 10,
        decreases rest,
    {
        let ghost before = digits@;
        digits.push((rest % 10) as u8);
        proof {
            assert(digits@.drop_last() =~= before);
            assert(numeral(rest as nat) + digits_text(before) =~= numeral((rest / 10) as nat)
                + digits_text(digits@));
        }
        rest = rest / 10;
    }
    let ghost before = digits@;
    digits.push(rest as u8);
    proof {
        assert(digits@.drop_last() =~= before);
        assert(numeral(magnitude as nat) =~= digits_text(digits@));
    }
    let mut text = String::new();
    if i < 0 {
        proof {
            reveal_strlit("-");
        }
        text.append("-");
        assert(text@ =~= seq!['-']);
    }
    let ghost sign = text@;
    let mut place: usize = digits.len();
    assert(digits@.take(place as int) =~= digits@);
    while place > 0
        invariant
            place <= digits.len(),
            forall|j: int| 0 <= j < digits.len() ==> digits@[j] < 10,
            text@ + digits_text(digits@.take(place as int)) == sign + digits_text(digits@),
        decreases place,
    {
        proof {
            let shown = digits@.take(place as int);
            assert(shown.drop_last() =~= digits@.take(place - 1));
            assert(text@ + digits_text(shown) =~= (text@ + seq![digit(shown.last() as int)])
                + digits_text(shown.drop_last()));
        }
        place -= 1;
        text.append(digit_text(digits[place]));
    }
    assert(text@ =~= sign + digits_text(digits@));
    text
}

impl Value {
    /// The text that printing the value gives, for the kinds of value whose text is
    /// fixed here.
    pub fn text(&self) -> (text: Option<String>)
        ensures
            match rendered(self@) {
                Some(expected) => text is Some && text->Some_0@ == expected,
                None => text is None,
            },
    {
        match self {
            Value::Int(i) => Some(decimal_text(*i)),
            Value::Bool(b) => Some(
                if *b {
                    String::from_str("true")
                } else {
                    String::from_str("false")
                },
            ),
            Value::Str(s) => Some(s.clone()),
            Value::Unit => Some(String::from_str("None")),
            _ => None,
        }
    }
}

} // verus!
