//! Texts: their comparison, and numbers as decimal text.

use vstd::prelude::*;
use vstd::string::StringExecFns;

verus! {

/// `str::eq` of std: two texts are equal exactly if they hold the same characters.
#[verifier::external_body]
pub(crate) fn same_text(a: &str, b: &str) -> (same: bool)
    ensures
        same == (a@ == b@),
{
    a == b
}

/// The decimal digit for a number below ten.
pub open spec fn digit(value: int) -> char {
    seq!['0', '1', '2', '3', '4', '5', '6', '7', '8', '9'][value]
}

/// A number in decimal notation, without leading zeros.
pub open spec fn decimal(value: nat) -> Seq<char>
    decreases value,
{
    if value < 10 {
        seq![digit(value as int)]
    } else {
        decimal(value / 10).push(digit((value % 10) as int))
    }
}

/// The text of one decimal digit.
fn digit_text(value: u8) -> (text: &'static str)
    requires
        value < 10,
    ensures
        text@ == seq![digit(value as int)],
{
    proof {
        reveal_strlit("0");
        reveal_strlit("1");
        reveal_strlit("2");
        reveal_strlit("3");
        reveal_strlit("4");
        reveal_strlit("5");
        reveal_strlit("6");
        reveal_strlit("7");
        reveal_strlit("8");
        reveal_strlit("9");
    }
    let text = match value {
        0 => "0",
        1 => "1",
        2 => "2",
        3 => "3",
        4 => "4",
        5 => "5",
        6 => "6",
        7 => "7",
        8 => "8",
        _ => "9",
    };
    assert(text@ =~= seq![digit(value as int)]);
    text
}

/// A number below 256 in decimal notation.
pub fn decimal_text(value: u8) -> (text: String)
    ensures
        text@ == decimal(value as nat),
{
    let mut text = String::new();
    proof {
        reveal_with_fuel(decimal, 3);
    }
    if value >= 100 {
        text.append(digit_text(value / 100));
    }
    if value >= 10 {
        text.append(digit_text((value / 10) % 10));
    }
    text.append(digit_text(value % 10));
    proof {
        let hundreds = seq![digit(value as int / 100)];
        let tens = seq![digit((value as int / 10) % 10)];
        let ones = seq![digit(value as int % 10)];
        if value >= 100 {
            assert((value as nat / 10) / 10 == value as nat / 100);
            assert((value as nat / 10) % 10 == (value as int / 10) % 10);
            assert(text@ =~= Seq::<char>::empty() + hundreds + tens + ones);
            assert(decimal(value as nat) =~= hundreds + tens + ones);
        } else if value >= 10 {
            assert(text@ =~= Seq::<char>::empty() + tens + ones);
            assert(decimal(value as nat) =~= tens + ones);
        } else {
            assert(text@ =~= Seq::<char>::empty() + ones);
        }
    }
    text
}

} // verus!
