//! Numbers as they appear in a chord's written name.

use vstd::prelude::*;
use vstd::string::*;
use ordinal::Ordinal;

verus! {

/// The character of a decimal digit.
pub open spec fn digit_char(digit: int) -> char {
    if digit == 0 {
        '0'
    } else if digit == 1 {
        '1'
    } else if digit == 2 {
        '2'
    } else if digit == 3 {
        '3'
    } else if digit == 4 {
        '4'
    } else if digit == 5 {
        '5'
    } else if digit == 6 {
        '6'
    } else if digit == 7 {
        '7'
    } else if digit == 8 {
        '8'
    } else {
        '9'
    }
}

/// A number in decimal digits, without sign or leading zeros.
pub open spec fn decimal(n: nat) -> Seq<char>
    decreases n,
{
    if n < 10 {
        seq![digit_char(n as int)]
    } else {
        decimal(n / 10).push(digit_char((n % 10) as int))
    }
}

/// The English ordinal suffix of a number: "th" for 11, 12 and 13 in the
/// last two digits, else "st", "nd", "rd" for a last digit of 1, 2, 3, and
/// "th" for the rest.
pub open spec fn ordinal_suffix(n: nat) -> Seq<char> {
    if 11 <= n % 100 <= 13 {
        "th"@
    } else if n % 10 == 1 {
        "st"@
    } else if n % 10 == 2 {
        "nd"@
    } else if n % 10 == 3 {
        "rd"@
    } else {
        "th"@
    }
}

/// A number as an English ordinal: "1st", "2nd", "11th", "23rd".
pub open spec fn ordinal_text(n: nat) -> Seq<char> {
    decimal(n) + ordinal_suffix(n)
}

/// Formats `n` as an English ordinal with `ordinal::Ordinal`, whose
/// `Display` writes the number in decimal and then the suffix that
/// `ordinal_suffix` describes. Trusted: the contract restates that crate's
/// behaviour and is not checked against its code.
#[verifier::external_body]
pub(crate) fn ordinal_string(n: usize) -> (text: String)
    ensures
        text@ == ordinal_text(n as nat),
{
    Ordinal(n).to_string()
}

/// One decimal digit as a string.
fn digit_str(digit: u8) -> (text: &'static str)
    requires
        digit < 10,
    ensures
        text@ == seq![digit_char(digit as int)],
{
    proof {
        reveal_strlit("0");
        reveal_strlit("1");
        reveal_strlit("2");
        reveal_strlit("3");
        reveal_strlit("4");
        reveal_strlit("5");
        reveal_strlit("6");
        reveal_strlit("7");
        reveal_strlit("8");
        reveal_strlit("9");
    }
    let text = match digit {
        0 => "0",
        1 => "1",
        2 => "2",
        3 => "3",
        4 => "4",
        5 => "5",
        6 => "6",
        7 => "7",
        8 => "8",
        _ => "9",
    };
    assert(text@ =~= seq![digit_char(digit as int)]);
    text
}

/// A small number in decimal digits.
pub fn decimal_string(n: u8) -> (text: String)
    ensures
        text@ == decimal(n as nat),
{
    let mut text = String::new();
    if n >= 100 {
        text.append(digit_str(n / 100));
    }
    if n >= 10 {
        text.append(digit_str((n / 10) % 10));
    }
    text.append(digit_str(n % 10));
    proof {
        let value = n as nat;
        if value >= 100 {
            assert(decimal(value / 100) == seq![digit_char((value / 100) as int)]);
            assert(decimal(value / 10) == decimal(value / 100).push(
                digit_char(((value / 10) % 10) as int),
            ));
        } else if value >= 10 {
            assert(decimal(value / 10) == seq![digit_char((value / 10) as int)]);
        }
        assert(text@ =~= decimal(value));
    }
    text
}

} // verus!
