//! Numbers written out as text, for messages and hash inputs.

use vstd::prelude::*;

verus! {

/// The character that stands for a digit below sixteen.
pub open spec fn digit_char(digit: int) -> char {
    if digit == 0 {
        '0'
    } else if digit == 1 {
        '1'
    } else if digit == 2 {
        '2'
    } else if digit == 3 {
        '3'
    } else if digit == 4 {
        '4'
    } else if digit == 5 {
        '5'
    } else if digit == 6 {
        '6'
    } else if digit == 7 {
        '7'
    } else if digit == 8 {
        '8'
    } else if digit == 9 {
        '9'
    } else if digit == 10 {
        'a'
    } else if digit == 11 {
        'b'
    } else if digit == 12 {
        'c'
    } else if digit == 13 {
        'd'
    } else if digit == 14 {
        'e'
    } else {
        'f'
    }
}

/// `n` in lower-case hexadecimal, most significant digit first, without
/// leading zeros; zero is a single `0`.
pub open spec fn hex_text(n: nat) -> Seq<char>
    decreases n,
{
    if n < 16 {
        seq![digit_char(n as int)]
    } else {
        hex_text(n / 16).push(digit_char((n % 16) as int))
    }
}

/// `n` in decimal, most significant digit first, without leading zeros;
/// zero is a single `0`.
pub open spec fn decimal_text(n: nat) -> Seq<char>
    decreases n,
{
    if n < 10 {
        seq![digit_char(n as int)]
    } else {
        decimal_text(n / 10).push(digit_char((n % 10) as int))
    }
}

/// `n` in decimal, with a minus sign if it is negative.
pub open spec fn signed_decimal_text(n: int) -> Seq<char> {
    if n < 0 {
        seq!['-'] + decimal_text((-n) as nat)
    } else {
        decimal_text(n as nat)
    }
}

fn digit_str(digit: u8) -> (text: &'static str)
    requires
        digit < 16,
    ensures
        text@ == seq![digit_char(digit as int)],
{
    let text = match digit {
        0 => "0",
        1 => "1",
        2 => "2",
        3 => "3",
        4 => "4",
        5 => "5",
        6 => "6",
        7 => "7",
        8 => "8",
        9 => "9",
        10 => "a",
        11 => "b",
        12 => "c",
        13 => "d",
        14 => "e",
        _ => "f",
    };
    proof {
        reveal_strlit("0");
        reveal_strlit("1");
        reveal_strlit("2");
        reveal_strlit("3");
        reveal_strlit("4");
        reveal_strlit("5");
        reveal_strlit("6");
        reveal_strlit("7");
        reveal_strlit("8");
        reveal_strlit("9");
        reveal_strlit("a");
        reveal_strlit("b");
        reveal_strlit("c");
        reveal_strlit("d");
        reveal_strlit("e");
        reveal_strlit("f");
        assert(text@ =~= seq![digit_char(digit as int)]);
    }
    text
}

/// Writes `n` in lower-case hexadecimal.
pub fn to_hex(n: u64) -> (text: String)
    ensures
        text@ == hex_text(n as nat),
{
    let mut text = String::from_str(digit_str((n % 16) as u8));
    let mut rest: u64 = n / 16;
    proof {
        if rest > 0 {
            assert(hex_text(n as nat) =~= hex_text(rest as nat) + text@);
        }
    }
    while rest > 0
        invariant
            rest > 0 ==> hex_text(n as nat) == hex_text(rest as nat) + text@,
            rest == 0 ==> hex_text(n as nat) == text@,
        decreases rest,
    {
        let head = String::from_str(digit_str((rest % 16) as u8));
        let ghost tail = text@;
        let ghost before = rest;
        text = head.concat(text.as_str());
        rest = rest / 16;
        proof {
            let last = seq![digit_char((before % 16) as int)];
            if rest > 0 {
                assert(hex_text(before as nat) + tail =~= hex_text(rest as nat) + (last + tail));
            }
        }
    }
    text
}

/// Writes `n` in decimal.
pub fn to_decimal(n: u128) -> (text: String)
    ensures
        text@ == decimal_text(n as nat),
{
    let mut text = String::from_str(digit_str((n % 10) as u8));
    let mut rest: u128 = n / 10;
    proof {
        if rest > 0 {
            assert(decimal_text(n as nat) =~= decimal_text(rest as nat) + text@);
        }
    }
    while rest > 0
        invariant
            rest > 0 ==> decimal_text(n as nat) == decimal_text(rest as nat) + text@,
            rest == 0 ==> decimal_text(n as nat) == text@,
        decreases rest,
    {
        let head = String::from_str(digit_str((rest % 10) as u8));
        let ghost tail = text@;
        let ghost before = rest;
        text = head.concat(text.as_str());
        rest = rest / 10;
        proof {
            let last = seq![digit_char((before % 10) as int)];
            if rest > 0 {
                assert(decimal_text(before as nat) + tail =~= decimal_text(rest as nat) + (last
                    + tail));
            }
        }
    }
    text
}

/// Writes `n` in decimal, with a minus sign if it is negative.
pub fn to_signed_decimal(n: i32) -> (text: String)
    ensures
        text@ == signed_decimal_text(n as int),
{
    if n < 0 {
        let magnitude: u128 = (-(n as i64)) as u128;
        let sign = String::from_str("-");
        proof {
            reveal_strlit("-");
            assert("-"@ =~= seq!['-']);
        }
        sign.concat(to_decimal(magnitude).as_str())
    } else {
        to_decimal(n as u128)
    }
}

} // verus!
