//! Number literals: decimal digits of an integer, and the sampling temperature
//! as a fixed-point value that has an exact decimal literal.

use vstd::prelude::*;

verus! {

/// The character of one decimal digit.
pub open spec fn digit_char(digit: nat) -> char {
    if digit == 0 {
        '0'
    } else if digit == 1 {
        '1'
    } else if digit == 2 {
        '2'
    } else if digit == 3 {
        '3'
    } else if digit == 4 {
        '4'
    } else if digit == 5 {
        '5'
    } else if digit == 6 {
        '6'
    } else if digit == 7 {
        '7'
    } else if digit == 8 {
        '8'
    } else {
        '9'
    }
}

/// The decimal digits of `value`, most significant first, without leading zeros.
pub open spec fn decimal_digits(value: nat) -> Seq<char>
    decreases value,
{
    if value < 10 {
        seq![digit_char(value)]
    } else {
        decimal_digits(value / 10).push(digit_char(value % 10))
    }
}

fn digit_text(digit: u64) -> (text: &'static str)
    requires
        digit < 10,
    ensures
        text@ == seq![digit_char(digit as nat)],
{
    proof {
        reveal_strlit("0");
        reveal_strlit("1");
        reveal_strlit("2");
        reveal_strlit("3");
        reveal_strlit("4");
        reveal_strlit("5");
        reveal_strlit("6");
        reveal_strlit("7");
        reveal_strlit("8");
        reveal_strlit("9");
    }
    let text = if digit == 0 {
        "0"
    } else if digit == 1 {
        "1"
    } else if digit == 2 {
        "2"
    } else if digit == 3 {
        "3"
    } else if digit == 4 {
        "4"
    } else if digit == 5 {
        "5"
    } else if digit == 6 {
        "6"
    } else if digit == 7 {
        "7"
    } else if digit == 8 {
        "8"
    } else {
        "9"
    };
    assert(text@ =~= seq![digit_char(digit as nat)]);
    text
}

/// Writes `value` in decimal.
pub fn decimal_text(value: u64) -> (text: String)
    ensures
        text@ == decimal_digits(value as nat),
    decreases value,
{
    if value < 10 {
        String::from_str(digit_text(value))
    } else {
        let mut text = decimal_text(value / 10);
        text.append(digit_text(value % 10));
        assert(text@ =~= decimal_digits((value / 10) as nat).push(digit_char((value % 10) as nat)));
        text
    }
}

/// A sampling temperature, counted in thousandths: `500` stands for 0.5.
#[derive(Clone, Copy, Debug)]
pub struct Temperature {
    pub thousandths: u32,
}

impl Temperature {
    /// The temperature of `thousandths` thousandths.
    pub fn from_thousandths(thousandths: u32) -> (temperature: Temperature)
        ensures
            temperature.thousandths == thousandths,
    {
        Temperature { thousandths }
    }

    /// The literal of this temperature: the whole part, a point, and three
    /// fractional digits.
    pub open spec fn literal_spec(self) -> Seq<char> {
        let whole = (self.thousandths / 1000) as nat;
        let fraction = (self.thousandths % 1000) as nat;
        decimal_digits(whole) + seq![
            '.',
            digit_char(fraction / 100),
            digit_char((fraction / 10) % 10),
            digit_char(fraction % 10),
        ]
    }

    /// Writes this temperature as a decimal literal, such as `0.500`.
    pub fn literal(&self) -> (text: String)
        ensures
            text@ == self.literal_spec(),
    {
        let whole: u64 = (self.thousandths / 1000) as u64;
        let fraction: u64 = (self.thousandths % 1000) as u64;
        let mut text = decimal_text(whole);
        proof {
            reveal_strlit(".");
        }
        text.append(".");
        text.append(digit_text(fraction / 100));
        text.append(digit_text((fraction / 10) % 10));
        text.append(digit_text(fraction % 10));
        assert(text@ =~= self.literal_spec());
        text
    }
}

} // verus!
