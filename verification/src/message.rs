//! Errors in words: the text by which a failure is reported.

use vstd::prelude::*;
use vstd::string::StringExecFns;
use crate::protocol::{Error, Primitive};

verus! {

/// The numeral of one decimal digit.
pub open spec fn digit(d: int) -> Seq<char> {
    if d == 0 {
        "0"@
    } else if d == 1 {
        "1"@
    } else if d == 2 {
        "2"@
    } else if d == 3 {
        "3"@
    } else if d == 4 {
        "4"@
    } else if d == 5 {
        "5"@
    } else if d == 6 {
        "6"@
    } else if d == 7 {
        "7"@
    } else if d == 8 {
        "8"@
    } else {
        "9"@
    }
}

/// The decimal numeral of a natural number, without leading zeros.
pub open spec fn decimal_nat(n: nat) -> Seq<char>
    decreases n,
{
    if n < 10 {
        digit(n as int)
    } else {
        decimal_nat(n / 10) + digit((n % 10) as int)
    }
}

/// The decimal numeral of an integer, with a minus sign where it is
/// negative.
pub open spec fn decimal(i: int) -> Seq<char> {
    if i < 0 {
        "-"@ + decimal_nat((-i) as nat)
    } else {
        decimal_nat(i as nat)
    }
}

/// The text of an error: what happened, and for a failure of the engine the
/// entry point that failed and the code it answered with.
pub open spec fn message_spec(error: Error) -> Seq<char> {
    match error {
        Error::ProcessExists => "process already exists"@,
        Error::Engine { primitive, code } => primitive.symbol_spec() + ": error("@ + decimal(
            code as int,
        ) + ")"@,
        Error::NotFound { primitive } => if primitive == Primitive::ReadEvent {
            "get_event: event not found"@
        } else {
            primitive.symbol_spec() + ": key not found"@
        },
        Error::Overrun { primitive, code } => primitive.symbol_spec() + ": buffer overrun("@
            + decimal(code as int) + ")"@,
        Error::FunctionNotFound => "function not found"@,
        Error::SlotsExhausted => "value table is full"@,
    }
}

fn digit_str(d: u32) -> (s: &'static str)
    requires
        d < 10,
    ensures
        s@ == digit(d as int),
{
    if d == 0 {
        "0"
    } else if d == 1 {
        "1"
    } else if d == 2 {
        "2"
    } else if d == 3 {
        "3"
    } else if d == 4 {
        "4"
    } else if d == 5 {
        "5"
    } else if d == 6 {
        "6"
    } else if d == 7 {
        "7"
    } else if d == 8 {
        "8"
    } else {
        "9"
    }
}

/// Appends the decimal numeral of `n` to `out`.
fn append_decimal_nat(out: &mut String, n: u32)
    ensures
        final(out)@ == old(out)@ + decimal_nat(n as nat),
    decreases n,
{
    if n >= 10 {
        append_decimal_nat(out, n / 10);
    }
    out.append(digit_str(n % 10));
}

/// Appends the decimal numeral of `i` to `out`.
fn append_decimal(out: &mut String, i: i32)
    ensures
        final(out)@ == old(out)@ + decimal(i as int),
{
    if i < 0 {
        out.append("-");
        let magnitude: i64 = -(i as i64);
        append_decimal_nat(out, magnitude as u32);
    } else {
        append_decimal_nat(out, i as u32);
    }
}

impl Error {
    /// The text by which this error is reported.
    pub fn message(&self) -> (text: String)
        ensures
            text@ == message_spec(*self),
    {
        match *self {
            Error::ProcessExists => String::from_str("process already exists"),
            Error::Engine { primitive, code } => {
                let mut text = String::from_str(primitive.symbol());
                text.append(": error(");
                append_decimal(&mut text, code);
                text.append(")");
                text
            },
            Error::NotFound { primitive } => {
                match primitive {
                    Primitive::ReadEvent => String::from_str("get_event: event not found"),
                    _ => {
                        let mut text = String::from_str(primitive.symbol());
                        text.append(": key not found");
                        text
                    },
                }
            },
            Error::Overrun { primitive, code } => {
                let mut text = String::from_str(primitive.symbol());
                text.append(": buffer overrun(");
                append_decimal(&mut text, code);
                text.append(")");
                text
            },
            Error::FunctionNotFound => String::from_str("function not found"),
            Error::SlotsExhausted => String::from_str("value table is full"),
        }
    }
}

} // verus!
