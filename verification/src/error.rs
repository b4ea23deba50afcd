//! The calculator's closed error taxonomy. Every engine-level failure is one
//! of these values; the surrounding read loop reports it and continues with
//! the next token.

use crate::fmt::spec_fmt;
use crate::op::Radix;
use crate::val::Val;
use vstd::prelude::*;

verus! {

/// A failure of a single token's evaluation. Every failing operation leaves
/// the engine state exactly as it was.
#[derive(Debug, Clone, PartialEq, Eq)]
pub enum Error {
    /// The token matched no operation and failed the literal grammar; it is
    /// carried verbatim.
    InvalidInput(String),
    /// An operation needed more operand-stack elements than were present.
    EndOfStack,
    /// A register get or pop against an absent or exhausted register id.
    EndOfRegister(Val),
    /// The output-radix selector's value was not one of 2, 10, 16.
    BadRadix,
    /// The divisor operand of a divide or modulo was numerically zero.
    DivideByZero,
}

/// The one-line message each error renders as; a register id is shown in
/// its decimal rendering.
pub open spec fn spec_message(e: Error) -> Seq<char> {
    match e {
        Error::InvalidInput(s) => "Invalid input: '"@ + s@ + "'"@,
        Error::EndOfStack => "Stack is empty"@,
        Error::EndOfRegister(id) => "Register stack '"@ + spec_fmt(id, Radix::Dec) + "' is empty"@,
        Error::BadRadix => "Bad radix"@,
        Error::DivideByZero => "Attempt to divide by zero"@,
    }
}

impl Error {
    /// Renders the error as its one-line message.
    pub fn message(&self) -> (r: String)
        ensures
            r@ == spec_message(*self),
    {
        match self {
            Error::InvalidInput(s) => {
                let mut m = String::new();
                m.append("Invalid input: '");
                m.append(s.as_str());
                m.append("'");
                proof {
                    assert(m@ =~= spec_message(*self));
                }
                m
            },
            Error::EndOfStack => "Stack is empty".to_owned(),
            Error::EndOfRegister(id) => {
                let mut m = String::new();
                m.append("Register stack '");
                let rendered = crate::fmt::fmt_val(id, Radix::Dec);
                m.append(rendered.as_str());
                m.append("' is empty");
                proof {
                    assert(m@ =~= spec_message(*self));
                }
                m
            },
            Error::BadRadix => "Bad radix".to_owned(),
            Error::DivideByZero => "Attempt to divide by zero".to_owned(),
        }
    }
}

} // verus!
