//! The operations a token can denote, and the output radix.

use crate::val::Val;
use vstd::prelude::*;

verus! {

/// An arithmetic, bitwise or shift operation on the operand stack.
#[derive(Debug, Clone, Copy, PartialEq, Eq, Structural)]
pub enum CalcOp {
    Add,
    Sub,
    Mul,
    Div,
    Mod,
    Pow,
    And,
    Or,
    Xor,
    Not,
    Shl,
    Shr,
}

/// A named-register operation. Each first pops the register id off the
/// operand stack.
#[derive(Debug, Clone, Copy, PartialEq, Eq, Structural)]
pub enum RegOp {
    Push,
    Get,
    Pop,
    Dump,
}

/// An operation on the operand stack itself.
#[derive(Debug, Clone, Copy, PartialEq, Eq, Structural)]
pub enum StackOp {
    Push(Val),
    Pop,
    Dup,
    Clear,
    Rev,
}

/// A printing or radix operation.
#[derive(Debug, Clone, Copy, PartialEq, Eq, Structural)]
pub enum PrintOp {
    Dump,
    Print,
    Output,
}

/// A cast of the top of the stack into the other variant.
#[derive(Debug, Clone, Copy, PartialEq, Eq, Structural)]
pub enum CastOp {
    U,
    I,
}

/// Every operation a single token can denote.
#[derive(Debug, Clone, Copy, PartialEq, Eq, Structural)]
pub enum Op {
    Stack(StackOp),
    Reg(RegOp),
    Print(PrintOp),
    Calc(CalcOp),
    Cast(CastOp),
    Quit,
}

/// The numeral base used when rendering a value as text.
#[derive(Debug, Clone, Copy, PartialEq, Eq, Structural)]
pub enum Radix {
    Bin,
    Dec,
    Hex,
}

/// A value's payload as a mathematical integer, in its own variant.
pub open spec fn spec_num(v: Val) -> int {
    match v {
        Val::U64(u) => u as int,
        Val::I64(i) => i as int,
    }
}

/// The radix a value selects: its numeric value must be 2, 10 or 16, in
/// either variant; anything else selects none.
pub open spec fn spec_radix_of(v: Val) -> Option<Radix> {
    if spec_num(v) == 2 {
        Some(Radix::Bin)
    } else if spec_num(v) == 10 {
        Some(Radix::Dec)
    } else if spec_num(v) == 16 {
        Some(Radix::Hex)
    } else {
        None
    }
}

impl Radix {
    /// Interprets a value as an output radix by its numeric value: 2, 10
    /// and 16 select binary, decimal and hexadecimal.
    pub fn from_val(v: Val) -> (r: Option<Radix>)
        ensures
            r == spec_radix_of(v),
    {
        match v {
            Val::U64(u) => {
                if u == 2 {
                    Some(Radix::Bin)
                } else if u == 10 {
                    Some(Radix::Dec)
                } else if u == 16 {
                    Some(Radix::Hex)
                } else {
                    None
                }
            },
            Val::I64(i) => {
                if i == 2 {
                    Some(Radix::Bin)
                } else if i == 10 {
                    Some(Radix::Dec)
                } else if i == 16 {
                    Some(Radix::Hex)
                } else {
                    None
                }
            },
        }
    }
}

} // verus!
