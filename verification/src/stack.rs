//! The evaluation engine: the operand stack, the output radix, the register
//! bank, and a buffer of rendered output lines.
//!
//! Each operation either succeeds, mutating this state as its spec function
//! describes, or fails atomically: a failing operation leaves stack,
//! radix, registers and output exactly as they were. Printing appends
//! rendered lines to the output buffer; the surrounding read loop drains
//! and displays them, so evaluation itself performs no output. The whole
//! operand stack (`f`) prints bottom-to-top; a register dump (`F`) prints
//! oldest-to-newest.

use crate::error::Error;
use crate::fmt::fmt_val;
use crate::fmt::spec_fmt;
use crate::op::spec_radix_of;
use crate::op::CalcOp;
use crate::op::CastOp;
use crate::op::Op;
use crate::op::PrintOp;
use crate::op::Radix;
use crate::op::RegOp;
use crate::op::StackOp;
use crate::registers::Registers;
use crate::val::spec_add;
use crate::val::spec_band;
use crate::val::spec_bnot;
use crate::val::spec_bor;
use crate::val::spec_bxor;
use crate::val::spec_div;
use crate::val::spec_is_zero;
use crate::val::spec_mul;
use crate::val::spec_pow;
use crate::val::spec_rem;
use crate::val::spec_shl;
use crate::val::spec_shr;
use crate::val::spec_sub;
use crate::val::spec_cast_signed;
use crate::val::spec_cast_unsigned;
use crate::val::Val;
use vstd::prelude::*;

verus! {

/// The engine's entire mutable state, viewed mathematically: the operand
/// stack bottom-to-top, the output radix, the register bank, and the
/// rendered output lines in order of printing.
#[verifier::ext_equal]
pub ghost struct EngineView {
    pub stack: Seq<Val>,
    pub radix: Radix,
    pub regs: Map<Val, Seq<Val>>,
    pub out: Seq<Seq<char>>,
}

/// The evaluation engine.
pub struct Stack {
    stack: Vec<Val>,
    output: Radix,
    reg: Registers,
    out: Vec<String>,
}

/// What one arithmetic operation computes from the deeper operand `a` and
/// the top operand `b` (`Not` is unary and handled separately).
pub open spec fn spec_calc_val(op: CalcOp, a: Val, b: Val) -> Val {
    match op {
        CalcOp::Add => spec_add(a, b),
        CalcOp::Sub => spec_sub(a, b),
        CalcOp::Mul => spec_mul(a, b),
        CalcOp::Div => spec_div(a, b),
        CalcOp::Mod => spec_rem(a, b),
        CalcOp::Pow => spec_pow(a, b),
        CalcOp::And => spec_band(a, b),
        CalcOp::Or => spec_bor(a, b),
        CalcOp::Xor => spec_bxor(a, b),
        CalcOp::Not => spec_bnot(a),
        CalcOp::Shl => spec_shl(a, b),
        CalcOp::Shr => spec_shr(a, b),
    }
}

/// An arithmetic operation: `Not` rewrites the top element; every other
/// operation consumes the two topmost elements (deeper `a`, top `b`) and
/// pushes `a ∘ b`. Underflow fails `EndOfStack`; a zero-valued divisor for
/// divide or modulo fails `DivideByZero`; failures change nothing.
pub open spec fn spec_calc_step(pre: EngineView, op: CalcOp) -> Result<EngineView, Error> {
    if op is Not {
        if pre.stack.len() < 1 {
            Err(Error::EndOfStack)
        } else {
            Ok(
                EngineView {
                    stack: pre.stack.drop_last().push(spec_bnot(pre.stack.last())),
                    ..pre
                },
            )
        }
    } else if pre.stack.len() < 2 {
        Err(Error::EndOfStack)
    } else {
        let b = pre.stack.last();
        let a = pre.stack[pre.stack.len() - 2];
        if (op is Div || op is Mod) && spec_is_zero(b) {
            Err(Error::DivideByZero)
        } else {
            Ok(
                EngineView {
                    stack: pre.stack.take(pre.stack.len() - 2).push(spec_calc_val(op, a, b)),
                    ..pre
                },
            )
        }
    }
}

/// A stack operation: push always succeeds; pop-and-print and duplicate
/// need one element; clear always succeeds; reverse swaps the two topmost
/// elements and needs both.
pub open spec fn spec_stack_step(pre: EngineView, op: StackOp) -> Result<EngineView, Error> {
    match op {
        StackOp::Push(v) => Ok(EngineView { stack: pre.stack.push(v), ..pre }),
        StackOp::Pop => if pre.stack.len() < 1 {
            Err(Error::EndOfStack)
        } else {
            Ok(
                EngineView {
                    stack: pre.stack.drop_last(),
                    out: pre.out.push(spec_fmt(pre.stack.last(), pre.radix)),
                    ..pre
                },
            )
        },
        StackOp::Dup => if pre.stack.len() < 1 {
            Err(Error::EndOfStack)
        } else {
            Ok(EngineView { stack: pre.stack.push(pre.stack.last()), ..pre })
        },
        StackOp::Clear => Ok(EngineView { stack: Seq::empty(), ..pre }),
        StackOp::Rev => if pre.stack.len() < 2 {
            Err(Error::EndOfStack)
        } else {
            Ok(
                EngineView {
                    stack: pre.stack.take(pre.stack.len() - 2).push(pre.stack.last()).push(
                        pre.stack[pre.stack.len() - 2],
                    ),
                    ..pre
                },
            )
        },
    }
}

/// A printing or radix operation: `p` renders the top element when one is
/// present and is silent otherwise; `f` renders the whole stack
/// bottom-to-top; `o` consumes the top element as a radix selector, failing
/// `BadRadix` (with nothing consumed) when it selects none.
pub open spec fn spec_print_step(pre: EngineView, op: PrintOp) -> Result<EngineView, Error> {
    match op {
        PrintOp::Print => if pre.stack.len() < 1 {
            Ok(pre)
        } else {
            Ok(EngineView { out: pre.out.push(spec_fmt(pre.stack.last(), pre.radix)), ..pre })
        },
        PrintOp::Dump => Ok(
            EngineView {
                out: pre.out + Seq::new(
                    pre.stack.len(),
                    |i: int| spec_fmt(pre.stack[i], pre.radix),
                ),
                ..pre
            },
        ),
        PrintOp::Output => if pre.stack.len() < 1 {
            Err(Error::EndOfStack)
        } else {
            match spec_radix_of(pre.stack.last()) {
                Some(r) => Ok(
                    EngineView { stack: pre.stack.drop_last(), radix: r, ..pre },
                ),
                None => Err(Error::BadRadix),
            }
        },
    }
}

/// A register operation: each consumes the top element as the register id.
/// `s` also consumes the value beneath it and appends it to the register;
/// `l` copies the register's newest value onto the stack; `L` moves it;
/// `F` renders the register's contents oldest-to-newest, silently rendering
/// nothing for a register that never existed. A failing operation consumes
/// nothing.
pub open spec fn spec_reg_step(pre: EngineView, op: RegOp) -> Result<EngineView, Error> {
    if pre.stack.len() < 1 {
        Err(Error::EndOfStack)
    } else {
        let id = pre.stack.last();
        let popped = pre.stack.drop_last();
        match op {
            RegOp::Push => if pre.stack.len() < 2 {
                Err(Error::EndOfStack)
            } else {
                let v = popped.last();
                Ok(
                    EngineView {
                        stack: popped.drop_last(),
                        regs: pre.regs.insert(
                            id,
                            (if pre.regs.contains_key(id) {
                                pre.regs[id]
                            } else {
                                Seq::<Val>::empty()
                            }).push(v),
                        ),
                        ..pre
                    },
                )
            },
            RegOp::Get => if pre.regs.contains_key(id) && pre.regs[id].len() > 0 {
                Ok(EngineView { stack: popped.push(pre.regs[id].last()), ..pre })
            } else {
                Err(Error::EndOfRegister(id))
            },
            RegOp::Pop => if pre.regs.contains_key(id) && pre.regs[id].len() > 0 {
                Ok(
                    EngineView {
                        stack: popped.push(pre.regs[id].last()),
                        regs: pre.regs.insert(id, pre.regs[id].drop_last()),
                        ..pre
                    },
                )
            } else {
                Err(Error::EndOfRegister(id))
            },
            RegOp::Dump => if pre.regs.contains_key(id) {
                Ok(
                    EngineView {
                        stack: popped,
                        out: pre.out + Seq::new(
                            pre.regs[id].len(),
                            |i: int| spec_fmt(pre.regs[id][i], pre.radix),
                        ),
                        ..pre
                    },
                )
            } else {
                Ok(EngineView { stack: popped, ..pre })
            },
        }
    }
}

/// A cast replaces the top element by its bit pattern reinterpreted in the
/// requested variant.
pub open spec fn spec_cast_step(pre: EngineView, op: CastOp) -> Result<EngineView, Error> {
    if pre.stack.len() < 1 {
        Err(Error::EndOfStack)
    } else {
        let c = match op {
            CastOp::U => spec_cast_unsigned(pre.stack.last()),
            CastOp::I => spec_cast_signed(pre.stack.last()),
        };
        Ok(EngineView { stack: pre.stack.drop_last().push(c), ..pre })
    }
}

/// One whole step of the engine: the state after the operation and whether
/// it asked to quit, or the error that left the state untouched.
pub open spec fn spec_step(pre: EngineView, op: Op) -> Result<(EngineView, bool), Error> {
    match op {
        Op::Stack(o) => match spec_stack_step(pre, o) {
            Ok(v) => Ok((v, false)),
            Err(e) => Err(e),
        },
        Op::Reg(o) => match spec_reg_step(pre, o) {
            Ok(v) => Ok((v, false)),
            Err(e) => Err(e),
        },
        Op::Print(o) => match spec_print_step(pre, o) {
            Ok(v) => Ok((v, false)),
            Err(e) => Err(e),
        },
        Op::Calc(o) => match spec_calc_step(pre, o) {
            Ok(v) => Ok((v, false)),
            Err(e) => Err(e),
        },
        Op::Cast(o) => match spec_cast_step(pre, o) {
            Ok(v) => Ok((v, false)),
            Err(e) => Err(e),
        },
        Op::Quit => Ok((pre, true)),
    }
}

impl View for Stack {
    type V = EngineView;

    closed spec fn view(&self) -> EngineView {
        EngineView {
            stack: self.stack@,
            radix: self.output,
            regs: self.reg@,
            out: self.out.deep_view(),
        }
    }
}

impl Stack {
    /// Well-formedness of the engine's internal structures.
    pub closed spec fn wf(&self) -> bool {
        self.reg.wf()
    }

    /// A fresh engine: empty stack, decimal output, no registers, no
    /// pending output.
    pub fn new() -> (r: Stack)
        ensures
            r.wf(),
            r@.stack == Seq::<Val>::empty(),
            r@.radix == Radix::Dec,
            r@.regs == Map::<Val, Seq<Val>>::empty(),
            r@.out == Seq::<Seq<char>>::empty(),
    {
        let r = Stack { stack: Vec::new(), output: Radix::Dec, reg: Registers::new(), out: Vec::new() };
        proof {
            assert(r@.out =~= Seq::<Seq<char>>::empty());
        }
        r
    }

    /// The top of the operand stack, if any.
    pub fn top(&self) -> (r: Option<Val>)
        ensures
            match r {
                Some(v) => self@.stack.len() > 0 && v == self@.stack.last(),
                None => self@.stack.len() == 0,
            },
    {
        let n: usize = self.stack.len();
        if n == 0 {
            None
        } else {
            Some(self.stack[n - 1])
        }
    }

    /// Takes the output lines rendered so far, leaving the buffer empty and
    /// everything else untouched.
    pub fn take_output(&mut self) -> (r: Vec<String>)
        ensures
            final(self).wf() == old(self).wf(),
            final(self)@.stack == old(self)@.stack,
            final(self)@.radix == old(self)@.radix,
            final(self)@.regs == old(self)@.regs,
            final(self)@.out == Seq::<Seq<char>>::empty(),
            r.deep_view() == old(self)@.out,
    {
        let mut tmp: Vec<String> = Vec::new();
        core::mem::swap(&mut tmp, &mut self.out);
        proof {
            assert(self@.out =~= Seq::<Seq<char>>::empty());
        }
        tmp
    }

    /// Renders `v` under the current radix onto the output buffer.
    fn print_line(&mut self, v: &Val)
        ensures
            final(self).wf() == old(self).wf(),
            final(self)@.stack == old(self)@.stack,
            final(self)@.radix == old(self)@.radix,
            final(self)@.regs == old(self)@.regs,
            final(self)@.out == old(self)@.out.push(spec_fmt(*v, old(self)@.radix)),
    {
        let line = fmt_val(v, self.output);
        self.out.push(line);
        proof {
            assert(self@.out =~= old(self)@.out.push(spec_fmt(*v, old(self)@.radix)));
        }
    }

    /// Applies an arithmetic operation, as `spec_calc_step` describes.
    pub fn calc_op(&mut self, op: CalcOp) -> (r: Result<(), Error>)
        requires
            old(self).wf(),
        ensures
            final(self).wf(),
            match spec_calc_step(old(self)@, op) {
                Ok(v) => r == Ok::<(), Error>(()) && final(self)@ == v,
                Err(e) => r == Err::<(), Error>(e) && final(self)@ == old(self)@,
            },
    {
        let n: usize = self.stack.len();
        match op {
            CalcOp::Not => {
                if n < 1 {
                    return Err(Error::EndOfStack);
                }
                let a = self.stack[n - 1];
                self.stack.truncate(n - 1);
                self.stack.push(a.bnot());
                proof {
                    assert(self@ =~= (spec_calc_step(old(self)@, op)->Ok_0));
                }
                Ok(())
            },
            _ => {
                if n < 2 {
                    return Err(Error::EndOfStack);
                }
                let b = self.stack[n - 1];
                let a = self.stack[n - 2];
                let divides = match op {
                    CalcOp::Div => true,
                    CalcOp::Mod => true,
                    _ => false,
                };
                if divides && b.is_zero() {
                    return Err(Error::DivideByZero);
                }
                let res = match op {
                    CalcOp::Add => a.add(b),
                    CalcOp::Sub => a.sub(b),
                    CalcOp::Mul => a.mul(b),
                    CalcOp::Div => a.div(b),
                    CalcOp::Mod => a.rem(b),
                    CalcOp::Pow => a.pow(b),
                    CalcOp::And => a.band(b),
                    CalcOp::Or => a.bor(b),
                    CalcOp::Xor => a.bxor(b),
                    CalcOp::Shl => a.shl(b),
                    CalcOp::Shr => a.shr(b),
                    CalcOp::Not => a,
                };
                self.stack.truncate(n - 2);
                self.stack.push(res);
                proof {
                    assert(self@ =~= (spec_calc_step(old(self)@, op)->Ok_0));
                }
                Ok(())
            },
        }
    }

    /// Applies a stack operation, as `spec_stack_step` describes.
    pub fn stack_op(&mut self, op: StackOp) -> (r: Result<(), Error>)
        requires
            old(self).wf(),
        ensures
            final(self).wf(),
            match spec_stack_step(old(self)@, op) {
                Ok(v) => r == Ok::<(), Error>(()) && final(self)@ == v,
                Err(e) => r == Err::<(), Error>(e) && final(self)@ == old(self)@,
            },
    {
        let n: usize = self.stack.len();
        match op {
            StackOp::Push(v) => {
                self.stack.push(v);
                proof {
                    assert(self@ =~= (spec_stack_step(old(self)@, op)->Ok_0));
                }
                Ok(())
            },
            StackOp::Pop => {
                if n < 1 {
                    return Err(Error::EndOfStack);
                }
                let v = self.stack[n - 1];
                self.stack.truncate(n - 1);
                self.print_line(&v);
                proof {
                    assert(self@ =~= (spec_stack_step(old(self)@, op)->Ok_0));
                }
                Ok(())
            },
            StackOp::Dup => {
                if n < 1 {
                    return Err(Error::EndOfStack);
                }
                let v = self.stack[n - 1];
                self.stack.push(v);
                proof {
                    assert(self@ =~= (spec_stack_step(old(self)@, op)->Ok_0));
                }
                Ok(())
            },
            StackOp::Clear => {
                self.stack.clear();
                proof {
                    assert(self@ =~= (spec_stack_step(old(self)@, op)->Ok_0));
                }
                Ok(())
            },
            StackOp::Rev => {
                if n < 2 {
                    return Err(Error::EndOfStack);
                }
                let b = self.stack[n - 1];
                let a = self.stack[n - 2];
                self.stack.truncate(n - 2);
                self.stack.push(b);
                self.stack.push(a);
                proof {
                    assert(self@ =~= (spec_stack_step(old(self)@, op)->Ok_0));
                }
                Ok(())
            },
        }
    }

    /// Applies a printing or radix operation, as `spec_print_step`
    /// describes.
    pub fn print_op(&mut self, op: PrintOp) -> (r: Result<(), Error>)
        requires
            old(self).wf(),
        ensures
            final(self).wf(),
            match spec_print_step(old(self)@, op) {
                Ok(v) => r == Ok::<(), Error>(()) && final(self)@ == v,
                Err(e) => r == Err::<(), Error>(e) && final(self)@ == old(self)@,
            },
    {
        let n: usize = self.stack.len();
        match op {
            PrintOp::Print => {
                if n >= 1 {
                    let v = self.stack[n - 1];
                    self.print_line(&v);
                }
                proof {
                    assert(self@ =~= (spec_print_step(old(self)@, op)->Ok_0));
                }
                Ok(())
            },
            PrintOp::Dump => {
                let mut i: usize = 0;
                while i < n
                    invariant
                        i <= n,
                        n == self@.stack.len(),
                        self.wf() == old(self).wf(),
                        self@.stack == old(self)@.stack,
                        self@.radix == old(self)@.radix,
                        self@.regs == old(self)@.regs,
                        self@.out == old(self)@.out + Seq::new(
                            i as nat,
                            |j: int| spec_fmt(old(self)@.stack[j], old(self)@.radix),
                        ),
                    decreases n - i,
                {
                    let v = self.stack[i];
                    self.print_line(&v);
                    proof {
                        assert(self@.out =~= old(self)@.out + Seq::new(
                            (i + 1) as nat,
                            |j: int| spec_fmt(old(self)@.stack[j], old(self)@.radix),
                        ));
                    }
                    i = i + 1;
                }
                proof {
                    assert(self@.out =~= (spec_print_step(old(self)@, op)->Ok_0).out);
                    assert(self@ =~= (spec_print_step(old(self)@, op)->Ok_0));
                }
                Ok(())
            },
            PrintOp::Output => {
                if n < 1 {
                    return Err(Error::EndOfStack);
                }
                let v = self.stack[n - 1];
                match Radix::from_val(v) {
                    Some(r) => {
                        self.stack.truncate(n - 1);
                        self.output = r;
                        proof {
                            assert(self@ =~= (spec_print_step(old(self)@, op)->Ok_0));
                        }
                        Ok(())
                    },
                    None => Err(Error::BadRadix),
                }
            },
        }
    }

    /// Applies a register operation, as `spec_reg_step` describes.
    pub fn reg_op(&mut self, op: RegOp) -> (r: Result<(), Error>)
        requires
            old(self).wf(),
        ensures
            final(self).wf(),
            match spec_reg_step(old(self)@, op) {
                Ok(v) => r == Ok::<(), Error>(()) && final(self)@ == v,
                Err(e) => r == Err::<(), Error>(e) && final(self)@ == old(self)@,
            },
    {
        let n: usize = self.stack.len();
        if n < 1 {
            return Err(Error::EndOfStack);
        }
        let id = self.stack[n - 1];
        match op {
            RegOp::Push => {
                if n < 2 {
                    return Err(Error::EndOfStack);
                }
                let v = self.stack[n - 2];
                self.stack.truncate(n - 2);
                self.reg.push(id, v);
                proof {
                    assert(old(self)@.stack.drop_last().last() == v);
                    assert(old(self)@.stack.drop_last().drop_last() =~= self@.stack);
                    assert(self@ =~= (spec_reg_step(old(self)@, op)->Ok_0));
                }
                Ok(())
            },
            RegOp::Get => {
                match self.reg.val(&id) {
                    Ok(v) => {
                        self.stack.truncate(n - 1);
                        self.stack.push(v);
                        proof {
                            assert(self@ =~= (spec_reg_step(old(self)@, op)->Ok_0));
                        }
                        Ok(())
                    },
                    Err(e) => Err(e),
                }
            },
            RegOp::Pop => {
                match self.reg.pop(&id) {
                    Ok(v) => {
                        self.stack.truncate(n - 1);
                        self.stack.push(v);
                        proof {
                            assert(self@ =~= (spec_reg_step(old(self)@, op)->Ok_0));
                        }
                        Ok(())
                    },
                    Err(e) => Err(e),
                }
            },
            RegOp::Dump => {
                match self.reg.iter(&id) {
                    Some(vals) => {
                        self.stack.truncate(n - 1);
                        let m: usize = vals.len();
                        let mut i: usize = 0;
                        while i < m
                            invariant
                                i <= m,
                                m == vals@.len(),
                                vals@ == old(self)@.regs[old(self)@.stack.last()],
                                self.wf() == old(self).wf(),
                                self@.stack == old(self)@.stack.drop_last(),
                                self@.radix == old(self)@.radix,
                                self@.regs == old(self)@.regs,
                                self@.out == old(self)@.out + Seq::new(
                                    i as nat,
                                    |j: int| spec_fmt(vals@[j], old(self)@.radix),
                                ),
                            decreases m - i,
                        {
                            let v = vals[i];
                            self.print_line(&v);
                            proof {
                                assert(self@.out =~= old(self)@.out + Seq::new(
                                    (i + 1) as nat,
                                    |j: int| spec_fmt(vals@[j], old(self)@.radix),
                                ));
                            }
                            i = i + 1;
                        }
                        proof {
                            assert(self@.out =~= (spec_reg_step(old(self)@, op)->Ok_0).out);
                            assert(self@ =~= (spec_reg_step(old(self)@, op)->Ok_0));
                        }
                        Ok(())
                    },
                    None => {
                        self.stack.truncate(n - 1);
                        proof {
                            assert(self@ =~= (spec_reg_step(old(self)@, op)->Ok_0));
                        }
                        Ok(())
                    },
                }
            },
        }
    }

    /// Applies a cast, as `spec_cast_step` describes.
    pub fn cast_op(&mut self, op: CastOp) -> (r: Result<(), Error>)
        requires
            old(self).wf(),
        ensures
            final(self).wf(),
            match spec_cast_step(old(self)@, op) {
                Ok(v) => r == Ok::<(), Error>(()) && final(self)@ == v,
                Err(e) => r == Err::<(), Error>(e) && final(self)@ == old(self)@,
            },
    {
        let n: usize = self.stack.len();
        if n < 1 {
            return Err(Error::EndOfStack);
        }
        let v = self.stack[n - 1];
        let c = match op {
            CastOp::U => v.cast_unsigned(),
            CastOp::I => v.cast_signed(),
        };
        self.stack.truncate(n - 1);
        self.stack.push(c);
        proof {
            assert(self@ =~= (spec_cast_step(old(self)@, op)->Ok_0));
        }
        Ok(())
    }

    /// Applies one parsed operation: the single entry point the read loop
    /// drives. Returns whether the operation asked to quit; a failing
    /// operation returns its error and leaves the whole state untouched.
    pub fn op(&mut self, op: Op) -> (r: Result<bool, Error>)
        requires
            old(self).wf(),
        ensures
            final(self).wf(),
            match spec_step(old(self)@, op) {
                Ok(v) => r == Ok::<bool, Error>(v.1) && final(self)@ == v.0,
                Err(e) => r == Err::<bool, Error>(e) && final(self)@ == old(self)@,
            },
    {
        match op {
            Op::Stack(o) => match self.stack_op(o) {
                Ok(()) => Ok(false),
                Err(e) => Err(e),
            },
            Op::Reg(o) => match self.reg_op(o) {
                Ok(()) => Ok(false),
                Err(e) => Err(e),
            },
            Op::Print(o) => match self.print_op(o) {
                Ok(()) => Ok(false),
                Err(e) => Err(e),
            },
            Op::Calc(o) => match self.calc_op(o) {
                Ok(()) => Ok(false),
                Err(e) => Err(e),
            },
            Op::Cast(o) => match self.cast_op(o) {
                Ok(()) => Ok(false),
                Err(e) => Err(e),
            },
            Op::Quit => Ok(true),
        }
    }
}

} // verus!
