//! The library's stated laws: properties that hold of all inputs, proved
//! once here rather than re-checked example by example.

use crate::error::Error;
use crate::op::CalcOp;
use crate::stack::spec_calc_step;
use crate::stack::EngineView;
use crate::val::spec_add;
use crate::val::spec_cast_signed;
use crate::val::spec_cast_unsigned;
use crate::val::spec_is_zero;
use crate::val::Val;
use vstd::prelude::*;
use vstd::wrapping::i64_specs;

verus! {

/// Adding two unsigned values yields the unsigned sum reduced modulo 2^64
/// (the wrapping overflow policy).
pub proof fn lemma_add_unsigned(x: u64, y: u64)
    ensures
        spec_add(Val::U64(x), Val::U64(y)) == Val::U64(
            ((x + y) % 0x1_0000_0000_0000_0000) as u64,
        ),
{
    let w = 0x1_0000_0000_0000_0000int;
    let s = x + y;
    if s <= u64::MAX {
        vstd::arithmetic::div_mod::lemma_small_mod(s as nat, w as nat);
    } else {
        vstd::arithmetic::div_mod::lemma_mod_sub_multiples_vanish(s, w);
        vstd::arithmetic::div_mod::lemma_small_mod((s - w) as nat, w as nat);
    }
}

/// Adding a signed value to an unsigned one yields a signed result: the
/// wrapping signed sum of the unsigned payload reinterpreted as signed
/// and the signed payload.
pub proof fn lemma_add_mixed(x: u64, y: i64)
    ensures
        spec_add(Val::U64(x), Val::I64(y)) == Val::I64(i64_specs::wrapping_add(x as i64, y)),
{
}

/// Dividing or taking the remainder by a zero-valued divisor of either
/// variant fails with `DivideByZero`; the engine's `calc_op` contract then
/// guarantees the state is left unchanged.
pub proof fn lemma_divide_by_zero(pre: EngineView, op: CalcOp)
    requires
        op is Div || op is Mod,
        pre.stack.len() >= 2,
        spec_is_zero(pre.stack.last()),
    ensures
        spec_calc_step(pre, op) == Err::<EngineView, Error>(Error::DivideByZero),
{
}

/// Pushing a value to a register and then reading that register yields the
/// value just pushed: the register bank's push inserts exactly this
/// contents, and get and pop read its newest entry.
pub proof fn lemma_register_round_trip(regs: Map<Val, Seq<Val>>, id: Val, v: Val)
    ensures
        ({
            let pushed = regs.insert(
                id,
                (if regs.contains_key(id) {
                    regs[id]
                } else {
                    Seq::<Val>::empty()
                }).push(v),
            );
            &&& pushed.contains_key(id)
            &&& pushed[id].len() > 0
            &&& pushed[id].last() == v
        }),
{
}

/// Casting an unsigned value to signed and back reproduces the original
/// bit pattern exactly.
pub proof fn lemma_cast_round_trip(x: u64)
    ensures
        spec_cast_unsigned(spec_cast_signed(Val::U64(x))) == Val::U64(x),
{
    assert(((x as i64) as u64) == x) by (bit_vector);
}

/// The symmetric direction: a signed value cast to unsigned and back keeps
/// its bit pattern.
pub proof fn lemma_cast_round_trip_signed(x: i64)
    ensures
        spec_cast_signed(spec_cast_unsigned(Val::I64(x))) == Val::I64(x),
{
    assert(((x as u64) as i64) == x) by (bit_vector);
}

} // verus!
