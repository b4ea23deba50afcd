//! The calculator's numeric value: a two-variant tagged union of an unsigned
//! and a signed 64-bit integer, with promotion-aware arithmetic.
//!
//! Overflow policy: every arithmetic and power operation wraps modulo 2^64
//! (two's-complement). Shift amounts are taken modulo 64. Casts between the
//! variants reinterpret the two's-complement bit pattern.
//!
//! The promotion rule for a binary arithmetic, bitwise or shift operation
//! `a ∘ b`: the result keeps `a`'s variant unless `a` is unsigned and `b` is
//! signed, in which case the result is signed. Equivalently, the result is
//! signed exactly when at least one operand is signed; the other operand's
//! payload is reinterpreted into the result's representation before
//! computing. Power is the one exception: its result always keeps the
//! base's variant, whatever the exponent operand's variant.

use vstd::arithmetic::power::pow;
use vstd::prelude::*;
use vstd::wrapping::i64_specs;
use vstd::wrapping::u64_specs;

verus! {

/// A calculator value. `U64(x)` and `I64(y)` are distinct values even when
/// `x` and `y` have the same payload bits.
#[derive(Debug, Clone, Copy, PartialEq, Eq, Hash, Structural)]
pub enum Val {
    U64(u64),
    I64(i64),
}

/// True exactly when the payload is numerically zero in its own variant.
pub open spec fn spec_is_zero(v: Val) -> bool {
    match v {
        Val::U64(u) => u == 0,
        Val::I64(i) => i == 0,
    }
}

/// Truncated (round-toward-zero) division of `x` by `d`, the behaviour of
/// native signed division. Meaningful only for `d != 0`.
pub open spec fn div_trunc(x: int, d: int) -> int {
    if x >= 0 && d > 0 {
        x / d
    } else if x < 0 && d < 0 {
        (-x) / (-d)
    } else if x < 0 {
        -((-x) / d)
    } else {
        -(x / (-d))
    }
}

/// Truncated remainder: the sign follows the dividend, and
/// `x == d * div_trunc(x, d) + rem_trunc(x, d)`. Meaningful only for `d != 0`.
pub open spec fn rem_trunc(x: int, d: int) -> int {
    if x >= 0 && d > 0 {
        x % d
    } else if x < 0 && d < 0 {
        -((-x) % (-d))
    } else if x < 0 {
        -((-x) % d)
    } else {
        x % (-d)
    }
}

/// Truncated division of two signed payloads, wrapped into `i64` range
/// (the one overflow case, `i64::MIN / -1`, wraps back to `i64::MIN`).
pub open spec fn i64_div_wrap(x: i64, y: i64) -> i64 {
    i64_specs::signed_crop(div_trunc(x as int, y as int))
}

/// Truncated remainder of two signed payloads (`i64::MIN % -1` is 0).
pub open spec fn i64_rem_wrap(x: i64, y: i64) -> i64 {
    i64_specs::signed_crop(rem_trunc(x as int, y as int))
}

/// A value's payload bits truncated to 32 bits: the cast rule that yields
/// power exponents and shift amounts.
pub open spec fn spec_to_u32(v: Val) -> u32 {
    match v {
        Val::U64(u) => u as u32,
        Val::I64(i) => i as u32,
    }
}

/// Wrapping addition under the promotion rule.
pub open spec fn spec_add(a: Val, b: Val) -> Val {
    match (a, b) {
        (Val::U64(x), Val::U64(y)) => Val::U64(u64_specs::wrapping_add(x, y)),
        (Val::U64(x), Val::I64(y)) => Val::I64(i64_specs::wrapping_add(x as i64, y)),
        (Val::I64(x), Val::U64(y)) => Val::I64(i64_specs::wrapping_add(x, y as i64)),
        (Val::I64(x), Val::I64(y)) => Val::I64(i64_specs::wrapping_add(x, y)),
    }
}

/// Wrapping subtraction under the promotion rule.
pub open spec fn spec_sub(a: Val, b: Val) -> Val {
    match (a, b) {
        (Val::U64(x), Val::U64(y)) => Val::U64(u64_specs::wrapping_sub(x, y)),
        (Val::U64(x), Val::I64(y)) => Val::I64(i64_specs::wrapping_sub(x as i64, y)),
        (Val::I64(x), Val::U64(y)) => Val::I64(i64_specs::wrapping_sub(x, y as i64)),
        (Val::I64(x), Val::I64(y)) => Val::I64(i64_specs::wrapping_sub(x, y)),
    }
}

/// Wrapping multiplication under the promotion rule.
pub open spec fn spec_mul(a: Val, b: Val) -> Val {
    match (a, b) {
        (Val::U64(x), Val::U64(y)) => Val::U64(u64_specs::wrapping_mul(x, y)),
        (Val::U64(x), Val::I64(y)) => Val::I64(i64_specs::wrapping_mul(x as i64, y)),
        (Val::I64(x), Val::U64(y)) => Val::I64(i64_specs::wrapping_mul(x, y as i64)),
        (Val::I64(x), Val::I64(y)) => Val::I64(i64_specs::wrapping_mul(x, y)),
    }
}

/// Truncated division under the promotion rule. Meaningful only when the
/// divisor `b` is not zero-valued.
pub open spec fn spec_div(a: Val, b: Val) -> Val {
    match (a, b) {
        (Val::U64(x), Val::U64(y)) => Val::U64(((x as int) / (y as int)) as u64),
        (Val::U64(x), Val::I64(y)) => Val::I64(i64_div_wrap(x as i64, y)),
        (Val::I64(x), Val::U64(y)) => Val::I64(i64_div_wrap(x, y as i64)),
        (Val::I64(x), Val::I64(y)) => Val::I64(i64_div_wrap(x, y)),
    }
}

/// Truncated remainder under the promotion rule. Meaningful only when the
/// divisor `b` is not zero-valued.
pub open spec fn spec_rem(a: Val, b: Val) -> Val {
    match (a, b) {
        (Val::U64(x), Val::U64(y)) => Val::U64(((x as int) % (y as int)) as u64),
        (Val::U64(x), Val::I64(y)) => Val::I64(i64_rem_wrap(x as i64, y)),
        (Val::I64(x), Val::U64(y)) => Val::I64(i64_rem_wrap(x, y as i64)),
        (Val::I64(x), Val::I64(y)) => Val::I64(i64_rem_wrap(x, y)),
    }
}

/// Integer power: the mathematical power of the base's payload, wrapped
/// modulo 2^64 into the base's own representation. The exponent is the other
/// operand's payload truncated to 32 bits.
pub open spec fn spec_pow(a: Val, b: Val) -> Val {
    match a {
        Val::U64(x) => Val::U64((pow(x as int, spec_to_u32(b) as nat) % 0x1_0000_0000_0000_0000)
            as u64),
        Val::I64(x) => Val::I64(i64_specs::signed_crop(pow(x as int, spec_to_u32(b) as nat))),
    }
}

/// Bitwise AND under the promotion rule.
pub open spec fn spec_band(a: Val, b: Val) -> Val {
    match (a, b) {
        (Val::U64(x), Val::U64(y)) => Val::U64(x & y),
        (Val::U64(x), Val::I64(y)) => Val::I64((x as i64) & y),
        (Val::I64(x), Val::U64(y)) => Val::I64(x & (y as i64)),
        (Val::I64(x), Val::I64(y)) => Val::I64(x & y),
    }
}

/// Bitwise OR under the promotion rule.
pub open spec fn spec_bor(a: Val, b: Val) -> Val {
    match (a, b) {
        (Val::U64(x), Val::U64(y)) => Val::U64(x | y),
        (Val::U64(x), Val::I64(y)) => Val::I64((x as i64) | y),
        (Val::I64(x), Val::U64(y)) => Val::I64(x | (y as i64)),
        (Val::I64(x), Val::I64(y)) => Val::I64(x | y),
    }
}

/// Bitwise XOR under the promotion rule.
pub open spec fn spec_bxor(a: Val, b: Val) -> Val {
    match (a, b) {
        (Val::U64(x), Val::U64(y)) => Val::U64(x ^ y),
        (Val::U64(x), Val::I64(y)) => Val::I64((x as i64) ^ y),
        (Val::I64(x), Val::U64(y)) => Val::I64(x ^ (y as i64)),
        (Val::I64(x), Val::I64(y)) => Val::I64(x ^ y),
    }
}

/// Bitwise complement: flips every payload bit, preserving the variant.
pub open spec fn spec_bnot(a: Val) -> Val {
    match a {
        Val::U64(x) => Val::U64(!x),
        Val::I64(x) => Val::I64(!x),
    }
}

/// Left shift under the promotion rule: a signed amount makes the result
/// signed, reinterpreting an unsigned base's payload. The amount is the low
/// 6 bits of the other operand's payload.
pub open spec fn spec_shl(a: Val, b: Val) -> Val {
    match (a, b) {
        (Val::U64(x), Val::U64(_)) => Val::U64(u64_specs::wrapping_shl(x, spec_to_u32(b))),
        (Val::U64(x), Val::I64(_)) => Val::I64(i64_specs::wrapping_shl(x as i64, spec_to_u32(b))),
        (Val::I64(x), Val::U64(_)) => Val::I64(i64_specs::wrapping_shl(x, spec_to_u32(b))),
        (Val::I64(x), Val::I64(_)) => Val::I64(i64_specs::wrapping_shl(x, spec_to_u32(b))),
    }
}

/// Right shift under the promotion rule: logical when the result is
/// unsigned, arithmetic (sign-extending) when it is signed, with a signed
/// amount reinterpreting an unsigned base's payload. The amount is the low
/// 6 bits of the other operand's payload.
pub open spec fn spec_shr(a: Val, b: Val) -> Val {
    match (a, b) {
        (Val::U64(x), Val::U64(_)) => Val::U64(u64_specs::wrapping_shr(x, spec_to_u32(b))),
        (Val::U64(x), Val::I64(_)) => Val::I64(i64_specs::wrapping_shr(x as i64, spec_to_u32(b))),
        (Val::I64(x), Val::U64(_)) => Val::I64(i64_specs::wrapping_shr(x, spec_to_u32(b))),
        (Val::I64(x), Val::I64(_)) => Val::I64(i64_specs::wrapping_shr(x, spec_to_u32(b))),
    }
}

/// Reinterpretation of the payload bits as unsigned.
pub open spec fn spec_cast_unsigned(v: Val) -> Val {
    match v {
        Val::U64(u) => Val::U64(u),
        Val::I64(i) => Val::U64(i as u64),
    }
}

/// Reinterpretation of the payload bits as signed.
pub open spec fn spec_cast_signed(v: Val) -> Val {
    match v {
        Val::U64(u) => Val::I64(u as i64),
        Val::I64(i) => Val::I64(i),
    }
}

/// A value in the `i64` range is unchanged by `signed_crop`.
proof fn lemma_signed_crop_id(v: int)
    requires
        i64::MIN <= v <= i64::MAX,
    ensures
        i64_specs::signed_crop(v) == v as i64,
{
    let w = 0x1_0000_0000_0000_0000int;
    if v >= 0 {
        vstd::arithmetic::div_mod::lemma_small_mod(v as nat, w as nat);
    } else {
        vstd::arithmetic::div_mod::lemma_mod_multiples_vanish(1, v, w);
        vstd::arithmetic::div_mod::lemma_small_mod((v + w) as nat, w as nat);
    }
}

/// `signed_crop` respects congruence modulo 2^64.
proof fn lemma_signed_crop_congruent(v: int)
    ensures
        (i64_specs::signed_crop(v) as int) % 0x1_0000_0000_0000_0000
            == v % 0x1_0000_0000_0000_0000,
{
    let w = 0x1_0000_0000_0000_0000int;
    vstd::arithmetic::div_mod::lemma_mod_bound(v, w);
    vstd::arithmetic::div_mod::lemma_mod_twice(v, w);
    if v % w > i64::MAX {
        vstd::arithmetic::div_mod::lemma_mod_multiples_vanish(1, v % w - w, w);
        vstd::arithmetic::div_mod::lemma_mod_twice(v, w);
    }
}

/// An `i64` congruent to `v` modulo 2^64 equals `signed_crop(v)`.
proof fn lemma_signed_crop_unique(a: i64, v: int)
    requires
        (a as int) % 0x1_0000_0000_0000_0000 == v % 0x1_0000_0000_0000_0000,
    ensures
        a == i64_specs::signed_crop(v),
{
    let w = 0x1_0000_0000_0000_0000int;
    lemma_signed_crop_id(a as int);
    lemma_signed_crop_congruent(a as int);
    lemma_signed_crop_congruent(v);
    vstd::arithmetic::div_mod::lemma_mod_bound(v, w);
    // Both signed_crop(a as int) and signed_crop(v) lie in the i64 range and
    // have the same residue, so they differ by a multiple of 2^64 that must
    // be zero.
    let ca = i64_specs::signed_crop(a as int) as int;
    let cv = i64_specs::signed_crop(v) as int;
    if ca >= 0 {
        vstd::arithmetic::div_mod::lemma_small_mod(ca as nat, w as nat);
    } else {
        vstd::arithmetic::div_mod::lemma_mod_multiples_vanish(1, ca, w);
        vstd::arithmetic::div_mod::lemma_small_mod((ca + w) as nat, w as nat);
    }
    if cv >= 0 {
        vstd::arithmetic::div_mod::lemma_small_mod(cv as nat, w as nat);
    } else {
        vstd::arithmetic::div_mod::lemma_mod_multiples_vanish(1, cv, w);
        vstd::arithmetic::div_mod::lemma_small_mod((cv + w) as nat, w as nat);
    }
}

/// Truncated division by a nonzero divisor stays within `[i64::MIN, i64::MAX]`
/// except for the single case `i64::MIN / -1`, whose quotient is 2^63.
proof fn lemma_div_trunc_bounds(x: i64, y: i64)
    requires
        y != 0,
    ensures
        x == i64::MIN && y == -1 ==> div_trunc(x as int, y as int) == 0x8000_0000_0000_0000int,
        !(x == i64::MIN && y == -1) ==> i64::MIN <= div_trunc(x as int, y as int) <= i64::MAX,
{
    let xi = x as int;
    let yi = y as int;
    if xi >= 0 && yi > 0 {
        vstd::arithmetic::div_mod::lemma_div_pos_is_pos(xi, yi);
        vstd::arithmetic::div_mod::lemma_div_nonincreasing(xi, yi);
    } else if xi < 0 && yi < 0 {
        vstd::arithmetic::div_mod::lemma_div_pos_is_pos(-xi, -yi);
        vstd::arithmetic::div_mod::lemma_div_nonincreasing(-xi, -yi);
        if -yi >= 2 {
            vstd::arithmetic::div_mod::lemma_div_is_ordered_by_denominator(-xi, 2, -yi);
            vstd::arithmetic::div_mod::lemma_div_decreases(-xi, 2);
        }
    } else if xi < 0 {
        vstd::arithmetic::div_mod::lemma_div_pos_is_pos(-xi, yi);
        vstd::arithmetic::div_mod::lemma_div_nonincreasing(-xi, yi);
    } else {
        vstd::arithmetic::div_mod::lemma_div_pos_is_pos(xi, -yi);
        vstd::arithmetic::div_mod::lemma_div_nonincreasing(xi, -yi);
    }
}

/// Truncated division of two `i64` payloads with the wrapping policy:
/// `i64::MIN / -1` wraps back to `i64::MIN`.
fn div_i64(x: i64, y: i64) -> (r: i64)
    requires
        y != 0,
    ensures
        r == i64_div_wrap(x, y),
{
    proof {
        lemma_div_trunc_bounds(x, y);
        if x == i64::MIN && y == -1 {
            lemma_signed_crop_unique(i64::MIN, 0x8000_0000_0000_0000int);
        } else {
            lemma_signed_crop_id(div_trunc(x as int, y as int));
        }
    }
    match x.checked_div(y) {
        Some(q) => q,
        None => i64::MIN,
    }
}

/// The truncated remainder of `i64` payloads always fits in `i64`.
proof fn lemma_rem_trunc_bounds(x: i64, y: i64)
    requires
        y != 0,
    ensures
        x == i64::MIN && y == -1 ==> rem_trunc(x as int, y as int) == 0,
        i64::MIN <= rem_trunc(x as int, y as int) <= i64::MAX,
{
    let xi = x as int;
    let yi = y as int;
    if xi >= 0 && yi > 0 {
        vstd::arithmetic::div_mod::lemma_mod_bound(xi, yi);
    } else if xi < 0 && yi < 0 {
        vstd::arithmetic::div_mod::lemma_mod_bound(-xi, -yi);
    } else if xi < 0 {
        vstd::arithmetic::div_mod::lemma_mod_bound(-xi, yi);
    } else {
        vstd::arithmetic::div_mod::lemma_mod_bound(xi, -yi);
    }
}

/// Truncated remainder of two `i64` payloads (`i64::MIN % -1` is 0).
fn rem_i64(x: i64, y: i64) -> (r: i64)
    requires
        y != 0,
    ensures
        r == i64_rem_wrap(x, y),
{
    proof {
        lemma_rem_trunc_bounds(x, y);
        lemma_signed_crop_id(rem_trunc(x as int, y as int));
    }
    match x.checked_rem(y) {
        Some(q) => q,
        None => 0,
    }
}

impl Val {
    /// Zero test: the payload equals 0 in its own variant.
    pub fn is_zero(&self) -> (r: bool)
        ensures
            r == spec_is_zero(*self),
    {
        match self {
            Val::U64(u) => *u == 0u64,
            Val::I64(i) => *i == 0i64,
        }
    }

    /// Wrapping addition under the promotion rule.
    pub fn add(self, rhs: Val) -> (r: Val)
        ensures
            r == spec_add(self, rhs),
    {
        match (self, rhs) {
            (Val::U64(x), Val::U64(y)) => Val::U64(x.wrapping_add(y)),
            (Val::U64(x), Val::I64(y)) => Val::I64(
                (#[verifier::truncate] (x as i64)).wrapping_add(y),
            ),
            (Val::I64(x), Val::U64(y)) => Val::I64(
                x.wrapping_add(#[verifier::truncate] (y as i64)),
            ),
            (Val::I64(x), Val::I64(y)) => Val::I64(x.wrapping_add(y)),
        }
    }

    /// Wrapping subtraction under the promotion rule.
    pub fn sub(self, rhs: Val) -> (r: Val)
        ensures
            r == spec_sub(self, rhs),
    {
        match (self, rhs) {
            (Val::U64(x), Val::U64(y)) => Val::U64(x.wrapping_sub(y)),
            (Val::U64(x), Val::I64(y)) => Val::I64(
                (#[verifier::truncate] (x as i64)).wrapping_sub(y),
            ),
            (Val::I64(x), Val::U64(y)) => Val::I64(
                x.wrapping_sub(#[verifier::truncate] (y as i64)),
            ),
            (Val::I64(x), Val::I64(y)) => Val::I64(x.wrapping_sub(y)),
        }
    }

    /// Wrapping multiplication under the promotion rule.
    pub fn mul(self, rhs: Val) -> (r: Val)
        ensures
            r == spec_mul(self, rhs),
    {
        match (self, rhs) {
            (Val::U64(x), Val::U64(y)) => Val::U64(x.wrapping_mul(y)),
            (Val::U64(x), Val::I64(y)) => Val::I64(
                (#[verifier::truncate] (x as i64)).wrapping_mul(y),
            ),
            (Val::I64(x), Val::U64(y)) => Val::I64(
                x.wrapping_mul(#[verifier::truncate] (y as i64)),
            ),
            (Val::I64(x), Val::I64(y)) => Val::I64(x.wrapping_mul(y)),
        }
    }

    /// Truncated division under the promotion rule. The divisor must not be
    /// zero-valued; `i64::MIN / -1` wraps to `i64::MIN`.
    pub fn div(self, rhs: Val) -> (r: Val)
        requires
            !spec_is_zero(rhs),
        ensures
            r == spec_div(self, rhs),
    {
        match (self, rhs) {
            (Val::U64(x), Val::U64(y)) => Val::U64(x / y),
            (Val::U64(x), Val::I64(y)) => Val::I64(div_i64(#[verifier::truncate] (x as i64), y)),
            (Val::I64(x), Val::U64(y)) => {
                proof {
                    assert(y != 0 ==> y as i64 != 0) by (bit_vector);
                }
                Val::I64(div_i64(x, #[verifier::truncate] (y as i64)))
            },
            (Val::I64(x), Val::I64(y)) => Val::I64(div_i64(x, y)),
        }
    }

    /// Truncated remainder under the promotion rule. The divisor must not be
    /// zero-valued; `i64::MIN % -1` is 0.
    pub fn rem(self, rhs: Val) -> (r: Val)
        requires
            !spec_is_zero(rhs),
        ensures
            r == spec_rem(self, rhs),
    {
        match (self, rhs) {
            (Val::U64(x), Val::U64(y)) => Val::U64(x % y),
            (Val::U64(x), Val::I64(y)) => Val::I64(rem_i64(#[verifier::truncate] (x as i64), y)),
            (Val::I64(x), Val::U64(y)) => {
                proof {
                    assert(y != 0 ==> y as i64 != 0) by (bit_vector);
                }
                Val::I64(rem_i64(x, #[verifier::truncate] (y as i64)))
            },
            (Val::I64(x), Val::I64(y)) => Val::I64(rem_i64(x, y)),
        }
    }

    /// Bitwise AND under the promotion rule.
    pub fn band(self, rhs: Val) -> (r: Val)
        ensures
            r == spec_band(self, rhs),
    {
        match (self, rhs) {
            (Val::U64(x), Val::U64(y)) => Val::U64(x & y),
            (Val::U64(x), Val::I64(y)) => Val::I64((#[verifier::truncate] (x as i64)) & y),
            (Val::I64(x), Val::U64(y)) => Val::I64(x & (#[verifier::truncate] (y as i64))),
            (Val::I64(x), Val::I64(y)) => Val::I64(x & y),
        }
    }

    /// Bitwise OR under the promotion rule.
    pub fn bor(self, rhs: Val) -> (r: Val)
        ensures
            r == spec_bor(self, rhs),
    {
        match (self, rhs) {
            (Val::U64(x), Val::U64(y)) => Val::U64(x | y),
            (Val::U64(x), Val::I64(y)) => Val::I64((#[verifier::truncate] (x as i64)) | y),
            (Val::I64(x), Val::U64(y)) => Val::I64(x | (#[verifier::truncate] (y as i64))),
            (Val::I64(x), Val::I64(y)) => Val::I64(x | y),
        }
    }

    /// Bitwise XOR under the promotion rule.
    pub fn bxor(self, rhs: Val) -> (r: Val)
        ensures
            r == spec_bxor(self, rhs),
    {
        match (self, rhs) {
            (Val::U64(x), Val::U64(y)) => Val::U64(x ^ y),
            (Val::U64(x), Val::I64(y)) => Val::I64((#[verifier::truncate] (x as i64)) ^ y),
            (Val::I64(x), Val::U64(y)) => Val::I64(x ^ (#[verifier::truncate] (y as i64))),
            (Val::I64(x), Val::I64(y)) => Val::I64(x ^ y),
        }
    }

    /// Bitwise complement, preserving the variant.
    pub fn bnot(self) -> (r: Val)
        ensures
            r == spec_bnot(self),
    {
        match self {
            Val::U64(x) => Val::U64(!x),
            Val::I64(x) => Val::I64(!x),
        }
    }

    /// Wrapping left shift under the promotion rule: the amount is the
    /// other operand's payload, of which only the low 6 bits count.
    pub fn shl(self, rhs: Val) -> (r: Val)
        ensures
            r == spec_shl(self, rhs),
    {
        let amount: u32 = rhs.to_u32();
        match (self, rhs) {
            (Val::U64(x), Val::U64(_)) => Val::U64(x.wrapping_shl(amount)),
            (Val::U64(x), Val::I64(_)) => Val::I64(
                (#[verifier::truncate] (x as i64)).wrapping_shl(amount),
            ),
            (Val::I64(x), _) => Val::I64(x.wrapping_shl(amount)),
        }
    }

    /// Wrapping right shift under the promotion rule, logical for an
    /// unsigned result and arithmetic for a signed one: the amount is the
    /// other operand's payload, low 6 bits only.
    pub fn shr(self, rhs: Val) -> (r: Val)
        ensures
            r == spec_shr(self, rhs),
    {
        let amount: u32 = rhs.to_u32();
        match (self, rhs) {
            (Val::U64(x), Val::U64(_)) => Val::U64(x.wrapping_shr(amount)),
            (Val::U64(x), Val::I64(_)) => Val::I64(
                (#[verifier::truncate] (x as i64)).wrapping_shr(amount),
            ),
            (Val::I64(x), _) => Val::I64(x.wrapping_shr(amount)),
        }
    }

    /// Reinterprets the payload bits as unsigned.
    pub fn cast_unsigned(self) -> (r: Val)
        ensures
            r == spec_cast_unsigned(self),
    {
        match self {
            Val::U64(u) => Val::U64(u),
            Val::I64(i) => Val::U64(#[verifier::truncate] (i as u64)),
        }
    }

    /// Reinterprets the payload bits as signed.
    pub fn cast_signed(self) -> (r: Val)
        ensures
            r == spec_cast_signed(self),
    {
        match self {
            Val::U64(u) => Val::I64(#[verifier::truncate] (u as i64)),
            Val::I64(i) => Val::I64(i),
        }
    }

    /// The payload bits truncated to 32 bits, the cast rule for exponents
    /// and radix selectors.
    pub fn to_u32(self) -> (r: u32)
        ensures
            r == spec_to_u32(self),
    {
        match self {
            Val::U64(u) => #[verifier::truncate] (u as u32),
            Val::I64(i) => #[verifier::truncate] (i as u32),
        }
    }

    /// Integer power with the wrapping policy: the result is the
    /// mathematical power reduced modulo 2^64 into the base's variant.
    pub fn pow(self, rhs: Val) -> (r: Val)
        ensures
            r == spec_pow(self, rhs),
    {
        let e: u32 = rhs.to_u32();
        match self {
            Val::U64(x) => Val::U64(pow_u64(x, e)),
            Val::I64(x) => Val::I64(pow_i64(x, e)),
        }
    }
}

/// `pow` of a squared base halves the exponent.
proof fn lemma_pow_square(b: int, k: nat)
    ensures
        pow(b * b, k) == pow(b, 2 * k),
{
    vstd::arithmetic::power::lemma_pow_multiplies(b, 2, k);
    vstd::arithmetic::power::lemma_pow1(b);
    vstd::arithmetic::power::lemma_pow_adds(b, 1, 1);
}

/// Multiplication respects congruence modulo `w`.
proof fn lemma_mul_congruent(a0: int, a1: int, c0: int, c1: int, w: int)
    requires
        w > 0,
        a1 % w == a0 % w,
        c1 % w == c0 % w,
    ensures
        (a1 * c1) % w == (a0 * c0) % w,
{
    vstd::arithmetic::div_mod::lemma_mul_mod_noop_general(a1, c1, w);
    vstd::arithmetic::div_mod::lemma_mul_mod_noop_general(a0, c0, w);
}

/// `pow` respects congruence of its base modulo `w`.
proof fn lemma_pow_congruent(b0: int, b1: int, k: nat, w: int)
    requires
        w > 0,
        b1 % w == b0 % w,
    ensures
        pow(b1, k) % w == pow(b0, k) % w,
{
    vstd::arithmetic::power::lemma_pow_mod_noop(b1, k, w);
    vstd::arithmetic::power::lemma_pow_mod_noop(b0, k, w);
}

/// One square-and-multiply step preserves the running congruence
/// `result * pow(b, exp) = p (mod w)`: with `k = exp / 2`, squaring the
/// base (modulo `w`) and, when `exp` is odd, folding one base factor into
/// the accumulator (modulo `w`) leaves the product congruent to `p`.
proof fn lemma_pow_step(r0: int, r1: int, b0: int, b1: int, exp: nat, p: int, w: int)
    requires
        w > 0,
        exp > 0,
        b1 % w == (b0 * b0) % w,
        exp % 2 == 1 ==> r1 % w == (r0 * b0) % w,
        exp % 2 == 0 ==> r1 == r0,
        (r0 * pow(b0, exp)) % w == p % w,
    ensures
        (r1 * pow(b1, (exp / 2) as nat)) % w == p % w,
{
    let k = (exp / 2) as nat;
    lemma_pow_square(b0, k);
    lemma_pow_congruent(b0 * b0, b1, k, w);
    vstd::arithmetic::div_mod::lemma_fundamental_div_mod(exp as int, 2);
    if exp % 2 == 1 {
        // exp == 2k + 1, so pow(b0, exp) == b0 * pow(b0, 2k).
        vstd::arithmetic::power::lemma_pow1(b0);
        vstd::arithmetic::power::lemma_pow_adds(b0, 1, 2 * k);
        lemma_mul_congruent(r0 * b0, r1, pow(b0, 2 * k), pow(b1, k), w);
        vstd::arithmetic::mul::lemma_mul_is_associative(r0, b0, pow(b0, 2 * k));
    } else {
        lemma_mul_congruent(r0, r1, pow(b0, 2 * k), pow(b1, k), w);
    }
}

/// Square-and-multiply power of a `u64` base, reduced modulo 2^64.
fn pow_u64(base: u64, e: u32) -> (r: u64)
    ensures
        r as int == pow(base as int, e as nat) % 0x1_0000_0000_0000_0000,
{
    let mut result: u64 = 1;
    let mut b: u64 = base;
    let mut exp: u32 = e;
    while exp > 0
        invariant
            ((result as int) * pow(b as int, exp as nat)) % 0x1_0000_0000_0000_0000 == pow(
                base as int,
                e as nat,
            ) % 0x1_0000_0000_0000_0000,
        decreases exp,
    {
        let ghost w: int = 0x1_0000_0000_0000_0000;
        let ghost r0: int = result as int;
        let ghost b0: int = b as int;
        proof {
            assert(exp & 1 == exp % 2) by (bit_vector);
        }
        if exp & 1 == 1 {
            result = result.wrapping_mul(b);
            proof {
                vstd::arithmetic::div_mod::lemma_mod_bound(r0 * b0, w);
                vstd::arithmetic::div_mod::lemma_mod_twice(r0 * b0, w);
            }
        }
        b = b.wrapping_mul(b);
        proof {
            vstd::arithmetic::div_mod::lemma_mod_bound(b0 * b0, w);
            vstd::arithmetic::div_mod::lemma_mod_twice(b0 * b0, w);
            vstd::arithmetic::div_mod::lemma_small_mod(result as nat, w as nat);
            lemma_pow_step(
                r0,
                result as int,
                b0,
                b as int,
                exp as nat,
                pow(base as int, e as nat),
                w,
            );
        }
        exp = exp / 2;
    }
    proof {
        vstd::arithmetic::power::lemma_pow0(b as int);
        vstd::arithmetic::div_mod::lemma_small_mod(result as nat, 0x1_0000_0000_0000_0000nat);
    }
    result
}

/// Square-and-multiply power of an `i64` base, wrapped into `i64` range.
fn pow_i64(base: i64, e: u32) -> (r: i64)
    ensures
        r == i64_specs::signed_crop(pow(base as int, e as nat)),
{
    let mut result: i64 = 1;
    let mut b: i64 = base;
    let mut exp: u32 = e;
    while exp > 0
        invariant
            ((result as int) * pow(b as int, exp as nat)) % 0x1_0000_0000_0000_0000 == pow(
                base as int,
                e as nat,
            ) % 0x1_0000_0000_0000_0000,
        decreases exp,
    {
        let ghost w: int = 0x1_0000_0000_0000_0000;
        let ghost r0: int = result as int;
        let ghost b0: int = b as int;
        proof {
            assert(exp & 1 == exp % 2) by (bit_vector);
        }
        if exp & 1 == 1 {
            result = result.wrapping_mul(b);
            proof {
                lemma_signed_crop_congruent(r0 * b0);
            }
        }
        b = b.wrapping_mul(b);
        proof {
            lemma_signed_crop_congruent(b0 * b0);
            lemma_pow_step(
                r0,
                result as int,
                b0,
                b as int,
                exp as nat,
                pow(base as int, e as nat),
                w,
            );
        }
        exp = exp / 2;
    }
    proof {
        vstd::arithmetic::power::lemma_pow0(b as int);
        lemma_signed_crop_unique(result, pow(base as int, e as nat));
    }
    result
}

} // verus!
