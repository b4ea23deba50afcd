//! The token parser: a pure map from one whitespace-delimited token to an
//! operation, or to a literal value pushed onto the stack.
//!
//! The operation table matches exact single-character tokens. Anything else
//! is tried as a literal: `0b`/`-0b` select a base-2 magnitude, `0x`/`-0x` a
//! base-16 magnitude (unsigned unless negated; negation yields a signed
//! value of the negated magnitude), and otherwise an unsigned base-10 parse
//! is attempted before a signed one. A token matching none of these fails
//! with `InvalidInput`, carrying the token verbatim.

use crate::error::Error;
use crate::op::CalcOp;
use crate::op::CastOp;
use crate::op::Op;
use crate::op::PrintOp;
use crate::op::RegOp;
use crate::op::StackOp;
use crate::val::Val;
use vstd::prelude::*;

verus! {

/// The numeric value of a digit character under bases up to 16, accepting
/// both letter cases; -1 for any other character.
pub open spec fn digit_val(c: char) -> int {
    let n = c as int;
    if 48 <= n <= 57 {
        n - 48
    } else if 97 <= n <= 102 {
        n - 87
    } else if 65 <= n <= 70 {
        n - 55
    } else {
        -1
    }
}

/// True when `c` is a digit of the given radix.
pub open spec fn is_digit_in(c: char, radix: int) -> bool {
    0 <= digit_val(c) < radix
}

/// True when every character of `s` is a digit of the given radix.
pub open spec fn all_digits(s: Seq<char>, radix: int) -> bool {
    forall|i: int| 0 <= i < s.len() ==> is_digit_in(s[i], radix)
}

/// The numeric value of a digit string, most significant digit first.
pub open spec fn digits_val(s: Seq<char>, radix: int) -> int
    decreases s.len(),
{
    if s.len() == 0 {
        0
    } else {
        digits_val(s.drop_last(), radix) * radix + digit_val(s.last())
    }
}

/// An all-digit string has a non-negative value.
proof fn lemma_digits_val_nonneg(s: Seq<char>, radix: int)
    requires
        radix >= 2,
        all_digits(s, radix),
    ensures
        digits_val(s, radix) >= 0,
    decreases s.len(),
{
    if s.len() > 0 {
        assert(all_digits(s.drop_last(), radix));
        lemma_digits_val_nonneg(s.drop_last(), radix);
        vstd::arithmetic::mul::lemma_mul_nonnegative(digits_val(s.drop_last(), radix), radix);
    }
}

/// A digit string's value dominates each of its prefixes' values.
proof fn lemma_digits_val_prefix_le(s: Seq<char>, i: int, radix: int)
    requires
        radix >= 2,
        all_digits(s, radix),
        0 <= i <= s.len(),
    ensures
        digits_val(s.take(i), radix) <= digits_val(s, radix),
    decreases s.len(),
{
    if i < s.len() {
        let t = s.drop_last();
        let v = digits_val(t, radix);
        assert(all_digits(t, radix));
        assert(s.take(i) =~= t.take(i));
        lemma_digits_val_prefix_le(t, i, radix);
        lemma_digits_val_nonneg(t, radix);
        assert(is_digit_in(s[s.len() - 1], radix));
        assert(digit_val(s.last()) >= 0);
        vstd::arithmetic::mul::lemma_mul_inequality(1, radix, v);
        vstd::arithmetic::mul::lemma_mul_is_commutative(radix, v);
        assert(digits_val(s, radix) == v * radix + digit_val(s.last()));
    } else {
        assert(s.take(i) =~= s);
    }
}

/// The digit value of a character, when it is a digit of the radix.
fn digit_of_char(c: char, radix: u64) -> (r: Option<u64>)
    requires
        2 <= radix <= 16,
    ensures
        match r {
            Some(d) => is_digit_in(c, radix as int) && d == digit_val(c),
            None => !is_digit_in(c, radix as int),
        },
{
    let n: u32 = c as u32;
    let d: u64 = if n >= 48 && n <= 57 {
        (n - 48) as u64
    } else if n >= 97 && n <= 102 {
        (n - 87) as u64
    } else if n >= 65 && n <= 70 {
        (n - 55) as u64
    } else {
        return None;
    };
    if d < radix {
        Some(d)
    } else {
        None
    }
}

/// Parses `s` from position `from` as a nonempty digit string of the radix,
/// yielding its value when that value fits in a `u64`.
fn parse_digits(s: &str, from: usize, radix: u64) -> (r: Option<u64>)
    requires
        2 <= radix <= 16,
        from as int <= s@.len(),
    ensures
        match r {
            Some(v) => {
                let d = s@.skip(from as int);
                &&& d.len() > 0
                &&& all_digits(d, radix as int)
                &&& digits_val(d, radix as int) == v
            },
            None => {
                let d = s@.skip(from as int);
                !(d.len() > 0 && all_digits(d, radix as int) && digits_val(d, radix as int)
                    <= u64::MAX)
            },
        },
{
    let n: usize = s.unicode_len();
    if from >= n {
        return None;
    }
    let mut acc: u64 = 0;
    let mut i: usize = from;
    while i < n
        invariant
            from <= i <= n,
            n == s@.len(),
            2 <= radix <= 16,
            all_digits(s@.subrange(from as int, i as int), radix as int),
            acc as int == digits_val(s@.subrange(from as int, i as int), radix as int),
        decreases n - i,
    {
        let c = s.get_char(i);
        let ghost pre = s@.subrange(from as int, i as int);
        let ghost cur = s@.subrange(from as int, i + 1);
        proof {
            assert(cur.drop_last() =~= pre);
            assert(cur.last() == s@[i as int]);
        }
        match digit_of_char(c, radix) {
            None => {
                proof {
                    assert(s@.skip(from as int)[i - from] == s@[i as int]);
                }
                return None;
            },
            Some(d) => {
                let stepped: Option<u64> = match acc.checked_mul(radix) {
                    Some(m) => m.checked_add(d),
                    None => None,
                };
                match stepped {
                    Some(a) => {
                        acc = a;
                    },
                    None => {
                        // The value of the digits seen so far already
                        // exceeds u64::MAX, and a longer digit string can
                        // only be larger.
                        proof {
                            let whole = s@.skip(from as int);
                            assert(digits_val(cur, radix as int) > u64::MAX);
                            if whole.len() > 0 && all_digits(whole, radix as int) {
                                assert(whole.take(i + 1 - from) =~= cur);
                                lemma_digits_val_prefix_le(whole, i + 1 - from, radix as int);
                            }
                        }
                        return None;
                    },
                }
            },
        }
        i = i + 1;
    }
    proof {
        assert(s@.subrange(from as int, n as int) =~= s@.skip(from as int));
    }
    Some(acc)
}

/// The literal a nonempty unsigned digit string denotes.
pub open spec fn spec_unsigned_lit(d: Seq<char>, radix: int) -> Option<Val> {
    if d.len() > 0 && all_digits(d, radix) && digits_val(d, radix) <= u64::MAX {
        Some(Val::U64(digits_val(d, radix) as u64))
    } else {
        None
    }
}

/// The literal a negated radix-prefixed magnitude denotes: the magnitude
/// must fit in the positive signed range.
pub open spec fn spec_negated_lit(d: Seq<char>, radix: int) -> Option<Val> {
    if d.len() > 0 && all_digits(d, radix) && digits_val(d, radix) <= i64::MAX {
        Some(Val::I64((-digits_val(d, radix)) as i64))
    } else {
        None
    }
}

/// The literal a base-10 token denotes: unsigned first, then signed, which
/// admits a leading `-` (and reaches down to `i64::MIN`); a leading `+` is
/// accepted on the unsigned form.
pub open spec fn spec_dec_lit(s: Seq<char>) -> Option<Val> {
    if s.len() == 0 {
        None
    } else if s[0] == '-' {
        let d = s.skip(1);
        if d.len() > 0 && all_digits(d, 10) && digits_val(d, 10) <= 0x8000_0000_0000_0000 {
            Some(Val::I64((-digits_val(d, 10)) as i64))
        } else {
            None
        }
    } else {
        let d = if s[0] == '+' {
            s.skip(1)
        } else {
            s
        };
        spec_unsigned_lit(d, 10)
    }
}

/// The value a token denotes under the literal grammar, if any.
pub open spec fn spec_literal(s: Seq<char>) -> Option<Val> {
    if s.len() >= 2 && s[0] == '0' && s[1] == 'b' {
        spec_unsigned_lit(s.skip(2), 2)
    } else if s.len() >= 3 && s[0] == '-' && s[1] == '0' && s[2] == 'b' {
        spec_negated_lit(s.skip(3), 2)
    } else if s.len() >= 2 && s[0] == '0' && s[1] == 'x' {
        spec_unsigned_lit(s.skip(2), 16)
    } else if s.len() >= 3 && s[0] == '-' && s[1] == '0' && s[2] == 'x' {
        spec_negated_lit(s.skip(3), 16)
    } else {
        spec_dec_lit(s)
    }
}

/// The operation a single-character token denotes, if any.
pub open spec fn spec_parse_op(s: Seq<char>) -> Option<Op> {
    if s.len() != 1 {
        None
    } else {
        let c = s[0];
        if c == '+' {
            Some(Op::Calc(CalcOp::Add))
        } else if c == '-' {
            Some(Op::Calc(CalcOp::Sub))
        } else if c == '*' {
            Some(Op::Calc(CalcOp::Mul))
        } else if c == '/' {
            Some(Op::Calc(CalcOp::Div))
        } else if c == '%' {
            Some(Op::Calc(CalcOp::Mod))
        } else if c == '^' {
            Some(Op::Calc(CalcOp::Pow))
        } else if c == '&' {
            Some(Op::Calc(CalcOp::And))
        } else if c == '|' {
            Some(Op::Calc(CalcOp::Or))
        } else if c == '!' {
            Some(Op::Calc(CalcOp::Not))
        } else if c == 'x' {
            Some(Op::Calc(CalcOp::Xor))
        } else if c == '<' {
            Some(Op::Calc(CalcOp::Shl))
        } else if c == '>' {
            Some(Op::Calc(CalcOp::Shr))
        } else if c == 'p' {
            Some(Op::Print(PrintOp::Print))
        } else if c == 'f' {
            Some(Op::Print(PrintOp::Dump))
        } else if c == 'o' {
            Some(Op::Print(PrintOp::Output))
        } else if c == 'n' {
            Some(Op::Stack(StackOp::Pop))
        } else if c == 'd' {
            Some(Op::Stack(StackOp::Dup))
        } else if c == 'c' {
            Some(Op::Stack(StackOp::Clear))
        } else if c == 'r' {
            Some(Op::Stack(StackOp::Rev))
        } else if c == 's' {
            Some(Op::Reg(RegOp::Push))
        } else if c == 'l' {
            Some(Op::Reg(RegOp::Get))
        } else if c == 'L' {
            Some(Op::Reg(RegOp::Pop))
        } else if c == 'F' {
            Some(Op::Reg(RegOp::Dump))
        } else if c == 'u' {
            Some(Op::Cast(CastOp::U))
        } else if c == 'i' {
            Some(Op::Cast(CastOp::I))
        } else if c == 'q' {
            Some(Op::Quit)
        } else {
            None
        }
    }
}

/// What a whole token parses to: an operation from the table, or a pushed
/// literal, or nothing.
pub open spec fn spec_parse_token(s: Seq<char>) -> Option<Op> {
    match spec_parse_op(s) {
        Some(op) => Some(op),
        None => match spec_literal(s) {
            Some(v) => Some(Op::Stack(StackOp::Push(v))),
            None => None,
        },
    }
}

impl Val {
    /// Parses a token as a literal value under the literal grammar; a token
    /// that fails it is reported verbatim as `InvalidInput`.
    pub fn parse(s: &str) -> (r: Result<Val, Error>)
        ensures
            match spec_literal(s@) {
                Some(v) => r == Ok::<Val, Error>(v),
                None => r matches Err(Error::InvalidInput(t)) && t@ == s@,
            },
    {
        let n: usize = s.unicode_len();
        if n >= 2 && s.get_char(0) == '0' && s.get_char(1) == 'b' {
            match parse_digits(s, 2, 2) {
                Some(v) => Ok(Val::U64(v)),
                None => Err(Error::InvalidInput(s.to_owned())),
            }
        } else if n >= 3 && s.get_char(0) == '-' && s.get_char(1) == '0' && s.get_char(2) == 'b' {
            match parse_digits(s, 3, 2) {
                Some(v) if v <= 0x7fff_ffff_ffff_ffffu64 => Ok(Val::I64(-(v as i64))),
                _ => Err(Error::InvalidInput(s.to_owned())),
            }
        } else if n >= 2 && s.get_char(0) == '0' && s.get_char(1) == 'x' {
            match parse_digits(s, 2, 16) {
                Some(v) => Ok(Val::U64(v)),
                None => Err(Error::InvalidInput(s.to_owned())),
            }
        } else if n >= 3 && s.get_char(0) == '-' && s.get_char(1) == '0' && s.get_char(2) == 'x' {
            match parse_digits(s, 3, 16) {
                Some(v) if v <= 0x7fff_ffff_ffff_ffffu64 => Ok(Val::I64(-(v as i64))),
                _ => Err(Error::InvalidInput(s.to_owned())),
            }
        } else if n >= 1 && s.get_char(0) == '-' {
            match parse_digits(s, 1, 10) {
                Some(v) if v < 0x8000_0000_0000_0000u64 => Ok(Val::I64(-(v as i64))),
                Some(v) if v == 0x8000_0000_0000_0000u64 => Ok(Val::I64(i64::MIN)),
                _ => Err(Error::InvalidInput(s.to_owned())),
            }
        } else if n >= 1 && s.get_char(0) == '+' {
            match parse_digits(s, 1, 10) {
                Some(v) => Ok(Val::U64(v)),
                None => Err(Error::InvalidInput(s.to_owned())),
            }
        } else {
            proof {
                assert(s@.skip(0) =~= s@);
            }
            match parse_digits(s, 0, 10) {
                Some(v) => Ok(Val::U64(v)),
                None => Err(Error::InvalidInput(s.to_owned())),
            }
        }
    }
}

impl Op {
    /// Parses one token: an exact operation token from the table, or else a
    /// literal to push; anything else fails with `InvalidInput` carrying the
    /// token verbatim.
    pub fn parse(s: &str) -> (r: Result<Op, Error>)
        ensures
            match spec_parse_token(s@) {
                Some(op) => r == Ok::<Op, Error>(op),
                None => r matches Err(Error::InvalidInput(t)) && t@ == s@,
            },
    {
        let n: usize = s.unicode_len();
        if n == 1 {
            let c = s.get_char(0);
            match c {
                '+' => return Ok(Op::Calc(CalcOp::Add)),
                '-' => return Ok(Op::Calc(CalcOp::Sub)),
                '*' => return Ok(Op::Calc(CalcOp::Mul)),
                '/' => return Ok(Op::Calc(CalcOp::Div)),
                '%' => return Ok(Op::Calc(CalcOp::Mod)),
                '^' => return Ok(Op::Calc(CalcOp::Pow)),
                '&' => return Ok(Op::Calc(CalcOp::And)),
                '|' => return Ok(Op::Calc(CalcOp::Or)),
                '!' => return Ok(Op::Calc(CalcOp::Not)),
                'x' => return Ok(Op::Calc(CalcOp::Xor)),
                '<' => return Ok(Op::Calc(CalcOp::Shl)),
                '>' => return Ok(Op::Calc(CalcOp::Shr)),
                'p' => return Ok(Op::Print(PrintOp::Print)),
                'f' => return Ok(Op::Print(PrintOp::Dump)),
                'o' => return Ok(Op::Print(PrintOp::Output)),
                'n' => return Ok(Op::Stack(StackOp::Pop)),
                'd' => return Ok(Op::Stack(StackOp::Dup)),
                'c' => return Ok(Op::Stack(StackOp::Clear)),
                'r' => return Ok(Op::Stack(StackOp::Rev)),
                's' => return Ok(Op::Reg(RegOp::Push)),
                'l' => return Ok(Op::Reg(RegOp::Get)),
                'L' => return Ok(Op::Reg(RegOp::Pop)),
                'F' => return Ok(Op::Reg(RegOp::Dump)),
                'u' => return Ok(Op::Cast(CastOp::U)),
                'i' => return Ok(Op::Cast(CastOp::I)),
                'q' => return Ok(Op::Quit),
                _ => {
                },
            }
        }
        match Val::parse(s) {
            Ok(v) => Ok(Op::Stack(StackOp::Push(v))),
            Err(e) => Err(e),
        }
    }
}

} // verus!
