use rpncalc::error::Error;
use rpncalc::op::CalcOp;
use rpncalc::op::CastOp;
use rpncalc::op::Op;
use rpncalc::op::PrintOp;
use rpncalc::op::RegOp;
use rpncalc::op::StackOp;
use rpncalc::val::Val::{I64, U64};

#[test]
fn literal_radix_prefixes() {
    assert_eq!(Op::parse("0x10"), Ok(Op::Stack(StackOp::Push(U64(16)))));
    assert_eq!(Op::parse("-0x10"), Ok(Op::Stack(StackOp::Push(I64(-16)))));
    assert_eq!(Op::parse("0b101"), Ok(Op::Stack(StackOp::Push(U64(5)))));
    assert_eq!(Op::parse("-0b101"), Ok(Op::Stack(StackOp::Push(I64(-5)))));
    assert_eq!(Op::parse("0xff"), Ok(Op::Stack(StackOp::Push(U64(255)))));
    assert_eq!(Op::parse("0xFF"), Ok(Op::Stack(StackOp::Push(U64(255)))));
}

#[test]
fn literal_decimal() {
    assert_eq!(Op::parse("-5"), Ok(Op::Stack(StackOp::Push(I64(-5)))));
    assert_eq!(Op::parse("5"), Ok(Op::Stack(StackOp::Push(U64(5)))));
    assert_eq!(Op::parse("+7"), Ok(Op::Stack(StackOp::Push(U64(7)))));
    assert_eq!(Op::parse("0"), Ok(Op::Stack(StackOp::Push(U64(0)))));
    assert_eq!(
        Op::parse("18446744073709551615"),
        Ok(Op::Stack(StackOp::Push(U64(u64::MAX))))
    );
    // Values above i64::MAX stay unsigned; the signed form reaches i64::MIN.
    assert_eq!(
        Op::parse("9223372036854775808"),
        Ok(Op::Stack(StackOp::Push(U64(1u64 << 63))))
    );
    assert_eq!(
        Op::parse("-9223372036854775808"),
        Ok(Op::Stack(StackOp::Push(I64(i64::MIN))))
    );
}

#[test]
fn literal_rejections() {
    assert_eq!(
        Op::parse("abc"),
        Err(Error::InvalidInput(String::from("abc")))
    );
    // An empty magnitude after a radix prefix is not a literal.
    assert_eq!(Op::parse("0b"), Err(Error::InvalidInput(String::from("0b"))));
    // A digit outside the radix poisons the whole token.
    assert_eq!(
        Op::parse("0b12"),
        Err(Error::InvalidInput(String::from("0b12")))
    );
    // Magnitudes out of range are rejected rather than clamped.
    assert_eq!(
        Op::parse("18446744073709551616"),
        Err(Error::InvalidInput(String::from("18446744073709551616")))
    );
    assert_eq!(
        Op::parse("-9223372036854775809"),
        Err(Error::InvalidInput(String::from("-9223372036854775809")))
    );
    // A negated radix-prefixed magnitude must fit the positive signed range.
    assert_eq!(
        Op::parse("-0x8000000000000000"),
        Err(Error::InvalidInput(String::from("-0x8000000000000000")))
    );
    assert_eq!(Op::parse(""), Err(Error::InvalidInput(String::from(""))));
    // A bare sign is the subtraction token, never a literal.
    assert_eq!(rpncalc::val::Val::parse("-"), Err(Error::InvalidInput(String::from("-"))));
    assert_eq!(rpncalc::val::Val::parse("+"), Err(Error::InvalidInput(String::from("+"))));
}

#[test]
fn operation_tokens() {
    assert_eq!(Op::parse("+"), Ok(Op::Calc(CalcOp::Add)));
    assert_eq!(Op::parse("*"), Ok(Op::Calc(CalcOp::Mul)));
    assert_eq!(Op::parse("/"), Ok(Op::Calc(CalcOp::Div)));
    assert_eq!(Op::parse("%"), Ok(Op::Calc(CalcOp::Mod)));
    assert_eq!(Op::parse("^"), Ok(Op::Calc(CalcOp::Pow)));
    assert_eq!(Op::parse("&"), Ok(Op::Calc(CalcOp::And)));
    assert_eq!(Op::parse("|"), Ok(Op::Calc(CalcOp::Or)));
    assert_eq!(Op::parse("!"), Ok(Op::Calc(CalcOp::Not)));
    assert_eq!(Op::parse("x"), Ok(Op::Calc(CalcOp::Xor)));
    assert_eq!(Op::parse("<"), Ok(Op::Calc(CalcOp::Shl)));
    assert_eq!(Op::parse(">"), Ok(Op::Calc(CalcOp::Shr)));
    assert_eq!(Op::parse("p"), Ok(Op::Print(PrintOp::Print)));
    assert_eq!(Op::parse("f"), Ok(Op::Print(PrintOp::Dump)));
    assert_eq!(Op::parse("o"), Ok(Op::Print(PrintOp::Output)));
    assert_eq!(Op::parse("n"), Ok(Op::Stack(StackOp::Pop)));
    assert_eq!(Op::parse("d"), Ok(Op::Stack(StackOp::Dup)));
    assert_eq!(Op::parse("c"), Ok(Op::Stack(StackOp::Clear)));
    assert_eq!(Op::parse("r"), Ok(Op::Stack(StackOp::Rev)));
    assert_eq!(Op::parse("s"), Ok(Op::Reg(RegOp::Push)));
    assert_eq!(Op::parse("l"), Ok(Op::Reg(RegOp::Get)));
    assert_eq!(Op::parse("L"), Ok(Op::Reg(RegOp::Pop)));
    assert_eq!(Op::parse("F"), Ok(Op::Reg(RegOp::Dump)));
    assert_eq!(Op::parse("u"), Ok(Op::Cast(CastOp::U)));
    assert_eq!(Op::parse("i"), Ok(Op::Cast(CastOp::I)));
    assert_eq!(Op::parse("q"), Ok(Op::Quit));
}

#[test]
fn single_digit_is_literal_not_operation() {
    assert_eq!(rpncalc::val::Val::parse("5"), Ok(U64(5)));
    assert_eq!(rpncalc::val::Val::parse("9"), Ok(U64(9)));
}
