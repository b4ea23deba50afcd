use rpncalc::op::CalcOp;
use rpncalc::op::CastOp;
use rpncalc::op::Op;
use rpncalc::op::StackOp;
use rpncalc::stack::Stack;
use rpncalc::val::Val::{self, I64, U64};

fn calc(op: CalcOp, v1: Val, v2: Val) -> Val {
    let mut s = Stack::new();
    s.stack_op(StackOp::Push(v1)).unwrap();
    s.stack_op(StackOp::Push(v2)).unwrap();
    s.calc_op(op).unwrap();
    s.top().unwrap()
}

#[test]
fn test_addition() {
    assert_eq!(calc(CalcOp::Add, U64(0), U64(0)), U64(0));
    assert_eq!(calc(CalcOp::Add, U64(1), U64(1)), U64(2));
    assert_eq!(calc(CalcOp::Add, U64(1), U64(1)), U64(2));
    assert_eq!(calc(CalcOp::Add, U64(1000), U64(1234)), U64(2234));
    assert_eq!(calc(CalcOp::Add, U64(1), I64(-1)), I64(0));
    assert_eq!(calc(CalcOp::Add, I64(1), I64(-1)), I64(0));
    assert_eq!(calc(CalcOp::Add, U64(1), I64(100)), I64(101));
}

#[test]
fn test_subtraction() {
    assert_eq!(calc(CalcOp::Sub, U64(0), U64(0)), U64(0));
    assert_eq!(calc(CalcOp::Sub, U64(u64::MAX), U64(u64::MAX)), U64(0));
    assert_eq!(calc(CalcOp::Sub, I64(i64::MAX), I64(i64::MAX)), I64(0));
    assert_eq!(calc(CalcOp::Sub, U64(0), I64(100)), I64(-100));
    assert_eq!(calc(CalcOp::Sub, I64(0), U64(100)), I64(-100));
    assert_eq!(calc(CalcOp::Sub, I64(100), I64(50)), I64(50));
    assert_eq!(calc(CalcOp::Sub, U64(100), U64(50)), U64(50));
}

#[test]
fn test_multiplication() {
    assert_eq!(calc(CalcOp::Mul, U64(0), U64(0)), U64(0));
    assert_eq!(calc(CalcOp::Mul, U64(1), U64(100)), U64(100));
    assert_eq!(calc(CalcOp::Mul, U64(2), U64(100)), U64(200));
    assert_eq!(calc(CalcOp::Mul, I64(2), U64(100)), I64(200));
    assert_eq!(calc(CalcOp::Mul, U64(2), I64(100)), I64(200));
    assert_eq!(calc(CalcOp::Mul, U64(2), I64(-100)), I64(-200));
}

#[test]
fn test_division() {
    assert_eq!(calc(CalcOp::Div, U64(0), U64(10)), U64(0));
    assert_eq!(calc(CalcOp::Div, U64(u64::MAX), U64(u64::MAX)), U64(1));
    assert_eq!(calc(CalcOp::Div, I64(i64::MAX), I64(i64::MAX)), I64(1));
    assert_eq!(calc(CalcOp::Div, U64(4), U64(2)), U64(2));
    assert_eq!(calc(CalcOp::Div, U64(5), I64(2)), I64(2));
    assert_eq!(calc(CalcOp::Div, I64(2), I64(1)), I64(2));
    assert_eq!(calc(CalcOp::Div, I64(3), I64(2)), I64(1));
    assert_eq!(calc(CalcOp::Div, I64(-3), I64(2)), I64(-1));
}

#[test]
fn test_mod() {
    assert_eq!(calc(CalcOp::Mod, U64(12345), U64(2)), U64(1));
    assert_eq!(calc(CalcOp::Mod, U64(12346), U64(2)), U64(0));
    assert_eq!(calc(CalcOp::Mod, I64(12345), U64(2)), I64(1));
    assert_eq!(calc(CalcOp::Mod, U64(12346), I64(2)), I64(0));
    assert_eq!(calc(CalcOp::Mod, U64(u64::MAX), U64(u64::MAX)), U64(0));
    assert_eq!(calc(CalcOp::Mod, I64(i64::MAX), I64(i64::MAX)), I64(0));
    assert_eq!(calc(CalcOp::Mod, I64(i64::MIN), I64(i64::MIN)), I64(0));
}

#[test]
fn test_pow() {
    assert_eq!(calc(CalcOp::Pow, U64(1), U64(0)), U64(1));
    assert_eq!(calc(CalcOp::Pow, I64(1), I64(0)), I64(1));
    assert_eq!(calc(CalcOp::Pow, I64(1), I64(i64::MAX)), I64(1));
    assert_eq!(calc(CalcOp::Pow, I64(1), U64(u64::MAX)), I64(1));
    assert_eq!(calc(CalcOp::Pow, U64(2), U64(10)), U64(1024));
    assert_eq!(calc(CalcOp::Pow, I64(2), U64(10)), I64(1024));
    assert_eq!(calc(CalcOp::Pow, I64(2), I64(10)), I64(1024));
    assert_eq!(calc(CalcOp::Pow, U64(2), U64(32)), U64(u32::MAX as u64 + 1));
}

#[test]
fn test_and() {
    assert_eq!(calc(CalcOp::And, U64(0b0), U64(0b0)), U64(0b0));
    assert_eq!(calc(CalcOp::And, U64(0b1), U64(0b0)), U64(0b0));
    assert_eq!(calc(CalcOp::And, U64(0b0), U64(0b1)), U64(0b0));
    assert_eq!(calc(CalcOp::And, U64(0b1), U64(0b1)), U64(0b1));
    assert_eq!(calc(CalcOp::And, U64(0b11110000), U64(0b00001111)), U64(0b0));
    assert_eq!(calc(CalcOp::And, U64(0b11110000), U64(0b11110000)), U64(0b11110000));
    assert_eq!(calc(CalcOp::And, U64(0b11110000), U64(0b11111111)), U64(0b11110000));
    assert_eq!(calc(CalcOp::And, U64(0b11110000), U64(0b00000000)), U64(0b00000000));
}

#[test]
fn test_or() {
    assert_eq!(calc(CalcOp::Or, U64(0b0), U64(0b0)), U64(0b0));
    assert_eq!(calc(CalcOp::Or, U64(0b1), U64(0b0)), U64(0b1));
    assert_eq!(calc(CalcOp::Or, U64(0b0), U64(0b1)), U64(0b1));
    assert_eq!(calc(CalcOp::Or, U64(0b1), U64(0b1)), U64(0b1));
    assert_eq!(calc(CalcOp::Or, U64(0b11110000), U64(0b00001111)), U64(0b11111111));
    assert_eq!(calc(CalcOp::Or, U64(0b11110000), U64(0b11110000)), U64(0b11110000));
    assert_eq!(calc(CalcOp::Or, U64(0b11110000), U64(0b11111111)), U64(0b11111111));
    assert_eq!(calc(CalcOp::Or, U64(0b11110000), U64(0b00000000)), U64(0b11110000));
}

#[test]
fn test_xor() {
    assert_eq!(calc(CalcOp::Xor, U64(0b0), U64(0b0)), U64(0b0));
    assert_eq!(calc(CalcOp::Xor, U64(0b1), U64(0b0)), U64(0b1));
    assert_eq!(calc(CalcOp::Xor, U64(0b0), U64(0b1)), U64(0b1));
    assert_eq!(calc(CalcOp::Xor, U64(0b1), U64(0b1)), U64(0b0));
    assert_eq!(calc(CalcOp::Xor, U64(0b11110000), U64(0b00001111)), U64(0b11111111));
    assert_eq!(calc(CalcOp::Xor, U64(0b11110000), U64(0b11110000)), U64(0b00000000));
    assert_eq!(calc(CalcOp::Xor, U64(0b11110000), U64(0b11111111)), U64(0b00001111));
    assert_eq!(calc(CalcOp::Xor, U64(0b11110000), U64(0b00000000)), U64(0b11110000));
}

#[test]
fn test_shl() {
    assert_eq!(calc(CalcOp::Shl, U64(1), U64(1)), U64(1 << 1));
    assert_eq!(calc(CalcOp::Shl, U64(1), U64(10)), U64(1 << 10));
    assert_eq!(calc(CalcOp::Shl, U64(100), U64(1)), U64(100 << 1));
    assert_eq!(calc(CalcOp::Shl, U64(12), U64(12)), U64(12 << 12));
}

#[test]
fn test_shr() {
    assert_eq!(calc(CalcOp::Shr, U64(10 << 10), U64(10)), U64(10));
    assert_eq!(calc(CalcOp::Shr, U64(1 << 1), U64(1)), U64(1));
    assert_eq!(calc(CalcOp::Shr, U64(100 << 3), U64(3)), U64(100));
    assert_eq!(calc(CalcOp::Shr, U64(1), U64(0)), U64(1));
}

#[test]
fn test_not() {
    let not = |v| {
        let mut s = Stack::new();
        s.stack_op(StackOp::Push(v)).unwrap();
        s.calc_op(CalcOp::Not).unwrap();
        s.top().unwrap()
    };
    let mask = u64::MAX << 8;
    assert_eq!(not(U64(0b00001111 | mask)), U64(0b11110000));
    assert_eq!(not(U64(0b11110000 | mask)), U64(0b00001111));
    assert_eq!(not(U64(0b11111111)), U64(0b00000000 | mask));
    assert_eq!(not(U64(0b00000000)), U64(0b11111111 | mask));
}

#[test]
fn test_cast() {
    let mut s = Stack::new();
    s.stack_op(StackOp::Push(U64(u64::MAX))).unwrap();
    s.cast_op(CastOp::I).unwrap();
    assert_eq!(s.top(), Some(I64(-1)));
    s.cast_op(CastOp::U).unwrap();
    assert_eq!(s.top(), Some(U64(u64::MAX)));
}

#[test]
fn test_calc() {
    let mut s = Stack::new();
    for op in "100 0x10 r r 0b1 + - 13 1 d + r s 13 l ^ 13 L / p f i d n".split_whitespace() {
        s.op(Op::parse(op).unwrap()).unwrap();
    }
    assert_eq!(s.top(), Some(I64(((100u64 - (16 + 1)).pow(2) / 2) as i64)));
}
