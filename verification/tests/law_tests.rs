use rpncalc::error::Error;
use rpncalc::op::CalcOp;
use rpncalc::op::CastOp;
use rpncalc::op::Op;
use rpncalc::op::PrintOp;
use rpncalc::op::RegOp;
use rpncalc::op::StackOp;
use rpncalc::stack::Stack;
use rpncalc::val::Val::{I64, U64};

#[test]
fn unsigned_addition_wraps() {
    let mut s = Stack::new();
    s.stack_op(StackOp::Push(U64(u64::MAX))).unwrap();
    s.stack_op(StackOp::Push(U64(1))).unwrap();
    s.calc_op(CalcOp::Add).unwrap();
    assert_eq!(s.top(), Some(U64(0)));
}

#[test]
fn mixed_addition_is_signed() {
    let mut s = Stack::new();
    s.stack_op(StackOp::Push(U64(1))).unwrap();
    s.stack_op(StackOp::Push(I64(100))).unwrap();
    s.calc_op(CalcOp::Add).unwrap();
    assert_eq!(s.top(), Some(I64(101)));
    // The unsigned payload is reinterpreted as signed before adding.
    let mut t = Stack::new();
    t.stack_op(StackOp::Push(U64(u64::MAX))).unwrap();
    t.stack_op(StackOp::Push(I64(-1))).unwrap();
    t.calc_op(CalcOp::Add).unwrap();
    assert_eq!(t.top(), Some(I64(-2)));
}

#[test]
fn divide_by_zero_leaves_stack_unchanged() {
    let mut s = Stack::new();
    s.stack_op(StackOp::Push(U64(10))).unwrap();
    s.stack_op(StackOp::Push(U64(0))).unwrap();
    assert_eq!(s.calc_op(CalcOp::Div), Err(Error::DivideByZero));
    assert_eq!(s.top(), Some(U64(0)));
    // The signed zero divisor fails the same way, for modulo too.
    let mut t = Stack::new();
    t.stack_op(StackOp::Push(I64(10))).unwrap();
    t.stack_op(StackOp::Push(I64(0))).unwrap();
    assert_eq!(t.calc_op(CalcOp::Mod), Err(Error::DivideByZero));
    assert_eq!(t.top(), Some(I64(0)));
}

#[test]
fn rev_swaps_top_two() {
    let mut s = Stack::new();
    s.stack_op(StackOp::Push(U64(3))).unwrap();
    s.stack_op(StackOp::Push(U64(4))).unwrap();
    s.stack_op(StackOp::Rev).unwrap();
    assert_eq!(s.top(), Some(U64(3)));
    s.stack_op(StackOp::Pop).unwrap();
    assert_eq!(s.top(), Some(U64(4)));
}

#[test]
fn rev_needs_two_elements() {
    let mut s = Stack::new();
    s.stack_op(StackOp::Push(U64(7))).unwrap();
    assert_eq!(s.stack_op(StackOp::Rev), Err(Error::EndOfStack));
    assert_eq!(s.top(), Some(U64(7)));
}

#[test]
fn register_round_trip() {
    let mut s = Stack::new();
    // push(id = U64(1), value = U64(42)), then get(U64(1)).
    s.stack_op(StackOp::Push(U64(42))).unwrap();
    s.stack_op(StackOp::Push(U64(1))).unwrap();
    s.reg_op(RegOp::Push).unwrap();
    assert_eq!(s.top(), None);
    s.stack_op(StackOp::Push(U64(1))).unwrap();
    s.reg_op(RegOp::Get).unwrap();
    assert_eq!(s.top(), Some(U64(42)));
    s.stack_op(StackOp::Clear).unwrap();
    // pop(U64(1)) succeeds once; a second pop finds the register exhausted.
    s.stack_op(StackOp::Push(U64(1))).unwrap();
    s.reg_op(RegOp::Pop).unwrap();
    assert_eq!(s.top(), Some(U64(42)));
    s.stack_op(StackOp::Clear).unwrap();
    s.stack_op(StackOp::Push(U64(1))).unwrap();
    assert_eq!(s.reg_op(RegOp::Pop), Err(Error::EndOfRegister(U64(1))));
    // The failed pop consumed nothing: the id is still on the stack.
    assert_eq!(s.top(), Some(U64(1)));
}

#[test]
fn register_read_against_absent_id_fails() {
    let mut s = Stack::new();
    s.stack_op(StackOp::Push(U64(5))).unwrap();
    assert_eq!(s.reg_op(RegOp::Get), Err(Error::EndOfRegister(U64(5))));
    assert_eq!(s.top(), Some(U64(5)));
    // Signed and unsigned ids with equal payloads are distinct registers.
    let mut t = Stack::new();
    t.stack_op(StackOp::Push(U64(9))).unwrap();
    t.stack_op(StackOp::Push(U64(5))).unwrap();
    t.reg_op(RegOp::Push).unwrap();
    t.stack_op(StackOp::Push(I64(5))).unwrap();
    assert_eq!(t.reg_op(RegOp::Get), Err(Error::EndOfRegister(I64(5))));
}

#[test]
fn end_to_end_subtraction_prints_decimal() {
    let mut s = Stack::new();
    for tok in "100 16 -".split_whitespace() {
        let quit = s.op(Op::parse(tok).unwrap()).unwrap();
        assert!(!quit);
    }
    assert_eq!(s.top(), Some(U64(84)));
    s.print_op(PrintOp::Print).unwrap();
    let lines = s.take_output();
    assert_eq!(lines, vec![String::from("84u64")]);
}

#[test]
fn cast_round_trip_keeps_bits() {
    let mut s = Stack::new();
    s.stack_op(StackOp::Push(U64(u64::MAX))).unwrap();
    s.cast_op(CastOp::I).unwrap();
    assert_eq!(s.top(), Some(I64(-1)));
    s.cast_op(CastOp::U).unwrap();
    assert_eq!(s.top(), Some(U64(u64::MAX)));
}

#[test]
fn bad_radix_changes_nothing() {
    let mut s = Stack::new();
    s.stack_op(StackOp::Push(U64(7))).unwrap();
    assert_eq!(s.print_op(PrintOp::Output), Err(Error::BadRadix));
    // The selector stays on the stack and the radix is still decimal.
    assert_eq!(s.top(), Some(U64(7)));
    s.print_op(PrintOp::Print).unwrap();
    assert_eq!(s.take_output(), vec![String::from("7u64")]);
}

#[test]
fn radix_selection_affects_printing() {
    let mut s = Stack::new();
    s.stack_op(StackOp::Push(U64(255))).unwrap();
    s.stack_op(StackOp::Push(U64(16))).unwrap();
    s.print_op(PrintOp::Output).unwrap();
    s.print_op(PrintOp::Print).unwrap();
    assert_eq!(
        s.take_output(),
        vec![String::from("0x00000000000000ffu64")]
    );
}

#[test]
fn stack_dump_prints_bottom_to_top() {
    let mut s = Stack::new();
    s.stack_op(StackOp::Push(U64(1))).unwrap();
    s.stack_op(StackOp::Push(U64(2))).unwrap();
    s.print_op(PrintOp::Dump).unwrap();
    assert_eq!(
        s.take_output(),
        vec![String::from("1u64"), String::from("2u64")]
    );
}

#[test]
fn register_dump_prints_oldest_first() {
    let mut s = Stack::new();
    for tok in "10 3 s 20 3 s 3 F".split_whitespace() {
        s.op(Op::parse(tok).unwrap()).unwrap();
    }
    assert_eq!(
        s.take_output(),
        vec![String::from("10u64"), String::from("20u64")]
    );
    // Dumping a register that never existed prints nothing and succeeds.
    let mut t = Stack::new();
    t.stack_op(StackOp::Push(U64(9))).unwrap();
    t.reg_op(RegOp::Dump).unwrap();
    assert_eq!(t.take_output(), Vec::<String>::new());
    assert_eq!(t.top(), None);
}

#[test]
fn quit_reports_without_touching_state() {
    let mut s = Stack::new();
    s.stack_op(StackOp::Push(U64(8))).unwrap();
    assert_eq!(s.op(Op::Quit), Ok(true));
    assert_eq!(s.top(), Some(U64(8)));
}

#[test]
fn pop_and_print_on_empty_stack_fails() {
    let mut s = Stack::new();
    assert_eq!(s.stack_op(StackOp::Pop), Err(Error::EndOfStack));
    assert_eq!(s.op(Op::Calc(CalcOp::Add)), Err(Error::EndOfStack));
    // Print on an empty stack is silent, not an error.
    assert_eq!(s.print_op(PrintOp::Print), Ok(()));
    assert_eq!(s.take_output(), Vec::<String>::new());
}

#[test]
fn shifts_and_power_wrap() {
    let mut s = Stack::new();
    // A shift amount keeps only its low 6 bits: shifting by 64 is a no-op.
    s.stack_op(StackOp::Push(U64(3))).unwrap();
    s.stack_op(StackOp::Push(U64(64))).unwrap();
    s.calc_op(CalcOp::Shl).unwrap();
    assert_eq!(s.top(), Some(U64(3)));
    // Power wraps modulo 2^64.
    let mut t = Stack::new();
    t.stack_op(StackOp::Push(U64(2))).unwrap();
    t.stack_op(StackOp::Push(U64(64))).unwrap();
    t.calc_op(CalcOp::Pow).unwrap();
    assert_eq!(t.top(), Some(U64(0)));
    // A negative exponent reinterprets as a large unsigned count; on base 1
    // the result is still 1.
    let mut v = Stack::new();
    v.stack_op(StackOp::Push(I64(1))).unwrap();
    v.stack_op(StackOp::Push(I64(-1))).unwrap();
    v.calc_op(CalcOp::Pow).unwrap();
    assert_eq!(v.top(), Some(I64(1)));
    // The power result keeps the base's variant even for a signed exponent,
    // and a signed result wraps into its own range.
    let mut w = Stack::new();
    w.stack_op(StackOp::Push(U64(2))).unwrap();
    w.stack_op(StackOp::Push(I64(3))).unwrap();
    w.calc_op(CalcOp::Pow).unwrap();
    assert_eq!(w.top(), Some(U64(8)));
    let mut z = Stack::new();
    z.stack_op(StackOp::Push(I64(2))).unwrap();
    z.stack_op(StackOp::Push(U64(63))).unwrap();
    z.calc_op(CalcOp::Pow).unwrap();
    assert_eq!(z.top(), Some(I64(i64::MIN)));
}

#[test]
fn mixed_shifts_promote_to_signed() {
    // A signed amount makes the result signed: the unsigned payload is
    // reinterpreted, and a right shift then extends the sign.
    let mut s = Stack::new();
    s.stack_op(StackOp::Push(U64(1))).unwrap();
    s.stack_op(StackOp::Push(I64(3))).unwrap();
    s.calc_op(CalcOp::Shl).unwrap();
    assert_eq!(s.top(), Some(I64(8)));
    let mut t = Stack::new();
    t.stack_op(StackOp::Push(U64(1u64 << 63))).unwrap();
    t.stack_op(StackOp::Push(I64(1))).unwrap();
    t.calc_op(CalcOp::Shr).unwrap();
    assert_eq!(t.top(), Some(I64(i64::MIN >> 1)));
    // A signed base keeps its variant for an unsigned amount.
    let mut v = Stack::new();
    v.stack_op(StackOp::Push(I64(-8))).unwrap();
    v.stack_op(StackOp::Push(U64(2))).unwrap();
    v.calc_op(CalcOp::Shr).unwrap();
    assert_eq!(v.top(), Some(I64(-2)));
}

#[test]
fn radix_selection_uses_numeric_value() {
    // A payload whose low 32 bits read 2 but whose value is not 2 selects
    // no radix.
    let mut s = Stack::new();
    s.stack_op(StackOp::Push(U64(0x1_0000_0002))).unwrap();
    assert_eq!(s.print_op(PrintOp::Output), Err(Error::BadRadix));
    assert_eq!(s.top(), Some(U64(0x1_0000_0002)));
    // Either variant selects by its numeric value.
    let mut t = Stack::new();
    t.stack_op(StackOp::Push(U64(255))).unwrap();
    t.stack_op(StackOp::Push(I64(16))).unwrap();
    t.print_op(PrintOp::Output).unwrap();
    t.print_op(PrintOp::Print).unwrap();
    assert_eq!(
        t.take_output(),
        vec![String::from("0x00000000000000ffu64")]
    );
}

#[test]
fn register_push_with_one_element_consumes_nothing() {
    let mut s = Stack::new();
    s.stack_op(StackOp::Push(U64(1))).unwrap();
    assert_eq!(s.reg_op(RegOp::Push), Err(Error::EndOfStack));
    assert_eq!(s.top(), Some(U64(1)));
}
