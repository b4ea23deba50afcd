use rpncalc::error::Error;
use rpncalc::fmt::fmt_val;
use rpncalc::op::Radix;
use rpncalc::val::Val::{I64, U64};

#[test]
fn decimal_rendering() {
    assert_eq!(fmt_val(&U64(84), Radix::Dec), "84u64");
    assert_eq!(fmt_val(&U64(0), Radix::Dec), "0u64");
    assert_eq!(fmt_val(&U64(u64::MAX), Radix::Dec), "18446744073709551615u64");
    assert_eq!(fmt_val(&I64(-16), Radix::Dec), "-16i64");
    assert_eq!(fmt_val(&I64(0), Radix::Dec), "0i64");
    assert_eq!(fmt_val(&I64(i64::MIN), Radix::Dec), "-9223372036854775808i64");
    assert_eq!(fmt_val(&I64(i64::MAX), Radix::Dec), "9223372036854775807i64");
}

#[test]
fn hex_rendering() {
    assert_eq!(fmt_val(&U64(255), Radix::Hex), "0x00000000000000ffu64");
    assert_eq!(fmt_val(&U64(0), Radix::Hex), "0x0000000000000000u64");
    assert_eq!(fmt_val(&I64(-1), Radix::Hex), "0xffffffffffffffffi64");
    assert_eq!(
        fmt_val(&U64(0x123456789abcdef0), Radix::Hex),
        "0x123456789abcdef0u64"
    );
}

#[test]
fn binary_rendering() {
    let mut expected = String::new();
    expected.push_str("0b");
    for _ in 0..61 {
        expected.push('0');
    }
    expected.push_str("101u64");
    assert_eq!(fmt_val(&U64(5), Radix::Bin), expected);
    let ones: String = std::iter::repeat('1').take(64).collect();
    assert_eq!(fmt_val(&I64(-1), Radix::Bin), format!("0b{}i64", ones));
}

#[test]
fn error_messages() {
    assert_eq!(
        Error::InvalidInput(String::from("abc")).message(),
        "Invalid input: 'abc'"
    );
    assert_eq!(Error::EndOfStack.message(), "Stack is empty");
    assert_eq!(
        Error::EndOfRegister(U64(13)).message(),
        "Register stack '13u64' is empty"
    );
    assert_eq!(Error::BadRadix.message(), "Bad radix");
    assert_eq!(Error::DivideByZero.message(), "Attempt to divide by zero");
}
