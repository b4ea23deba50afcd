//! A reverse-Polish-notation calculator engine.
//!
//! Values are 64-bit integers, tagged as unsigned or signed. Arithmetic,
//! bitwise and shift operations promote mixed operands with an asymmetric
//! rule: the result is signed exactly when either operand is signed (power
//! alone keeps its base's variant), and the payload arithmetic is
//! two's-complement with a uniform wrapping overflow policy. The engine
//! owns an operand stack, an output radix, and a bank of named registers;
//! each parsed token mutates this state or fails atomically, leaving the
//! state untouched.

pub mod error;
pub mod fmt;
pub mod laws;
pub mod op;
pub mod parse;
pub mod registers;
pub mod stack;
pub mod val;
