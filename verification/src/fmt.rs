//! Pure rendering of a value as text, keyed by the output radix.
//!
//! Decimal shows the numeric value with a variant suffix (`u64` or `i64`);
//! hexadecimal and binary show the payload's two's-complement bit pattern,
//! zero-padded to 16 hex digits or 64 binary digits, with a `0x` or `0b`
//! prefix and the same suffix. Formatting never touches engine state.

use crate::op::Radix;
use crate::val::Val;
use vstd::prelude::*;

verus! {

/// The sixteen digit characters, `'0'`–`'9'` then `'a'`–`'f'`.
pub open spec fn digit_char(d: nat) -> char {
    if d == 0 {
        '0'
    } else if d == 1 {
        '1'
    } else if d == 2 {
        '2'
    } else if d == 3 {
        '3'
    } else if d == 4 {
        '4'
    } else if d == 5 {
        '5'
    } else if d == 6 {
        '6'
    } else if d == 7 {
        '7'
    } else if d == 8 {
        '8'
    } else if d == 9 {
        '9'
    } else if d == 10 {
        'a'
    } else if d == 11 {
        'b'
    } else if d == 12 {
        'c'
    } else if d == 13 {
        'd'
    } else if d == 14 {
        'e'
    } else {
        'f'
    }
}

/// The decimal digits of `n`, most significant first, with no leading
/// zeros (`0` renders as a single `'0'`).
pub open spec fn spec_dec_digits(n: nat) -> Seq<char>
    decreases n,
{
    if n < 10 {
        seq![digit_char(n)]
    } else {
        spec_dec_digits(n / 10).push(digit_char(n % 10))
    }
}

/// The 16 hex digits of a 64-bit word, most significant nibble first.
pub open spec fn spec_hex64(u: u64) -> Seq<char> {
    Seq::new(16, |i: int| digit_char(((u >> (((15 - i) * 4) as u64)) & 0xf) as nat))
}

/// The 64 binary digits of a 64-bit word, most significant bit first.
pub open spec fn spec_bin64(u: u64) -> Seq<char> {
    Seq::new(64, |i: int| digit_char(((u >> ((63 - i) as u64)) & 1) as nat))
}

/// The absolute value of a signed payload.
pub open spec fn spec_mag(i: i64) -> nat {
    if i >= 0 {
        i as nat
    } else {
        (-(i as int)) as nat
    }
}

/// The payload's 64-bit two's-complement bit pattern.
pub open spec fn spec_bits(v: Val) -> u64 {
    match v {
        Val::U64(u) => u,
        Val::I64(i) => i as u64,
    }
}

/// The variant suffix that keeps the two variants distinguishable in output.
pub open spec fn spec_suffix(v: Val) -> Seq<char> {
    match v {
        Val::U64(_) => seq!['u', '6', '4'],
        Val::I64(_) => seq!['i', '6', '4'],
    }
}

/// The decimal rendering of the numeric value, `'-'`-signed when negative.
pub open spec fn spec_dec_chars(v: Val) -> Seq<char> {
    match v {
        Val::U64(u) => spec_dec_digits(u as nat),
        Val::I64(i) => if i < 0 {
            seq!['-'] + spec_dec_digits(spec_mag(i))
        } else {
            spec_dec_digits(i as nat)
        },
    }
}

/// The full rendering of a value under a radix: decimal value text, or the
/// zero-padded bit pattern with its base prefix, always variant-suffixed.
pub open spec fn spec_fmt(v: Val, r: Radix) -> Seq<char> {
    match r {
        Radix::Dec => spec_dec_chars(v) + spec_suffix(v),
        Radix::Hex => seq!['0', 'x'] + spec_hex64(spec_bits(v)) + spec_suffix(v),
        Radix::Bin => seq!['0', 'b'] + spec_bin64(spec_bits(v)) + spec_suffix(v),
    }
}

/// One digit as a string slice.
fn digit_str(d: u8) -> (r: &'static str)
    requires
        d < 16,
    ensures
        r@ == seq![digit_char(d as nat)],
{
    match d {
        0u8 => {
            proof {
                reveal_strlit("0");
                assert("0"@ =~= seq![digit_char(0)]);
            }
            "0"
        },
        1u8 => {
            proof {
                reveal_strlit("1");
                assert("1"@ =~= seq![digit_char(1)]);
            }
            "1"
        },
        2u8 => {
            proof {
                reveal_strlit("2");
                assert("2"@ =~= seq![digit_char(2)]);
            }
            "2"
        },
        3u8 => {
            proof {
                reveal_strlit("3");
                assert("3"@ =~= seq![digit_char(3)]);
            }
            "3"
        },
        4u8 => {
            proof {
                reveal_strlit("4");
                assert("4"@ =~= seq![digit_char(4)]);
            }
            "4"
        },
        5u8 => {
            proof {
                reveal_strlit("5");
                assert("5"@ =~= seq![digit_char(5)]);
            }
            "5"
        },
        6u8 => {
            proof {
                reveal_strlit("6");
                assert("6"@ =~= seq![digit_char(6)]);
            }
            "6"
        },
        7u8 => {
            proof {
                reveal_strlit("7");
                assert("7"@ =~= seq![digit_char(7)]);
            }
            "7"
        },
        8u8 => {
            proof {
                reveal_strlit("8");
                assert("8"@ =~= seq![digit_char(8)]);
            }
            "8"
        },
        9u8 => {
            proof {
                reveal_strlit("9");
                assert("9"@ =~= seq![digit_char(9)]);
            }
            "9"
        },
        10u8 => {
            proof {
                reveal_strlit("a");
                assert("a"@ =~= seq![digit_char(10)]);
            }
            "a"
        },
        11u8 => {
            proof {
                reveal_strlit("b");
                assert("b"@ =~= seq![digit_char(11)]);
            }
            "b"
        },
        12u8 => {
            proof {
                reveal_strlit("c");
                assert("c"@ =~= seq![digit_char(12)]);
            }
            "c"
        },
        13u8 => {
            proof {
                reveal_strlit("d");
                assert("d"@ =~= seq![digit_char(13)]);
            }
            "d"
        },
        14u8 => {
            proof {
                reveal_strlit("e");
                assert("e"@ =~= seq![digit_char(14)]);
            }
            "e"
        },
        _ => {
            proof {
                reveal_strlit("f");
                assert("f"@ =~= seq![digit_char(15)]);
            }
            "f"
        },
    }
}

/// Appends the decimal digits of `n`, most significant first.
fn push_dec_digits(s: &mut String, n: u64)
    ensures
        final(s)@ == old(s)@ + spec_dec_digits(n as nat),
    decreases n,
{
    if n >= 10 {
        push_dec_digits(s, n / 10);
    }
    s.append(digit_str((n % 10) as u8));
    proof {
        if n >= 10 {
            assert(spec_dec_digits(n as nat) =~= spec_dec_digits((n / 10) as nat) + seq![
                digit_char((n % 10) as nat),
            ]);
            assert(old(s)@ + spec_dec_digits((n / 10) as nat) + seq![digit_char((n % 10) as nat)]
                =~= old(s)@ + spec_dec_digits(n as nat));
        } else {
            assert(old(s)@ + seq![digit_char((n % 10) as nat)] =~= old(s)@ + spec_dec_digits(
                n as nat,
            ));
        }
    }
}

/// Appends the 16 zero-padded hex digits of a 64-bit word.
fn push_hex_digits(s: &mut String, u: u64)
    ensures
        final(s)@ == old(s)@ + spec_hex64(u),
{
    let mut i: usize = 0;
    while i < 16
        invariant
            i <= 16,
            s@ == old(s)@ + spec_hex64(u).take(i as int),
        decreases 16 - i,
    {
        let sh: u64 = ((15 - i) * 4) as u64;
        let nibble_word: u64 = (u >> sh) & 0xf;
        proof {
            assert((u >> sh) & 0xf < 16) by (bit_vector);
        }
        let nibble: u8 = nibble_word as u8;
        s.append(digit_str(nibble));
        proof {
            assert(spec_hex64(u).take(i + 1) =~= spec_hex64(u).take(i as int) + seq![
                spec_hex64(u)[i as int],
            ]);
            assert(old(s)@ + spec_hex64(u).take(i as int) + seq![spec_hex64(u)[i as int]] =~= old(
                s,
            )@ + spec_hex64(u).take(i + 1));
        }
        i = i + 1;
    }
    proof {
        assert(spec_hex64(u).take(16) =~= spec_hex64(u));
    }
}

/// Appends the 64 zero-padded binary digits of a 64-bit word.
fn push_bin_digits(s: &mut String, u: u64)
    ensures
        final(s)@ == old(s)@ + spec_bin64(u),
{
    let mut i: usize = 0;
    while i < 64
        invariant
            i <= 64,
            s@ == old(s)@ + spec_bin64(u).take(i as int),
        decreases 64 - i,
    {
        let sh: u64 = (63 - i) as u64;
        let bit_word: u64 = (u >> sh) & 1;
        proof {
            assert((u >> sh) & 1 < 16) by (bit_vector);
        }
        let bit: u8 = bit_word as u8;
        s.append(digit_str(bit));
        proof {
            assert(spec_bin64(u).take(i + 1) =~= spec_bin64(u).take(i as int) + seq![
                spec_bin64(u)[i as int],
            ]);
            assert(old(s)@ + spec_bin64(u).take(i as int) + seq![spec_bin64(u)[i as int]] =~= old(
                s,
            )@ + spec_bin64(u).take(i + 1));
        }
        i = i + 1;
    }
    proof {
        assert(spec_bin64(u).take(64) =~= spec_bin64(u));
    }
}

/// Appends the variant suffix.
fn push_suffix(s: &mut String, v: &Val)
    ensures
        final(s)@ == old(s)@ + spec_suffix(*v),
{
    match v {
        Val::U64(_) => {
            proof {
                reveal_strlit("u64");
                assert("u64"@ =~= seq!['u', '6', '4']);
            }
            s.append("u64");
        },
        Val::I64(_) => {
            proof {
                reveal_strlit("i64");
                assert("i64"@ =~= seq!['i', '6', '4']);
            }
            s.append("i64");
        },
    }
}

/// The payload's bit pattern, shared by the hex and binary renderings.
fn val_bits(v: &Val) -> (r: u64)
    ensures
        r == spec_bits(*v),
{
    match v {
        Val::U64(u) => *u,
        Val::I64(i) => #[verifier::truncate] (*i as u64),
    }
}

/// Renders a value as text under the given radix.
pub fn fmt_val(v: &Val, r: Radix) -> (s: String)
    ensures
        s@ == spec_fmt(*v, r),
{
    let mut s = String::new();
    match r {
        Radix::Dec => {
            match v {
                Val::U64(u) => {
                    push_dec_digits(&mut s, *u);
                },
                Val::I64(i) => {
                    if *i < 0 {
                        proof {
                            reveal_strlit("-");
                            assert("-"@ =~= seq!['-']);
                        }
                        s.append("-");
                        let mag: u64 = if *i == i64::MIN {
                            0x8000_0000_0000_0000u64
                        } else {
                            (-*i) as u64
                        };
                        proof {
                            assert(mag as nat == spec_mag(*i));
                        }
                        push_dec_digits(&mut s, mag);
                    } else {
                        push_dec_digits(&mut s, *i as u64);
                    }
                },
            }
            push_suffix(&mut s, v);
            proof {
                assert(s@ =~= spec_fmt(*v, r));
            }
        },
        Radix::Hex => {
            proof {
                reveal_strlit("0x");
                assert("0x"@ =~= seq!['0', 'x']);
            }
            s.append("0x");
            push_hex_digits(&mut s, val_bits(v));
            push_suffix(&mut s, v);
            proof {
                assert(s@ =~= spec_fmt(*v, r));
            }
        },
        Radix::Bin => {
            proof {
                reveal_strlit("0b");
                assert("0b"@ =~= seq!['0', 'b']);
            }
            s.append("0b");
            push_bin_digits(&mut s, val_bits(v));
            push_suffix(&mut s, v);
            proof {
                assert(s@ =~= spec_fmt(*v, r));
            }
        },
    }
    s
}

} // verus!
