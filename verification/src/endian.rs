//! Big-endian (network byte order) two's-complement integers of 1, 2, 4 and 8
//! bytes: what a byte string means as a number, what a number looks like as a
//! byte string, and the executable conversions between the two.

use vstd::prelude::*;

verus! {

/// `256` to the power `width`: the number of values that fit `width` bytes.
pub open spec fn radix(width: nat) -> nat
    decreases width,
{
    if width == 0 {
        1
    } else {
        256 * radix((width - 1) as nat)
    }
}

/// The natural number that `bytes` spells, most significant byte first.
pub open spec fn be_value(bytes: Seq<u8>) -> nat
    decreases bytes.len(),
{
    if bytes.len() == 0 {
        0
    } else {
        be_value(bytes.drop_last()) * 256 + bytes.last() as nat
    }
}

/// The integer that `bytes` spells in two's complement, most significant byte
/// first: the upper half of the unsigned range stands for the negatives.
pub open spec fn be_signed(bytes: Seq<u8>) -> int {
    let unsigned = be_value(bytes);
    if 2 * unsigned >= radix(bytes.len()) {
        unsigned - radix(bytes.len())
    } else {
        unsigned as int
    }
}

/// The `width` bytes that spell `value` in two's complement, most significant
/// byte first. Division and remainder are Euclidean, so a negative value is
/// sign-extended.
pub open spec fn be_bytes(value: int, width: nat) -> Seq<u8>
    decreases width,
{
    if width == 0 {
        Seq::empty()
    } else {
        be_bytes(value / 256, (width - 1) as nat).push((value % 256) as u8)
    }
}

/// Whether `value` can be written in `width` bytes of two's complement.
pub open spec fn fits_signed(value: int, width: nat) -> bool {
    -(radix(width) as int) <= 2 * value < radix(width)
}

/// An encoding has exactly the width asked for.
pub proof fn lemma_be_bytes_len(value: int, width: nat)
    ensures
        be_bytes(value, width).len() == width,
    decreases width,
{
    if width > 0 {
        lemma_be_bytes_len(value / 256, (width - 1) as nat);
    }
}

/// Read as a natural number, an encoding is the value reduced modulo the
/// radix of its width.
pub proof fn lemma_be_value_of_be_bytes(value: int, width: nat)
    ensures
        be_value(be_bytes(value, width)) == value % (radix(width) as int),
    decreases width,
{
    if width > 0 {
        let rest = (width - 1) as nat;
        let bytes = be_bytes(value, width);
        lemma_be_value_of_be_bytes(value / 256, rest);
        assert(bytes.drop_last() =~= be_bytes(value / 256, rest));
        lemma_radix_positive(rest);
        let hi = (value / 256) % (radix(rest) as int);
        assert(hi * 256 + value % 256 == value % (256 * radix(rest) as int)) by {
            lemma_mod_restack(value, radix(rest) as int);
        }
    }
}

/// The radix is never zero.
pub proof fn lemma_radix_positive(width: nat)
    ensures
        radix(width) > 0,
    decreases width,
{
    if width > 0 {
        lemma_radix_positive((width - 1) as nat);
    }
}

/// Splitting off the lowest base-256 digit commutes with reduction modulo a
/// multiple of 256.
proof fn lemma_mod_restack(value: int, modulus: int)
    requires
        modulus > 0,
    ensures
        ((value / 256) % modulus) * 256 + value % 256 == value % (256 * modulus),
{
    let q: int = (value / 256) / modulus;
    let hi: int = (value / 256) % modulus;
    assert(value / 256 == q * modulus + hi) by (nonlinear_arith)
        requires
            q == (value / 256) / modulus,
            hi == (value / 256) % modulus,
            modulus > 0,
    ;
    let low: int = hi * 256 + value % 256;
    assert(0 <= low < 256 * modulus) by (nonlinear_arith)
        requires
            0 <= hi < modulus,
            0 <= value % 256 < 256,
            low == hi * 256 + value % 256,
    ;
    assert(value == q * (256 * modulus) + low) by (nonlinear_arith)
        requires
            value == (value / 256) * 256 + value % 256,
            value / 256 == q * modulus + hi,
            low == hi * 256 + value % 256,
    ;
    vstd::arithmetic::div_mod::lemma_fundamental_div_mod_converse_mod(value, 256 * modulus, q, low);
}

/// Writing a number that fits and reading the bytes back gives the number.
pub proof fn lemma_be_round_trip(value: int, width: nat)
    requires
        width > 0,
        fits_signed(value, width),
    ensures
        be_bytes(value, width).len() == width,
        be_signed(be_bytes(value, width)) == value,
{
    lemma_be_bytes_len(value, width);
    lemma_be_value_of_be_bytes(value, width);
    lemma_radix_positive(width);
    let m: int = radix(width) as int;
    if value >= 0 {
        vstd::arithmetic::div_mod::lemma_small_mod(value as nat, m as nat);
    } else {
        vstd::arithmetic::div_mod::lemma_small_mod((value + m) as nat, m as nat);
        vstd::arithmetic::div_mod::lemma_mod_multiples_vanish(1, value, m);
    }
}

/// An encoding depends on the value only up to multiples of the radix, so a
/// negative number and its unsigned bit pattern are written alike.
pub proof fn lemma_be_bytes_wraps(value: int, width: nat)
    ensures
        be_bytes(value + radix(width), width) == be_bytes(value, width),
    decreases width,
{
    if width > 0 {
        let rest = (width - 1) as nat;
        let step: int = radix(rest) as int;
        assert((value + 256 * step) / 256 == value / 256 + step && (value + 256 * step) % 256
            == value % 256) by {
            vstd::arithmetic::div_mod::lemma_fundamental_div_mod(value, 256);
            vstd::arithmetic::div_mod::lemma_fundamental_div_mod_converse(
                value + 256 * step,
                256,
                value / 256 + step,
                value % 256,
            );
        }
        lemma_be_bytes_wraps(value / 256, rest);
    }
}

/// The byte that spells `value`.
pub fn encode_i8(value: i8) -> (bytes: [u8; 1])
    ensures
        bytes@ == be_bytes(value as int, 1),
{
    let pattern: u8 = if value >= 0 {
        value as u8
    } else {
        (value - i8::MIN) as u8 + 0x80
    };
    let bytes: [u8; 1] = [pattern];
    proof {
        reveal_with_fuel(be_bytes, 2);
        reveal_with_fuel(radix, 2);
        if value < 0 {
            lemma_be_bytes_wraps(value as int, 1);
        }
        assert(bytes@ =~= be_bytes(pattern as int, 1));
    }
    bytes
}

/// The two bytes that spell `value`, most significant first.
pub fn encode_i16(value: i16) -> (bytes: [u8; 2])
    ensures
        bytes@ == be_bytes(value as int, 2),
{
    let pattern: u16 = if value >= 0 {
        value as u16
    } else {
        (value - i16::MIN) as u16 + 0x8000
    };
    let b1: u8 = (pattern % 256) as u8;
    let b0: u8 = (pattern / 256 % 256) as u8;
    let bytes: [u8; 2] = [b0, b1];
    proof {
        reveal_with_fuel(be_bytes, 3);
        reveal_with_fuel(radix, 3);
        if value < 0 {
            lemma_be_bytes_wraps(value as int, 2);
        }
        assert(bytes@ =~= be_bytes(pattern as int, 2));
    }
    bytes
}

/// The four bytes that spell `value`, most significant first.
pub fn encode_i32(value: i32) -> (bytes: [u8; 4])
    ensures
        bytes@ == be_bytes(value as int, 4),
{
    let pattern: u32 = if value >= 0 {
        value as u32
    } else {
        (value - i32::MIN) as u32 + 0x8000_0000
    };
    let q1: u32 = pattern / 256;
    let q2: u32 = q1 / 256;
    let q3: u32 = q2 / 256;
    let bytes: [u8; 4] = [
        (q3 % 256) as u8,
        (q2 % 256) as u8,
        (q1 % 256) as u8,
        (pattern % 256) as u8,
    ];
    proof {
        reveal_with_fuel(be_bytes, 5);
        reveal_with_fuel(radix, 5);
        if value < 0 {
            lemma_be_bytes_wraps(value as int, 4);
        }
        assert(bytes@ =~= be_bytes(pattern as int, 4));
    }
    bytes
}

/// The eight bytes that spell `value`, most significant first.
pub fn encode_i64(value: i64) -> (bytes: [u8; 8])
    ensures
        bytes@ == be_bytes(value as int, 8),
{
    let pattern: u64 = if value >= 0 {
        value as u64
    } else {
        (value - i64::MIN) as u64 + 0x8000_0000_0000_0000
    };
    let q1: u64 = pattern / 256;
    let q2: u64 = q1 / 256;
    let q3: u64 = q2 / 256;
    let q4: u64 = q3 / 256;
    let q5: u64 = q4 / 256;
    let q6: u64 = q5 / 256;
    let q7: u64 = q6 / 256;
    let bytes: [u8; 8] = [
        (q7 % 256) as u8,
        (q6 % 256) as u8,
        (q5 % 256) as u8,
        (q4 % 256) as u8,
        (q3 % 256) as u8,
        (q2 % 256) as u8,
        (q1 % 256) as u8,
        (pattern % 256) as u8,
    ];
    proof {
        reveal_with_fuel(be_bytes, 9);
        reveal_with_fuel(radix, 9);
        if value < 0 {
            lemma_be_bytes_wraps(value as int, 8);
        }
        assert(bytes@ =~= be_bytes(pattern as int, 8));
    }
    bytes
}

/// The number that one byte spells.
pub fn decode_i8(bytes: &[u8]) -> (value: i8)
    requires
        bytes@.len() == 1,
    ensures
        value == be_signed(bytes@),
{
    let pattern: u8 = bytes[0];
    proof {
        reveal_with_fuel(be_value, 2);
        reveal_with_fuel(radix, 2);
    }
    if pattern >= 0x80 {
        (pattern - 0x80) as i8 + i8::MIN
    } else {
        pattern as i8
    }
}

/// The number that two bytes spell, most significant first.
pub fn decode_i16(bytes: &[u8]) -> (value: i16)
    requires
        bytes@.len() == 2,
    ensures
        value == be_signed(bytes@),
{
    let pattern: u16 = bytes[0] as u16 * 256 + bytes[1] as u16;
    proof {
        reveal_with_fuel(be_value, 3);
        reveal_with_fuel(radix, 3);
    }
    if pattern >= 0x8000 {
        (pattern - 0x8000) as i16 + i16::MIN
    } else {
        pattern as i16
    }
}

/// The number that four bytes spell, most significant first.
pub fn decode_i32(bytes: &[u8]) -> (value: i32)
    requires
        bytes@.len() == 4,
    ensures
        value == be_signed(bytes@),
{
    let a1: u32 = bytes[0] as u32 * 256 + bytes[1] as u32;
    let a2: u32 = a1 * 256 + bytes[2] as u32;
    let pattern: u32 = a2 * 256 + bytes[3] as u32;
    proof {
        reveal_with_fuel(be_value, 5);
        reveal_with_fuel(radix, 5);
    }
    if pattern >= 0x8000_0000 {
        (pattern - 0x8000_0000) as i32 + i32::MIN
    } else {
        pattern as i32
    }
}

/// The number that eight bytes spell, most significant first.
pub fn decode_i64(bytes: &[u8]) -> (value: i64)
    requires
        bytes@.len() == 8,
    ensures
        value == be_signed(bytes@),
{
    let a1: u64 = bytes[0] as u64 * 256 + bytes[1] as u64;
    let a2: u64 = a1 * 256 + bytes[2] as u64;
    let a3: u64 = a2 * 256 + bytes[3] as u64;
    let a4: u64 = a3 * 256 + bytes[4] as u64;
    let a5: u64 = a4 * 256 + bytes[5] as u64;
    let a6: u64 = a5 * 256 + bytes[6] as u64;
    let pattern: u64 = a6 * 256 + bytes[7] as u64;
    proof {
        reveal_with_fuel(be_value, 9);
        reveal_with_fuel(radix, 9);
    }
    if pattern >= 0x8000_0000_0000_0000 {
        (pattern - 0x8000_0000_0000_0000) as i64 + i64::MIN
    } else {
        pattern as i64
    }
}

} // verus!
