//! Words of the machine: four bytes, least significant first, and the signed
//! fields that instructions carry inside them.

use vstd::arithmetic::div_mod::{lemma_mod_bound, lemma_mod_mod, lemma_mod_multiples_vanish};
use vstd::arithmetic::power2::{lemma2_to64, lemma_pow2_adds, lemma_pow2_pos, lemma_pow2_strictly_increases, pow2};
use vstd::bits::lemma_u64_shl_is_mul;
use vstd::prelude::*;

verus! {

/// The unsigned value of four bytes read least significant first.
pub open spec fn le_value(b0: u8, b1: u8, b2: u8, b3: u8) -> int {
    b0 + 0x100 * b1 + 0x1_0000 * b2 + 0x100_0000 * b3
}

/// The byte of weight `256^k` in an unsigned 32-bit value.
pub open spec fn le_byte(w: u32, k: int) -> u8 {
    if k == 0 {
        (w % 0x100) as u8
    } else if k == 1 {
        (w / 0x100 % 0x100) as u8
    } else if k == 2 {
        (w / 0x1_0000 % 0x100) as u8
    } else {
        (w / 0x100_0000 % 0x100) as u8
    }
}

/// The two's complement reading of an unsigned 32-bit value.
pub open spec fn to_signed(w: u32) -> i32 {
    if w >= 0x8000_0000 {
        (w - 0x1_0000_0000) as i32
    } else {
        w as i32
    }
}

/// The unsigned 32-bit value with the same bits as `v`.
pub open spec fn to_unsigned(v: i32) -> u32 {
    if v < 0 {
        (v + 0x1_0000_0000) as u32
    } else {
        v as u32
    }
}

/// The low `bits` bits of `value` read as a two's complement number of that
/// width.
pub open spec fn signed_field(value: u32, bits: nat) -> int {
    let modulus = pow2(bits) as int;
    let low = value as int % modulus;
    if 2 * low >= modulus {
        low - modulus
    } else {
        low
    }
}

/// A field read as a two's complement number whose sign bit weighs `half`:
/// the field itself under `half`, and the field less twice `half` from there
/// on.
pub open spec fn signed_from(field: int, half: int) -> int {
    if field >= half {
        field - 2 * half
    } else {
        field
    }
}

/// The low `bits` bits of `word` with the two lowest cleared, read as a two's
/// complement number of that width: a displacement that is a multiple of 4.
pub open spec fn aligned_field(word: u32, bits: nat) -> int {
    let raw = signed_field(word, bits);
    raw - raw % 4
}

/// The word whose bytes, least significant first, are `b0` to `b3`.
pub fn word_from_bytes(b0: u8, b1: u8, b2: u8, b3: u8) -> (w: u32)
    ensures
        w == le_value(b0, b1, b2, b3),
{
    let w: u32 = (b0 as u32) | ((b1 as u32) << 8) | ((b2 as u32) << 16) | ((b3 as u32) << 24);
    assert(w == b0 + 0x100 * b1 + 0x1_0000 * b2 + 0x100_0000 * b3) by (bit_vector)
        requires
            w == (b0 as u32) | ((b1 as u32) << 8) | ((b2 as u32) << 16) | ((b3 as u32) << 24),
    ;
    w
}

/// The four bytes of `w`, least significant first.
pub fn word_to_bytes(w: u32) -> (bytes: [u8; 4])
    ensures
        forall|k: int| 0 <= k < 4 ==> bytes[k] == le_byte(w, k),
        le_value(bytes[0], bytes[1], bytes[2], bytes[3]) == w,
{
    let b0: u8 = (w & 0xff) as u8;
    let b1: u8 = ((w >> 8) & 0xff) as u8;
    let b2: u8 = ((w >> 16) & 0xff) as u8;
    let b3: u8 = ((w >> 24) & 0xff) as u8;
    assert(w & 0xff == w % 0x100 && (w >> 8) & 0xff == w / 0x100 % 0x100 && (w >> 16) & 0xff == w
        / 0x1_0000 % 0x100 && (w >> 24) & 0xff == w / 0x100_0000 % 0x100) by (bit_vector);
    let bytes: [u8; 4] = [b0, b1, b2, b3];
    bytes
}

/// The signed number with the bits of `w`.
pub fn signed_of(w: u32) -> (v: i32)
    ensures
        v == to_signed(w),
{
    if w >= 0x8000_0000 {
        let low: u32 = w - 0x8000_0000;
        (low as i32) - 0x4000_0000 - 0x4000_0000
    } else {
        w as i32
    }
}

/// The unsigned number with the bits of `v`.
pub fn unsigned_of(v: i32) -> (w: u32)
    ensures
        w == to_unsigned(v),
        to_signed(w) == v,
{
    if v < 0 {
        let up: i32 = (v + 0x4000_0000) + 0x4000_0000;
        (up as u32) + 0x8000_0000
    } else {
        v as u32
    }
}

/// The low `bits` bits of `value` as a signed number: the highest of them is
/// the sign.
pub fn sign_extend(value: u32, bits: u32) -> (v: i32)
    requires
        1 <= bits <= 32,
    ensures
        v == signed_field(value, bits as nat),
{
    proof {
        lemma2_to64();
        if bits < 32 {
            lemma_pow2_strictly_increases(bits as nat, 32);
        }
        lemma_u64_shl_is_mul(1, bits as u64);
    }
    let modulus: u64 = 1u64 << (bits as u64);
    let low: u64 = (value as u64) % modulus;
    if 2 * low >= modulus {
        let v: i64 = (low as i64) - (modulus as i64);
        v as i32
    } else {
        low as i32
    }
}

/// The displacement in the low `bits` bits of `word`: signed from the
/// highest of them, with the two lowest cleared.
pub fn relative_offset(word: u32, bits: u32) -> (v: i32)
    requires
        3 <= bits <= 31,
    ensures
        v == aligned_field(word, bits as nat),
        -pow2((bits - 1) as nat) <= v < pow2((bits - 1) as nat),
        v % 4 == 0,
{
    let raw: i32 = sign_extend(word, bits);
    let low: i32 = (word % 4) as i32;
    proof {
        let m = pow2(bits as nat) as int;
        let rest = pow2((bits - 2) as nat) as int;
        lemma2_to64();
        lemma_pow2_adds(1, (bits - 1) as nat);
        lemma_pow2_adds(2, (bits - 2) as nat);
        lemma_pow2_pos((bits - 2) as nat);
        lemma_mod_mod(word as int, 4, rest);
        lemma_mod_multiples_vanish(-rest, word as int % m, 4);
        lemma_mod_bound(word as int, m);
        let eighth = pow2((bits - 3) as nat) as int;
        lemma_pow2_adds(2, (bits - 3) as nat);
        lemma_mod_multiples_vanish(eighth, raw as int, 4);
    }
    raw - low
}

} // verus!
