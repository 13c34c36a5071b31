//! Two's complement reading of 16-bit words, and sign extension of the
//! immediate fields that LC-3 instructions carry.
use vstd::prelude::*;

verus! {

/// The integer that a 16-bit word denotes when read as two's complement.
pub open spec fn signed16(w: u16) -> int {
    if w < 0x8000 {
        w as int
    } else {
        w as int - 0x10000
    }
}

/// The 16-bit word whose two's complement reading is `i`, taken modulo 2^16.
pub open spec fn word16(i: int) -> u16 {
    (i % 0x10000) as u16
}

/// Whether `i` is the value of some `i16`.
pub open spec fn fits_i16(i: int) -> bool {
    -0x8000 <= i <= 0x7fff
}

/// The two's complement value of the low `bits` bits of `v`.
pub open spec fn sext(v: u16, bits: nat) -> int {
    let m = v as int % vstd::arithmetic::power2::pow2(bits) as int;
    if m >= vstd::arithmetic::power2::pow2((bits - 1) as nat) {
        m - vstd::arithmetic::power2::pow2(bits)
    } else {
        m
    }
}

/// The condition code (`0b100` negative, `0b010` zero, `0b001` positive)
/// that a result of value `v` sets.
pub open spec fn nzp_of(v: int) -> u8 {
    if v == 0 {
        0b010
    } else if v > 0 {
        0b001
    } else {
        0b100
    }
}

/// Reading a word as `i16` gives its two's complement value.
pub proof fn lemma_as_i16(w: u16)
    ensures
        (w as i16) as int == signed16(w),
{
    assert(w < 0x8000 ==> (w as i16) == w) by (bit_vector);
    assert(w >= 0x8000 ==> (w as i16) == w - 0x10000) by (bit_vector);
}

/// Storing an `i16` as a word keeps its value modulo 2^16.
pub proof fn lemma_as_u16(v: i16)
    ensures
        v as u16 == word16(v as int),
        signed16(v as u16) == v,
{
    assert(v >= 0 ==> (v as u16) == v) by (bit_vector);
    assert(v < 0 ==> (v as u16) == v + 0x10000) by (bit_vector);
}

/// Writing a word's own two's complement value gives the word back.
pub proof fn lemma_word16_signed16(w: u16)
    ensures
        word16(signed16(w)) == w,
{
}

/// Bit 15 of a word is set exactly when the word is at least `0x8000`.
pub proof fn lemma_top_bit(w: u16)
    by (bit_vector)
    ensures
        (w & 0x8000u16 != 0) == (w >= 0x8000u16),
{
}

/// Bitwise operations on `i16` act on the same bits as on `u16`.
pub proof fn lemma_bitwise_i16(a: u16, b: u16)
    by (bit_vector)
    ensures
        ((a as i16) & (b as i16)) as u16 == a & b,
        (!(a as i16)) as u16 == !a,
        ((b as i16) as u16) == b,
{
}

/// The shift pair that `sign_extend` uses, for every field width.
proof fn lemma_shift_pairs(v: u16)
    by (bit_vector)
    ensures
        ((v << 15usize) as i16 >> 15usize) == (if v % 2 >= 1 { v % 2 - 2 } else { (v % 2) as int }),
        ((v << 14usize) as i16 >> 14usize) == (if v % 4 >= 2 { v % 4 - 4 } else { (v % 4) as int }),
        ((v << 13usize) as i16 >> 13usize) == (if v % 8 >= 4 { v % 8 - 8 } else { (v % 8) as int }),
        ((v << 12usize) as i16 >> 12usize) == (if v % 16 >= 8 { v % 16 - 16 } else { (v % 16) as int }),
        ((v << 11usize) as i16 >> 11usize) == (if v % 32 >= 16 { v % 32 - 32 } else { (v % 32) as int }),
        ((v << 10usize) as i16 >> 10usize) == (if v % 64 >= 32 { v % 64 - 64 } else { (v % 64) as int }),
        ((v << 9usize) as i16 >> 9usize) == (if v % 128 >= 64 { v % 128 - 128 } else { (v % 128) as int }),
        ((v << 8usize) as i16 >> 8usize) == (if v % 256 >= 128 { v % 256 - 256 } else { (v % 256) as int }),
        ((v << 7usize) as i16 >> 7usize) == (if v % 512 >= 256 { v % 512 - 512 } else { (v % 512) as int }),
        ((v << 6usize) as i16 >> 6usize) == (if v % 1024 >= 512 { v % 1024 - 1024 } else { (v % 1024) as int }),
        ((v << 5usize) as i16 >> 5usize) == (if v % 2048 >= 1024 { v % 2048 - 2048 } else { (v % 2048) as int }),
        ((v << 4usize) as i16 >> 4usize) == (if v % 4096 >= 2048 { v % 4096 - 4096 } else { (v % 4096) as int }),
        ((v << 3usize) as i16 >> 3usize) == (if v % 8192 >= 4096 { v % 8192 - 8192 } else { (v % 8192) as int }),
        ((v << 2usize) as i16 >> 2usize) == (if v % 16384 >= 8192 { v % 16384 - 16384 } else { (v % 16384) as int }),
        ((v << 1usize) as i16 >> 1usize) == (if v % 32768 >= 16384 { v % 32768 - 32768 } else { (v % 32768) as int }),
        ((v << 0usize) as i16 >> 0usize) == (if v >= 32768 { v - 65536 } else { v as int }),
{
}

/// Only the low bits of a word take part in its sign extension, at each
/// width that an instruction field has.
pub proof fn lemma_sext_low_bits(v: u16)
    ensures
        sext(v % 0x20, 5) == sext(v, 5),
        sext(v % 0x40, 6) == sext(v, 6),
        sext(v % 0x200, 9) == sext(v, 9),
        sext(v % 0x800, 11) == sext(v, 11),
{
    vstd::arithmetic::power2::lemma2_to64();
}

/// Sign extension of the low `bits` bits gives a value that `bits` bits of two's
/// complement can hold, and that agrees with the word on those bits.
pub proof fn lemma_sext_range(v: u16, bits: nat)
    requires
        1 <= bits <= 16,
    ensures
        -vstd::arithmetic::power2::pow2((bits - 1) as nat) <= sext(v, bits)
            < vstd::arithmetic::power2::pow2((bits - 1) as nat),
        (sext(v, bits) - v) % (vstd::arithmetic::power2::pow2(bits) as int) == 0,
{
    let p = vstd::arithmetic::power2::pow2(bits) as int;
    let h = vstd::arithmetic::power2::pow2((bits - 1) as nat) as int;
    vstd::arithmetic::power2::lemma_pow2_unfold(bits);
    vstd::arithmetic::power2::lemma_pow2_pos(bits);
    let m = v as int % p;
    let q = v as int / p;
    vstd::arithmetic::div_mod::lemma_mod_bound(v as int, p);
    vstd::arithmetic::div_mod::lemma_fundamental_div_mod(v as int, p);
    if m >= h {
        assert(sext(v, bits) - v == (-(q + 1)) * p) by (nonlinear_arith)
            requires
                sext(v, bits) == m - p,
                v as int == p * q + m,
        ;
        vstd::arithmetic::div_mod::lemma_mod_multiples_basic(-(q + 1), p);
    } else {
        assert(sext(v, bits) - v == (-q) * p) by (nonlinear_arith)
            requires
                sext(v, bits) == m,
                v as int == p * q + m,
        ;
        vstd::arithmetic::div_mod::lemma_mod_multiples_basic(-q, p);
    }
}

/// Sign-extends the low `bits` bits of `val` to a 16-bit signed value.
pub(crate) fn sign_extend(val: u16, bits: usize) -> (r: i16)
    requires
        1 <= bits <= 16,
    ensures
        r as int == sext(val, bits as nat),
{
    proof {
        lemma_shift_pairs(val);
        vstd::arithmetic::power2::lemma2_to64();
        assert(val as int % 0x10000 == val as int);
    }
    (val << (16 - bits)) as i16 >> (16 - bits)
}

} // verus!
