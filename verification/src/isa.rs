//! The fields of an LC-3 instruction word, as this machine reads them.
use vstd::prelude::*;

verus! {

/// Bits 15..12: the operation.
pub open spec fn opcode(ir: u16) -> u16 {
    ir / 0x1000
}

/// Bits 11..9: the destination register (the source register of a store).
pub open spec fn dr(ir: u16) -> u16 {
    (ir / 0x200) % 8
}

/// Bits 8..6: the first source register, or the base register.
pub open spec fn sr1(ir: u16) -> u16 {
    (ir / 0x40) % 8
}

/// Bits 2..0: the second source register.
pub open spec fn sr2(ir: u16) -> u16 {
    ir % 8
}

/// Bit 5: the immediate form of ADD and AND.
pub open spec fn imm_flag(ir: u16) -> bool {
    (ir / 0x20) % 2 == 1
}

/// Bit 11: the PC-relative form of JSR.
pub open spec fn jsr_flag(ir: u16) -> bool {
    (ir / 0x800) % 2 == 1
}

/// Whether a branch whose instruction word is `ir` is taken under the condition
/// code `nzp`. This machine tests bits 10, 9 and 8 of the instruction against the
/// negative, zero and positive flags.
pub open spec fn branch_enable(ir: u16, nzp: u8) -> bool {
    ||| (ir / 0x400) % 2 == 1 && (nzp / 4) % 2 == 1
    ||| (ir / 0x200) % 2 == 1 && (nzp / 2) % 2 == 1
    ||| (ir / 0x100) % 2 == 1 && nzp % 2 == 1
}

/// How the masks and shifts of the decoder pick the fields out of a word.
pub proof fn lemma_fields(ir: u16)
    by (bit_vector)
    ensures
        ((ir & 0xF000u16) >> 12u16) as u8 == ir / 0x1000,
        (ir & 0xF000u16) >> 12u16 == ir / 0x1000,
        (ir & (0b111u16 << 9u16)) >> 9u16 == (ir / 0x200) % 8,
        (ir & (0b111u16 << 6u16)) >> 6u16 == (ir / 0x40) % 8,
        ir & 0b111u16 == ir % 8,
        (ir & 0x20u16 > 0) == ((ir / 0x20) % 2 == 1),
        (ir & (1u16 << 11u16) != 0) == ((ir / 0x800) % 2 == 1),
        0x1Fu16 & ir == ir % 0x20,
        ir & 0x3Fu16 == ir % 0x40,
        ir & 0x1FFu16 == ir % 0x200,
        ir & 0x7FFu16 == ir % 0x800,
{
}

/// How the bit operations of the branch test compute `branch_enable`.
pub proof fn lemma_branch_bits(ir: u16, nzp: u8)
    by (bit_vector)
    ensures
        ((((ir & 0x400u16) >> 10u16) as u8 & (nzp >> 2u8 & 1u8)) | (((ir & 0x200u16) >> 9u16) as u8
            & (nzp >> 1u8 & 1u8)) | (((ir & 0x100u16) >> 8u16) as u8 & (nzp & 1u8)) > 0)
            == branch_enable(ir, nzp),
{
}

} // verus!
