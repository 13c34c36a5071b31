//! What each instruction does, stated on the instruction word and the
//! registers and memory directly: the fields are read off the word by
//! division, offsets are two's complement, and addresses and sums wrap
//! modulo 2^16.
use vstd::prelude::*;
use crate::machine::{CpuState, MEMORY_SIZE};
use crate::word::{lemma_as_i16, sext, signed16, word16};

verus! {

/// The low bits of `ir` below `m` (a power of two) read as a two's
/// complement number.
pub open spec fn low_signed(ir: u16, m: int) -> int {
    let o = ir as int % m;
    if o >= m / 2 {
        o - m
    } else {
        o
    }
}

/// The condition code that a result word sets: `0b100` when it reads as
/// negative, `0b010` when it is zero, `0b001` when positive.
pub open spec fn cc_of_word(w: u16) -> u8 {
    if w == 0 {
        0b010
    } else if w < 0x8000 {
        0b001
    } else {
        0b100
    }
}

/// The instruction word that the next cycle executes.
pub open spec fn next_word(s: CpuState) -> u16 {
    s.memory[s.pc as int]
}

proof fn lemma_offsets(ir: u16)
    ensures
        sext(ir, 5) == low_signed(ir, 0x20),
        sext(ir, 6) == low_signed(ir, 0x40),
        sext(ir, 9) == low_signed(ir, 0x200),
        sext(ir, 11) == low_signed(ir, 0x800),
{
    vstd::arithmetic::power2::lemma2_to64();
}

proof fn lemma_wrap(w: u16, o: int)
    ensures
        word16(signed16(w) + o) as int == (w + o) % 0x10000,
{
    let x = w + o;
    if w >= 0x8000 {
        assert((x - 0x10000) % 0x10000 == x % 0x10000) by {
            vstd::arithmetic::div_mod::lemma_mod_sub_multiples_vanish(x, 0x10000);
        }
    }
    vstd::arithmetic::div_mod::lemma_mod_bound(x, 0x10000);
}

proof fn lemma_cc(w: u16)
    ensures
        crate::word::nzp_of(signed16(w)) == cc_of_word(w),
{
}

/// ADD, AND and NOT: the destination register (bits 11..9) gets the sum, the
/// bitwise and, or the complement of the first source register (bits 8..6)
/// and the second source register (bits 2..0) or the sign-extended 5-bit
/// immediate (when bit 5 is set); the sum wraps modulo 2^16. The condition
/// code follows the sign of the word written, and `pc` moves to the next word.
pub proof fn lemma_alu_semantics(s: CpuState)
    requires
        s.wf(),
        s.can_step(),
    ensures
        ({
            let ir = next_word(s);
            let op = ir / 0x1000;
            let d = ((ir / 0x200) % 8) as int;
            let a = ((ir / 0x40) % 8) as int;
            let b = (ir % 8) as int;
            let imm = (ir / 0x20) % 2 == 1;
            let t = s.next();
            let r = t.registers[d];
            &&& op == 1 && !imm ==> r as int == (s.registers[a] + s.registers[b]) % 0x10000
            &&& op == 1 && imm ==> r as int == (s.registers[a] + low_signed(ir, 0x20)) % 0x10000
            &&& op == 5 && !imm ==> r == s.registers[a] & s.registers[b]
            &&& op == 5 && imm ==> r == s.registers[a] & ((low_signed(ir, 0x20) % 0x10000) as u16)
            &&& op == 9 ==> r == !s.registers[a]
            &&& (op == 1 || op == 5 || op == 9) ==> {
                &&& t.nzp == cc_of_word(r)
                &&& t.pc == s.pc + 1
                &&& t.memory == s.memory
                &&& forall|k: int| 0 <= k < 8 && k != d ==> t.registers[k] == s.registers[k]
            }
        }),
{
    let ir = next_word(s);
    let f = s.fetched();
    lemma_offsets(ir);
    let a = crate::isa::sr1(ir);
    let b = crate::isa::sr2(ir);
    let ra = s.registers[a as int];
    let rb = s.registers[b as int];
    lemma_wrap(ra, signed16(rb));
    lemma_wrap(rb, 0);
    lemma_wrap(ra, low_signed(ir, 0x20));
    crate::word::lemma_word16_signed16(ra & rb);
    crate::word::lemma_word16_signed16(ra & word16(low_signed(ir, 0x20)));
    crate::word::lemma_word16_signed16(!ra);
    lemma_cc(ra & rb);
    lemma_cc(ra & word16(low_signed(ir, 0x20)));
    lemma_cc(!ra);
    let v = signed16(ra) + signed16(rb);
    let vi = signed16(ra) + low_signed(ir, 0x20);
    assert(crate::word::fits_i16(v) ==> cc_of_word(word16(v)) == crate::word::nzp_of(v));
    assert(crate::word::fits_i16(vi) ==> cc_of_word(word16(vi)) == crate::word::nzp_of(vi));
    assert(signed16(rb) == rb || signed16(rb) == rb - 0x10000);
    assert((ra + signed16(rb)) % 0x10000 == (ra + rb) % 0x10000) by {
        if signed16(rb) != rb {
            vstd::arithmetic::div_mod::lemma_mod_sub_multiples_vanish(ra + rb, 0x10000);
        }
    }
}

/// LD, LDI and LDR put a word of memory in the destination register (bits
/// 11..9): LD the word at `pc + 1` plus the sign-extended 9-bit offset, LDI
/// the word whose address is stored there, LDR the word at the base register
/// (bits 8..6) plus the sign-extended 6-bit offset, addresses wrapping modulo
/// 2^16. The condition code follows the sign of the loaded word, whatever it
/// was before, and memory is unchanged.
pub proof fn lemma_load_semantics(s: CpuState)
    requires
        s.wf(),
        s.can_step(),
    ensures
        ({
            let ir = next_word(s);
            let op = ir / 0x1000;
            let d = ((ir / 0x200) % 8) as int;
            let a = ((ir / 0x40) % 8) as int;
            let t = s.next();
            let pc_rel = (s.pc + 1 + low_signed(ir, 0x200)) % 0x10000;
            let based = (s.registers[a] + low_signed(ir, 0x40)) % 0x10000;
            &&& op == 2 ==> t.registers[d] == s.memory[pc_rel]
            &&& op == 10 ==> t.registers[d] == s.memory[s.memory[pc_rel] as int]
            &&& op == 6 ==> t.registers[d] == s.memory[based]
            &&& (op == 2 || op == 10 || op == 6) ==> {
                &&& t.nzp == cc_of_word(t.registers[d])
                &&& t.pc == s.pc + 1
                &&& t.memory == s.memory
                &&& forall|k: int| 0 <= k < 8 && k != d ==> t.registers[k] == s.registers[k]
            }
        }),
{
    let ir = next_word(s);
    let f = s.fetched();
    lemma_offsets(ir);
    lemma_wrap(f.pc, low_signed(ir, 0x200));
    lemma_wrap(s.registers[crate::isa::sr1(ir) as int], low_signed(ir, 0x40));
    let a = f.pc_address();
    let m = s.memory[a as int];
    lemma_cc(m);
    lemma_cc(s.memory[m as int]);
    lemma_cc(s.memory[f.base_address() as int]);
}

/// ST, STI and STR write the destination register (bits 11..9) to one word of
/// memory: ST at `pc + 1` plus the sign-extended 9-bit offset, STI at the
/// address stored there, STR at the base register plus the sign-extended 6-bit
/// offset. Nothing else in memory and no register changes. LEA writes the
/// address `pc + 1` plus the 9-bit offset to the destination register and keeps
/// the condition code.
pub proof fn lemma_store_semantics(s: CpuState)
    requires
        s.wf(),
        s.can_step(),
    ensures
        ({
            let ir = next_word(s);
            let op = ir / 0x1000;
            let d = ((ir / 0x200) % 8) as int;
            let a = ((ir / 0x40) % 8) as int;
            let t = s.next();
            let pc_rel = (s.pc + 1 + low_signed(ir, 0x200)) % 0x10000;
            let based = (s.registers[a] + low_signed(ir, 0x40)) % 0x10000;
            &&& op == 3 ==> t.memory == s.memory.update(pc_rel, s.registers[d])
            &&& op == 11 ==> t.memory == s.memory.update(s.memory[pc_rel] as int, s.registers[d])
            &&& op == 7 ==> t.memory == s.memory.update(based, s.registers[d])
            &&& (op == 3 || op == 11 || op == 7) ==> t.registers == s.registers && t.nzp == s.nzp
            &&& op == 14 ==> {
                &&& t.registers == s.registers.update(d, pc_rel as u16)
                &&& t.nzp == s.nzp
                &&& t.memory == s.memory
            }
            &&& (op == 3 || op == 11 || op == 7 || op == 14) ==> t.pc == s.pc + 1
        }),
{
    let ir = next_word(s);
    let f = s.fetched();
    lemma_offsets(ir);
    lemma_wrap(f.pc, low_signed(ir, 0x200));
    lemma_wrap(s.registers[crate::isa::sr1(ir) as int], low_signed(ir, 0x40));
}

/// BR moves `pc` to `pc + 1` plus the sign-extended 9-bit offset exactly when
/// one of bits 10, 9, 8 of the instruction is set together with the negative,
/// zero, positive flag respectively; JMP moves it to the base register (bits
/// 8..6); JSR and JSRR first save `pc + 1` in R7, then JSR (bit 11 set) jumps
/// by the sign-extended 11-bit offset, backwards when it is negative, and JSRR
/// to the base register as it reads after R7 is written. TRAP stops the clock.
/// Addresses wrap modulo 2^16.
pub proof fn lemma_control_semantics(s: CpuState)
    requires
        s.wf(),
        s.can_step(),
    ensures
        ({
            let ir = next_word(s);
            let op = ir / 0x1000;
            let a = ((ir / 0x40) % 8) as int;
            let t = s.next();
            let taken = ((ir / 0x400) % 2 == 1 && (s.nzp / 4) % 2 == 1) || ((ir / 0x200) % 2 == 1
                && (s.nzp / 2) % 2 == 1) || ((ir / 0x100) % 2 == 1 && s.nzp % 2 == 1);
            &&& op == 0 ==> t.pc as int == if taken {
                (s.pc + 1 + low_signed(ir, 0x200)) % 0x10000
            } else {
                s.pc + 1
            }
            &&& op == 12 ==> t.pc == s.registers[a]
            &&& op == 4 ==> t.registers == s.registers.update(7, (s.pc + 1) as u16)
            &&& op == 4 && (ir / 0x800) % 2 == 1 ==> t.pc as int == (s.pc + 1 + low_signed(ir, 0x800))
                % 0x10000
            &&& op == 4 && (ir / 0x800) % 2 == 0 ==> t.pc == if a == 7 {
                (s.pc + 1) as u16
            } else {
                s.registers[a]
            }
            &&& op == 15 ==> t.mcr == 0
            &&& (op == 0 || op == 12 || op == 4 || op == 15) ==> t.memory == s.memory
            &&& (op == 0 || op == 12 || op == 15) ==> t.registers == s.registers
        }),
{
    let ir = next_word(s);
    let f = s.fetched();
    lemma_offsets(ir);
    lemma_wrap(f.pc, low_signed(ir, 0x200));
    lemma_wrap(f.pc, low_signed(ir, 0x800));
}

} // verus!
