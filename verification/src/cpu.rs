//! The LC-3 processor: its registers, its memory and its instruction cycle.
use vstd::prelude::*;
use crate::isa::{branch_enable, dr, lemma_branch_bits, lemma_fields, sr1, sr2};
use crate::machine::{CpuState, MEMORY_SIZE};
use crate::word::{
    fits_i16, lemma_as_i16, lemma_as_u16, lemma_bitwise_i16, lemma_sext_low_bits, lemma_top_bit,
    lemma_word16_signed16, nzp_of, sext, sign_extend, signed16, word16,
};

verus! {

broadcast use vstd::array::group_array_axioms;

/// An LC-3 processor with 65535 words of memory.
pub struct CPU {
    ir: u16,
    mdr: u16,
    mar: u16,
    mcr: u16,
    pc: u16,
    acv: bool,
    memory: [u16; 0xFFFF],
    registers: [u16; 8],
    psr: u16,
    interrupt: bool,
    ben: bool,
    nzp: u8,
}

impl View for CPU {
    type V = CpuState;

    closed spec fn view(&self) -> CpuState {
        CpuState {
            ir: self.ir,
            mdr: self.mdr,
            mar: self.mar,
            mcr: self.mcr,
            pc: self.pc,
            acv: self.acv,
            memory: self.memory@,
            registers: self.registers@,
            psr: self.psr,
            interrupt: self.interrupt,
            ben: self.ben,
            nzp: self.nzp,
        }
    }
}

impl CPU {
    /// Every processor has 65535 words of memory and 8 registers.
    pub proof fn lemma_wf(&self)
        ensures
            self@.wf(),
    {
    }

    fn fetch(&mut self)
        requires
            old(self)@.can_step(),
        ensures
            final(self)@ == old(self)@.next(),
    {
        self.mar = self.pc;
        self.pc += 1;
        self.mdr = self.memory[self.mar as usize];
        self.ir = self.mdr;
        self.set_ben();
        assert(self@ == old(self)@.fetched());
        self.decode();
    }

    fn set_ben(&mut self)
        ensures
            final(self)@ == (CpuState { ben: branch_enable(old(self).ir, old(self).nzp), ..old(self)@ }),
    {
        let n = self.nzp >> 2u8 & 1u8;
        let z = self.nzp >> 1u8 & 1u8;
        let p = self.nzp & 1u8;

        let ir_11 = ((self.ir & 0x400u16) >> 10u16) as u8;
        let ir_10 = ((self.ir & 0x200u16) >> 9u16) as u8;
        let ir_9 = ((self.ir & 0x100u16) >> 8u16) as u8;

        proof {
            lemma_branch_bits(self.ir, self.nzp);
        }
        self.ben = (ir_11 & n | ir_10 & z | ir_9 & p) > 0;
    }

    fn get_reg1(&self) -> (r: u16)
        ensures
            r == dr(self.ir),
    {
        proof {
            lemma_fields(self.ir);
        }
        let reg_mask: u16 = 0b111u16 << 9u16;
        let reg = (self.ir & reg_mask) >> 9u16;

        reg
    }

    fn get_reg1_val(&self) -> (r: u16)
        ensures
            r == self@.reg(dr(self.ir)),
    {
        proof {
            lemma_fields(self.ir);
        }
        let reg_mask: u16 = 0b111u16 << 9u16;
        let reg = (self.ir & reg_mask) >> 9u16;

        self.registers[reg as usize]
    }

    fn get_reg2_val(&self) -> (r: u16)
        ensures
            r == self@.reg(sr1(self.ir)),
    {
        proof {
            lemma_fields(self.ir);
        }
        let reg_mask: u16 = 0b111u16 << 6u16;
        let reg = (self.ir & reg_mask) >> 6u16;

        self.registers[reg as usize]
    }

    fn get_reg3_val(&self) -> (r: u16)
        ensures
            r == self@.reg(sr2(self.ir)),
    {
        proof {
            lemma_fields(self.ir);
        }
        let reg_mask: u16 = 0b111;
        let reg = self.ir & reg_mask;

        self.registers[reg as usize]
    }

    fn set_nzp(&mut self, val: i16)
        ensures
            final(self)@ == (CpuState { nzp: nzp_of(val as int), ..old(self)@ }),
    {
        self.nzp = 0;
        if val == 0 {
            self.nzp = 0b010;
        } else if val > 0 {
            self.nzp = 0b001;
        } else {
            self.nzp = 0b100;
        }
    }

    // The address functions below set `mar`; the PC-relative one also serves
    // the indirect loads and stores.
    fn evaluate_pc_relative_address(&mut self)
        requires
            fits_i16(old(self)@.pc_offset(9)),
        ensures
            final(self)@ == (CpuState { mar: old(self)@.pc_address(), ..old(self)@ }),
    {
        proof {
            lemma_fields(self.ir);
        }
        let imm_mask: u16 = 0x1FF;

        let imm = self.ir & imm_mask;

        let ex_imm = sign_extend(imm, 9);
        proof {
            lemma_sext_low_bits(self.ir);
            lemma_as_i16(self.pc);
            lemma_as_u16((self.pc as i16 + ex_imm) as i16);
        }
        self.mar = (self.pc as i16 + ex_imm) as u16;
    }

    fn evalate_base_offset_address(&mut self)
        requires
            fits_i16(old(self)@.base_offset()),
        ensures
            final(self)@ == (CpuState { mar: old(self)@.base_address(), ..old(self)@ }),
    {
        proof {
            lemma_fields(self.ir);
        }
        let imm_mask: u16 = 0x3F;
        let imm = self.ir & imm_mask;

        let ex_imm = sign_extend(imm, 6);
        let reg_val = self.get_reg2_val();
        proof {
            lemma_sext_low_bits(self.ir);
            lemma_as_i16(reg_val);
            lemma_as_u16((reg_val as i16 + ex_imm) as i16);
        }

        self.mar = (reg_val as i16 + ex_imm) as u16;
    }

    // ld, ldr, ldi
    fn load_reg_from_memory(&mut self)
        requires
            old(self).mar < MEMORY_SIZE,
        ensures
            final(self)@ == old(self)@.load(old(self).mar),
    {
        self.mdr = self.memory[self.mar as usize];
        let reg = self.get_reg1();
        self.registers[reg as usize] = self.mdr;
        proof {
            lemma_as_i16(self.mdr);
        }
        let m = self.mdr;
        self.set_nzp(m as i16);
    }

    // sti, str, st
    fn store_reg_to_memory(&mut self)
        requires
            old(self).mar < MEMORY_SIZE,
        ensures
            final(self)@ == old(self)@.store(old(self).mar),
    {
        let reg_val = self.get_reg1_val();
        self.mdr = reg_val;
        self.memory[self.mar as usize] = self.mdr;
    }

    fn execute_add_imm(&mut self)
        requires
            fits_i16(signed16(old(self)@.reg(sr1(old(self).ir))) + sext(old(self).ir, 5)),
        ensures
            final(self)@ == old(self)@.with_result(
                signed16(old(self)@.reg(sr1(old(self).ir))) + sext(old(self).ir, 5),
            ),
    {
        proof {
            lemma_fields(self.ir);
        }
        let dr = self.get_reg1();

        let sr1 = self.get_reg2_val() as i16;
        let imm = 0x1Fu16 & self.ir;
        let ex_imm = sign_extend(imm, 5);
        proof {
            lemma_sext_low_bits(self.ir);
            lemma_as_i16(self@.reg(crate::isa::sr1(self.ir)));
        }

        let val = sr1 as i16 + ex_imm;
        self.set_nzp(val);

        proof {
            lemma_as_u16(val);
        }
        self.registers[dr as usize] = val as u16;
    }

    fn execute_and_imm(&mut self)
        ensures
            final(self)@ == old(self)@.with_result(
                signed16(old(self)@.reg(sr1(old(self).ir)) & word16(sext(old(self).ir, 5))),
            ),
    {
        proof {
            lemma_fields(self.ir);
        }
        let dr = self.get_reg1();

        let sr1 = self.get_reg2_val() as i16;
        let imm = 0x1Fu16 & self.ir;
        let ex_imm = sign_extend(imm, 5);
        proof {
            lemma_sext_low_bits(self.ir);
            lemma_as_u16(ex_imm);
            lemma_as_i16(ex_imm as u16);
            assert((ex_imm as u16) as i16 == ex_imm);
            assert(ex_imm as u16 == word16(sext(self.ir, 5)));
            lemma_bitwise_i16(self@.reg(crate::isa::sr1(self.ir)), ex_imm as u16);
        }

        let val = sr1 as i16 & ex_imm;
        proof {
            lemma_as_u16(val);
            lemma_word16_signed16(val as u16);
        }
        self.set_nzp(val);

        self.registers[dr as usize] = val as u16;
    }

    fn execute_add_reg(&mut self)
        requires
            fits_i16(
                signed16(old(self)@.reg(sr1(old(self).ir))) + signed16(
                    old(self)@.reg(sr2(old(self).ir)),
                ),
            ),
        ensures
            final(self)@ == old(self)@.with_result(
                signed16(old(self)@.reg(sr1(old(self).ir))) + signed16(
                    old(self)@.reg(sr2(old(self).ir)),
                ),
            ),
    {
        let dr = self.get_reg1();

        let sr1 = self.get_reg2_val() as i16;
        let sr2 = self.get_reg3_val() as i16;
        proof {
            lemma_as_i16(self@.reg(crate::isa::sr1(self.ir)));
            lemma_as_i16(self@.reg(crate::isa::sr2(self.ir)));
        }

        let val = sr1 + sr2;

        self.set_nzp(val);

        proof {
            lemma_as_u16(val);
        }
        self.registers[dr as usize] = val as u16;
    }

    fn execute_and_reg(&mut self)
        ensures
            final(self)@ == old(self)@.with_result(
                signed16(old(self)@.reg(sr1(old(self).ir)) & old(self)@.reg(sr2(old(self).ir))),
            ),
    {
        let dr = self.get_reg1();

        let sr1 = self.get_reg2_val() as i16;
        let sr2 = self.get_reg3_val() as i16;

        let val = sr1 & sr2;
        proof {
            lemma_bitwise_i16(
                self@.reg(crate::isa::sr1(self.ir)),
                self@.reg(crate::isa::sr2(self.ir)),
            );
            lemma_as_u16(val);
            lemma_word16_signed16(val as u16);
        }

        self.set_nzp(val);

        self.registers[dr as usize] = val as u16;
    }

    fn execute_not(&mut self)
        ensures
            final(self)@ == old(self)@.with_result(signed16(!old(self)@.reg(sr1(old(self).ir)))),
    {
        let dr = self.get_reg1();

        let val = !(self.get_reg2_val() as i16);
        proof {
            lemma_bitwise_i16(self@.reg(crate::isa::sr1(self.ir)), 0);
            lemma_as_u16(val);
            lemma_word16_signed16(val as u16);
        }
        self.set_nzp(val);

        self.registers[dr as usize] = val as u16;
    }

    fn decode(&mut self)
        requires
            old(self)@.execute_defined(),
        ensures
            final(self)@ == old(self)@.execute(),
    {
        proof {
            lemma_fields(self.ir);
        }
        let opcode: u8 = ((self.ir & 0xF000u16) >> 12u16) as u8;
        match opcode {
            0b0001 => {  // ADD
                let i_mode = self.ir & 0x20u16;
                if i_mode > 0 {
                    self.execute_add_imm();
                } else {
                    self.execute_add_reg();
                }
            },
            0b0101 => {  // AND
                let i_mode = self.ir & 0x20u16;
                if i_mode > 0 {
                    self.execute_and_imm();
                } else {
                    self.execute_and_reg();
                }
            },
            0b0000 => {  // BR
                if !self.ben {
                    return;
                }
                self.evaluate_pc_relative_address();
                self.pc = self.mar;
            },
            0b1100 => {  // JMP / RET
                let val = self.get_reg2_val();
                self.pc = val;
            },
            0b0100 => {  // JSR/JSRR
                self.registers[7] = self.pc;

                let i_mask: u16 = 1u16 << 11u16;
                if self.ir & i_mask != 0 {
                    let imm_mask: u16 = 0x7FF;
                    let imm = self.ir & imm_mask;
                    let ex_imm = sign_extend(imm, 11);
                    proof {
                        lemma_sext_low_bits(self.ir);
                        lemma_as_i16(self.pc);
                        lemma_as_u16((self.pc as i16 + ex_imm) as i16);
                    }

                    self.pc = (self.pc as i16 + ex_imm) as u16;
                } else {
                    let val = self.get_reg2_val();
                    self.pc = val;
                }
            },
            0b1001 => {  // NOT
                self.execute_not();
            },
            0b0010 => {  // LD
                self.evaluate_pc_relative_address();
                self.load_reg_from_memory();
            },
            0b1010 => {  // LDI
                self.evaluate_pc_relative_address();
                self.mdr = self.memory[self.mar as usize];
                self.mar = self.mdr;
                self.load_reg_from_memory();
            },
            0b0110 => {  // LDR
                self.evalate_base_offset_address();
                self.load_reg_from_memory();
            },
            0b1110 => {  // LEA
                let imm_mask: u16 = 0x1FF;
                let imm = self.ir & imm_mask;
                let ex_imm = sign_extend(imm, 9);

                let reg = self.get_reg1();
                proof {
                    lemma_sext_low_bits(self.ir);
                    lemma_as_i16(self.pc);
                }

                let val = self.pc as i16 + ex_imm;
                proof {
                    lemma_as_u16(val);
                }

                self.registers[reg as usize] = val as u16
            },
            0b0011 => {  // ST
                self.evaluate_pc_relative_address();
                self.store_reg_to_memory();
            },
            0b1011 => {  // STI
                self.evaluate_pc_relative_address();
                self.mdr = self.memory[self.mar as usize];
                self.mar = self.mdr;
                self.store_reg_to_memory();
            },
            0b0111 => {  // STR
                self.evalate_base_offset_address();
                self.store_reg_to_memory();
            },
            0b1111 => {  // TRAP
                self.mcr = 0;
            },
            0b1000 => {  // RTI
            },
            _ => {},
        }
    }
}

impl CPU {
    /// Executes instructions until the clock stops: the machine ends in the
    /// first state, along its instruction cycles, whose clock enable bit is clear.
    pub fn run(&mut self)
        requires
            old(self)@.halts(),
        ensures
            old(self)@.runs_to(final(self)@),
    {
        let ghost s0 = self@;
        let ghost n: nat = choose|n: nat| s0.halts_within(n);
        let ghost mut k: nat = 0;
        proof {
            lemma_top_bit(self.mcr);
        }
        while (self.mcr & 0x8000u16) != 0
            invariant
                s0.halts_within(n),
                self@ == s0.iterate(k),
                k <= n,
                forall|j: nat| j < k ==> (#[trigger] s0.iterate(j)).is_running(),
            decreases n - k,
        {
            proof {
                lemma_top_bit(self.mcr);
                assert(k < n);
                assert(s0.iterate(k).can_step());
            }
            self.step();
            proof {
                assert forall|j: nat| j < k + 1 implies (#[trigger] s0.iterate(j)).is_running() by {
                    if j == k {
                    }
                }
                k = k + 1;
            }
        }
        proof {
            lemma_top_bit(self.mcr);
            assert(s0.iterate(k) == self@);
        }
    }

    /// Executes one instruction cycle: fetch, decode and execute.
    pub fn step(&mut self)
        requires
            old(self)@.can_step(),
        ensures
            final(self)@ == old(self)@.next(),
    {
        // program step
        self.fetch();
    }

    /// Whether `step` can be called on this machine: the next instruction
    /// cycle neither overflows a signed 16-bit sum nor reaches address `0xFFFF`.
    pub fn can_step(&self) -> (b: bool)
        ensures
            b == self@.can_step(),
    {
        if self.pc >= 0xFFFF {
            return false;
        }
        let ir = self.memory[self.pc as usize];
        let pc = self.pc + 1;
        proof {
            lemma_fields(ir);
            lemma_sext_low_bits(ir);
            lemma_as_i16(pc);
        }
        let opcode = (ir & 0xF000u16) >> 12u16;
        let base = self.registers[((ir & (0b111u16 << 6u16)) >> 6u16) as usize];
        proof {
            lemma_as_i16(base);
        }
        let pc_rel9 = pc as i16 as i32 + sign_extend(ir & 0x1FF, 9) as i32;
        let fits9 = -0x8000 <= pc_rel9 && pc_rel9 <= 0x7fff;
        if opcode == 0b0001 {
            let other = if ir & 0x20u16 > 0 {
                sign_extend(0x1Fu16 & ir, 5)
            } else {
                let r = self.registers[(ir & 0b111u16) as usize];
                proof {
                    lemma_as_i16(r);
                }
                r as i16
            };
            let sum = base as i16 as i32 + other as i32;
            -0x8000 <= sum && sum <= 0x7fff
        } else if opcode == 0b0000 {
            proof {
                lemma_branch_bits(ir, self.nzp);
            }
            let n = self.nzp >> 2u8 & 1u8;
            let z = self.nzp >> 1u8 & 1u8;
            let p = self.nzp & 1u8;
            let ir_11 = ((ir & 0x400u16) >> 10u16) as u8;
            let ir_10 = ((ir & 0x200u16) >> 9u16) as u8;
            let ir_9 = ((ir & 0x100u16) >> 8u16) as u8;
            let ben = (ir_11 & n | ir_10 & z | ir_9 & p) > 0;
            !ben || fits9
        } else if opcode == 0b0100 {
            if ir & (1u16 << 11u16) != 0 {
                let target = pc as i16 as i32 + sign_extend(ir & 0x7FF, 11) as i32;
                -0x8000 <= target && target <= 0x7fff
            } else {
                true
            }
        } else if opcode == 0b0010 || opcode == 0b0011 {
            if fits9 {
                let addr = pc_rel9 as i16;
                proof {
                    lemma_as_u16(addr);
                }
                (addr as u16) < 0xFFFF
            } else {
                false
            }
        } else if opcode == 0b1010 || opcode == 0b1011 {
            if fits9 {
                let addr = pc_rel9 as i16;
                proof {
                    lemma_as_u16(addr);
                }
                (addr as u16) < 0xFFFF && self.memory[addr as u16 as usize] < 0xFFFF
            } else {
                false
            }
        } else if opcode == 0b0110 || opcode == 0b0111 {
            let target = base as i16 as i32 + sign_extend(ir & 0x3F, 6) as i32;
            if -0x8000 <= target && target <= 0x7fff {
                let addr = target as i16;
                proof {
                    lemma_as_u16(addr);
                }
                (addr as u16) < 0xFFFF
            } else {
                false
            }
        } else if opcode == 0b1110 {
            fits9
        } else {
            true
        }
    }

    /// The words of memory from address `start` up to, not including, `end`.
    pub fn view_memory_slice(&self, start: usize, end: usize) -> (r: &[u16])
        requires
            start <= end <= MEMORY_SIZE,
        ensures
            r@ == self@.memory.subrange(start as int, end as int),
    {
        // look at memory from start to end location
        vstd::slice::slice_subrange(self.memory.as_slice(), start, end)
    }

    /// All of memory.
    pub fn view_all_memory(&self) -> (r: &[u16])
        ensures
            r@ == self@.memory,
    {
        self.memory.as_slice()
    }

    /// The eight general purpose registers.
    pub fn view_registers(&self) -> (r: &[u16; 8])
        ensures
            r@ == self@.registers,
    {
        // view all 8 registers
        &self.registers
    }

    /// The program counter.
    pub fn view_pc(&self) -> (r: u16)
        ensures
            r == self@.pc,
    {
        // get current pc value
        self.pc
    }

    /// Copies `program` into memory from address 0 on; the rest of the
    /// machine is unchanged.
    pub fn set_program(&mut self, program: &[u16])
        requires
            program@.len() <= MEMORY_SIZE,
        ensures
            final(self)@ == (CpuState {
                memory: program@ + old(self)@.memory.subrange(program@.len() as int, MEMORY_SIZE as int),
                ..old(self)@
            }),
    {
        let mut i: usize = 0;
        while i < program.len()
            invariant
                i <= program@.len() <= MEMORY_SIZE,
                self@ == (CpuState {
                    memory: program@.subrange(0, i as int) + old(self)@.memory.subrange(i as int, MEMORY_SIZE as int),
                    ..old(self)@
                }),
            decreases program@.len() - i,
        {
            let v = program[i];
            self.memory[i] = v;
            i += 1;
        }
    }
}

impl Default for CPU {
    fn default() -> (r: Self)
        ensures
            r@ == CpuState::initial(),
    {
        CPU {
            ir: 0,
            mdr: 0,
            mar: 0,
            mcr: 0x8000,
            pc: 0x0000,
            acv: false,
            memory: [0u16; 0xFFFF],
            registers: [0u16; 8],
            psr: 0,
            interrupt: false,
            ben: false,
            nzp: 0,
        }
    }
}

} // verus!
