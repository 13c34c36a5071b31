//! The state of the machine as a mathematical value, and what one
//! instruction cycle does to it.
use vstd::prelude::*;
use crate::isa::{branch_enable, dr, imm_flag, jsr_flag, opcode, sr1, sr2};
use crate::word::{fits_i16, nzp_of, sext, signed16, word16};

verus! {

/// Number of words of memory; the addresses run from 0 to `MEMORY_SIZE - 1`.
pub const MEMORY_SIZE: usize = 0xFFFF;

/// Number of general purpose registers.
pub const REGISTER_COUNT: usize = 8;

/// Every part of the machine's state.
#[verifier::ext_equal]
pub ghost struct CpuState {
    /// Instruction register.
    pub ir: u16,
    /// Memory data register.
    pub mdr: u16,
    /// Memory address register.
    pub mar: u16,
    /// Machine control register; bit 15 enables the clock.
    pub mcr: u16,
    /// Program counter.
    pub pc: u16,
    pub acv: bool,
    pub memory: Seq<u16>,
    pub registers: Seq<u16>,
    pub psr: u16,
    pub interrupt: bool,
    /// Branch enable, computed at every fetch.
    pub ben: bool,
    /// Condition code: `0b100` negative, `0b010` zero, `0b001` positive.
    pub nzp: u8,
}

impl CpuState {
    /// The sizes of memory and of the register file.
    pub open spec fn wf(self) -> bool {
        &&& self.memory.len() == MEMORY_SIZE
        &&& self.registers.len() == REGISTER_COUNT
    }

    /// The state of a machine that was just switched on: everything zero
    /// but the clock enable bit of the machine control register.
    pub open spec fn initial() -> CpuState {
        CpuState {
            ir: 0,
            mdr: 0,
            mar: 0,
            mcr: 0x8000,
            pc: 0,
            acv: false,
            memory: Seq::new(MEMORY_SIZE as nat, |i: int| 0u16),
            registers: Seq::new(REGISTER_COUNT as nat, |i: int| 0u16),
            psr: 0,
            interrupt: false,
            ben: false,
            nzp: 0,
        }
    }

    /// Whether the clock runs (bit 15 of the machine control register).
    pub open spec fn is_running(self) -> bool {
        self.mcr >= 0x8000
    }

    pub open spec fn reg(self, r: u16) -> u16 {
        self.registers[r as int]
    }

    /// The condition code holds at most one flag.
    pub open spec fn nzp_valid(self) -> bool {
        self.nzp == 0 || self.nzp == 1 || self.nzp == 2 || self.nzp == 4
    }

    /// The state after the fetch phase: the word at `pc` is in `ir` and `mdr`,
    /// `mar` holds its address, `pc` points past it, and `ben` is computed.
    pub open spec fn fetched(self) -> CpuState {
        let ir = self.memory[self.pc as int];
        CpuState {
            mar: self.pc,
            pc: (self.pc + 1) as u16,
            mdr: ir,
            ir: ir,
            ben: branch_enable(ir, self.nzp),
            ..self
        }
    }

    /// `pc` plus the sign-extended low `bits` bits of `ir`, as an integer.
    pub open spec fn pc_offset(self, bits: nat) -> int {
        signed16(self.pc) + sext(self.ir, bits)
    }

    /// The base register plus the sign-extended 6-bit offset, as an integer.
    pub open spec fn base_offset(self) -> int {
        signed16(self.reg(sr1(self.ir))) + sext(self.ir, 6)
    }

    /// The address that the PC-relative form names.
    pub open spec fn pc_address(self) -> u16 {
        word16(self.pc_offset(9))
    }

    /// The address that the base+offset form names.
    pub open spec fn base_address(self) -> u16 {
        word16(self.base_offset())
    }

    /// Writes the result `v` of an operation to the destination register and
    /// sets the condition code from it.
    pub open spec fn with_result(self, v: int) -> CpuState {
        CpuState {
            registers: self.registers.update(dr(self.ir) as int, word16(v)),
            nzp: nzp_of(v),
            ..self
        }
    }

    /// Loads the word at `addr` into the destination register.
    pub open spec fn load(self, addr: u16) -> CpuState {
        let m = self.memory[addr as int];
        CpuState {
            mar: addr,
            mdr: m,
            registers: self.registers.update(dr(self.ir) as int, m),
            nzp: nzp_of(signed16(m)),
            ..self
        }
    }

    /// Stores the destination register (the source of a store) at `addr`.
    pub open spec fn store(self, addr: u16) -> CpuState {
        let v = self.reg(dr(self.ir));
        CpuState { mar: addr, mdr: v, memory: self.memory.update(addr as int, v), ..self }
    }

    /// Whether executing the instruction in `ir` stays within the machine:
    /// no signed 16-bit sum overflows and no memory access reaches address `0xFFFF`.
    pub open spec fn execute_defined(self) -> bool {
        let ir = self.ir;
        let op = opcode(ir);
        if op == 0b0001 {
            if imm_flag(ir) {
                fits_i16(signed16(self.reg(sr1(ir))) + sext(ir, 5))
            } else {
                fits_i16(signed16(self.reg(sr1(ir))) + signed16(self.reg(sr2(ir))))
            }
        } else if op == 0b0000 {
            self.ben ==> fits_i16(self.pc_offset(9))
        } else if op == 0b0100 {
            jsr_flag(ir) ==> fits_i16(self.pc_offset(11))
        } else if op == 0b0010 || op == 0b0011 {
            fits_i16(self.pc_offset(9)) && self.pc_address() < MEMORY_SIZE
        } else if op == 0b1010 || op == 0b1011 {
            &&& fits_i16(self.pc_offset(9))
            &&& self.pc_address() < MEMORY_SIZE
            &&& self.memory[self.pc_address() as int] < MEMORY_SIZE
        } else if op == 0b0110 || op == 0b0111 {
            fits_i16(self.base_offset()) && self.base_address() < MEMORY_SIZE
        } else if op == 0b1110 {
            fits_i16(self.pc_offset(9))
        } else {
            true
        }
    }

    /// What executing the instruction in `ir` does.
    pub open spec fn execute(self) -> CpuState {
        let ir = self.ir;
        let op = opcode(ir);
        if op == 0b0001 {
            // ADD
            if imm_flag(ir) {
                self.with_result(signed16(self.reg(sr1(ir))) + sext(ir, 5))
            } else {
                self.with_result(signed16(self.reg(sr1(ir))) + signed16(self.reg(sr2(ir))))
            }
        } else if op == 0b0101 {
            // AND
            if imm_flag(ir) {
                self.with_result(signed16(self.reg(sr1(ir)) & word16(sext(ir, 5))))
            } else {
                self.with_result(signed16(self.reg(sr1(ir)) & self.reg(sr2(ir))))
            }
        } else if op == 0b0000 {
            // BR
            if self.ben {
                CpuState { mar: self.pc_address(), pc: self.pc_address(), ..self }
            } else {
                self
            }
        } else if op == 0b1100 {
            // JMP, RET
            CpuState { pc: self.reg(sr1(ir)), ..self }
        } else if op == 0b0100 {
            // JSR, JSRR: the link is written before the base register is read
            let linked = self.registers.update(7, self.pc);
            if jsr_flag(ir) {
                CpuState { registers: linked, pc: word16(self.pc_offset(11)), ..self }
            } else {
                CpuState { registers: linked, pc: linked[sr1(ir) as int], ..self }
            }
        } else if op == 0b1001 {
            // NOT
            self.with_result(signed16(!self.reg(sr1(ir))))
        } else if op == 0b0010 {
            // LD
            self.load(self.pc_address())
        } else if op == 0b1010 {
            // LDI
            self.load(self.memory[self.pc_address() as int])
        } else if op == 0b0110 {
            // LDR
            self.load(self.base_address())
        } else if op == 0b1110 {
            // LEA
            CpuState {
                registers: self.registers.update(dr(ir) as int, self.pc_address()),
                ..self
            }
        } else if op == 0b0011 {
            // ST
            self.store(self.pc_address())
        } else if op == 0b1011 {
            // STI
            self.store(self.memory[self.pc_address() as int])
        } else if op == 0b0111 {
            // STR
            self.store(self.base_address())
        } else if op == 0b1111 {
            // TRAP stops the clock
            CpuState { mcr: 0, ..self }
        } else {
            // RTI and the reserved opcode do nothing
            self
        }
    }

    /// Whether one instruction cycle from this state stays within the machine.
    pub open spec fn can_step(self) -> bool {
        self.pc < MEMORY_SIZE && self.fetched().execute_defined()
    }

    /// The state after one instruction cycle (fetch, decode, execute).
    pub open spec fn next(self) -> CpuState {
        self.fetched().execute()
    }

    /// The state after `n` instruction cycles.
    pub open spec fn iterate(self, n: nat) -> CpuState
        decreases n,
    {
        if n == 0 {
            self
        } else {
            self.iterate((n - 1) as nat).next()
        }
    }

    /// Whether the clock stops within `n` cycles, every cycle before that
    /// staying within the machine.
    pub open spec fn halts_within(self, n: nat) -> bool {
        &&& !self.iterate(n).is_running()
        &&& forall|j: nat| j < n ==> (#[trigger] self.iterate(j)).can_step()
    }

    /// Whether running from this state stops the clock without leaving the machine.
    pub open spec fn halts(self) -> bool {
        exists|n: nat| self.halts_within(n)
    }

    /// Whether `t` is what running from this state ends in: the first state,
    /// along the cycles from this one, whose clock is stopped.
    pub open spec fn runs_to(self, t: CpuState) -> bool {
        exists|k: nat|
            {
                &&& t == self.iterate(k)
                &&& !t.is_running()
                &&& forall|j: nat| j < k ==> (#[trigger] self.iterate(j)).is_running()
            }
    }
}

/// One instruction cycle keeps the sizes of memory and of the register file.
pub proof fn lemma_next_wf(s: CpuState)
    requires
        s.wf(),
        s.can_step(),
    ensures
        s.next().wf(),
{
}

/// Once the clock has stopped, no instruction starts it again.
pub proof fn lemma_stopped_clock_stays_stopped(s: CpuState)
    requires
        !s.is_running(),
    ensures
        !s.next().is_running(),
{
}

/// TRAP stops the clock.
pub proof fn lemma_trap_stops_clock(s: CpuState)
    requires
        opcode(s.fetched().ir) == 0b1111,
    ensures
        !s.next().is_running(),
{
}

/// An instruction cycle writes memory at most at the address it leaves in `mar`,
/// and only the stores (ST, STI, STR) write memory at all.
pub proof fn lemma_memory_frame(s: CpuState)
    requires
        s.wf(),
        s.can_step(),
    ensures
        forall|a: int|
            0 <= a < MEMORY_SIZE && a != s.next().mar ==> #[trigger] s.next().memory[a]
                == s.memory[a],
        ({
            let op = opcode(s.fetched().ir);
            op != 0b0011 && op != 0b1011 && op != 0b0111
        }) ==> s.next().memory == s.memory,
{
}

/// An instruction cycle writes no register but the destination register of
/// the instruction and, for JSR and JSRR, the link register R7.
pub proof fn lemma_register_frame(s: CpuState)
    requires
        s.wf(),
    ensures
        forall|r: int|
            0 <= r < REGISTER_COUNT && r != dr(s.fetched().ir) && r != 7
                ==> #[trigger] s.next().registers[r] == s.registers[r],
{
}

/// The condition code never holds more than one flag.
pub proof fn lemma_nzp_valid(s: CpuState)
    requires
        s.nzp_valid(),
    ensures
        s.next().nzp_valid(),
{
}

/// Every instruction but the branches and jumps (BR, JMP, JSR) leaves `pc`
/// pointing at the word after it.
pub proof fn lemma_pc_advances(s: CpuState)
    requires
        s.pc < MEMORY_SIZE,
        ({
            let op = opcode(s.fetched().ir);
            op != 0b0000 && op != 0b1100 && op != 0b0100
        }),
    ensures
        s.next().pc == s.pc + 1,
{
}

/// Running a machine whose clock is stopped leaves it as it is.
pub proof fn lemma_run_stopped(s: CpuState)
    requires
        !s.is_running(),
    ensures
        s.halts(),
        s.runs_to(s),
{
    assert(s.halts_within(0));
    assert(s.iterate(0) == s);
}

/// What running ends in is determined by where it starts.
pub proof fn lemma_run_result_unique(s: CpuState, t1: CpuState, t2: CpuState)
    requires
        s.runs_to(t1),
        s.runs_to(t2),
    ensures
        t1 == t2,
{
    let k1 = choose|k: nat|
        {
            &&& t1 == s.iterate(k)
            &&& !t1.is_running()
            &&& forall|j: nat| j < k ==> (#[trigger] s.iterate(j)).is_running()
        };
    let k2 = choose|k: nat|
        {
            &&& t2 == s.iterate(k)
            &&& !t2.is_running()
            &&& forall|j: nat| j < k ==> (#[trigger] s.iterate(j)).is_running()
        };
    if k1 < k2 {
        assert(s.iterate(k1).is_running());
    } else if k2 < k1 {
        assert(s.iterate(k2).is_running());
    }
}

/// Running again what a run ended in changes nothing.
pub proof fn lemma_run_idempotent(s: CpuState, t: CpuState)
    requires
        s.runs_to(t),
    ensures
        t.halts(),
        t.runs_to(t),
{
    lemma_run_stopped(t);
}

/// A machine that halts has a state that running it ends in.
pub proof fn lemma_halts_runs_to(s: CpuState)
    requires
        s.halts(),
    ensures
        exists|t: CpuState| s.runs_to(t),
    decreases
        choose|n: nat| s.halts_within(n),
{
    let n = choose|n: nat| s.halts_within(n);
    lemma_first_stop(s, n);
}

/// Below the `n` within which a machine halts lies a first cycle at which its
/// clock is stopped.
proof fn lemma_first_stop(s: CpuState, n: nat)
    requires
        !s.iterate(n).is_running(),
    ensures
        exists|t: CpuState| s.runs_to(t),
    decreases n,
{
    if forall|j: nat| j < n ==> (#[trigger] s.iterate(j)).is_running() {
        assert(s.runs_to(s.iterate(n)));
    } else {
        let j = choose|j: nat| j < n && !(#[trigger] s.iterate(j)).is_running();
        lemma_first_stop(s, j);
    }
}

} // verus!
