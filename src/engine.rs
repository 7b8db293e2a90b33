//! The execution engine: a register file, program counter, cycle counter and
//! halted flag, advanced one instruction at a time.
use vstd::prelude::*;
use crate::error::SimError;
use crate::isa::{Instruction, Opcode, REG_COUNT};
use vstd::arithmetic::div_mod::lemma_div_is_ordered_by_denominator;
use crate::memory::{Memory, store_word, word_at, word_in_bounds};

verus! {

/// What a core holds, as mathematical values.
pub ghost struct CoreState {
    pub pc: int,
    pub regs: Seq<i32>,
    pub cycles: int,
    pub halted: bool,
}

impl CoreState {
    /// The state of a core that is about to run a program from its start.
    pub open spec fn initial() -> CoreState {
        CoreState { pc: 0, regs: Seq::new(REG_COUNT as nat, |i: int| 0i32), cycles: 0, halted: false }
    }

    /// The value register `idx` reads as: zero for register 0.
    pub open spec fn reg(self, idx: int) -> i32 {
        if idx == 0 {
            0
        } else {
            self.regs[idx]
        }
    }

    /// The state after writing `v` to register `idx`; a write to register 0 is
    /// discarded.
    pub open spec fn with_reg(self, idx: int, v: i32) -> CoreState {
        if idx == 0 {
            self
        } else {
            CoreState { regs: self.regs.update(idx, v), ..self }
        }
    }

    /// The state after `n` more cycles.
    pub open spec fn charge(self, n: int) -> CoreState {
        CoreState { cycles: self.cycles + n, ..self }
    }

    /// The state with the program counter moved to `pc`.
    pub open spec fn goto(self, pc: int) -> CoreState {
        CoreState { pc, ..self }
    }
}

/// Where a branch or jump at `pc` by `imm` bytes lands: the sum is taken on
/// 32-bit signed values and read back as a byte offset.
pub open spec fn jump_target(pc: int, imm: i32) -> int {
    ((pc as i32).wrapping_add(imm) as usize) as int
}

/// The address a load or store reaches: base plus offset on 32-bit signed
/// values, read as an unsigned index.
pub open spec fn effective_address(base: i32, imm: i32) -> int {
    (base.wrapping_add(imm) as usize) as int
}

/// Division of integers rounding toward zero.
pub open spec fn trunc_div(a: int, b: int) -> int {
    let q = abs(a) / abs(b);
    if (a < 0) != (b < 0) {
        -q
    } else {
        q
    }
}

/// Absolute value.
pub open spec fn abs(a: int) -> int {
    if a < 0 {
        -a
    } else {
        a
    }
}

/// Signed 32-bit division by a nonzero divisor, rounding toward zero; the one
/// quotient that does not fit, `i32::MIN / -1`, wraps to `i32::MIN`.
pub open spec fn wrapping_div(a: i32, b: i32) -> i32 {
    if a == i32::MIN && b == -1 {
        i32::MIN
    } else {
        trunc_div(a as int, b as int) as i32
    }
}

/// What one instruction does to a core state whose base cycle has already
/// been charged, and to memory. On failure the state and memory are left as
/// given.
pub open spec fn execute(s: CoreState, i: Instruction, mem: Seq<u8>, latency: u32) -> (
    Result<(), SimError>,
    CoreState,
    Seq<u8>,
) {
    let next = s.pc + 4;
    let rd = i.rd as int;
    let a = s.reg(i.rs1 as int);
    let b = s.reg(i.rs2 as int);
    match i.opcode {
        Opcode::ADD => (Ok(()), s.with_reg(rd, a.wrapping_add(b)).goto(next), mem),
        Opcode::SUB => (Ok(()), s.with_reg(rd, a.wrapping_sub(b)).goto(next), mem),
        Opcode::MUL => (Ok(()), s.with_reg(rd, a.wrapping_mul(b)).charge(2).goto(next), mem),
        Opcode::DIV => if b == 0 {
            (Err(SimError::DivisionByZero), s, mem)
        } else {
            (Ok(()), s.with_reg(rd, wrapping_div(a, b)).charge(10).goto(next), mem)
        },
        Opcode::ADDI => (Ok(()), s.with_reg(rd, a.wrapping_add(i.imm)).goto(next), mem),
        Opcode::LW => {
            let addr = effective_address(a, i.imm);
            if word_in_bounds(mem.len() as int, addr) {
                (Ok(()), s.with_reg(rd, word_at(mem, addr) as i32).charge(latency as int).goto(next), mem)
            } else {
                (Err(SimError::MemoryReadOutOfBounds(addr as usize)), s, mem)
            }
        },
        Opcode::SW => {
            let addr = effective_address(a, i.imm);
            if word_in_bounds(mem.len() as int, addr) {
                (Ok(()), s.charge(latency as int).goto(next), store_word(mem, addr, b as u32))
            } else {
                (Err(SimError::MemoryWriteOutOfBounds(addr as usize)), s, mem)
            }
        },
        Opcode::BEQ => (Ok(()), s.goto(if a == b { jump_target(s.pc, i.imm) } else { next }), mem),
        Opcode::BNE => (Ok(()), s.goto(if a != b { jump_target(s.pc, i.imm) } else { next }), mem),
        Opcode::JAL => (Ok(()), s.with_reg(rd, (s.pc + 4) as i32).goto(jump_target(s.pc, i.imm)), mem),
        Opcode::HALT => (Ok(()), CoreState { halted: true, ..s }, mem),
        Opcode::UNKNOWN => (Err(SimError::IllegalOpcode(s.pc as usize)), s, mem),
    }
}

/// One step of a core on a program held as a sequence of instructions (the
/// instruction at byte offset `pc` is `program[pc / 4]`), over memory `mem`
/// whose word accesses cost `latency` cycles. A halted core stays as it is.
pub open spec fn step_spec(s: CoreState, program: Seq<Instruction>, mem: Seq<u8>, latency: u32) -> (
    Result<(), SimError>,
    CoreState,
    Seq<u8>,
) {
    if s.halted {
        (Ok(()), s, mem)
    } else if s.pc / 4 >= program.len() {
        (Err(SimError::PcOutOfBounds(s.pc as usize)), s, mem)
    } else {
        execute(s.charge(1), program[s.pc / 4], mem, latency)
    }
}

/// Cycles that a successful instruction of kind `op` costs in all.
pub open spec fn cycle_cost(op: Opcode, latency: u32) -> int {
    match op {
        Opcode::MUL => 3,
        Opcode::DIV => 11,
        Opcode::LW | Opcode::SW => 1 + latency,
        _ => 1,
    }
}

/// Every register index of the program names a register.
pub open spec fn program_wf(program: Seq<Instruction>) -> bool {
    forall|k: int| 0 <= k < program.len() ==> (#[trigger] program[k]).wf()
}

/// Whatever instruction runs, register 0 still reads as zero and what is
/// stored for it does not change.
pub proof fn lemma_register_zero_unchanged(
    s: CoreState,
    program: Seq<Instruction>,
    mem: Seq<u8>,
    latency: u32,
)
    requires
        s.regs.len() == REG_COUNT,
        0 <= s.pc,
        program_wf(program),
    ensures
        step_spec(s, program, mem, latency).1.reg(0) == 0,
        step_spec(s, program, mem, latency).1.regs[0] == s.regs[0],
        step_spec(s, program, mem, latency).1.regs.len() == REG_COUNT,
{
}

/// A step that succeeds on a running core charges exactly the cost of its
/// instruction: one cycle, three for a multiply, eleven for a divide, and one
/// plus the memory latency for a load or store.
pub proof fn lemma_cycle_cost(s: CoreState, program: Seq<Instruction>, mem: Seq<u8>, latency: u32)
    requires
        !s.halted,
        step_spec(s, program, mem, latency).0 is Ok,
    ensures
        step_spec(s, program, mem, latency).1.cycles == s.cycles + cycle_cost(
            program[s.pc / 4].opcode,
            latency,
        ),
{
}

/// Dividing by zero fails; registers, program counter and memory stay as
/// they were, and only the base cycle of the step is charged.
pub proof fn lemma_divide_by_zero(s: CoreState, program: Seq<Instruction>, mem: Seq<u8>, latency: u32)
    requires
        !s.halted,
        0 <= s.pc,
        s.pc / 4 < program.len(),
        program[s.pc / 4].opcode == Opcode::DIV,
        s.reg(program[s.pc / 4].rs2 as int) == 0,
    ensures
        step_spec(s, program, mem, latency) == (Err::<(), SimError>(SimError::DivisionByZero), s.charge(1), mem),
{
}

/// A processor core. Register 0 reads as zero whatever is stored for it.
pub struct Core {
    pub id: usize,
    pub pc: usize,
    pub regs: [i32; REG_COUNT],
    pub cycle_count: u64,
    pub halted: bool,
}

impl View for Core {
    type V = CoreState;

    open spec fn view(&self) -> CoreState {
        CoreState {
            pc: self.pc as int,
            regs: self.regs@,
            cycles: self.cycle_count as int,
            halted: self.halted,
        }
    }
}

/// Signed division by a nonzero divisor, wrapping on overflow.
fn div_wrapping(a: i32, b: i32) -> (r: i32)
    requires
        b != 0,
    ensures
        r == wrapping_div(a, b),
{
    proof {
        let x = a as int;
        let d = b as int;
        if abs(d) >= 2 {
            lemma_div_is_ordered_by_denominator(abs(x), 2, abs(d));
        }
    }
    match a.checked_div(b) {
        Some(q) => q,
        None => i32::MIN,
    }
}

impl Core {
    /// A core at the start of a program, with all registers zero.
    pub fn new(id: usize) -> (r: Self)
        ensures
            r.id == id,
            r@ == CoreState::initial(),
    {
        let r = Core { id, pc: 0, regs: [0i32; REG_COUNT], cycle_count: 0, halted: false };
        assert(r.regs@ == CoreState::initial().regs);
        r
    }

    fn get_reg(&self, idx: usize) -> (r: i32)
        requires
            idx < REG_COUNT,
        ensures
            r == self@.reg(idx as int),
    {
        if idx == 0 {
            0
        } else {
            self.regs[idx]
        }
    }

    fn set_reg(&mut self, idx: usize, val: i32)
        requires
            idx < REG_COUNT,
        ensures
            final(self)@ == old(self)@.with_reg(idx as int, val),
            final(self).id == old(self).id,
    {
        if idx != 0 {
            self.regs[idx] = val;
            assert(self@.regs == old(self)@.regs.update(idx as int, val));
        }
    }

    /// Runs one instruction of `program` against `memory`; does nothing on a
    /// halted core. The result, the new state and the new memory are those of
    /// `step_spec`: a failure leaves the program counter where it was (with
    /// the base cycle charged), and so does a halt.
    pub fn step(&mut self, program: &[Instruction], memory: &mut Memory) -> (r: Result<(), SimError>)
        requires
            old(memory).wf(),
            program_wf(program@),
            program@.len() < usize::MAX / 4,
            old(self).cycle_count + 11 + old(memory).latency_cycles <= u64::MAX,
        ensures
            (r, final(self)@, final(memory).data@) == step_spec(
                old(self)@,
                program@,
                old(memory).data@,
                old(memory).latency_cycles,
            ),
            final(self).id == old(self).id,
            final(memory).wf(),
            final(memory).size == old(memory).size,
            final(memory).latency_cycles == old(memory).latency_cycles,
    {
        if self.halted {
            return Ok(());
        }
        let instruction_idx = self.pc / 4;
        if instruction_idx >= program.len() {
            return Err(SimError::PcOutOfBounds(self.pc));
        }
        let instr = program[instruction_idx];
        assert(instr.wf());
        self.cycle_count = self.cycle_count + 1;
        let mut next_pc = self.pc + 4;
        match instr.opcode {
            Opcode::ADD => {
                let val = self.get_reg(instr.rs1).wrapping_add(self.get_reg(instr.rs2));
                self.set_reg(instr.rd, val);
            },
            Opcode::SUB => {
                let val = self.get_reg(instr.rs1).wrapping_sub(self.get_reg(instr.rs2));
                self.set_reg(instr.rd, val);
            },
            Opcode::MUL => {
                let val = self.get_reg(instr.rs1).wrapping_mul(self.get_reg(instr.rs2));
                self.set_reg(instr.rd, val);
                self.cycle_count = self.cycle_count + 2;
            },
            Opcode::DIV => {
                let divisor = self.get_reg(instr.rs2);
                if divisor == 0 {
                    return Err(SimError::DivisionByZero);
                }
                let val = div_wrapping(self.get_reg(instr.rs1), divisor);
                self.set_reg(instr.rd, val);
                self.cycle_count = self.cycle_count + 10;
            },
            Opcode::ADDI => {
                let val = self.get_reg(instr.rs1).wrapping_add(instr.imm);
                self.set_reg(instr.rd, val);
            },
            Opcode::LW => {
                let addr = self.get_reg(instr.rs1).wrapping_add(instr.imm) as usize;
                match memory.read_word(addr) {
                    Ok(val) => {
                        self.set_reg(instr.rd, val as i32);
                        self.cycle_count = self.cycle_count + memory.latency_cycles as u64;
                    },
                    Err(e) => {
                        return Err(e);
                    },
                }
            },
            Opcode::SW => {
                let addr = self.get_reg(instr.rs1).wrapping_add(instr.imm) as usize;
                let val = self.get_reg(instr.rs2) as u32;
                match memory.write_word(addr, val) {
                    Ok(_) => {
                        self.cycle_count = self.cycle_count + memory.latency_cycles as u64;
                    },
                    Err(e) => {
                        return Err(e);
                    },
                }
            },
            Opcode::BEQ => {
                if self.get_reg(instr.rs1) == self.get_reg(instr.rs2) {
                    next_pc = (self.pc as i32).wrapping_add(instr.imm) as usize;
                }
            },
            Opcode::BNE => {
                if self.get_reg(instr.rs1) != self.get_reg(instr.rs2) {
                    next_pc = (self.pc as i32).wrapping_add(instr.imm) as usize;
                }
            },
            Opcode::JAL => {
                self.set_reg(instr.rd, (self.pc + 4) as i32);
                next_pc = (self.pc as i32).wrapping_add(instr.imm) as usize;
            },
            Opcode::HALT => {
                self.halted = true;
                return Ok(());
            },
            Opcode::UNKNOWN => {
                return Err(SimError::IllegalOpcode(self.pc));
            },
        }
        self.pc = next_pc;
        Ok(())
    }
}

} // verus!
