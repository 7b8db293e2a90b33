//! The accelerator driver: owns one core and one memory, copies data into the
//! memory, and runs kernels to completion under a cycle watchdog.
use vstd::prelude::*;
use crate::engine::{Core, CoreState, jump_target, lemma_cycle_cost, program_wf, step_spec};
use crate::error::SimError;
use crate::isa::{Instruction, Opcode, REG_COUNT};
use crate::memory::Memory;

verus! {

/// Cycles after which a kernel that has not halted is stopped.
pub const WATCHDOG_CYCLES: u64 = 100_000;

/// Capacity in bytes of the device memory.
pub const DEVICE_MEMORY_SIZE: usize = 65536;

/// Cycles that each word access to device memory costs.
pub const DEVICE_LATENCY: u32 = 10;

/// The driver of one device: a core and the memory it runs against.
pub struct AcceleratorDriver {
    pub memory: Memory,
    pub core: Core,
}

/// Counters read back at the end of a kernel.
#[derive(Debug, Clone, Copy, PartialEq, Eq, Structural)]
pub struct PerfStats {
    pub core_cycles: u64,
}

/// `mem` with the bytes from `addr` on replaced by `bytes`.
pub open spec fn copy_in(mem: Seq<u8>, addr: int, bytes: Seq<u8>) -> Seq<u8> {
    mem.subrange(0, addr) + bytes + mem.subrange(addr + bytes.len(), mem.len() as int)
}

/// Cycles left before the watchdog ceiling.
pub open spec fn cycles_left(cycles: int) -> int {
    if cycles < WATCHDOG_CYCLES {
        WATCHDOG_CYCLES - cycles
    } else {
        0
    }
}

/// Steps a core from `s` until it halts, a step fails, or the cycle count
/// reaches the watchdog ceiling; gives the last step's result (success when
/// no step was taken), the state and the memory at that point.
pub open spec fn run(s: CoreState, program: Seq<Instruction>, mem: Seq<u8>, latency: u32) -> (
    Result<(), SimError>,
    CoreState,
    Seq<u8>,
)
    decreases cycles_left(s.cycles),
{
    if s.halted || s.cycles >= WATCHDOG_CYCLES {
        (Ok(()), s, mem)
    } else {
        let (r, t, m) = step_spec(s, program, mem, latency);
        if r is Err {
            (r, t, m)
        } else {
            proof {
                lemma_cycle_cost(s, program, mem, latency);
            }
            run(t, program, m, latency)
        }
    }
}

/// What a kernel submission reports once `run` has stopped with result `r`
/// in state `s`: the failure of a step, the cycle count of a halted core, or a
/// watchdog timeout.
pub open spec fn kernel_outcome(r: Result<(), SimError>, s: CoreState) -> Result<PerfStats, SimError> {
    match r {
        Err(e) => Err(e),
        Ok(_) => if s.halted {
            Ok(PerfStats { core_cycles: s.cycles as u64 })
        } else {
            Err(SimError::WatchdogTimeout)
        },
    }
}

/// What submitting `kernel` to a fresh core over memory `mem` reports.
pub open spec fn submit_spec(kernel: Seq<Instruction>, mem: Seq<u8>, latency: u32) -> Result<
    PerfStats,
    SimError,
> {
    let (r, s, _m) = run(CoreState::initial(), kernel, mem, latency);
    kernel_outcome(r, s)
}

/// A kernel that is a single branch to itself never halts: it runs until its
/// cycle count is exactly the watchdog ceiling, and its submission fails with
/// a watchdog timeout.
pub proof fn lemma_self_branch_times_out(branch: Instruction, mem: Seq<u8>, latency: u32)
    requires
        branch.opcode == Opcode::BEQ,
        branch.rs1 == branch.rs2,
        branch.imm == 0,
        branch.wf(),
    ensures
        run(CoreState::initial(), seq![branch], mem, latency).1.cycles == WATCHDOG_CYCLES,
        !run(CoreState::initial(), seq![branch], mem, latency).1.halted,
        submit_spec(seq![branch], mem, latency) == Err::<PerfStats, SimError>(
            SimError::WatchdogTimeout,
        ),
{
    lemma_spin(CoreState::initial(), branch, mem, latency);
}

/// From any cycle count up to the ceiling, the branch of
/// `lemma_self_branch_times_out` spins at offset 0 until the ceiling.
proof fn lemma_spin(s: CoreState, branch: Instruction, mem: Seq<u8>, latency: u32)
    requires
        branch.opcode == Opcode::BEQ,
        branch.rs1 == branch.rs2,
        branch.imm == 0,
        branch.wf(),
        s.pc == 0,
        !s.halted,
        0 <= s.cycles <= WATCHDOG_CYCLES,
    ensures
        run(s, seq![branch], mem, latency) == (
            Ok::<(), SimError>(()),
            s.charge(WATCHDOG_CYCLES - s.cycles),
            mem,
        ),
    decreases cycles_left(s.cycles),
{
    if s.cycles < WATCHDOG_CYCLES {
        assert(jump_target(0, 0) == 0) by (bit_vector);
        let t = s.charge(1);
        assert(step_spec(s, seq![branch], mem, latency) == (Ok::<(), SimError>(()), t, mem));
        lemma_spin(t, branch, mem, latency);
        assert(t.charge(WATCHDOG_CYCLES - t.cycles) == s.charge(WATCHDOG_CYCLES - s.cycles));
    } else {
        assert(s.charge(0) == s);
    }
}

impl AcceleratorDriver {
    /// The memory holds exactly its capacity in bytes.
    pub open spec fn wf(&self) -> bool {
        self.memory.wf()
    }

    /// A driver for a device with 64 KiB of zeroed memory at ten cycles per
    /// access, and core 0 at rest.
    pub fn new() -> (r: Self)
        ensures
            r.wf(),
            r.memory.size == DEVICE_MEMORY_SIZE,
            r.memory.latency_cycles == DEVICE_LATENCY,
            r.memory.data@ == Seq::new(DEVICE_MEMORY_SIZE as nat, |i: int| 0u8),
            r.core.id == 0,
            r.core@ == CoreState::initial(),
    {
        AcceleratorDriver { memory: Memory::new(DEVICE_MEMORY_SIZE, DEVICE_LATENCY), core: Core::new(0) }
    }

    /// Copies `data` into device memory from `addr` on, bypassing the core.
    /// Fails, changing nothing, when the copy would pass the end of memory.
    pub fn copy_to_device(&mut self, data: &[u8], addr: usize) -> (r: Result<(), SimError>)
        requires
            old(self).wf(),
        ensures
            final(self).wf(),
            final(self).core == old(self).core,
            final(self).memory.size == old(self).memory.size,
            final(self).memory.latency_cycles == old(self).memory.latency_cycles,
            addr + data@.len() <= old(self).memory.size ==> r == Ok::<(), SimError>(())
                && final(self).memory.data@ == copy_in(old(self).memory.data@, addr as int, data@),
            addr + data@.len() > old(self).memory.size ==> r == Err::<(), SimError>(
                SimError::DmaOutOfBounds,
            ) && final(self).memory.data@ == old(self).memory.data@,
    {
        if addr > self.memory.size || self.memory.size - addr < data.len() {
            return Err(SimError::DmaOutOfBounds);
        }
        let mut i: usize = 0;
        while i < data.len()
            invariant
                self.memory.wf(),
                self.core == old(self).core,
                self.memory.size == old(self).memory.size,
                self.memory.latency_cycles == old(self).memory.latency_cycles,
                addr + data@.len() <= self.memory.size,
                i <= data@.len(),
                forall|j: int|
                    0 <= j < self.memory.size ==> #[trigger] self.memory.data@[j] == if addr <= j
                        < addr + i {
                        data@[j - addr]
                    } else {
                        old(self).memory.data@[j]
                    },
            decreases data@.len() - i,
        {
            self.memory.data.set(addr + i, data[i]);
            i = i + 1;
        }
        assert(self.memory.data@ =~= copy_in(old(self).memory.data@, addr as int, data@));
        Ok(())
    }

    /// Resets the core (registers, program counter, cycle count and halted
    /// flag; memory is kept) and runs `kernel` until it halts, a step fails, or
    /// the watchdog ceiling is reached. Reports the final cycle count of a
    /// halted core, the failure of a step, or a watchdog timeout.
    pub fn submit_kernel(&mut self, kernel: Vec<Instruction>) -> (r: Result<PerfStats, SimError>)
        requires
            old(self).wf(),
            program_wf(kernel@),
            kernel@.len() < usize::MAX / 4,
        ensures
            r == submit_spec(kernel@, old(self).memory.data@, old(self).memory.latency_cycles),
            final(self).core@ == run(
                CoreState::initial(),
                kernel@,
                old(self).memory.data@,
                old(self).memory.latency_cycles,
            ).1,
            final(self).memory.data@ == run(
                CoreState::initial(),
                kernel@,
                old(self).memory.data@,
                old(self).memory.latency_cycles,
            ).2,
            final(self).wf(),
            final(self).core.id == old(self).core.id,
            final(self).memory.size == old(self).memory.size,
            final(self).memory.latency_cycles == old(self).memory.latency_cycles,
    {
        self.core.pc = 0;
        self.core.halted = false;
        self.core.cycle_count = 0;
        self.core.regs = [0i32; REG_COUNT];
        assert(self.core.regs@ == CoreState::initial().regs);
        assert(self.core@ == CoreState::initial());
        let ghost mem0 = self.memory.data@;
        let ghost latency = self.memory.latency_cycles;
        while !self.core.halted && self.core.cycle_count < WATCHDOG_CYCLES
            invariant
                self.memory.wf(),
                self.core.id == old(self).core.id,
                self.memory.size == old(self).memory.size,
                self.memory.latency_cycles == latency,
                latency == old(self).memory.latency_cycles,
                mem0 == old(self).memory.data@,
                program_wf(kernel@),
                kernel@.len() < usize::MAX / 4,
                run(self.core@, kernel@, self.memory.data@, latency) == run(
                    CoreState::initial(),
                    kernel@,
                    mem0,
                    latency,
                ),
            decreases cycles_left(self.core.cycle_count as int),
        {
            let ghost before = self.core@;
            let ghost mem_before = self.memory.data@;
            match self.core.step(kernel.as_slice(), &mut self.memory) {
                Ok(()) => {
                    proof {
                        lemma_cycle_cost(before, kernel@, mem_before, latency);
                    }
                },
                Err(e) => {
                    return Err(e);
                },
            }
        }
        if !self.core.halted {
            return Err(SimError::WatchdogTimeout);
        }
        Ok(PerfStats { core_cycles: self.core.cycle_count })
    }

    /// The value of register `reg_idx` of the core; zero for register 0.
    pub fn read_register(&self, reg_idx: usize) -> (r: i32)
        requires
            reg_idx < REG_COUNT,
        ensures
            r == self.core@.reg(reg_idx as int),
    {
        if reg_idx == 0 {
            0
        } else {
            self.core.regs[reg_idx]
        }
    }

    /// The core's current cycle count.
    pub fn get_perf_stats(&self) -> (r: u64)
        ensures
            r == self.core.cycle_count,
    {
        self.core.cycle_count
    }
}

} // verus!
