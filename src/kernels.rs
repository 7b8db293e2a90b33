//! Ready-made kernels.
use vstd::prelude::*;
use crate::engine::program_wf;
use crate::isa::{Instruction, Opcode};

verus! {

/// The particle-update kernel: for ten words from address 0 on, adds the
/// velocity 2 to each. Registers: x1 the word address, x2 the velocity, x3
/// the count, x4 the index, x5 the loaded word.
pub open spec fn particle_sim_program() -> Seq<Instruction> {
    seq![
        Instruction { opcode: Opcode::ADDI, rd: 1, rs1: 0, rs2: 0, imm: 0 },
        Instruction { opcode: Opcode::ADDI, rd: 2, rs1: 0, rs2: 0, imm: 2 },
        Instruction { opcode: Opcode::ADDI, rd: 3, rs1: 0, rs2: 0, imm: 10 },
        Instruction { opcode: Opcode::ADDI, rd: 4, rs1: 0, rs2: 0, imm: 0 },
        Instruction { opcode: Opcode::BEQ, rd: 0, rs1: 4, rs2: 3, imm: 28 },
        Instruction { opcode: Opcode::LW, rd: 5, rs1: 1, rs2: 0, imm: 0 },
        Instruction { opcode: Opcode::ADD, rd: 5, rs1: 5, rs2: 2, imm: 0 },
        Instruction { opcode: Opcode::SW, rd: 0, rs1: 1, rs2: 5, imm: 0 },
        Instruction { opcode: Opcode::ADDI, rd: 1, rs1: 1, rs2: 0, imm: 4 },
        Instruction { opcode: Opcode::ADDI, rd: 4, rs1: 4, rs2: 0, imm: 1 },
        Instruction { opcode: Opcode::JAL, rd: 0, rs1: 0, rs2: 0, imm: -24i32 },
        Instruction { opcode: Opcode::HALT, rd: 0, rs1: 0, rs2: 0, imm: 0 },
    ]
}

/// Builds the particle-update kernel.
pub fn get_particle_sim_kernel() -> (r: Vec<Instruction>)
    ensures
        r@ == particle_sim_program(),
        program_wf(r@),
{
    let r = vec![
        Instruction::new_i_type(Opcode::ADDI, 1, 0, 0),
        Instruction::new_i_type(Opcode::ADDI, 2, 0, 2),
        Instruction::new_i_type(Opcode::ADDI, 3, 0, 10),
        Instruction::new_i_type(Opcode::ADDI, 4, 0, 0),
        // Leave the loop once the index reaches the count: 7 instructions on.
        Instruction::new_b_type(Opcode::BEQ, 4, 3, 28),
        Instruction::new_i_type(Opcode::LW, 5, 1, 0),
        Instruction::new_r_type(Opcode::ADD, 5, 5, 2),
        Instruction::new_s_type(Opcode::SW, 1, 5, 0),
        Instruction::new_i_type(Opcode::ADDI, 1, 1, 4),
        Instruction::new_i_type(Opcode::ADDI, 4, 4, 1),
        // Back to the loop test: 6 instructions back.
        Instruction::new_j_type(Opcode::JAL, 0, -24),
        Instruction::new_i_type(Opcode::HALT, 0, 0, 0),
    ];
    assert(r@ == particle_sim_program());
    r
}

/// A straight-line kernel of `iters + 2` instructions: `x1 += 1`, then `iters`
/// times `x1 = 1`, then halt.
pub fn get_bench_kernel(iters: usize) -> (r: Vec<Instruction>)
    requires
        iters <= usize::MAX - 2,
    ensures
        r@.len() == iters + 2,
        r@[0] == (Instruction { opcode: Opcode::ADDI, rd: 1, rs1: 1, rs2: 0, imm: 1 }),
        forall|k: int|
            1 <= k <= iters ==> #[trigger] r@[k] == (Instruction {
                opcode: Opcode::ADDI,
                rd: 1,
                rs1: 0,
                rs2: 0,
                imm: 1,
            }),
        r@[iters + 1] == (Instruction { opcode: Opcode::HALT, rd: 0, rs1: 0, rs2: 0, imm: 0 }),
        program_wf(r@),
{
    let mut kernel: Vec<Instruction> = Vec::new();
    kernel.push(Instruction { opcode: Opcode::ADDI, rd: 1, rs1: 1, rs2: 0, imm: 1 });
    let mut i: usize = 0;
    while i < iters
        invariant
            i <= iters,
            kernel@.len() == i + 1,
            kernel@[0] == (Instruction { opcode: Opcode::ADDI, rd: 1, rs1: 1, rs2: 0, imm: 1 }),
            forall|k: int|
                1 <= k <= i ==> #[trigger] kernel@[k] == (Instruction {
                    opcode: Opcode::ADDI,
                    rd: 1,
                    rs1: 0,
                    rs2: 0,
                    imm: 1,
                }),
        decreases iters - i,
    {
        kernel.push(Instruction { opcode: Opcode::ADDI, rd: 1, rs1: 0, rs2: 0, imm: 1 });
        i = i + 1;
    }
    kernel.push(Instruction { opcode: Opcode::HALT, rd: 0, rs1: 0, rs2: 0, imm: 0 });
    assert forall|k: int| 0 <= k < kernel@.len() implies (#[trigger] kernel@[k]).wf() by {
        if 1 <= k <= iters {
        }
    }
    kernel
}

} // verus!
