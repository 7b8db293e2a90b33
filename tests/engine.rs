use simulator::engine::Core;
use simulator::error::SimError;
use simulator::isa::{Instruction, Opcode};
use simulator::memory::Memory;

fn run_one(core: &mut Core, mem: &mut Memory, instr: Instruction) -> Result<(), SimError> {
    let start = core.pc / 4;
    let mut program = vec![Instruction::new_i_type(Opcode::HALT, 0, 0, 0); start];
    program.push(instr);
    core.step(&program, mem)
}

fn core_with(values: &[(usize, i32)]) -> Core {
    let mut core = Core::new(7);
    for &(r, v) in values {
        core.regs[r] = v;
    }
    core
}

#[test]
fn writes_to_register_zero_are_discarded_for_every_opcode() {
    let ops = [
        Opcode::ADD,
        Opcode::SUB,
        Opcode::MUL,
        Opcode::DIV,
        Opcode::ADDI,
        Opcode::LW,
        Opcode::JAL,
    ];
    for op in ops {
        let mut core = core_with(&[(1, 9), (2, 3)]);
        let mut mem = Memory::new(64, 2);
        mem.write_word(12, 0x55).unwrap();
        let instr = Instruction { opcode: op, rd: 0, rs1: 1, rs2: 2, imm: 3 };
        assert_eq!(run_one(&mut core, &mut mem, instr), Ok(()));
        assert_eq!(core.regs[0], 0);
    }
}

#[test]
fn cycle_costs_per_opcode() {
    let cases = [
        (Opcode::ADD, 1),
        (Opcode::SUB, 1),
        (Opcode::ADDI, 1),
        (Opcode::BEQ, 1),
        (Opcode::BNE, 1),
        (Opcode::JAL, 1),
        (Opcode::HALT, 1),
        (Opcode::MUL, 3),
        (Opcode::DIV, 11),
        (Opcode::LW, 1 + 7),
        (Opcode::SW, 1 + 7),
    ];
    for (op, cost) in cases {
        let mut core = core_with(&[(1, 8), (2, 4)]);
        let mut mem = Memory::new(64, 7);
        let instr = Instruction { opcode: op, rd: 3, rs1: 1, rs2: 2, imm: 4 };
        assert_eq!(run_one(&mut core, &mut mem, instr), Ok(()));
        assert_eq!(core.cycle_count, cost);
    }
}

#[test]
fn divide_by_zero_keeps_state_but_base_cycle() {
    let mut core = core_with(&[(1, 100), (3, -5)]);
    core.pc = 8;
    let mut mem = Memory::new(16, 0);
    let instr = Instruction::new_r_type(Opcode::DIV, 3, 1, 2);
    assert_eq!(run_one(&mut core, &mut mem, instr), Err(SimError::DivisionByZero));
    assert_eq!(core.regs[3], -5);
    assert_eq!(core.cycle_count, 1);
    assert_eq!(core.pc, 8);
    assert!(!core.halted);
}

#[test]
fn arithmetic_wraps() {
    let mut core = core_with(&[(1, i32::MAX), (2, 1), (4, i32::MIN), (5, -1), (6, -7), (7, 2)]);
    let mut mem = Memory::new(16, 0);
    let prog = vec![
        Instruction::new_r_type(Opcode::ADD, 3, 1, 2),
        Instruction::new_r_type(Opcode::DIV, 8, 4, 5),
        Instruction::new_r_type(Opcode::DIV, 9, 6, 7),
        Instruction::new_r_type(Opcode::MUL, 10, 1, 7),
        Instruction::new_r_type(Opcode::SUB, 11, 4, 2),
        Instruction::new_i_type(Opcode::ADDI, 12, 1, 1),
    ];
    for _ in 0..prog.len() {
        core.step(&prog, &mut mem).unwrap();
    }
    assert_eq!(core.regs[3], i32::MIN);
    assert_eq!(core.regs[8], i32::MIN);
    assert_eq!(core.regs[9], -3);
    assert_eq!(core.regs[10], -2);
    assert_eq!(core.regs[11], i32::MAX);
    assert_eq!(core.regs[12], i32::MIN);
    assert_eq!(core.pc, 24);
    assert_eq!(core.cycle_count, 1 + 11 + 11 + 3 + 1 + 1);
}

#[test]
fn branches_and_jumps_move_the_pc() {
    let mut mem = Memory::new(16, 0);
    let mut core = core_with(&[(1, 5), (2, 5)]);
    core.pc = 8;
    run_one(&mut core, &mut mem, Instruction::new_b_type(Opcode::BEQ, 1, 2, -8)).unwrap();
    assert_eq!(core.pc, 0);
    let mut core = core_with(&[(1, 5), (2, 5)]);
    core.pc = 8;
    run_one(&mut core, &mut mem, Instruction::new_b_type(Opcode::BNE, 1, 2, -8)).unwrap();
    assert_eq!(core.pc, 12);
    let mut core = core_with(&[]);
    core.pc = 4;
    run_one(&mut core, &mut mem, Instruction::new_j_type(Opcode::JAL, 1, 20)).unwrap();
    assert_eq!(core.pc, 24);
    assert_eq!(core.regs[1], 8);
}

#[test]
fn halted_core_does_nothing() {
    let mut mem = Memory::new(16, 0);
    let mut core = Core::new(0);
    let prog = vec![Instruction::new_i_type(Opcode::HALT, 0, 0, 0)];
    core.step(&prog, &mut mem).unwrap();
    assert!(core.halted);
    assert_eq!(core.cycle_count, 1);
    assert_eq!(core.pc, 0);
    assert_eq!(core.step(&prog, &mut mem), Ok(()));
    assert_eq!(core.cycle_count, 1);
    assert_eq!(core.step(&[], &mut mem), Ok(()));
}

#[test]
fn failures_name_their_cause() {
    let mut mem = Memory::new(16, 0);
    let mut core = Core::new(0);
    core.pc = 4;
    assert_eq!(core.step(&[], &mut mem), Err(SimError::PcOutOfBounds(4)));
    assert_eq!(core.cycle_count, 0);
    let mut core = core_with(&[(1, 13)]);
    let unknown = Instruction { opcode: Opcode::UNKNOWN, rd: 0, rs1: 0, rs2: 0, imm: 0 };
    assert_eq!(run_one(&mut core, &mut mem, unknown), Err(SimError::IllegalOpcode(0)));
    assert_eq!(core.pc, 0);
    let lw = Instruction::new_i_type(Opcode::LW, 2, 1, 0);
    assert_eq!(run_one(&mut core, &mut mem, lw), Err(SimError::MemoryReadOutOfBounds(13)));
    let sw = Instruction::new_s_type(Opcode::SW, 1, 1, -1);
    assert_eq!(run_one(&mut core, &mut mem, sw), Ok(()));
    let sw = Instruction::new_s_type(Opcode::SW, 0, 1, -4);
    assert_eq!(
        run_one(&mut core, &mut mem, sw),
        Err(SimError::MemoryWriteOutOfBounds((-4i32) as usize))
    );
    assert_eq!(mem.read_word(12), Ok(13));
}
