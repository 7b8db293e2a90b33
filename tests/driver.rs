use simulator::driver::{AcceleratorDriver, PerfStats, WATCHDOG_CYCLES};
use simulator::error::SimError;
use simulator::isa::{Instruction, Opcode};
use simulator::kernels::{get_bench_kernel, get_particle_sim_kernel};

#[test]
fn test_driver_lifecycle() {
    let mut driver = AcceleratorDriver::new();

    assert_eq!(driver.core.halted, false);
    assert_eq!(driver.core.cycle_count, 0);

    let kernel = vec![
        Instruction { opcode: Opcode::ADDI, rd: 1, rs1: 0, rs2: 0, imm: 10 },
        Instruction { opcode: Opcode::HALT, rd: 0, rs1: 0, rs2: 0, imm: 0 },
    ];

    let res = driver.submit_kernel(kernel);
    assert!(res.is_ok());

    assert_eq!(driver.core.halted, true);
    assert_eq!(driver.core.regs[1], 10);
    assert!(driver.get_perf_stats() > 0);
}

#[test]
fn addi_then_halt_reports_two_cycles() {
    let mut driver = AcceleratorDriver::new();
    let kernel = vec![
        Instruction::new_i_type(Opcode::ADDI, 1, 0, 10),
        Instruction::new_i_type(Opcode::HALT, 0, 0, 0),
    ];
    let res = driver.submit_kernel(kernel);
    assert_eq!(res, Ok(PerfStats { core_cycles: 2 }));
    assert_eq!(driver.read_register(1), 10);
    assert!(driver.core.halted);
    assert_eq!(driver.get_perf_stats(), 2);
}

#[test]
fn self_branch_times_out_at_ceiling() {
    let mut driver = AcceleratorDriver::new();
    let kernel = vec![Instruction::new_b_type(Opcode::BEQ, 0, 0, 0)];
    let res = driver.submit_kernel(kernel);
    assert_eq!(res, Err(SimError::WatchdogTimeout));
    assert!(!driver.core.halted);
    assert_eq!(driver.get_perf_stats(), WATCHDOG_CYCLES);
    assert_eq!(driver.get_perf_stats(), 100_000);
}

#[test]
fn copy_past_capacity_fails_and_keeps_memory() {
    let mut driver = AcceleratorDriver::new();
    driver.copy_to_device(&[1, 2, 3, 4], 65532).unwrap();
    let before = driver.memory.data.clone();
    let res = driver.copy_to_device(&[9, 9, 9, 9, 9], 65532);
    assert_eq!(res, Err(SimError::DmaOutOfBounds));
    assert_eq!(driver.memory.data, before);
    let res = driver.copy_to_device(&[9], 65536);
    assert_eq!(res, Err(SimError::DmaOutOfBounds));
    assert_eq!(driver.memory.data, before);
}

#[test]
fn copy_in_bounds_overwrites_exactly_the_range() {
    let mut driver = AcceleratorDriver::new();
    assert_eq!(driver.copy_to_device(&[7, 8, 9], 100), Ok(()));
    assert_eq!(driver.memory.data[99], 0);
    assert_eq!(&driver.memory.data[100..103], &[7, 8, 9]);
    assert_eq!(driver.memory.data[103], 0);
    assert_eq!(driver.copy_to_device(&[], 65536), Ok(()));
    assert_eq!(driver.copy_to_device(&[5, 6], 65534), Ok(()));
    assert_eq!(driver.memory.read_word(65532), Ok(0x0605_0000));
}

#[test]
fn submit_resets_core_but_keeps_memory() {
    let mut driver = AcceleratorDriver::new();
    let store = vec![
        Instruction::new_i_type(Opcode::ADDI, 1, 0, 77),
        Instruction::new_s_type(Opcode::SW, 0, 1, 8),
        Instruction::new_i_type(Opcode::HALT, 0, 0, 0),
    ];
    assert_eq!(driver.submit_kernel(store), Ok(PerfStats { core_cycles: 1 + 11 + 1 }));
    let load = vec![
        Instruction::new_i_type(Opcode::LW, 2, 0, 8),
        Instruction::new_i_type(Opcode::HALT, 0, 0, 0),
    ];
    assert_eq!(driver.submit_kernel(load), Ok(PerfStats { core_cycles: 11 + 1 }));
    assert_eq!(driver.read_register(1), 0);
    assert_eq!(driver.read_register(2), 77);
}

#[test]
fn step_failure_is_reported_by_submit() {
    let mut driver = AcceleratorDriver::new();
    let kernel = vec![
        Instruction::new_i_type(Opcode::ADDI, 1, 0, 5),
        Instruction::new_r_type(Opcode::DIV, 2, 1, 0),
        Instruction::new_i_type(Opcode::HALT, 0, 0, 0),
    ];
    assert_eq!(driver.submit_kernel(kernel), Err(SimError::DivisionByZero));
    assert_eq!(driver.read_register(1), 5);
    assert_eq!(driver.get_perf_stats(), 2);
    assert_eq!(driver.submit_kernel(vec![]), Err(SimError::PcOutOfBounds(0)));
    let unknown = vec![Instruction::decode(0)];
    assert_eq!(driver.submit_kernel(unknown), Err(SimError::IllegalOpcode(0)));
}

#[test]
fn read_register_zero_is_zero() {
    let mut driver = AcceleratorDriver::new();
    driver.core.regs[0] = 42;
    assert_eq!(driver.read_register(0), 0);
}

#[test]
fn particle_kernel_moves_every_particle() {
    let mut driver = AcceleratorDriver::new();
    let mut data: Vec<u8> = Vec::new();
    for i in 0..10u32 {
        data.extend_from_slice(&(i * 10).to_le_bytes());
    }
    driver.copy_to_device(&data, 0).unwrap();
    let kernel = get_particle_sim_kernel();
    assert_eq!(kernel.len(), 12);
    assert!(driver.submit_kernel(kernel.clone()).is_ok());
    assert!(driver.submit_kernel(kernel).is_ok());
    for i in 0..10usize {
        assert_eq!(driver.memory.read_word(i * 4), Ok(i as u32 * 10 + 4));
    }
    assert_eq!(driver.memory.read_word(40), Ok(0));
}

#[test]
fn bench_kernel_runs_straight_through() {
    let kernel = get_bench_kernel(5);
    assert_eq!(kernel.len(), 7);
    assert_eq!(kernel[0], Instruction::new_i_type(Opcode::ADDI, 1, 1, 1));
    assert_eq!(kernel[3], Instruction::new_i_type(Opcode::ADDI, 1, 0, 1));
    assert_eq!(kernel[6].opcode, Opcode::HALT);
    let mut driver = AcceleratorDriver::new();
    assert_eq!(driver.submit_kernel(kernel), Ok(PerfStats { core_cycles: 7 }));
    assert_eq!(driver.read_register(1), 1);
}
