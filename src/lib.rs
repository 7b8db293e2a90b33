//! A small RISC-V-like processor emulator: an instruction decoder, a latency-aware
//! byte memory, a fetch-execute core with cycle accounting, and a driver that
//! copies data in and runs a kernel to completion under a cycle watchdog.

pub mod error;
pub mod isa;
pub mod memory;
pub mod engine;
pub mod driver;
pub mod kernels;
