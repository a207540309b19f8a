//! A verified emulator core for the Hack computer: the ALU, the CPU, the
//! memories, the instruction decoder and disassembler, and the program loader.

pub mod alu;
pub mod text;
pub mod isa;
pub mod disas;
pub mod cpu;
pub mod ram;
pub mod rom;
pub mod hack_computer;
pub mod app;
pub mod common;
pub mod emulator;
