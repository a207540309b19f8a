use vstd::prelude::*;
use vstd::string::*;

use crate::cpu::{
    cpu_step, lemma_executes_a_instruction_and_reset, lemma_executes_c_instruction, lemma_reset, Cpu,
    CpuState,
};
use crate::isa::{
    comp_value, decode_instruction, dest_stores_a, dest_stores_d, dest_stores_m, jump_condition,
    Comp, DecodeError, Dest, Instruction, Jump,
};
use crate::ram::{Ram, RAM_SIZE};
use crate::rom::{load_lines, LoadError, LoadFault, Rom, ROM_SIZE};
use crate::text::{decimal_text, push_decimal};

verus! {

/// The state of the whole computer: instruction memory, data memory and CPU registers.
pub struct MachineState {
    pub rom: Seq<u16>,
    pub ram: Seq<u16>,
    pub cpu: CpuState,
}

/// Why the computer cannot take a step.
#[derive(Debug, Clone, Copy, PartialEq, Eq, Structural)]
pub enum HackComputerError {
    /// The program counter points past the end of the ROM.
    PcOutOfBounds { pc: u16, max: usize },
}

/// The text of a computer error.
pub open spec fn hack_computer_error_text(e: HackComputerError) -> Seq<char> {
    match e {
        HackComputerError::PcOutOfBounds { pc, max } => "PC="@ + decimal_text(pc as nat)
            + " exceeded ROM capacity ("@ + decimal_text(max as nat) + ")"@,
    }
}

impl HackComputerError {
    /// The text of this error.
    pub fn message(&self) -> (res: String)
        ensures
            res@ == hack_computer_error_text(*self),
    {
        match self {
            HackComputerError::PcOutOfBounds { pc, max } => {
                let mut s = String::from_str("PC=");
                push_decimal(&mut s, *pc as u64);
                s.append(" exceeded ROM capacity (");
                push_decimal(&mut s, *max as u64);
                s.append(")");
                s
            },
        }
    }
}

/// The memory operand of the next instruction is in the RAM: the word at A can be read.
pub open spec fn operand_in_ram(m: MachineState) -> bool {
    (m.cpu.a as int) < RAM_SIZE
}

/// One clock cycle of the computer: fetch the instruction at the program counter and
/// the data word at A, run the CPU on them, and store its output in the RAM when it asks
/// for a write. A program counter past the ROM stops the computer instead, unchanged.
pub open spec fn machine_step(m: MachineState, reset: bool) -> (MachineState, Result<(), HackComputerError>) {
    if m.cpu.pc as int >= ROM_SIZE {
        (m, Err(HackComputerError::PcOutOfBounds { pc: m.cpu.pc, max: ROM_SIZE }))
    } else {
        let instr = m.rom[m.cpu.pc as int];
        let in_m = m.ram[m.cpu.a as int];
        let (cpu, (out_m, write_m, addr_m)) = cpu_step(m.cpu, instr, in_m, reset);
        (
            MachineState {
                rom: m.rom,
                ram: if write_m { m.ram.update(addr_m as int, out_m) } else { m.ram },
                cpu,
            },
            Ok(()),
        )
    }
}

/// A clock cycle never changes the ROM, changes at most the one RAM word at the old A,
/// and when the computer is stopped (the program counter past the ROM) changes nothing.
pub proof fn lemma_step_frame(m: MachineState, reset: bool, addr: int)
    requires
        0 <= addr < m.ram.len(),
        (m.cpu.a as int) < m.ram.len(),
        addr != m.cpu.a as int,
    ensures
        machine_step(m, reset).0.rom == m.rom,
        machine_step(m, reset).0.ram.len() == m.ram.len(),
        machine_step(m, reset).0.ram[addr] == m.ram[addr],
        m.cpu.pc as int >= ROM_SIZE ==> machine_step(m, reset).0 == m,
{
}

/// A clock cycle executes the instruction word at the program counter on the registers
/// and on the memory operand M, the RAM word at A: for a C-instruction `dest=comp;jump`
/// the value of `comp` on D, A and that word goes to the registers and the RAM word that
/// `dest` names, and control jumps to the new A exactly when the condition of `jump`
/// holds of the value; the ROM stays as it was.
pub proof fn lemma_machine_executes_c_instruction(
    m: MachineState,
    comp: Comp,
    dest: Option<Dest>,
    jump: Option<Jump>,
)
    requires
        (m.cpu.pc as int) < ROM_SIZE,
        (m.cpu.pc as int) < m.rom.len(),
        (m.cpu.a as int) < m.ram.len(),
        decode_instruction(m.rom[m.cpu.pc as int]) == Ok::<Instruction, DecodeError>(
            Instruction::C { comp, dest, jump },
        ),
    ensures
        ({
            let (m2, res) = machine_step(m, false);
            let v = comp_value(comp, m.cpu.d, m.cpu.a, m.ram[m.cpu.a as int]);
            &&& res is Ok
            &&& m2.rom == m.rom
            &&& m2.cpu.d == (if dest_stores_d(dest) { v } else { m.cpu.d })
            &&& m2.cpu.a == (if dest_stores_a(dest) { v } else { m.cpu.a })
            &&& m2.ram == (if dest_stores_m(dest) { m.ram.update(m.cpu.a as int, v) } else { m.ram })
            &&& m2.cpu.pc == (if jump_condition(jump, v) { m2.cpu.a } else { (m.cpu.pc + 1) as u16 })
        }),
{
    lemma_executes_c_instruction(
        m.cpu,
        m.rom[m.cpu.pc as int],
        m.ram[m.cpu.a as int],
        comp,
        dest,
        jump,
    );
}

/// A clock cycle on an A-instruction loads its word into A, keeps D and the memories, and
/// moves on; a clock cycle with reset (whatever the instruction) puts the program counter
/// to 0 and keeps A, D and the memories.
pub proof fn lemma_machine_executes_a_instruction_and_reset(m: MachineState, v: u16)
    requires
        (m.cpu.pc as int) < ROM_SIZE,
        (m.cpu.pc as int) < m.rom.len(),
        (m.cpu.a as int) < m.ram.len(),
    ensures
        decode_instruction(m.rom[m.cpu.pc as int]) == Ok::<Instruction, DecodeError>(Instruction::A(v))
            ==> machine_step(m, false) == (
            MachineState {
                rom: m.rom,
                ram: m.ram,
                cpu: CpuState { a: v, d: m.cpu.d, pc: (m.cpu.pc + 1) as u16 },
            },
            Ok::<(), HackComputerError>(()),
        ),
        machine_step(m, true) == (
            MachineState { rom: m.rom, ram: m.ram, cpu: CpuState { a: m.cpu.a, d: m.cpu.d, pc: 0 } },
            Ok::<(), HackComputerError>(()),
        ),
{
    let instr = m.rom[m.cpu.pc as int];
    let in_m = m.ram[m.cpu.a as int];
    lemma_reset(m.cpu, instr, in_m);
    if decode_instruction(instr) == Ok::<Instruction, DecodeError>(Instruction::A(v)) {
        lemma_executes_a_instruction_and_reset(m.cpu, instr, in_m, v);
    }
}

/// The Hack computer: ROM, RAM and CPU.
pub struct HackComputer {
    rom: Rom,
    ram: Ram,
    cpu: Cpu,
}

impl View for HackComputer {
    type V = MachineState;

    closed spec fn view(&self) -> MachineState {
        MachineState { rom: self.rom@, ram: self.ram@, cpu: self.cpu@ }
    }
}

impl HackComputer {
    /// Well-formedness: both memories have their full sizes.
    pub open spec fn wf(&self) -> bool {
        self@.rom.len() == ROM_SIZE && self@.ram.len() == RAM_SIZE
    }

    /// A computer whose ROM holds the program text `program` (see `load_lines`), with
    /// zero RAM and zero registers.
    pub fn new(program: &[u8]) -> (res: Result<Self, LoadError>)
        ensures
            ({
                let (rom, outcome) = load_lines(Seq::new(ROM_SIZE as nat, |i: int| 0u16), program@, 0, 0);
                match res {
                    Ok(c) => {
                        &&& outcome is Ok
                        &&& c.wf()
                        &&& c@ == (MachineState {
                            rom,
                            ram: Seq::new(RAM_SIZE as nat, |i: int| 0u16),
                            cpu: CpuState { a: 0, d: 0, pc: 0 },
                        })
                    },
                    Err(e) => outcome == Err::<(), LoadFault>(e@),
                }
            }),
    {
        let mut rom = Rom::new();
        rom.load_program(program)?;
        Ok(HackComputer { rom, ram: Ram::new(), cpu: Cpu::new() })
    }

    /// Runs one clock cycle (see `machine_step`). The word at A must be in the RAM
    /// whenever the program counter is in the ROM.
    pub fn tick(&mut self, reset: bool) -> (res: Result<(), HackComputerError>)
        requires
            old(self).wf(),
            (old(self)@.cpu.pc as int) < ROM_SIZE ==> operand_in_ram(old(self)@),
        ensures
            final(self).wf(),
            (final(self)@, res) == machine_step(old(self)@, reset),
    {
        if self.cpu.pc() >= ROM_SIZE as u16 {
            return Err(HackComputerError::PcOutOfBounds { pc: self.cpu.pc(), max: ROM_SIZE });
        }
        let instr = self.rom.fetch(self.cpu.pc());
        let in_m = self.ram.read(self.cpu.a_reg());
        let (out_m, write_m, addr_m) = self.cpu.tick(instr, in_m, reset);
        if write_m {
            self.ram.write(addr_m, out_m);
        }
        Ok(())
    }

    pub fn pc(&self) -> (res: u16)
        ensures
            res == self@.cpu.pc,
    {
        self.cpu.pc()
    }

    pub fn a_reg(&self) -> (res: u16)
        ensures
            res == self@.cpu.a,
    {
        self.cpu.a_reg()
    }

    pub fn d_reg(&self) -> (res: u16)
        ensures
            res == self@.cpu.d,
    {
        self.cpu.d_reg()
    }

    /// The RAM word at `addr`.
    pub fn ram(&self, addr: u16) -> (res: u16)
        requires
            self.wf(),
            (addr as usize) < RAM_SIZE,
        ensures
            res == self@.ram[addr as int],
    {
        self.ram.read(addr)
    }

    /// The ROM word at `addr`.
    pub fn rom(&self, addr: u16) -> (res: u16)
        requires
            self.wf(),
            (addr as usize) < ROM_SIZE,
        ensures
            res == self@.rom[addr as int],
    {
        self.rom.fetch(addr)
    }
}

} // verus!
