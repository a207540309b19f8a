use vstd::prelude::*;

use crate::alu::{alu_out, is_negative, lemma_alu_table, Alu};
use crate::isa::{
    comp_bits, comp_field, comp_value, decode_instruction, dest_bits, dest_decode, dest_field,
    dest_stores_a, dest_stores_d, dest_stores_m, jump_bits, jump_condition, jump_decode,
    jump_field, comp_text, mnemonic_value, lemma_comp_text_value, lemma_comp_decode, lemma_dest_decode, lemma_jump_decode, Comp, Dest, Instruction,
    Jump,
};

verus! {

const OPCODE_BIT: u16 = 0x8000;

const A_BIT: u16 = 0x1000;

const ZX_BIT: u16 = 0x0800;

const NX_BIT: u16 = 0x0400;

const ZY_BIT: u16 = 0x0200;

const NY_BIT: u16 = 0x0100;

const F_BIT: u16 = 0x0080;

const NO_BIT: u16 = 0x0040;

const DST_SHIFT: u16 = 3;

const DST_MASK: u16 = 0x07;

const DST_M: u16 = 0x01;

const DST_D: u16 = 0x02;

const DST_A: u16 = 0x04;

const JMP_MASK: u16 = 0x07;

/// The registers of the CPU: A, D and the program counter.
#[derive(Debug, Clone, Copy, PartialEq, Eq, Structural)]
pub struct CpuState {
    pub a: u16,
    pub d: u16,
    pub pc: u16,
}

/// The second ALU operand of a C-instruction: A when its a-bit is clear, else M.
pub open spec fn alu_operand(s: CpuState, instr: u16, in_m: u16) -> u16 {
    if instr & 0x1000 == 0 {
        s.a
    } else {
        in_m
    }
}

/// The ALU output of a C-instruction: D and the operand, under control bits 11..6.
pub open spec fn c_output(s: CpuState, instr: u16, in_m: u16) -> u16 {
    alu_out(
        s.d,
        alu_operand(s, instr, in_m),
        instr & 0x0800 != 0,
        instr & 0x0400 != 0,
        instr & 0x0200 != 0,
        instr & 0x0100 != 0,
        instr & 0x0080 != 0,
        instr & 0x0040 != 0,
    )
}

/// Whether the three jump bits `jmp` jump for an output with flags `zr` (zero) and `ng` (negative).
pub open spec fn jump_taken(jmp: u16, zr: bool, ng: bool) -> bool {
    if jmp == 1 {
        !ng && !zr
    } else if jmp == 2 {
        zr
    } else if jmp == 3 {
        !ng
    } else if jmp == 4 {
        ng
    } else if jmp == 5 {
        !zr
    } else if jmp == 6 {
        ng || zr
    } else {
        jmp == 7
    }
}

/// Whether a C-instruction jumps from state `s`.
pub open spec fn takes_jump(s: CpuState, instr: u16, in_m: u16) -> bool {
    let out = c_output(s, instr, in_m);
    jump_taken(instr & 0x0007, out == 0, is_negative(out))
}

/// Whether a tick moves the program counter on to the next instruction (rather
/// than resetting it or jumping).
pub open spec fn advances_pc(s: CpuState, instr: u16, in_m: u16, reset: bool) -> bool {
    !reset && !(instr & 0x8000 != 0 && takes_jump(s, instr, in_m))
}

/// One clock cycle of the CPU: the next state, and the memory outputs
/// `(out_m, write_m, addr_m)`.
///
/// Reset sets the program counter to 0 and keeps A and D. An A-instruction loads
/// itself into A. A C-instruction computes with the ALU, stores the result in the
/// registers its destination bits name, asks for a write of it to memory at the old
/// A when the M bit is set, and jumps to the (new) A when its jump condition holds.
pub open spec fn cpu_step(s: CpuState, instr: u16, in_m: u16, reset: bool) -> (CpuState, (u16, bool, u16)) {
    if reset {
        (CpuState { a: s.a, d: s.d, pc: 0 }, (0, false, 0))
    } else if instr & 0x8000 == 0 {
        (CpuState { a: instr, d: s.d, pc: (s.pc + 1) as u16 }, (0, false, 0))
    } else {
        let out = c_output(s, instr, in_m);
        let dst = (instr >> 3) & 0x0007;
        let write_m = dst & 0x0001 != 0;
        let d = if dst & 0x0002 != 0 { out } else { s.d };
        let a = if dst & 0x0004 != 0 { out } else { s.a };
        let pc = if takes_jump(s, instr, in_m) { a } else { (s.pc + 1) as u16 };
        (CpuState { a, d, pc }, (out, write_m, if write_m { s.a } else { 0 }))
    }
}

/// The instruction fields of a word, read as numbers: the control bits of the ALU are the
/// bits of the computation field, the destination and jump bits are their fields.
proof fn lemma_fields(instr: u16)
    ensures
        (instr & 0x1000 != 0) == ((comp_field(instr) / 64) % 2 == 1),
        (instr & 0x0800 != 0) == ((comp_field(instr) / 32) % 2 == 1),
        (instr & 0x0400 != 0) == ((comp_field(instr) / 16) % 2 == 1),
        (instr & 0x0200 != 0) == ((comp_field(instr) / 8) % 2 == 1),
        (instr & 0x0100 != 0) == ((comp_field(instr) / 4) % 2 == 1),
        (instr & 0x0080 != 0) == ((comp_field(instr) / 2) % 2 == 1),
        (instr & 0x0040 != 0) == (comp_field(instr) % 2 == 1),
        (((instr >> 3) & 0x0007) & 0x0001 != 0) == (dest_field(instr) % 2 == 1),
        (((instr >> 3) & 0x0007) & 0x0002 != 0) == ((dest_field(instr) / 2) % 2 == 1),
        (((instr >> 3) & 0x0007) & 0x0004 != 0) == ((dest_field(instr) / 4) % 2 == 1),
        dest_field(instr) < 8,
        instr & 0x0007 == jump_field(instr) as u16,
        jump_field(instr) < 8,
{
    assert({
        let cf: u8 = ((instr >> 6u16) & 0x7fu16) as u8;
        let df: u8 = ((instr >> 3u16) & 0x7u16) as u8;
        let jf: u8 = (instr & 0x7u16) as u8;
        &&& (instr & 0x1000 != 0) == ((cf / 64) % 2 == 1)
        &&& (instr & 0x0800 != 0) == ((cf / 32) % 2 == 1)
        &&& (instr & 0x0400 != 0) == ((cf / 16) % 2 == 1)
        &&& (instr & 0x0200 != 0) == ((cf / 8) % 2 == 1)
        &&& (instr & 0x0100 != 0) == ((cf / 4) % 2 == 1)
        &&& (instr & 0x0080 != 0) == ((cf / 2) % 2 == 1)
        &&& (instr & 0x0040 != 0) == (cf % 2 == 1)
        &&& (((instr >> 3) & 0x0007) & 0x0001 != 0) == (df % 2 == 1)
        &&& (((instr >> 3) & 0x0007) & 0x0002 != 0) == ((df / 2) % 2 == 1)
        &&& (((instr >> 3) & 0x0007) & 0x0004 != 0) == ((df / 4) % 2 == 1)
        &&& df < 8
        &&& instr & 0x0007 == jf as u16
        &&& jf < 8
    }) by (bit_vector);
}

/// The ALU, driven by the computation bits of `c`, computes the value of `c`.
proof fn lemma_comp_alu(c: Comp, d: u16, a: u16, m: u16)
    ensures
        alu_out(
            d,
            if (comp_bits(c) / 64) % 2 == 1 { m } else { a },
            (comp_bits(c) / 32) % 2 == 1,
            (comp_bits(c) / 16) % 2 == 1,
            (comp_bits(c) / 8) % 2 == 1,
            (comp_bits(c) / 4) % 2 == 1,
            (comp_bits(c) / 2) % 2 == 1,
            comp_bits(c) % 2 == 1,
        ) == comp_value(c, d, a, m),
{
    match c {
        Comp::Zero => {
            lemma_alu_table(d, a);
        },
        Comp::One => {
            lemma_alu_table(d, a);
        },
        Comp::NegOne => {
            lemma_alu_table(d, a);
        },
        Comp::D => {
            lemma_alu_table(d, a);
        },
        Comp::A => {
            lemma_alu_table(d, a);
        },
        Comp::NotD => {
            lemma_alu_table(d, a);
        },
        Comp::NotA => {
            lemma_alu_table(d, a);
        },
        Comp::NegD => {
            lemma_alu_table(d, a);
        },
        Comp::NegA => {
            lemma_alu_table(d, a);
        },
        Comp::DPlusOne => {
            lemma_alu_table(d, a);
        },
        Comp::APlusOne => {
            lemma_alu_table(d, a);
        },
        Comp::DMinusOne => {
            lemma_alu_table(d, a);
        },
        Comp::AMinusOne => {
            lemma_alu_table(d, a);
        },
        Comp::DPlusA => {
            lemma_alu_table(d, a);
        },
        Comp::DMinusA => {
            lemma_alu_table(d, a);
        },
        Comp::AMinusD => {
            lemma_alu_table(d, a);
        },
        Comp::DAndA => {
            lemma_alu_table(d, a);
        },
        Comp::DOrA => {
            lemma_alu_table(d, a);
        },
        Comp::M => {
            lemma_alu_table(d, m);
        },
        Comp::NotM => {
            lemma_alu_table(d, m);
        },
        Comp::NegM => {
            lemma_alu_table(d, m);
        },
        Comp::MPlusOne => {
            lemma_alu_table(d, m);
        },
        Comp::MMinusOne => {
            lemma_alu_table(d, m);
        },
        Comp::DPlusM => {
            lemma_alu_table(d, m);
        },
        Comp::DMinusM => {
            lemma_alu_table(d, m);
        },
        Comp::MMinusD => {
            lemma_alu_table(d, m);
        },
        Comp::DAndM => {
            lemma_alu_table(d, m);
        },
        Comp::DOrM => {
            lemma_alu_table(d, m);
        },
    }
}

/// The ALU output of a C-instruction is the value of the computation that its
/// computation bits encode.
proof fn lemma_c_output(s: CpuState, instr: u16, in_m: u16, comp: Comp)
    requires
        comp_bits(comp) == comp_field(instr),
    ensures
        c_output(s, instr, in_m) == comp_value(comp, s.d, s.a, in_m),
{
    lemma_fields(instr);
    lemma_comp_alu(comp, s.d, s.a, in_m);
}

/// The destination bits of a C-instruction name the registers that it stores into.
proof fn lemma_c_dest(instr: u16, dest: Option<Dest>)
    requires
        dest_decode(dest_field(instr)) == dest,
    ensures
        ((((instr >> 3) & 0x0007) & 0x0001) != 0) == dest_stores_m(dest),
        ((((instr >> 3) & 0x0007) & 0x0002) != 0) == dest_stores_d(dest),
        ((((instr >> 3) & 0x0007) & 0x0004) != 0) == dest_stores_a(dest),
{
    lemma_fields(instr);
    lemma_dest_decode(dest_field(instr));
    assert(dest_bits(Dest::M) == 1 && dest_bits(Dest::D) == 2 && dest_bits(Dest::DM) == 3
        && dest_bits(Dest::A) == 4 && dest_bits(Dest::AM) == 5 && dest_bits(Dest::AD) == 6
        && dest_bits(Dest::ADM) == 7);
}

/// The jump bits of a C-instruction jump exactly when the condition they encode holds.
proof fn lemma_c_jump(s: CpuState, instr: u16, in_m: u16, jump: Option<Jump>)
    requires
        jump_decode(jump_field(instr)) == jump,
    ensures
        takes_jump(s, instr, in_m) == jump_condition(jump, c_output(s, instr, in_m)),
{
    lemma_fields(instr);
    lemma_jump_decode(jump_field(instr));
    assert(jump_bits(Jump::JGT) == 1 && jump_bits(Jump::JEQ) == 2 && jump_bits(Jump::JGE) == 3
        && jump_bits(Jump::JLT) == 4 && jump_bits(Jump::JNE) == 5 && jump_bits(Jump::JLE) == 6
        && jump_bits(Jump::JMP) == 7);
}

/// The disassembler names each computation by what the ALU computes for its code: the
/// mnemonic of every computation, read as Hack assembly, is the ALU output for the
/// control bits and operand (A, or M when the a-bit is set) of its seven-bit code.
pub proof fn lemma_comp_text_names_alu_function(c: Comp, d: u16, a: u16, m: u16)
    ensures
        mnemonic_value(comp_text(c), d, a, m) == Some(
            alu_out(
                d,
                if (comp_bits(c) / 64) % 2 == 1 { m } else { a },
                (comp_bits(c) / 32) % 2 == 1,
                (comp_bits(c) / 16) % 2 == 1,
                (comp_bits(c) / 8) % 2 == 1,
                (comp_bits(c) / 4) % 2 == 1,
                (comp_bits(c) / 2) % 2 == 1,
                comp_bits(c) % 2 == 1,
            ),
        ),
{
    lemma_comp_alu(c, d, a, m);
    lemma_comp_text_value(c, d, a, m);
}

/// Reset wins over every instruction word: a tick with reset puts the program counter
/// to 0, keeps A and D, and outputs `(0, false, 0)`, whatever the instruction and input.
pub proof fn lemma_reset(s: CpuState, instr: u16, in_m: u16)
    ensures
        cpu_step(s, instr, in_m, true) == (CpuState { a: s.a, d: s.d, pc: 0 }, (0u16, false, 0u16)),
{
}

/// The CPU executes what the disassembler reads. For every word that decodes to a
/// C-instruction `dest=comp;jump`, a tick outputs the value of `comp` on D, A and M,
/// stores it in exactly the registers that `dest` names (and asks for a write to M at
/// the old A exactly when `dest` names M), and jumps to the new A exactly when the
/// condition of `jump` holds of the value; else it moves on to the next instruction.
pub proof fn lemma_executes_c_instruction(
    s: CpuState,
    instr: u16,
    in_m: u16,
    comp: Comp,
    dest: Option<Dest>,
    jump: Option<Jump>,
)
    requires
        decode_instruction(instr) == Ok::<Instruction, crate::isa::DecodeError>(
            Instruction::C { comp, dest, jump },
        ),
    ensures
        ({
            let (s2, (out, write_m, addr_m)) = cpu_step(s, instr, in_m, false);
            &&& out == comp_value(comp, s.d, s.a, in_m)
            &&& write_m == dest_stores_m(dest)
            &&& addr_m == (if write_m { s.a } else { 0 })
            &&& s2.d == (if dest_stores_d(dest) { out } else { s.d })
            &&& s2.a == (if dest_stores_a(dest) { out } else { s.a })
            &&& s2.pc == (if jump_condition(jump, out) { s2.a } else { (s.pc + 1) as u16 })
        }),
{
    assert(instr & 0x8000 != 0);
    lemma_comp_decode(comp_field(instr));
    lemma_c_output(s, instr, in_m, comp);
    lemma_c_dest(instr, dest);
    lemma_c_jump(s, instr, in_m, jump);
}

/// An A-instruction loads its own word into A, keeps D, asks for no memory write, and
/// moves on to the next instruction; reset puts the program counter to 0, keeps A and
/// D, and asks for no memory write.
pub proof fn lemma_executes_a_instruction_and_reset(s: CpuState, instr: u16, in_m: u16, v: u16)
    requires
        decode_instruction(instr) == Ok::<Instruction, crate::isa::DecodeError>(Instruction::A(v)),
    ensures
        cpu_step(s, instr, in_m, false) == (CpuState { a: v, d: s.d, pc: (s.pc + 1) as u16 }, (0u16, false, 0u16)),
        cpu_step(s, instr, in_m, true) == (CpuState { a: s.a, d: s.d, pc: 0 }, (0u16, false, 0u16)),
{
}

/// The Hack CPU.
pub struct Cpu {
    a_reg: u16,
    d_reg: u16,
    pc: u16,
}

impl View for Cpu {
    type V = CpuState;

    closed spec fn view(&self) -> CpuState {
        CpuState { a: self.a_reg, d: self.d_reg, pc: self.pc }
    }
}

impl Cpu {
    /// A CPU with all registers zero.
    pub fn new() -> (res: Self)
        ensures
            res@ == (CpuState { a: 0, d: 0, pc: 0 }),
    {
        Self { a_reg: 0, d_reg: 0, pc: 0 }
    }

    pub fn a_reg(&self) -> (res: u16)
        ensures
            res == self@.a,
    {
        self.a_reg
    }

    pub fn d_reg(&self) -> (res: u16)
        ensures
            res == self@.d,
    {
        self.d_reg
    }

    pub fn pc(&self) -> (res: u16)
        ensures
            res == self@.pc,
    {
        self.pc
    }

    /// Executes one clock cycle with instruction `instr`, memory input `in_m` and the
    /// reset line, and returns `(out_m, write_m, addr_m)`. The program counter must
    /// not run past the last address.
    pub fn tick(&mut self, instr: u16, in_m: u16, reset: bool) -> (res: (u16, bool, u16))
        requires
            advances_pc(old(self)@, instr, in_m, reset) ==> old(self)@.pc < u16::MAX,
        ensures
            (final(self)@, res) == cpu_step(old(self)@, instr, in_m, reset),
    {
        let mut out_m = 0u16;
        let mut write_m = false;
        let mut addr_m = 0u16;

        if reset {
            self.pc = 0;
            return (out_m, write_m, addr_m);
        }
        if (instr & OPCODE_BIT) == 0 {
            self.a_reg = instr;
            self.pc = self.pc + 1;
            return (out_m, write_m, addr_m);
        }
        let x = self.d_reg;
        let y = if (instr & A_BIT) == 0 {
            self.a_reg
        } else {
            in_m
        };
        let zx = (instr & ZX_BIT) != 0;
        let nx = (instr & NX_BIT) != 0;
        let zy = (instr & ZY_BIT) != 0;
        let ny = (instr & NY_BIT) != 0;
        let f = (instr & F_BIT) != 0;
        let no = (instr & NO_BIT) != 0;
        let (out, zr, ng) = Alu::compute(x, y, zx, nx, zy, ny, f, no);

        out_m = out;

        let dst = (instr >> DST_SHIFT) & DST_MASK;

        if (dst & DST_M) != 0 {
            write_m = true;
            addr_m = self.a_reg;
        }
        if (dst & DST_D) != 0 {
            self.d_reg = out;
        }
        if (dst & DST_A) != 0 {
            self.a_reg = out;
        }
        let jmp = instr & JMP_MASK;
        let do_jmp = match jmp {
            1 => !ng && !zr,
            2 => zr,
            3 => !ng,
            4 => ng,
            5 => !zr,
            6 => ng || zr,
            7 => true,
            _ => false,
        };
        self.pc = if do_jmp {
            self.a_reg
        } else {
            self.pc + 1
        };
        (out_m, write_m, addr_m)
    }
}

} // verus!
