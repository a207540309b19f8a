use hxcemu::cpu::Cpu;

/// A CPU with registers A and D loaded (through instructions) and the program counter reset to 0.
fn cpu_with(a: u16, d: u16) -> Cpu {
    assert!(a < 0x8000 && d < 0x8000, "only 15-bit values load through A-instructions");
    let mut cpu = Cpu::new();
    cpu.tick(d, 0, false); // @d
    cpu.tick(0b111_0_110000_010_000, 0, false); // D=A
    cpu.tick(a, 0, false); // @a
    cpu.tick(0, 0, true); // reset
    assert_eq!((cpu.a_reg(), cpu.d_reg(), cpu.pc()), (a, d, 0));
    cpu
}

fn tick_and_expect(cpu: &mut Cpu, instr: u16, in_m: u16, reset: bool, exp: (u16, u16, u16, u16, bool, u16)) {
    let (out_m, write_m, addr_m) = cpu.tick(instr, in_m, reset);
    assert_eq!(cpu.pc(), exp.2, "pc");
    assert_eq!(cpu.a_reg(), exp.0, "a register");
    assert_eq!(cpu.d_reg(), exp.1, "d register");
    assert_eq!(out_m, exp.3, "out_m");
    assert_eq!(write_m, exp.4, "write_m");
    assert_eq!(addr_m, exp.5, "addr_m");
}

#[test]
fn ainstr() {
    let mut cpu = Cpu::new();
    tick_and_expect(&mut cpu, 0b0_001001100010010, 0, false, (0x1312, 0, 1, 0, false, 0));
}

// DM=D+M;JGT
#[test]
fn cinstr_d_plus_m_jgt_branch() {
    let mut cpu = cpu_with(0x42, 0x1300);
    tick_and_expect(&mut cpu, 0b111_1_000010_011_001, 0x12, false, (0x42, 0x1312, 0x42, 0x1312, true, 0x42));
}

// M=D-A;JGE
#[test]
fn cinstr_d_minus_a_jge_no_branch() {
    let mut cpu = cpu_with(0x13, 0x12);
    tick_and_expect(&mut cpu, 0b111_0_010011_001_011, 0, false, (0x13, 0x12, 1, 0xffff, true, 0x13));
}

// AMD=1
#[test]
fn cinstr_set_all_dsts() {
    let mut cpu = cpu_with(0x42, 0);
    tick_and_expect(&mut cpu, 0b111_0_111111_111_000, 0, false, (1, 1, 1, 1, true, 0x42));
}

#[test]
fn reset() {
    let mut cpu = cpu_with(0x52, 0x58);
    tick_and_expect(&mut cpu, 0, 0, true, (0x52, 0x58, 0, 0, false, 0));
}

#[test]
fn reset_from_a_jump_target() {
    let mut cpu = cpu_with(0x52, 0x58);
    cpu.tick(0b111_0_101010_000_111, 0, false); // 0;JMP -> pc = 0x52
    assert_eq!(cpu.pc(), 0x52);
    tick_and_expect(&mut cpu, 0, 0, true, (0x52, 0x58, 0, 0, false, 0));
}

#[test]
fn cinstr_jump_uses_updated_a() {
    // A=A+1;JMP jumps to the incremented A
    let mut cpu = cpu_with(0x10, 0);
    tick_and_expect(&mut cpu, 0b111_0_110111_100_111, 0, false, (0x11, 0, 0x11, 0x11, false, 0));
}

#[test]
fn cinstr_out_m_without_write() {
    // D=-1 computes -1 but does not ask to write M
    let mut cpu = cpu_with(5, 7);
    tick_and_expect(&mut cpu, 0b111_0_111010_010_000, 0, false, (5, 0xffff, 1, 0xffff, false, 0));
}

#[test]
fn cinstr_jlt_and_jeq() {
    // D;JLT with D negative jumps
    let mut cpu = cpu_with(0x20, 1);
    cpu.tick(0b111_0_001111_010_000, 0, false); // D=-D
    assert_eq!(cpu.d_reg(), 0xffff);
    tick_and_expect(&mut cpu, 0b111_0_001100_000_100, 0, false, (0x20, 0xffff, 0x20, 0xffff, false, 0));
    // D+1;JEQ gives 0 and jumps
    tick_and_expect(&mut cpu, 0b111_0_011111_000_010, 0, false, (0x20, 0xffff, 0x20, 0, false, 0));
    // D;JEQ with D nonzero goes on
    tick_and_expect(&mut cpu, 0b111_0_001100_000_010, 0, false, (0x20, 0xffff, 0x21, 0xffff, false, 0));
}
