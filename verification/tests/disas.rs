use hxcemu::disas::disassemble;
use hxcemu::isa::DecodeError;

#[test]
fn disassemble_ainstr_predefined() {
    let instr = disassemble(0b0_000000000001001).unwrap();
    assert_eq!(instr, "@R9");
}

#[test]
fn disassemble_ainstr_addr() {
    let instr = disassemble(0b0_000000000010011).unwrap();
    assert_eq!(instr, "@19");
}

#[test]
fn disassemble_ainstr_screen() {
    let instr = disassemble(0b0_100000000000000).unwrap();
    assert_eq!(instr, "@SCREEN");
}

#[test]
fn disassemble_ainstr_kbd() {
    let instr = disassemble(0b0_110000000000000).unwrap();
    assert_eq!(instr, "@KBD");
}

#[test]
fn disassemble_cinstr_valid() {
    let instr = disassemble(0b111_0_000000_001_001).unwrap();
    assert_eq!(instr, "M=D&A;JGT");
}

#[test]
fn disassemble_register_boundaries() {
    assert_eq!(disassemble(0).unwrap(), "@R0");
    assert_eq!(disassemble(15).unwrap(), "@R15");
    assert_eq!(disassemble(16).unwrap(), "@16");
    assert_eq!(disassemble(32767).unwrap(), "@32767");
    assert_eq!(disassemble(16385).unwrap(), "@16385");
}

#[test]
fn disassemble_cinstr_forms() {
    // 0;JMP
    assert_eq!(disassemble(0b111_0_101010_000_111).unwrap(), "0;JMP");
    // D=M
    assert_eq!(disassemble(0b111_1_110000_010_000).unwrap(), "D=M");
    // AMD=M-1
    assert_eq!(disassemble(0b111_1_110010_111_000).unwrap(), "ADM=M-1");
    // D;JLE
    assert_eq!(disassemble(0b111_0_001100_000_110).unwrap(), "D;JLE");
    // MD=D|M;JNE
    assert_eq!(disassemble(0b111_1_010101_011_101).unwrap(), "DM=D|M;JNE");
}

#[test]
fn disassemble_invalid_comp() {
    // computation bits 0b1_111111 name no computation
    let err = disassemble(0b111_1_111111_000_000).unwrap_err();
    assert_eq!(err, DecodeError::InvalidComp { bits: 0b1111111 });
    assert_eq!(err.message(), "invalid comp: 1111111");
    let err = disassemble(0b111_0_000001_000_000).unwrap_err();
    assert_eq!(err.message(), "invalid comp: 0000001");
}
