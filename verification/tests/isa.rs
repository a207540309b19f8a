use hxcemu::isa::{Comp, Dest, Instruction, Jump};

#[test]
fn parse_a_instruction() {
    assert_eq!(Instruction::parse(0x1234).unwrap(), Instruction::A(0x1234));
}

#[test]
fn parse_c_instruction_fields() {
    let i = Instruction::parse(0b111_1_000010_011_001).unwrap();
    assert_eq!(i, Instruction::C { comp: Comp::DPlusM, dest: Some(Dest::DM), jump: Some(Jump::JGT) });
    let i = Instruction::parse(0b111_0_001100_000_000).unwrap();
    assert_eq!(i, Instruction::C { comp: Comp::D, dest: None, jump: None });
    assert_eq!(i.to_string(), "D");
}

#[test]
fn parse_ignores_bits_13_and_14() {
    let i = Instruction::parse(0b100_0_101010_000_111).unwrap();
    assert_eq!(i, Instruction::C { comp: Comp::Zero, dest: None, jump: Some(Jump::JMP) });
}

#[test]
fn field_parsers() {
    assert_eq!(Comp::parse(0b1_110000), Some(Comp::M));
    assert_eq!(Comp::parse(0b0_101011), None);
    assert_eq!(Dest::parse(0), None);
    assert_eq!(Dest::parse(0b101), Some(Dest::AM));
    assert_eq!(Jump::parse(0), None);
    assert_eq!(Jump::parse(0b110), Some(Jump::JLE));
    assert_eq!(Comp::MMinusD.to_string(), "M-D");
    assert_eq!(Dest::AD.to_string(), "AD");
    assert_eq!(Jump::JNE.to_string(), "JNE");
}

#[test]
fn every_comp_encoding_round_trips() {
    let mut found = 0;
    let mut reads_m = 0;
    for bits in 0u8..=255 {
        if let Some(c) = Comp::parse(bits) {
            assert!(bits < 0x80);
            found += 1;
            if bits >= 0x40 {
                reads_m += 1;
                assert!(c.to_string().contains('M'));
            } else {
                assert!(!c.to_string().contains('M'));
            }
            let instr: u16 = 0xe000 | ((bits as u16) << 6);
            assert_eq!(Instruction::parse(instr).unwrap(), Instruction::C { comp: c, dest: None, jump: None });
        }
    }
    assert_eq!(found, 28);
    assert_eq!(reads_m, 10);
}
