use hxcemu::rom::{LoadError, Rom, ROM_SIZE};

#[test]
fn load_program_valid() {
    let program = "\
        // Compute RAM[0] = 2 + 3
        0000000000000010
        0000000000000011
        1110000010010000
    ";

    let mut rom = Rom::new();
    let result = rom.load_program(program.as_bytes());

    assert!(result.is_ok());
    assert_eq!(rom.fetch(0), 0b0000000000000010); // @2
    assert_eq!(rom.fetch(1), 0b0000000000000011); // @3
    assert_eq!(rom.fetch(2), 0b1110000010010000); // D=A
}

#[test]
fn load_program_invalid() {
    let program = "0000000000000012";
    let mut rom = Rom::new();

    let result = rom.load_program(program.as_bytes());
    assert!(result.is_err());
}

#[test]
fn load_program_invalid_code_message() {
    let mut rom = Rom::new();
    let result = rom.load_program("  0000000000000012 \r\n".as_bytes());
    match result {
        Err(LoadError::InvalidCode { code }) => assert_eq!(code, "0000000000000012"),
        other => panic!("unexpected {:?}", other),
    }
    let err = rom.load_program(b"2\n").unwrap_err();
    assert_eq!(err.message(), "invalid code: '2'");
}

#[test]
fn load_program_keeps_words_before_an_error() {
    let mut rom = Rom::new();
    let result = rom.load_program(b"101\nxyz\n111\n");
    assert!(result.is_err());
    assert_eq!(rom.fetch(0), 5);
    assert_eq!(rom.fetch(1), 0);
}

#[test]
fn load_program_accepts_plus_sign_crlf_and_unicode_spaces() {
    let mut rom = Rom::new();
    let text = "+11\r\n\u{3000}10\u{a0}\n\n   \n//comment ü\n1111111111111111";
    assert!(rom.load_program(text.as_bytes()).is_ok());
    assert_eq!(rom.fetch(0), 3);
    assert_eq!(rom.fetch(1), 2);
    assert_eq!(rom.fetch(2), 0xffff);
    assert_eq!(rom.fetch(3), 0);
}

#[test]
fn load_program_rejects_overflow_and_lone_sign() {
    let mut rom = Rom::new();
    assert!(rom.load_program(b"11111111111111111\n").is_err());
    let mut rom = Rom::new();
    assert!(rom.load_program(b"+\n").is_err());
    let mut rom = Rom::new();
    assert!(rom.load_program(b"-1\n").is_err());
    let mut rom = Rom::new();
    // leading zeros beyond sixteen digits are fine
    assert!(rom.load_program(b"00000000000000000001\n").is_ok());
    assert_eq!(rom.fetch(0), 1);
}

#[test]
fn load_program_invalid_utf8() {
    let mut rom = Rom::new();
    let err = rom.load_program(b"1\n\xff\xfe\n").unwrap_err();
    assert!(matches!(err, LoadError::InvalidUtf8));
    assert_eq!(err.message(), "stream did not contain valid UTF-8");
    assert_eq!(rom.fetch(0), 1);
}

#[test]
fn load_program_rom_size_exceeded() {
    let mut text = String::new();
    for _ in 0..ROM_SIZE {
        text.push_str("1\n");
    }
    let mut rom = Rom::new();
    assert!(rom.load_program(text.as_bytes()).is_ok());
    assert_eq!(rom.fetch((ROM_SIZE - 1) as u16), 1);
    text.push_str("// a comment still fits\n\n1\n");
    let mut rom = Rom::new();
    let err = rom.load_program(text.as_bytes()).unwrap_err();
    assert!(matches!(err, LoadError::RomSizeExceeded));
    assert_eq!(err.message(), "ROM size exceeded");
}
