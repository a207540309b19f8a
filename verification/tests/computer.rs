use hxcemu::app::{format_binary, format_hex, window_addresses, App};
use hxcemu::common::{command_for_key, Command};
use hxcemu::emulator::{react, running_after_tick, EmulatorAction, EmulatorEvent};
use hxcemu::hack_computer::{HackComputer, HackComputerError};
use hxcemu::ram::Ram;
use hxcemu::rom::{LoadError, ROM_SIZE};

const ADD: &str = "\
// RAM[0] = 2 + 3
0000000000000010
1110110000010000
0000000000000011
1110000010010000
0000000000000000
1110001100001000
";

#[test]
fn computer_adds_two_numbers() {
    let mut c = HackComputer::new(ADD.as_bytes()).unwrap();
    for _ in 0..6 {
        c.tick(false).unwrap();
    }
    assert_eq!(c.ram(0), 5);
    assert_eq!(c.d_reg(), 5);
    assert_eq!(c.a_reg(), 0);
    assert_eq!(c.pc(), 6);
    assert_eq!(c.rom(1), 0b1110110000010000);
    c.tick(true).unwrap();
    assert_eq!(c.pc(), 0);
    assert_eq!(c.ram(0), 5);
}

#[test]
fn computer_new_reports_load_errors() {
    match HackComputer::new(b"012\n") {
        Err(LoadError::InvalidCode { code }) => assert_eq!(code, "012"),
        _ => panic!("expected an invalid code error"),
    }
}

#[test]
fn computer_pc_out_of_bounds() {
    // an empty ROM holds `@0` everywhere: the program counter walks off its end
    let mut c = HackComputer::new(b"").unwrap();
    for _ in 0..ROM_SIZE {
        c.tick(false).unwrap();
    }
    assert_eq!(c.pc(), 32768);
    let err = c.tick(false).unwrap_err();
    assert_eq!(err, HackComputerError::PcOutOfBounds { pc: 32768, max: ROM_SIZE });
    assert_eq!(err.message(), "PC=32768 exceeded ROM capacity (32768)");
    // a stopped computer stays stopped, even on reset
    assert!(c.tick(true).is_err());
    assert_eq!(c.pc(), 32768);
}

#[test]
fn ram_read_after_write() {
    let mut r = Ram::new();
    r.write(7, 42);
    r.write(8, 43);
    assert_eq!(r.read(7), 42);
    assert_eq!(r.read(8), 43);
    assert_eq!(r.read(9), 0);
}

#[test]
fn app_snapshot() {
    let mut c = HackComputer::new(ADD.as_bytes()).unwrap();
    c.tick(false).unwrap();
    let app = App::new(&c);
    assert_eq!((app.a_reg, app.d_reg, app.pc), (2, 0, 1));
}

#[test]
fn memory_window() {
    assert_eq!(window_addresses(10, 4), vec![8, 9, 10, 11]);
    assert_eq!(window_addresses(1, 6), vec![0, 1, 2, 3, 4, 5]);
    assert_eq!(window_addresses(3, 0), Vec::<u16>::new());
}

#[test]
fn keys_and_commands() {
    assert_eq!(command_for_key('q'), Some(Command::Quit));
    assert_eq!(command_for_key('r'), Some(Command::Run));
    assert_eq!(command_for_key('s'), Some(Command::Step));
    assert_eq!(command_for_key('x'), None);
}

#[test]
fn emulator_reactions() {
    assert_eq!(react(false, EmulatorEvent::Command(Command::Run)), (true, EmulatorAction::Wait));
    assert_eq!(react(true, EmulatorEvent::Command(Command::Run)), (true, EmulatorAction::Wait));
    assert_eq!(react(false, EmulatorEvent::Command(Command::Step)), (false, EmulatorAction::Tick));
    assert_eq!(react(true, EmulatorEvent::Timeout), (true, EmulatorAction::Tick));
    assert_eq!(react(false, EmulatorEvent::Timeout), (false, EmulatorAction::Wait));
    assert_eq!(react(true, EmulatorEvent::Command(Command::Quit)), (true, EmulatorAction::Stop));
    assert_eq!(react(false, EmulatorEvent::Disconnected), (false, EmulatorAction::Stop));
    assert!(running_after_tick(true, true));
    assert!(!running_after_tick(true, false));
    assert!(!running_after_tick(false, true));
}

#[test]
fn step_leaves_rom_and_other_ram_words() {
    let mut c = HackComputer::new(ADD.as_bytes()).unwrap();
    let rom_before: Vec<u16> = (0..8).map(|i| c.rom(i)).collect();
    for _ in 0..6 {
        c.tick(false).unwrap();
    }
    let rom_after: Vec<u16> = (0..8).map(|i| c.rom(i)).collect();
    assert_eq!(rom_before, rom_after);
    assert_eq!(c.ram(0), 5);
    for addr in 1..64 {
        assert_eq!(c.ram(addr), 0);
    }
}

#[test]
fn cell_formats() {
    assert_eq!(format_hex(0x2a, 6), "00002a");
    assert_eq!(format_hex(0xbeef, 4), "beef");
    assert_eq!(format_hex(0xffff, 6), "00ffff");
    assert_eq!(format_binary(5), "0000000000000101");
    assert_eq!(format_binary(0b1110000010010000), "1110000010010000");
}
