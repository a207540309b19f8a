use hxcemu::alu::Alu;

#[test]
fn zero() {
    let (out, zr, ng) = Alu::compute(0xde, 0xad, true, false, true, false, true, false);
    assert_eq!(out, 0);
    assert!(zr);
    assert!(!ng);
}

#[test]
fn one() {
    let (out, zr, ng) = Alu::compute(0xde, 0xad, true, true, true, true, true, true);
    assert_eq!(out, 0x1);
    assert!(!zr);
    assert!(!ng);
}

#[test]
fn minus_one() {
    let (out, zr, ng) = Alu::compute(0xde, 0xad, true, true, true, false, true, false);
    assert_eq!(out, 0xffff);
    assert!(!zr);
    assert!(ng);
}

#[test]
fn x() {
    let (out, zr, ng) = Alu::compute(0xde, 0xad, false, false, true, true, false, false);
    assert_eq!(out, 0xde);
    assert!(!zr);
    assert!(!ng);
}

#[test]
fn y() {
    let (out, zr, ng) = Alu::compute(0xde, 0xad, true, true, false, false, false, false);
    assert_eq!(out, 0xad);
    assert!(!zr);
    assert!(!ng);
}

#[test]
fn not_x() {
    let (out, zr, ng) = Alu::compute(0xde, 0xad, false, false, true, true, false, true);
    assert_eq!(out, 0xff21);
    assert!(!zr);
    assert!(ng);
}

#[test]
fn not_y() {
    let (out, zr, ng) = Alu::compute(0xde, 0xad, true, true, false, false, false, true);
    assert_eq!(out, 0xff52);
    assert!(!zr);
    assert!(ng);
}

#[test]
fn neg_x() {
    let (out, zr, ng) = Alu::compute(0xde, 0xad, false, false, true, true, true, true);
    assert_eq!(out, 0xff22);
    assert!(!zr);
    assert!(ng);
}

#[test]
fn neg_y() {
    let (out, zr, ng) = Alu::compute(0xde, 0xad, true, true, false, false, true, true);
    assert_eq!(out, 0xff53);
    assert!(!zr);
    assert!(ng);
}

#[test]
fn x_dec() {
    let (out, zr, ng) = Alu::compute(0xde, 0xad, false, false, true, true, true, false);
    assert_eq!(out, 0xdd);
    assert!(!zr);
    assert!(!ng);
}

#[test]
fn y_dec() {
    let (out, zr, ng) = Alu::compute(0xde, 0xad, true, true, false, false, true, false);
    assert_eq!(out, 0xac);
    assert!(!zr);
    assert!(!ng);
}

#[test]
fn x_plus_y() {
    let (out, zr, ng) = Alu::compute(0xde, 0xad, false, false, false, false, true, false);
    assert_eq!(out, 0x18b);
    assert!(!zr);
    assert!(!ng);
}

#[test]
fn x_minus_y() {
    let (out, zr, ng) = Alu::compute(0xde, 0xad, false, true, false, false, true, true);
    assert_eq!(out, 0x31);
    assert!(!zr);
    assert!(!ng);
}

#[test]
fn y_minus_x() {
    let (out, zr, ng) = Alu::compute(0xde, 0xad, false, false, false, true, true, true);
    assert_eq!(out, 0xffcf);
    assert!(!zr);
    assert!(ng);
}

#[test]
fn x_and_y() {
    let (out, zr, ng) = Alu::compute(0xde, 0xad, false, false, false, false, false, false);
    assert_eq!(out, 0x8c);
    assert!(!zr);
    assert!(!ng);
}

#[test]
fn x_or_y() {
    let (out, zr, ng) = Alu::compute(0xde, 0xad, false, true, false, true, false, true);
    assert_eq!(out, 0xff);
    assert!(!zr);
    assert!(!ng);
}

#[test]
fn alu_x_plus_one_wraps() {
    let (out, zr, ng) = Alu::compute(0xffff, 0, false, true, true, true, true, true);
    assert_eq!(out, 0);
    assert!(zr);
    assert!(!ng);
}

#[test]
fn alu_x_minus_y_wraps_below_zero() {
    let (out, zr, ng) = Alu::compute(1, 2, false, true, false, false, true, true);
    assert_eq!(out, 0xffff);
    assert!(!zr);
    assert!(ng);
}
