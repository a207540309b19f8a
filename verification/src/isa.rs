use vstd::prelude::*;
use vstd::string::*;

use crate::alu::{wrap16_add, wrap16_sub};
use crate::text::{
    binary_text, decimal_text, decimal_value, is_decimal_digit, lemma_decimal_text, push_binary,
    push_decimal,
};

verus! {

pub const INSTRUCTION_TYPE_BIT: u16 = 0x8000;

pub const PREDEFINED_REGISTERS_NUM: u16 = 16;

pub const SCREEN_ADDR: u16 = 16384;

pub const KBD_ADDR: u16 = 24576;

pub const A_BIT: u16 = 0x1000;

pub const CMP_SHIFT: u16 = 6;

pub const CMP_MASK: u16 = 0x7f;

pub const DST_SHIFT: u16 = 3;

pub const DST_MASK: u16 = 0x07;

pub const DST_M: u16 = 0x01;

pub const DST_D: u16 = 0x02;

pub const DST_A: u16 = 0x04;

pub const JMP_MASK: u16 = 0x07;

/// The computation field of a C-instruction.
#[derive(Debug, Clone, Copy, PartialEq, Eq, Structural)]
pub enum Comp {
    Zero,
    One,
    NegOne,
    D,
    A,
    NotD,
    NotA,
    NegD,
    NegA,
    DPlusOne,
    APlusOne,
    DMinusOne,
    AMinusOne,
    DPlusA,
    DMinusA,
    AMinusD,
    DAndA,
    DOrA,
    M,
    NotM,
    NegM,
    MPlusOne,
    MMinusOne,
    DPlusM,
    DMinusM,
    MMinusD,
    DAndM,
    DOrM,
}

/// The destination field of a C-instruction: which of A, D and M receive the result.
#[derive(Debug, Clone, Copy, PartialEq, Eq, Structural)]
pub enum Dest {
    M,
    D,
    DM,
    A,
    AM,
    AD,
    ADM,
}

/// The jump field of a C-instruction: the condition on the result under which control jumps to A.
#[derive(Debug, Clone, Copy, PartialEq, Eq, Structural)]
pub enum Jump {
    JGT,
    JEQ,
    JGE,
    JLT,
    JNE,
    JLE,
    JMP,
}

/// A decoded Hack instruction.
#[derive(Debug, Clone, Copy, PartialEq, Eq, Structural)]
pub enum Instruction {
    A(u16),
    C { comp: Comp, dest: Option<Dest>, jump: Option<Jump> },
}

/// Why a word is not a Hack instruction.
#[derive(Debug, Clone, Copy, PartialEq, Eq, Structural)]
pub enum DecodeError {
    /// The seven computation bits (the a-bit and c1..c6) name no computation.
    InvalidComp { bits: u8 },
}

/// The seven computation bits (a, c1..c6) that encode `x`.
pub open spec fn comp_bits(x: Comp) -> u8 {
    match x {
        Comp::Zero => 0b0_101010,
        Comp::One => 0b0_111111,
        Comp::NegOne => 0b0_111010,
        Comp::D => 0b0_001100,
        Comp::A => 0b0_110000,
        Comp::NotD => 0b0_001101,
        Comp::NotA => 0b0_110001,
        Comp::NegD => 0b0_001111,
        Comp::NegA => 0b0_110011,
        Comp::DPlusOne => 0b0_011111,
        Comp::APlusOne => 0b0_110111,
        Comp::DMinusOne => 0b0_001110,
        Comp::AMinusOne => 0b0_110010,
        Comp::DPlusA => 0b0_000010,
        Comp::DMinusA => 0b0_010011,
        Comp::AMinusD => 0b0_000111,
        Comp::DAndA => 0b0_000000,
        Comp::DOrA => 0b0_010101,
        Comp::M => 0b1_110000,
        Comp::NotM => 0b1_110001,
        Comp::NegM => 0b1_110011,
        Comp::MPlusOne => 0b1_110111,
        Comp::MMinusOne => 0b1_110010,
        Comp::DPlusM => 0b1_000010,
        Comp::DMinusM => 0b1_010011,
        Comp::MMinusD => 0b1_000111,
        Comp::DAndM => 0b1_000000,
        Comp::DOrM => 0b1_010101,
    }
}

/// The three destination bits (A, D, M) that encode `x`.
pub open spec fn dest_bits(x: Dest) -> u8 {
    match x {
        Dest::M => 0b001,
        Dest::D => 0b010,
        Dest::DM => 0b011,
        Dest::A => 0b100,
        Dest::AM => 0b101,
        Dest::AD => 0b110,
        Dest::ADM => 0b111,
    }
}

/// The three jump bits (lt, eq, gt) that encode `x`.
pub open spec fn jump_bits(x: Jump) -> u8 {
    match x {
        Jump::JGT => 0b001,
        Jump::JEQ => 0b010,
        Jump::JGE => 0b011,
        Jump::JLT => 0b100,
        Jump::JNE => 0b101,
        Jump::JLE => 0b110,
        Jump::JMP => 0b111,
    }
}

/// The computation that `bits` encode, if any.
pub open spec fn comp_decode(bits: u8) -> Option<Comp> {
    if exists|x: Comp| comp_bits(x) == bits {
        Some(choose|x: Comp| comp_bits(x) == bits)
    } else {
        None
    }
}

/// The destination that `bits` encode, if any (`0` stores nowhere).
pub open spec fn dest_decode(bits: u8) -> Option<Dest> {
    if exists|x: Dest| dest_bits(x) == bits {
        Some(choose|x: Dest| dest_bits(x) == bits)
    } else {
        None
    }
}

/// The jump that `bits` encode, if any (`0` never jumps).
pub open spec fn jump_decode(bits: u8) -> Option<Jump> {
    if exists|x: Jump| jump_bits(x) == bits {
        Some(choose|x: Jump| jump_bits(x) == bits)
    } else {
        None
    }
}

/// Decoding gives the value whose encoding is `bits`, and nothing when no value has that encoding.
pub proof fn lemma_comp_decode(bits: u8)
    ensures
        match comp_decode(bits) {
            Some(x) => comp_bits(x) == bits,
            None => forall|x: Comp| comp_bits(x) != bits,
        },
        forall|x: Comp, y: Comp| comp_bits(x) == comp_bits(y) ==> x == y,
{
}

/// Decoding undoes encoding: the encoding of every value decodes to that value.
pub proof fn lemma_comp_decode_round_trip(x: Comp)
    ensures
        comp_decode(comp_bits(x)) == Some(x),
{
    lemma_comp_decode(comp_bits(x));
}

/// Decoding gives the value whose encoding is `bits`, and nothing when no value has that encoding.
pub proof fn lemma_dest_decode(bits: u8)
    ensures
        match dest_decode(bits) {
            Some(x) => dest_bits(x) == bits,
            None => forall|x: Dest| dest_bits(x) != bits,
        },
        forall|x: Dest, y: Dest| dest_bits(x) == dest_bits(y) ==> x == y,
{
}

/// Decoding undoes encoding: the encoding of every value decodes to that value.
pub proof fn lemma_dest_decode_round_trip(x: Dest)
    ensures
        dest_decode(dest_bits(x)) == Some(x),
{
    lemma_dest_decode(dest_bits(x));
}

/// Decoding gives the value whose encoding is `bits`, and nothing when no value has that encoding.
pub proof fn lemma_jump_decode(bits: u8)
    ensures
        match jump_decode(bits) {
            Some(x) => jump_bits(x) == bits,
            None => forall|x: Jump| jump_bits(x) != bits,
        },
        forall|x: Jump, y: Jump| jump_bits(x) == jump_bits(y) ==> x == y,
{
}

/// Decoding undoes encoding: the encoding of every value decodes to that value.
pub proof fn lemma_jump_decode_round_trip(x: Jump)
    ensures
        jump_decode(jump_bits(x)) == Some(x),
{
    lemma_jump_decode(jump_bits(x));
}

/// Whether a computation reads the memory operand M (rather than A).
pub open spec fn reads_m(c: Comp) -> bool {
    ||| c matches Comp::M
    ||| c matches Comp::NotM
    ||| c matches Comp::NegM
    ||| c matches Comp::MPlusOne
    ||| c matches Comp::MMinusOne
    ||| c matches Comp::DPlusM
    ||| c matches Comp::DMinusM
    ||| c matches Comp::MMinusD
    ||| c matches Comp::DAndM
    ||| c matches Comp::DOrM
}

/// The seven-bit words that encode a computation.
pub open spec fn comp_codes() -> Set<u8> {
    Set::new(|b: u8| comp_decode(b) is Some)
}

/// The computation encodings: every code fits in seven bits; the a-bit (bit 6) is set
/// exactly in the codes of the ten computations that read M; there are exactly 28 codes,
/// 18 with the a-bit clear and 10 with it set.
pub proof fn lemma_comp_codes()
    ensures
        forall|b: u8| #[trigger] comp_decode(b) is Some ==> b < 0x80,
        forall|c: Comp| (#[trigger] comp_bits(c) >= 0x40) == reads_m(c),
        comp_codes().filter(|b: u8| b < 0x40).len() == 18,
        comp_codes().filter(|b: u8| b >= 0x40).len() == 10,
        comp_codes().len() == 28,
{
    assert forall|b: u8| #[trigger] comp_decode(b) is Some implies b < 0x80 by {
        lemma_comp_decode(b);
    }
    let lo: Set<u8> = set![0x2au8, 0x3fu8, 0x3au8, 0x0cu8, 0x30u8, 0x0du8, 0x31u8, 0x0fu8, 0x33u8, 0x1fu8, 0x37u8, 0x0eu8, 0x32u8, 0x02u8, 0x13u8, 0x07u8, 0x00u8, 0x15u8];
    let hi: Set<u8> = set![0x70u8, 0x71u8, 0x73u8, 0x77u8, 0x72u8, 0x42u8, 0x53u8, 0x47u8, 0x40u8, 0x55u8];
    assert forall|b: u8| lo.contains(b) || hi.contains(b) implies comp_codes().contains(b) by {
        lemma_comp_decode(b);
        {
            assert(comp_bits(Comp::Zero) == 0x2au8);
            assert(comp_bits(Comp::One) == 0x3fu8);
            assert(comp_bits(Comp::NegOne) == 0x3au8);
            assert(comp_bits(Comp::D) == 0x0cu8);
            assert(comp_bits(Comp::A) == 0x30u8);
            assert(comp_bits(Comp::NotD) == 0x0du8);
            assert(comp_bits(Comp::NotA) == 0x31u8);
            assert(comp_bits(Comp::NegD) == 0x0fu8);
            assert(comp_bits(Comp::NegA) == 0x33u8);
            assert(comp_bits(Comp::DPlusOne) == 0x1fu8);
            assert(comp_bits(Comp::APlusOne) == 0x37u8);
            assert(comp_bits(Comp::DMinusOne) == 0x0eu8);
            assert(comp_bits(Comp::AMinusOne) == 0x32u8);
            assert(comp_bits(Comp::DPlusA) == 0x02u8);
            assert(comp_bits(Comp::DMinusA) == 0x13u8);
            assert(comp_bits(Comp::AMinusD) == 0x07u8);
            assert(comp_bits(Comp::DAndA) == 0x00u8);
            assert(comp_bits(Comp::DOrA) == 0x15u8);
            assert(comp_bits(Comp::M) == 0x70u8);
            assert(comp_bits(Comp::NotM) == 0x71u8);
            assert(comp_bits(Comp::NegM) == 0x73u8);
            assert(comp_bits(Comp::MPlusOne) == 0x77u8);
            assert(comp_bits(Comp::MMinusOne) == 0x72u8);
            assert(comp_bits(Comp::DPlusM) == 0x42u8);
            assert(comp_bits(Comp::DMinusM) == 0x53u8);
            assert(comp_bits(Comp::MMinusD) == 0x47u8);
            assert(comp_bits(Comp::DAndM) == 0x40u8);
            assert(comp_bits(Comp::DOrM) == 0x55u8);
        }
    }
    assert forall|b: u8| comp_codes().contains(b) implies lo.contains(b) || hi.contains(b) by {
        lemma_comp_decode(b);
    }
    assert(comp_codes().filter(|b: u8| b < 0x40) =~= lo);
    assert(comp_codes().filter(|b: u8| b >= 0x40) =~= hi);
    assert(comp_codes() =~= lo + hi);
    assert(lo.len() == 18);
    assert(hi.len() == 10);
    assert(lo.disjoint(hi));
    vstd::set_lib::lemma_set_disjoint_lens(lo, hi);
}

/// The value of register `r` (`D`, `A` or the memory operand `M`) in an assembly text.
pub open spec fn register_value(r: char, d: u16, a: u16, m: u16) -> Option<u16> {
    if r == 'D' {
        Some(d)
    } else if r == 'A' {
        Some(a)
    } else if r == 'M' {
        Some(m)
    } else {
        None
    }
}

/// What a computation mnemonic of the Hack assembly language means, read character by
/// character: `0`, `1`, `-1`, a register `X`, `!X` (bitwise not), `-X` (negation), or
/// `X+Y`, `X-Y`, `X&Y`, `X|Y` where `Y` is a register or `1`; all arithmetic modulo 2^16.
/// `None` for a text that is none of these.
pub open spec fn mnemonic_value(t: Seq<char>, d: u16, a: u16, m: u16) -> Option<u16> {
    if t.len() == 1 {
        if t[0] == '0' {
            Some(0u16)
        } else if t[0] == '1' {
            Some(1u16)
        } else {
            register_value(t[0], d, a, m)
        }
    } else if t.len() == 2 {
        if t[0] == '-' && t[1] == '1' {
            Some(0xffffu16)
        } else {
            match register_value(t[1], d, a, m) {
                Some(v) => if t[0] == '!' {
                    Some(!v)
                } else if t[0] == '-' {
                    Some(wrap16_sub(0, v))
                } else {
                    None
                },
                None => None,
            }
        }
    } else if t.len() == 3 {
        let y = if t[2] == '1' { Some(1u16) } else { register_value(t[2], d, a, m) };
        match (register_value(t[0], d, a, m), y) {
            (Some(x), Some(y)) => if t[1] == '+' {
                Some(wrap16_add(x, y))
            } else if t[1] == '-' {
                Some(wrap16_sub(x, y))
            } else if t[1] == '&' {
                Some(x & y)
            } else if t[1] == '|' {
                Some(x | y)
            } else {
                None
            },
            _ => None,
        }
    } else {
        None
    }
}

/// What a jump mnemonic means for a computed value `v` (read as a signed number):
/// `JGT` v > 0, `JEQ` v = 0, `JGE` v >= 0, `JLT` v < 0, `JNE` v != 0, `JLE` v <= 0, `JMP` always.
pub open spec fn jump_mnemonic_holds(t: Seq<char>, v: int) -> bool {
    &&& t.len() == 3
    &&& t[0] == 'J'
    &&& {
        ||| (t[1] == 'G' && t[2] == 'T' && v > 0)
        ||| (t[1] == 'E' && t[2] == 'Q' && v == 0)
        ||| (t[1] == 'G' && t[2] == 'E' && v >= 0)
        ||| (t[1] == 'L' && t[2] == 'T' && v < 0)
        ||| (t[1] == 'N' && t[2] == 'E' && v != 0)
        ||| (t[1] == 'L' && t[2] == 'E' && v <= 0)
        ||| (t[1] == 'M' && t[2] == 'P')
    }
}

/// Read as Hack assembly, the mnemonic of every computation means its value.
pub proof fn lemma_comp_text_value(c: Comp, d: u16, a: u16, m: u16)
    ensures
        mnemonic_value(comp_text(c), d, a, m) == Some(comp_value(c, d, a, m)),
{
    match c {
        Comp::Zero => {
            reveal_strlit("0");
            assert(comp_text(c) =~= seq!['0']);
        },
        Comp::One => {
            reveal_strlit("1");
            assert(comp_text(c) =~= seq!['1']);
        },
        Comp::NegOne => {
            reveal_strlit("-1");
            assert(comp_text(c) =~= seq!['-', '1']);
        },
        Comp::D => {
            reveal_strlit("D");
            assert(comp_text(c) =~= seq!['D']);
        },
        Comp::A => {
            reveal_strlit("A");
            assert(comp_text(c) =~= seq!['A']);
        },
        Comp::NotD => {
            reveal_strlit("!D");
            assert(comp_text(c) =~= seq!['!', 'D']);
        },
        Comp::NotA => {
            reveal_strlit("!A");
            assert(comp_text(c) =~= seq!['!', 'A']);
        },
        Comp::NegD => {
            reveal_strlit("-D");
            assert(comp_text(c) =~= seq!['-', 'D']);
        },
        Comp::NegA => {
            reveal_strlit("-A");
            assert(comp_text(c) =~= seq!['-', 'A']);
        },
        Comp::DPlusOne => {
            reveal_strlit("D+1");
            assert(comp_text(c) =~= seq!['D', '+', '1']);
        },
        Comp::APlusOne => {
            reveal_strlit("A+1");
            assert(comp_text(c) =~= seq!['A', '+', '1']);
        },
        Comp::DMinusOne => {
            reveal_strlit("D-1");
            assert(comp_text(c) =~= seq!['D', '-', '1']);
        },
        Comp::AMinusOne => {
            reveal_strlit("A-1");
            assert(comp_text(c) =~= seq!['A', '-', '1']);
        },
        Comp::DPlusA => {
            reveal_strlit("D+A");
            assert(comp_text(c) =~= seq!['D', '+', 'A']);
        },
        Comp::DMinusA => {
            reveal_strlit("D-A");
            assert(comp_text(c) =~= seq!['D', '-', 'A']);
        },
        Comp::AMinusD => {
            reveal_strlit("A-D");
            assert(comp_text(c) =~= seq!['A', '-', 'D']);
        },
        Comp::DAndA => {
            reveal_strlit("D&A");
            assert(comp_text(c) =~= seq!['D', '&', 'A']);
        },
        Comp::DOrA => {
            reveal_strlit("D|A");
            assert(comp_text(c) =~= seq!['D', '|', 'A']);
        },
        Comp::M => {
            reveal_strlit("M");
            assert(comp_text(c) =~= seq!['M']);
        },
        Comp::NotM => {
            reveal_strlit("!M");
            assert(comp_text(c) =~= seq!['!', 'M']);
        },
        Comp::NegM => {
            reveal_strlit("-M");
            assert(comp_text(c) =~= seq!['-', 'M']);
        },
        Comp::MPlusOne => {
            reveal_strlit("M+1");
            assert(comp_text(c) =~= seq!['M', '+', '1']);
        },
        Comp::MMinusOne => {
            reveal_strlit("M-1");
            assert(comp_text(c) =~= seq!['M', '-', '1']);
        },
        Comp::DPlusM => {
            reveal_strlit("D+M");
            assert(comp_text(c) =~= seq!['D', '+', 'M']);
        },
        Comp::DMinusM => {
            reveal_strlit("D-M");
            assert(comp_text(c) =~= seq!['D', '-', 'M']);
        },
        Comp::MMinusD => {
            reveal_strlit("M-D");
            assert(comp_text(c) =~= seq!['M', '-', 'D']);
        },
        Comp::DAndM => {
            reveal_strlit("D&M");
            assert(comp_text(c) =~= seq!['D', '&', 'M']);
        },
        Comp::DOrM => {
            reveal_strlit("D|M");
            assert(comp_text(c) =~= seq!['D', '|', 'M']);
        },
    }
}

/// The destination mnemonic names, in the order A, D, M, exactly the registers that the
/// destination stores into.
pub proof fn lemma_dest_text_names_stores(x: Dest)
    ensures
        dest_text(x) == (if dest_stores_a(Some(x)) { seq!['A'] } else { Seq::<char>::empty() })
            + (if dest_stores_d(Some(x)) { seq!['D'] } else { Seq::<char>::empty() })
            + (if dest_stores_m(Some(x)) { seq!['M'] } else { Seq::<char>::empty() }),
{
    reveal_strlit("M");
    reveal_strlit("D");
    reveal_strlit("DM");
    reveal_strlit("A");
    reveal_strlit("AM");
    reveal_strlit("AD");
    reveal_strlit("ADM");
    match x {
        Dest::M => assert(dest_text(x) =~= seq!['M']),
        Dest::D => assert(dest_text(x) =~= seq!['D']),
        Dest::DM => assert(dest_text(x) =~= seq!['D', 'M']),
        Dest::A => assert(dest_text(x) =~= seq!['A']),
        Dest::AM => assert(dest_text(x) =~= seq!['A', 'M']),
        Dest::AD => assert(dest_text(x) =~= seq!['A', 'D']),
        Dest::ADM => assert(dest_text(x) =~= seq!['A', 'D', 'M']),
    }
}

/// The jump mnemonic names the condition under which the jump is taken.
pub proof fn lemma_jump_text_names_condition(x: Jump, out: u16)
    ensures
        jump_mnemonic_holds(jump_text(x), signed_value(out)) == jump_condition(Some(x), out),
{
    reveal_strlit("JGT");
    reveal_strlit("JEQ");
    reveal_strlit("JGE");
    reveal_strlit("JLT");
    reveal_strlit("JNE");
    reveal_strlit("JLE");
    reveal_strlit("JMP");
}

/// Whether `s` is a nonempty string of decimal digits.
pub open spec fn is_decimal_numeral(s: Seq<char>) -> bool {
    s.len() > 0 && forall|i: int| 0 <= i < s.len() ==> is_decimal_digit(#[trigger] s[i])
}

/// The address that an A-instruction text names in Hack assembly: `@SCREEN` is 16384,
/// `@KBD` is 24576, `@R0`..`@R15` are 0..15 (the register number written without a
/// leading zero), and `@` followed by a decimal number is that number.
pub open spec fn a_text_address(t: Seq<char>) -> Option<nat> {
    if t == "@SCREEN"@ {
        Some(16384)
    } else if t == "@KBD"@ {
        Some(24576)
    } else if t.len() >= 3 && t[0] == '@' && t[1] == 'R' && is_decimal_numeral(t.skip(2))
        && decimal_value(t.skip(2)) < 16 && (t[2] == '0' ==> t.len() == 3) {
        Some(decimal_value(t.skip(2)))
    } else if t.len() >= 2 && t[0] == '@' && is_decimal_numeral(t.skip(1)) {
        Some(decimal_value(t.skip(1)))
    } else {
        None
    }
}

/// The disassembly of an A-instruction names its word: read as Hack assembly it is the
/// address `v`, and it is written as a plain number exactly when `v` is none of the
/// predefined symbols (SCREEN, KBD, R0..R15).
pub proof fn lemma_a_instruction_text(v: u16)
    ensures
        a_text_address(instruction_text(Instruction::A(v))) == Some(v as nat),
        instruction_text(Instruction::A(v)).len() >= 2,
        is_decimal_digit(instruction_text(Instruction::A(v))[1]) == (v >= 16 && v != SCREEN_ADDR
            && v != KBD_ADDR),
{
    reveal_strlit("@SCREEN");
    reveal_strlit("@KBD");
    reveal_strlit("@R");
    reveal_strlit("@");
    lemma_decimal_text(v as nat);
    let t = instruction_text(Instruction::A(v));
    let dec = decimal_text(v as nat);
    if v == SCREEN_ADDR || v == KBD_ADDR {
    } else if v < PREDEFINED_REGISTERS_NUM {
        assert(t =~= seq!['@', 'R'] + dec);
        assert(t.skip(2) =~= dec);
        assert(t[1] == 'R');
        assert(t != "@SCREEN"@ && t != "@KBD"@);
    } else {
        assert(t =~= seq!['@'] + dec);
        assert(t.skip(1) =~= dec);
        assert(is_decimal_digit(t[1]));
        assert(t != "@SCREEN"@ && t != "@KBD"@);
    }
}

/// The assembly mnemonic of a computation.
pub open spec fn comp_text(x: Comp) -> Seq<char> {
    match x {
        Comp::Zero => "0"@,
        Comp::One => "1"@,
        Comp::NegOne => "-1"@,
        Comp::D => "D"@,
        Comp::A => "A"@,
        Comp::NotD => "!D"@,
        Comp::NotA => "!A"@,
        Comp::NegD => "-D"@,
        Comp::NegA => "-A"@,
        Comp::DPlusOne => "D+1"@,
        Comp::APlusOne => "A+1"@,
        Comp::DMinusOne => "D-1"@,
        Comp::AMinusOne => "A-1"@,
        Comp::DPlusA => "D+A"@,
        Comp::DMinusA => "D-A"@,
        Comp::AMinusD => "A-D"@,
        Comp::DAndA => "D&A"@,
        Comp::DOrA => "D|A"@,
        Comp::M => "M"@,
        Comp::NotM => "!M"@,
        Comp::NegM => "-M"@,
        Comp::MPlusOne => "M+1"@,
        Comp::MMinusOne => "M-1"@,
        Comp::DPlusM => "D+M"@,
        Comp::DMinusM => "D-M"@,
        Comp::MMinusD => "M-D"@,
        Comp::DAndM => "D&M"@,
        Comp::DOrM => "D|M"@,
    }
}

/// The assembly mnemonic of a destination.
pub open spec fn dest_text(x: Dest) -> Seq<char> {
    match x {
        Dest::M => "M"@,
        Dest::D => "D"@,
        Dest::DM => "DM"@,
        Dest::A => "A"@,
        Dest::AM => "AM"@,
        Dest::AD => "AD"@,
        Dest::ADM => "ADM"@,
    }
}

/// The assembly mnemonic of a jump.
pub open spec fn jump_text(x: Jump) -> Seq<char> {
    match x {
        Jump::JGT => "JGT"@,
        Jump::JEQ => "JEQ"@,
        Jump::JGE => "JGE"@,
        Jump::JLT => "JLT"@,
        Jump::JNE => "JNE"@,
        Jump::JLE => "JLE"@,
        Jump::JMP => "JMP"@,
    }
}

/// The value that a computation yields from the registers D and A and the memory operand M.
pub open spec fn comp_value(c: Comp, d: u16, a: u16, m: u16) -> u16 {
    match c {
        Comp::Zero => 0,
        Comp::One => 1,
        Comp::NegOne => 0xffff,
        Comp::D => d,
        Comp::A => a,
        Comp::NotD => !d,
        Comp::NotA => !a,
        Comp::NegD => wrap16_sub(0, d),
        Comp::NegA => wrap16_sub(0, a),
        Comp::DPlusOne => wrap16_add(d, 1),
        Comp::APlusOne => wrap16_add(a, 1),
        Comp::DMinusOne => wrap16_sub(d, 1),
        Comp::AMinusOne => wrap16_sub(a, 1),
        Comp::DPlusA => wrap16_add(d, a),
        Comp::DMinusA => wrap16_sub(d, a),
        Comp::AMinusD => wrap16_sub(a, d),
        Comp::DAndA => d & a,
        Comp::DOrA => d | a,
        Comp::M => m,
        Comp::NotM => !m,
        Comp::NegM => wrap16_sub(0, m),
        Comp::MPlusOne => wrap16_add(m, 1),
        Comp::MMinusOne => wrap16_sub(m, 1),
        Comp::DPlusM => wrap16_add(d, m),
        Comp::DMinusM => wrap16_sub(d, m),
        Comp::MMinusD => wrap16_sub(m, d),
        Comp::DAndM => d & m,
        Comp::DOrM => d | m,
    }
}

/// A word read as a two's complement number.
pub open spec fn signed_value(w: u16) -> int {
    if w >= 0x8000 { w - 0x10000 } else { w as int }
}

/// Whether a jump field makes control jump when the computation yields `out`.
pub open spec fn jump_condition(j: Option<Jump>, out: u16) -> bool {
    match j {
        None => false,
        Some(Jump::JGT) => signed_value(out) > 0,
        Some(Jump::JEQ) => signed_value(out) == 0,
        Some(Jump::JGE) => signed_value(out) >= 0,
        Some(Jump::JLT) => signed_value(out) < 0,
        Some(Jump::JNE) => signed_value(out) != 0,
        Some(Jump::JLE) => signed_value(out) <= 0,
        Some(Jump::JMP) => true,
    }
}

/// Whether a destination field stores the result in A.
pub open spec fn dest_stores_a(d: Option<Dest>) -> bool {
    d matches Some(Dest::A) || d matches Some(Dest::AM) || d matches Some(Dest::AD) || d matches Some(Dest::ADM)
}

/// Whether a destination field stores the result in D.
pub open spec fn dest_stores_d(d: Option<Dest>) -> bool {
    d matches Some(Dest::D) || d matches Some(Dest::DM) || d matches Some(Dest::AD) || d matches Some(Dest::ADM)
}

/// Whether a destination field stores the result in M, the memory word that A addresses.
pub open spec fn dest_stores_m(d: Option<Dest>) -> bool {
    d matches Some(Dest::M) || d matches Some(Dest::DM) || d matches Some(Dest::AM) || d matches Some(Dest::ADM)
}

/// The computation bits of a C-instruction word.
pub open spec fn comp_field(instr: u16) -> u8 {
    ((instr >> CMP_SHIFT) & CMP_MASK) as u8
}

/// The destination bits of a C-instruction word.
pub open spec fn dest_field(instr: u16) -> u8 {
    ((instr >> DST_SHIFT) & DST_MASK) as u8
}

/// The jump bits of a C-instruction word.
pub open spec fn jump_field(instr: u16) -> u8 {
    (instr & JMP_MASK) as u8
}

/// The instruction that a 16-bit word encodes: an A-instruction when the top bit is
/// clear, else a C-instruction whose computation bits must name a computation.
pub open spec fn decode_instruction(instr: u16) -> Result<Instruction, DecodeError> {
    if instr & INSTRUCTION_TYPE_BIT == 0 {
        Ok(Instruction::A(instr))
    } else {
        match comp_decode(comp_field(instr)) {
            Some(c) => Ok(Instruction::C {
                comp: c,
                dest: dest_decode(dest_field(instr)),
                jump: jump_decode(jump_field(instr)),
            }),
            None => Err(DecodeError::InvalidComp { bits: comp_field(instr) }),
        }
    }
}

/// The assembly text of an instruction. An A-instruction names the screen and keyboard
/// addresses and the sixteen predefined registers `R0`..`R15`; a C-instruction reads
/// `dest=comp;jump` with the destination and the jump left out when absent.
pub open spec fn instruction_text(i: Instruction) -> Seq<char> {
    match i {
        Instruction::A(v) => if v == SCREEN_ADDR {
            "@SCREEN"@
        } else if v == KBD_ADDR {
            "@KBD"@
        } else if v < PREDEFINED_REGISTERS_NUM {
            "@R"@ + decimal_text(v as nat)
        } else {
            "@"@ + decimal_text(v as nat)
        },
        Instruction::C { comp, dest, jump } => {
            let d = match dest {
                Some(x) => dest_text(x) + "="@,
                None => Seq::empty(),
            };
            let j = match jump {
                Some(x) => ";"@ + jump_text(x),
                None => Seq::empty(),
            };
            d + comp_text(comp) + j
        },
    }
}

/// The text of a decoding error.
pub open spec fn decode_error_text(e: DecodeError) -> Seq<char> {
    match e {
        DecodeError::InvalidComp { bits } => "invalid comp: "@ + binary_text(bits as nat, 7),
    }
}

impl Comp {
    /// Decodes the seven computation bits.
    pub fn parse(bits: u8) -> (res: Option<Comp>)
        ensures
            res == comp_decode(bits),
    {
        proof {
            lemma_comp_decode(bits);
        }
        match bits {
            0b0_101010 => {
                assert(comp_bits(Comp::Zero) == bits);
                Some(Comp::Zero)
            },
            0b0_111111 => {
                assert(comp_bits(Comp::One) == bits);
                Some(Comp::One)
            },
            0b0_111010 => {
                assert(comp_bits(Comp::NegOne) == bits);
                Some(Comp::NegOne)
            },
            0b0_001100 => {
                assert(comp_bits(Comp::D) == bits);
                Some(Comp::D)
            },
            0b0_110000 => {
                assert(comp_bits(Comp::A) == bits);
                Some(Comp::A)
            },
            0b0_001101 => {
                assert(comp_bits(Comp::NotD) == bits);
                Some(Comp::NotD)
            },
            0b0_110001 => {
                assert(comp_bits(Comp::NotA) == bits);
                Some(Comp::NotA)
            },
            0b0_001111 => {
                assert(comp_bits(Comp::NegD) == bits);
                Some(Comp::NegD)
            },
            0b0_110011 => {
                assert(comp_bits(Comp::NegA) == bits);
                Some(Comp::NegA)
            },
            0b0_011111 => {
                assert(comp_bits(Comp::DPlusOne) == bits);
                Some(Comp::DPlusOne)
            },
            0b0_110111 => {
                assert(comp_bits(Comp::APlusOne) == bits);
                Some(Comp::APlusOne)
            },
            0b0_001110 => {
                assert(comp_bits(Comp::DMinusOne) == bits);
                Some(Comp::DMinusOne)
            },
            0b0_110010 => {
                assert(comp_bits(Comp::AMinusOne) == bits);
                Some(Comp::AMinusOne)
            },
            0b0_000010 => {
                assert(comp_bits(Comp::DPlusA) == bits);
                Some(Comp::DPlusA)
            },
            0b0_010011 => {
                assert(comp_bits(Comp::DMinusA) == bits);
                Some(Comp::DMinusA)
            },
            0b0_000111 => {
                assert(comp_bits(Comp::AMinusD) == bits);
                Some(Comp::AMinusD)
            },
            0b0_000000 => {
                assert(comp_bits(Comp::DAndA) == bits);
                Some(Comp::DAndA)
            },
            0b0_010101 => {
                assert(comp_bits(Comp::DOrA) == bits);
                Some(Comp::DOrA)
            },
            0b1_110000 => {
                assert(comp_bits(Comp::M) == bits);
                Some(Comp::M)
            },
            0b1_110001 => {
                assert(comp_bits(Comp::NotM) == bits);
                Some(Comp::NotM)
            },
            0b1_110011 => {
                assert(comp_bits(Comp::NegM) == bits);
                Some(Comp::NegM)
            },
            0b1_110111 => {
                assert(comp_bits(Comp::MPlusOne) == bits);
                Some(Comp::MPlusOne)
            },
            0b1_110010 => {
                assert(comp_bits(Comp::MMinusOne) == bits);
                Some(Comp::MMinusOne)
            },
            0b1_000010 => {
                assert(comp_bits(Comp::DPlusM) == bits);
                Some(Comp::DPlusM)
            },
            0b1_010011 => {
                assert(comp_bits(Comp::DMinusM) == bits);
                Some(Comp::DMinusM)
            },
            0b1_000111 => {
                assert(comp_bits(Comp::MMinusD) == bits);
                Some(Comp::MMinusD)
            },
            0b1_000000 => {
                assert(comp_bits(Comp::DAndM) == bits);
                Some(Comp::DAndM)
            },
            0b1_010101 => {
                assert(comp_bits(Comp::DOrM) == bits);
                Some(Comp::DOrM)
            },
            _ => None,
        }
    }

    /// The assembly mnemonic of this field.
    pub fn to_string(&self) -> (res: String)
        ensures
            res@ == comp_text(*self),
    {
        let s = match self {
            Comp::Zero => "0",
            Comp::One => "1",
            Comp::NegOne => "-1",
            Comp::D => "D",
            Comp::A => "A",
            Comp::NotD => "!D",
            Comp::NotA => "!A",
            Comp::NegD => "-D",
            Comp::NegA => "-A",
            Comp::DPlusOne => "D+1",
            Comp::APlusOne => "A+1",
            Comp::DMinusOne => "D-1",
            Comp::AMinusOne => "A-1",
            Comp::DPlusA => "D+A",
            Comp::DMinusA => "D-A",
            Comp::AMinusD => "A-D",
            Comp::DAndA => "D&A",
            Comp::DOrA => "D|A",
            Comp::M => "M",
            Comp::NotM => "!M",
            Comp::NegM => "-M",
            Comp::MPlusOne => "M+1",
            Comp::MMinusOne => "M-1",
            Comp::DPlusM => "D+M",
            Comp::DMinusM => "D-M",
            Comp::MMinusD => "M-D",
            Comp::DAndM => "D&M",
            Comp::DOrM => "D|M",
        };
        String::from_str(s)
    }
}

impl Dest {
    /// Decodes the three destination bits; `0` gives `None`.
    pub fn parse(bits: u8) -> (res: Option<Dest>)
        ensures
            res == dest_decode(bits),
    {
        proof {
            lemma_dest_decode(bits);
        }
        match bits {
            0b001 => {
                assert(dest_bits(Dest::M) == bits);
                Some(Dest::M)
            },
            0b010 => {
                assert(dest_bits(Dest::D) == bits);
                Some(Dest::D)
            },
            0b011 => {
                assert(dest_bits(Dest::DM) == bits);
                Some(Dest::DM)
            },
            0b100 => {
                assert(dest_bits(Dest::A) == bits);
                Some(Dest::A)
            },
            0b101 => {
                assert(dest_bits(Dest::AM) == bits);
                Some(Dest::AM)
            },
            0b110 => {
                assert(dest_bits(Dest::AD) == bits);
                Some(Dest::AD)
            },
            0b111 => {
                assert(dest_bits(Dest::ADM) == bits);
                Some(Dest::ADM)
            },
            _ => None,
        }
    }

    /// The assembly mnemonic of this field.
    pub fn to_string(&self) -> (res: String)
        ensures
            res@ == dest_text(*self),
    {
        let s = match self {
            Dest::M => "M",
            Dest::D => "D",
            Dest::DM => "DM",
            Dest::A => "A",
            Dest::AM => "AM",
            Dest::AD => "AD",
            Dest::ADM => "ADM",
        };
        String::from_str(s)
    }
}

impl Jump {
    /// Decodes the three jump bits; `0` gives `None`.
    pub fn parse(bits: u8) -> (res: Option<Jump>)
        ensures
            res == jump_decode(bits),
    {
        proof {
            lemma_jump_decode(bits);
        }
        match bits {
            0b001 => {
                assert(jump_bits(Jump::JGT) == bits);
                Some(Jump::JGT)
            },
            0b010 => {
                assert(jump_bits(Jump::JEQ) == bits);
                Some(Jump::JEQ)
            },
            0b011 => {
                assert(jump_bits(Jump::JGE) == bits);
                Some(Jump::JGE)
            },
            0b100 => {
                assert(jump_bits(Jump::JLT) == bits);
                Some(Jump::JLT)
            },
            0b101 => {
                assert(jump_bits(Jump::JNE) == bits);
                Some(Jump::JNE)
            },
            0b110 => {
                assert(jump_bits(Jump::JLE) == bits);
                Some(Jump::JLE)
            },
            0b111 => {
                assert(jump_bits(Jump::JMP) == bits);
                Some(Jump::JMP)
            },
            _ => None,
        }
    }

    /// The assembly mnemonic of this field.
    pub fn to_string(&self) -> (res: String)
        ensures
            res@ == jump_text(*self),
    {
        let s = match self {
            Jump::JGT => "JGT",
            Jump::JEQ => "JEQ",
            Jump::JGE => "JGE",
            Jump::JLT => "JLT",
            Jump::JNE => "JNE",
            Jump::JLE => "JLE",
            Jump::JMP => "JMP",
        };
        String::from_str(s)
    }
}

impl Instruction {
    /// Decodes a 16-bit instruction word.
    pub fn parse(instr: u16) -> (res: Result<Instruction, DecodeError>)
        ensures
            res == decode_instruction(instr),
    {
        if (instr & INSTRUCTION_TYPE_BIT) == 0 {
            return Ok(Instruction::A(instr));
        }
        let comp: u8 = ((instr >> CMP_SHIFT) & CMP_MASK) as u8;
        let dest: u8 = ((instr >> DST_SHIFT) & DST_MASK) as u8;
        let jump: u8 = (instr & JMP_MASK) as u8;
        let comp = match Comp::parse(comp) {
            Some(c) => c,
            None => {
                return Err(DecodeError::InvalidComp { bits: comp });
            },
        };
        Ok(Instruction::C { comp: comp, dest: Dest::parse(dest), jump: Jump::parse(jump) })
    }

    /// The assembly text of this instruction.
    pub fn to_string(&self) -> (res: String)
        ensures
            res@ == instruction_text(*self),
    {
        match self {
            Instruction::A(val) => {
                let v: u16 = *val;
                if v == SCREEN_ADDR {
                    String::from_str("@SCREEN")
                } else if v == KBD_ADDR {
                    String::from_str("@KBD")
                } else if v < PREDEFINED_REGISTERS_NUM {
                    let mut s = String::from_str("@R");
                    push_decimal(&mut s, v as u64);
                    s
                } else {
                    let mut s = String::from_str("@");
                    push_decimal(&mut s, v as u64);
                    s
                }
            },
            Instruction::C { comp, dest, jump } => {
                let mut s = String::new();
                match dest {
                    Some(d) => {
                        let t = d.to_string();
                        s.append(t.as_str());
                        s.append("=");
                    },
                    None => {},
                }
                let t = comp.to_string();
                s.append(t.as_str());
                match jump {
                    Some(j) => {
                        let t = j.to_string();
                        s.append(";");
                        s.append(t.as_str());
                    },
                    None => {},
                }
                assert(s@ =~= instruction_text(*self));
                s
            },
        }
    }
}

impl DecodeError {
    /// The text of this error.
    pub fn message(&self) -> (res: String)
        ensures
            res@ == decode_error_text(*self),
    {
        match self {
            DecodeError::InvalidComp { bits } => {
                let mut s = String::from_str("invalid comp: ");
                push_binary(&mut s, *bits as u64, 7);
                s
            },
        }
    }
}

} // verus!
