use vstd::prelude::*;

use crate::hack_computer::HackComputer;
use crate::rom::{all_binary_digits, binary_value, lemma_binary_text};
use crate::text::{
    binary_text, hex_text, hex_value, lemma_hex_text, push_binary, push_hex, sixteen_to, two_to,
};

verus! {

/// A snapshot of the registers of a computer, for display, with the computer itself.
pub struct App<'a> {
    pub a_reg: u16,
    pub d_reg: u16,
    pub pc: u16,
    pub hack_computer: &'a HackComputer,
}

impl<'a> App<'a> {
    /// Takes the snapshot.
    pub fn new(hack_computer: &'a HackComputer) -> (res: Self)
        ensures
            res.a_reg == hack_computer@.cpu.a,
            res.d_reg == hack_computer@.cpu.d,
            res.pc == hack_computer@.cpu.pc,
            res.hack_computer == hack_computer,
    {
        App {
            a_reg: hack_computer.a_reg(),
            d_reg: hack_computer.d_reg(),
            pc: hack_computer.pc(),
            hack_computer,
        }
    }
}

/// The first address of a memory window of `rows` rows centred on `center`.
pub open spec fn window_start(center: u16, rows: u16) -> int {
    if center >= rows / 2 {
        center - rows / 2
    } else {
        0
    }
}

/// The addresses that a memory window of `visible_rows` rows centred on `center` shows,
/// top to bottom. The last of them must be an address.
pub fn window_addresses(center: u16, visible_rows: u16) -> (res: Vec<u16>)
    requires
        window_start(center, visible_rows) + visible_rows <= 0x10000,
    ensures
        res@.len() == visible_rows,
        forall|i: int| 0 <= i < visible_rows ==> res@[i] == window_start(center, visible_rows) + i,
{
    let start = center.saturating_sub(visible_rows / 2);
    let mut res: Vec<u16> = Vec::new();
    let mut i: u16 = 0;
    while i < visible_rows
        invariant
            start == window_start(center, visible_rows),
            start + visible_rows <= 0x10000,
            i <= visible_rows,
            res@.len() == i,
            forall|k: int| 0 <= k < i ==> res@[k] == start + k,
        decreases visible_rows - i,
    {
        res.push(start + i);
        i = i + 1;
    }
    res
}

/// Four or more hexadecimal digits hold every word.
proof fn lemma_sixteen_to_word(n: nat)
    requires
        n >= 4,
    ensures
        sixteen_to(n) >= 0x10000,
    decreases n,
{
    if n == 4 {
        reveal_with_fuel(sixteen_to, 5);
    } else {
        lemma_sixteen_to_word((n - 1) as nat);
    }
}

/// A word in lowercase hexadecimal, zero-padded to `width` digits (at least the four
/// that a word can need), as the register and memory cells show it.
pub fn format_hex(v: u16, width: u64) -> (res: String)
    requires
        width >= 4,
    ensures
        res@ == hex_text(v as nat, width as nat),
        res@.len() == width,
        hex_value(res@) == Some(v as nat),
{
    proof {
        lemma_sixteen_to_word(width as nat);
        lemma_hex_text(v as nat, width as nat);
    }
    let mut s = String::new();
    push_hex(&mut s, v as u64, width);
    s
}

/// A word as sixteen binary digits, as the ROM cells show it.
pub fn format_binary(v: u16) -> (res: String)
    ensures
        res@ == binary_text(v as nat, 16),
        res@.len() == 16,
        all_binary_digits(res@),
        binary_value(res@) == v,
{
    proof {
        reveal_with_fuel(two_to, 17);
        lemma_binary_text(v as nat, 16);
    }
    let mut s = String::new();
    push_binary(&mut s, v as u64, 16);
    s
}

} // verus!
