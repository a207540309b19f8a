use vstd::prelude::*;

use crate::isa::{decode_instruction, instruction_text, DecodeError, Instruction};

verus! {

/// Disassembles one instruction word into its assembly text.
pub fn disassemble(instr: u16) -> (res: Result<String, DecodeError>)
    ensures
        match decode_instruction(instr) {
            Ok(i) => res is Ok && res->Ok_0@ == instruction_text(i),
            Err(e) => res == Err::<String, DecodeError>(e),
        },
{
    let instr = Instruction::parse(instr)?;
    Ok(instr.to_string())
}

} // verus!
