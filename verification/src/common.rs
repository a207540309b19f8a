use vstd::prelude::*;

verus! {

/// A command from the user interface to the emulator.
#[derive(Debug, Clone, Copy, PartialEq, Eq, Structural)]
pub enum Command {
    /// Run the program, one instruction per tick interval.
    Run,
    /// Execute one instruction.
    Step,
    /// Stop the emulator.
    Quit,
}

/// The command that a key press sends: `q` quits, `r` runs, `s` steps; other keys send none.
pub open spec fn key_command(c: char) -> Option<Command> {
    if c == 'q' {
        Some(Command::Quit)
    } else if c == 'r' {
        Some(Command::Run)
    } else if c == 's' {
        Some(Command::Step)
    } else {
        None
    }
}

/// The keys of the user interface: exactly `q` quits, exactly `r` runs, exactly `s`
/// steps, and every other key sends nothing.
pub proof fn lemma_key_commands(c: char)
    ensures
        (key_command(c) == Some(Command::Quit)) == (c == 'q'),
        (key_command(c) == Some(Command::Run)) == (c == 'r'),
        (key_command(c) == Some(Command::Step)) == (c == 's'),
        key_command(c) is None == (c != 'q' && c != 'r' && c != 's'),
{
}

/// The command that pressing the character key `c` sends.
pub fn command_for_key(c: char) -> (res: Option<Command>)
    ensures
        res == key_command(c),
{
    match c {
        'q' => Some(Command::Quit),
        'r' => Some(Command::Run),
        's' => Some(Command::Step),
        _ => None,
    }
}

} // verus!
