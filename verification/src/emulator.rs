use vstd::prelude::*;

use crate::common::Command;

verus! {

/// What the emulator is woken by: a command, the tick interval passing while it runs,
/// or the user interface having gone away.
#[derive(Debug, Clone, Copy, PartialEq, Eq, Structural)]
pub enum EmulatorEvent {
    Command(Command),
    Timeout,
    Disconnected,
}

/// What the emulator does on an event.
#[derive(Debug, Clone, Copy, PartialEq, Eq, Structural)]
pub enum EmulatorAction {
    /// Execute one instruction.
    Tick,
    /// Wait for the next event.
    Wait,
    /// Stop.
    Stop,
}

/// The emulator's reaction to `event` when it is running or idle: whether it runs
/// afterwards, and what it does. `Run` starts it running; `Step` executes one instruction
/// in either mode; while running, every tick interval executes one instruction; an idle
/// emulator has no tick interval and only waits; `Quit` and the loss of the user
/// interface stop it.
pub open spec fn emulator_reaction(running: bool, event: EmulatorEvent) -> (bool, EmulatorAction) {
    match event {
        EmulatorEvent::Command(Command::Run) => (true, EmulatorAction::Wait),
        EmulatorEvent::Command(Command::Step) => (running, EmulatorAction::Tick),
        EmulatorEvent::Command(Command::Quit) => (running, EmulatorAction::Stop),
        EmulatorEvent::Timeout => (running, if running { EmulatorAction::Tick } else { EmulatorAction::Wait }),
        EmulatorEvent::Disconnected => (running, EmulatorAction::Stop),
    }
}

/// The emulator's reactions in every mode: `Quit` and the loss of the user interface
/// always stop it; `Step` always executes one instruction and leaves the mode; `Run`
/// always leaves it running and waiting; the tick interval executes an instruction exactly
/// while running; and only `Run` turns an idle emulator into a running one.
pub proof fn lemma_emulator_reactions(running: bool, event: EmulatorEvent)
    ensures
        emulator_reaction(running, EmulatorEvent::Command(Command::Quit)).1 == EmulatorAction::Stop,
        emulator_reaction(running, EmulatorEvent::Disconnected).1 == EmulatorAction::Stop,
        emulator_reaction(running, EmulatorEvent::Command(Command::Step)) == (running, EmulatorAction::Tick),
        emulator_reaction(running, EmulatorEvent::Command(Command::Run)) == (true, EmulatorAction::Wait),
        (emulator_reaction(running, EmulatorEvent::Timeout).1 == EmulatorAction::Tick) == running,
        emulator_reaction(running, EmulatorEvent::Timeout).1 != EmulatorAction::Stop,
        emulator_reaction(running, event).0 == (running || event == EmulatorEvent::Command(Command::Run)),
{
}

/// Decides the emulator's reaction to an event (see `emulator_reaction`).
pub fn react(running: bool, event: EmulatorEvent) -> (res: (bool, EmulatorAction))
    ensures
        res == emulator_reaction(running, event),
{
    match event {
        EmulatorEvent::Command(Command::Run) => (true, EmulatorAction::Wait),
        EmulatorEvent::Command(Command::Step) => (running, EmulatorAction::Tick),
        EmulatorEvent::Command(Command::Quit) => (running, EmulatorAction::Stop),
        EmulatorEvent::Timeout => {
            if running {
                (running, EmulatorAction::Tick)
            } else {
                (running, EmulatorAction::Wait)
            }
        },
        EmulatorEvent::Disconnected => (running, EmulatorAction::Stop),
    }
}

/// Whether the emulator runs on after executing an instruction: a failed instruction
/// stops the run; a successful one changes nothing.
pub fn running_after_tick(running: bool, tick_ok: bool) -> (res: bool)
    ensures
        res == (running && tick_ok),
{
    if tick_ok {
        running
    } else {
        false
    }
}

} // verus!
