//! The signals that the monitor handles.

use vstd::prelude::*;

verus! {

/// `libc::SIGTERM`: the number of the signal that asks a process to end, which
/// is 15.
#[verifier::external_body]
fn sigterm() -> (signal: i32)
    ensures
        signal == 15,
{
    libc::SIGTERM
}

/// `libc::SIGINT`: the number of the signal that interrupts a process from the
/// terminal, which is 2.
#[verifier::external_body]
fn sigint() -> (signal: i32)
    ensures
        signal == 2,
{
    libc::SIGINT
}

/// The signals that the monitor handles.
pub open spec fn handled() -> Seq<i32> {
    seq![15i32, 2i32]
}

/// The signals that the monitor handles: those that ask it to end.
pub fn handled_signals() -> (signals: [i32; 2])
    ensures
        signals@ == handled(),
{
    let signals: [i32; 2] = [sigterm(), sigint()];
    assert(signals@ =~= handled());
    signals
}

/// Whether a signal asks for the monitor's exit. Any other is ignored.
pub fn requests_exit(signal: i32) -> (exit: bool)
    ensures
        exit == handled().contains(signal),
{
    let exit = signal == sigterm() || signal == sigint();
    assert(handled()[0] == 15i32 && handled()[1] == 2i32);
    exit
}

/// What is known of the terminal's settings before the monitor changed them.
#[derive(Debug, Clone, Copy, PartialEq, Eq, Structural)]
pub enum Terminal {
    /// They were saved.
    Saved,
    /// Nothing was saved, since nothing was changed.
    Untouched,
    /// They cannot be looked up.
    Unavailable,
}

/// What is done where the monitor cannot be asked to exit.
#[derive(Debug, Clone, Copy, PartialEq, Eq, Structural)]
pub enum LastResort {
    /// The terminal gets its settings back.
    RestoreTerminal,
    /// It is logged that they cannot be looked up.
    WarnTerminal,
    /// The process ends with this code.
    Terminate(i32),
}

/// What is done where the monitor cannot be asked to exit: the process ends
/// with code 1, and before that the terminal gets its settings back, where
/// they were saved.
pub open spec fn last_resort(terminal: Terminal) -> Seq<LastResort> {
    match terminal {
        Terminal::Saved => seq![LastResort::RestoreTerminal, LastResort::Terminate(1)],
        Terminal::Untouched => seq![LastResort::Terminate(1)],
        Terminal::Unavailable => seq![LastResort::WarnTerminal, LastResort::Terminate(1)],
    }
}

/// What is done where the monitor cannot be asked to exit.
pub fn plan_last_resort(terminal: Terminal) -> (plan: Vec<LastResort>)
    ensures
        plan@ == last_resort(terminal),
{
    let mut plan: Vec<LastResort> = Vec::new();
    match terminal {
        Terminal::Saved => plan.push(LastResort::RestoreTerminal),
        Terminal::Untouched => {},
        Terminal::Unavailable => plan.push(LastResort::WarnTerminal),
    }
    plan.push(LastResort::Terminate(1));
    assert(plan@ =~= last_resort(terminal));
    plan
}

} // verus!
