use vstd::prelude::*;

verus! {

/// Signal number of SIGINT.
pub const SIGINT: i32 = 2;

/// Signal number of SIGTERM.
pub const SIGTERM: i32 = 15;

/// Signal number of SIGWINCH.
pub const SIGWINCH: i32 = 28;

/// What the signal dispatcher does in answer to a signal, in order.
#[derive(Clone, Copy, Debug, PartialEq, Eq, Structural)]
pub enum SignalAction {
    /// Ask the console to update its geometry.
    ResizeConsole,
    /// Put the terminal back in canonical mode.
    RestoreTerminal,
    /// Signal the VM-wide exit event; if that fails, exit the process with
    /// a non-zero status.
    SignalExit,
}

/// Whether the dispatcher handles `signal` (all others keep their default
/// behaviour).
pub open spec fn handled(signal: i32) -> bool {
    signal == SIGWINCH || signal == SIGTERM || signal == SIGINT
}

/// The signals the dispatcher unblocks and listens to.
pub fn handled_signals() -> (r: Vec<i32>)
    ensures
        r@ == seq![SIGWINCH, SIGTERM, SIGINT],
{
    let mut v: Vec<i32> = Vec::new();
    v.push(SIGWINCH);
    v.push(SIGTERM);
    v.push(SIGINT);
    v
}

/// The dispatcher's answer to `signal`: a terminal resize updates the
/// console; a termination request restores the terminal (when the VM runs
/// on one) and then signals the exit event; anything else is ignored.
pub fn signal_actions(signal: i32, on_tty: bool) -> (r: Vec<SignalAction>)
    ensures
        signal == SIGWINCH ==> r@ == seq![SignalAction::ResizeConsole],
        (signal == SIGTERM || signal == SIGINT) && on_tty ==> r@ == seq![
            SignalAction::RestoreTerminal,
            SignalAction::SignalExit,
        ],
        (signal == SIGTERM || signal == SIGINT) && !on_tty ==> r@ == seq![
            SignalAction::SignalExit,
        ],
        !handled(signal) ==> r@.len() == 0,
{
    let mut r: Vec<SignalAction> = Vec::new();
    if signal == SIGWINCH {
        r.push(SignalAction::ResizeConsole);
    } else if signal == SIGTERM || signal == SIGINT {
        if on_tty {
            r.push(SignalAction::RestoreTerminal);
        }
        r.push(SignalAction::SignalExit);
    }
    r
}

} // verus!
