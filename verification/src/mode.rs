//! The agent's interaction mode.
use vstd::prelude::*;

verus! {

/// Interaction mode for the agent.
#[derive(Debug, Clone, Copy, PartialEq, Eq, Structural)]
pub enum Mode {
    /// Normal editing mode.
    Normal,
    /// Planning mode: read-only tools, plan suffix on every message.
    Plan,
    /// Review mode: read-only tools, review guidelines on the first message.
    Review,
}

impl Default for Mode {
    fn default() -> (out: Self)
        ensures
            out == Mode::Normal,
    {
        Mode::Normal
    }
}

/// The number that stands for a mode.
pub open spec fn mode_code(mode: Mode) -> u8 {
    match mode {
        Mode::Normal => 0,
        Mode::Plan => 1,
        Mode::Review => 2,
    }
}

/// The mode that a number stands for. Numbers without a mode are normal mode.
pub open spec fn coded_mode(value: u8) -> Mode {
    if value == 1 {
        Mode::Plan
    } else if value == 2 {
        Mode::Review
    } else {
        Mode::Normal
    }
}

/// The mode that follows `mode` when modes are stepped through.
pub open spec fn mode_after(mode: Mode) -> Mode {
    match mode {
        Mode::Normal => Mode::Plan,
        Mode::Plan => Mode::Review,
        Mode::Review => Mode::Normal,
    }
}

impl Mode {
    /// The number that stands for this mode.
    pub fn as_u8(self) -> (out: u8)
        ensures
            out == mode_code(self),
    {
        match self {
            Mode::Normal => 0,
            Mode::Plan => 1,
            Mode::Review => 2,
        }
    }

    /// The mode that a number stands for.
    pub fn from_u8(value: u8) -> (out: Mode)
        ensures
            out == coded_mode(value),
    {
        match value {
            1 => Mode::Plan,
            2 => Mode::Review,
            _ => Mode::Normal,
        }
    }

    /// The mode that follows this one when modes are stepped through.
    pub fn next(self) -> (out: Mode)
        ensures
            out == mode_after(self),
    {
        match self {
            Mode::Normal => Mode::Plan,
            Mode::Plan => Mode::Review,
            Mode::Review => Mode::Normal,
        }
    }
}

/// A mode's number gives the mode back.
pub proof fn mode_survives_its_code(mode: Mode)
    ensures
        coded_mode(mode_code(mode)) == mode,
{
}

/// Three steps through the modes lead back, and no fewer do.
pub proof fn modes_cycle_in_three(mode: Mode)
    ensures
        mode_after(mode_after(mode_after(mode))) == mode,
        mode_after(mode) != mode,
        mode_after(mode_after(mode)) != mode,
{
}

} // verus!
