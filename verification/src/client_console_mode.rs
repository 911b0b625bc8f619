//! The output mode of a Windows console. Input is left alone.
use vstd::prelude::*;


use crate::text::{ascii, ascii_bytes};

verus! {

/// Processed output, wrapping at the end of a line, virtual terminal
/// sequences, and no carriage return of its own.
pub const REQUIRED_OUTPUT_MODE: u32 = 0x0f;

/// Turns automatic wrapping on.
pub fn enable_autowrap() -> (bytes: Vec<u8>)
    ensures
        bytes@ == ascii("\x1b[?7h"@),
{
    ascii_bytes("\x1b[?7h")
}

/// Where the setup of a console stands.
#[derive(Debug, Clone, Copy, PartialEq, Eq, Structural)]
pub enum OutputMode {
    /// The inherited mode is to be read.
    Read,
    /// The mode is to be set.
    Change { inherited: u32 },
    /// Wrapping is to be turned on. Some hosts report it and do not do it.
    Wrap { inherited: u32 },
    Flush { inherited: u32 },
    /// The console is set up.
    Entered { inherited: u32 },
    /// The inherited mode is to be restored.
    Restore { inherited: u32 },
    /// The console is as it was.
    Left,
}

/// What a step of the setup gave.
#[derive(Debug, Clone, Copy, PartialEq, Eq, Structural)]
pub enum ModeEvent {
    Mode(u32),
    Done,
    Failed,
    /// The session is over.
    Leave,
}

impl OutputMode {
    /// The mode that the console had before, where it was read.
    pub open spec fn inherited(self) -> Option<u32> {
        match self {
            OutputMode::Read => None,
            OutputMode::Left => None,
            OutputMode::Change { inherited } => Some(inherited),
            OutputMode::Wrap { inherited } => Some(inherited),
            OutputMode::Flush { inherited } => Some(inherited),
            OutputMode::Entered { inherited } => Some(inherited),
            OutputMode::Restore { inherited } => Some(inherited),
        }
    }

    /// The mode to set in the present step.
    pub open spec fn wanted(self) -> Option<u32> {
        match self {
            OutputMode::Change { inherited } => Some(inherited | REQUIRED_OUTPUT_MODE),
            OutputMode::Restore { inherited } => Some(inherited),
            _ => None,
        }
    }

    pub fn wanted_mode(&self) -> (mode: Option<u32>)
        ensures
            mode == self.wanted(),
    {
        match self {
            OutputMode::Change { inherited } => Some(*inherited | REQUIRED_OUTPUT_MODE),
            OutputMode::Restore { inherited } => Some(*inherited),
            _ => None,
        }
    }

    pub open spec fn next(self, event: ModeEvent) -> OutputMode {
        match (self, event) {
            (OutputMode::Read, ModeEvent::Mode(inherited)) => OutputMode::Change { inherited },
            (OutputMode::Read, ModeEvent::Failed) => OutputMode::Left,
            (OutputMode::Change { inherited }, ModeEvent::Done) => OutputMode::Wrap { inherited },
            (OutputMode::Wrap { inherited }, ModeEvent::Done) => OutputMode::Flush { inherited },
            (OutputMode::Flush { inherited }, ModeEvent::Done) => OutputMode::Entered { inherited },
            (OutputMode::Change { inherited }, ModeEvent::Failed) => OutputMode::Restore { inherited },
            (OutputMode::Wrap { inherited }, ModeEvent::Failed) => OutputMode::Restore { inherited },
            (OutputMode::Flush { inherited }, ModeEvent::Failed) => OutputMode::Restore {
                inherited,
            },
            (OutputMode::Entered { inherited }, ModeEvent::Leave) => OutputMode::Restore {
                inherited,
            },
            (OutputMode::Restore { .. }, ModeEvent::Done) => OutputMode::Left,
            (OutputMode::Restore { .. }, ModeEvent::Failed) => OutputMode::Left,
            _ => self,
        }
    }

    /// Takes in what the present step gave.
    pub fn enter(&mut self, event: ModeEvent)
        ensures
            *final(self) == old(self).next(event),
    {
        let next = match (*self, event) {
            (OutputMode::Read, ModeEvent::Mode(inherited)) => OutputMode::Change { inherited },
            (OutputMode::Read, ModeEvent::Failed) => OutputMode::Left,
            (OutputMode::Change { inherited }, ModeEvent::Done) => OutputMode::Wrap { inherited },
            (OutputMode::Wrap { inherited }, ModeEvent::Done) => OutputMode::Flush { inherited },
            (OutputMode::Flush { inherited }, ModeEvent::Done) => OutputMode::Entered { inherited },
            (OutputMode::Change { inherited }, ModeEvent::Failed) => OutputMode::Restore { inherited },
            (OutputMode::Wrap { inherited }, ModeEvent::Failed) => OutputMode::Restore { inherited },
            (OutputMode::Flush { inherited }, ModeEvent::Failed) => OutputMode::Restore {
                inherited,
            },
            (OutputMode::Entered { inherited }, ModeEvent::Leave) => OutputMode::Restore {
                inherited,
            },
            (OutputMode::Restore { inherited: _ }, ModeEvent::Done) => OutputMode::Left,
            (OutputMode::Restore { inherited: _ }, ModeEvent::Failed) => OutputMode::Left,
            (same, _) => same,
        };
        *self = next;
    }
}

/// Once the inherited mode was read, the console is left only through a step
/// that sets exactly that mode again.
pub proof fn inherited_mode_is_restored(mode: OutputMode, event: ModeEvent)
    requires
        mode.inherited() is Some,
    ensures
        mode.next(event).inherited() == mode.inherited() || (mode.next(event) == OutputMode::Left
            && mode.wanted() == mode.inherited()),
        mode.next(event) == OutputMode::Left ==> mode is Restore,
{
}

/// The mode that is set keeps every inherited bit and has the required ones.
pub proof fn inherited_bits_are_kept(inherited: u32)
    ensures
        (inherited | REQUIRED_OUTPUT_MODE) & inherited == inherited,
        (inherited | REQUIRED_OUTPUT_MODE) & REQUIRED_OUTPUT_MODE == REQUIRED_OUTPUT_MODE,
{
    assert((inherited | 0x0f) & inherited == inherited) by (bit_vector);
    assert((inherited | 0x0f) & 0x0f == 0x0f) by (bit_vector);
}

} // verus!
