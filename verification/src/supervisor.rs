//! The per-device supervisor: it consumes the multiplexer's lifecycle
//! signals and drives the device gate the bindings observe.
//!
//! `On` arms the device gate, `Off` disarms it; either received twice in a row
//! is reported as a redundant transition worth a warning. An interrupt
//! is reported for diagnosis and changes nothing: what to do about an
//! SRQ is policy layered on top.

use vstd::prelude::*;
use crate::types::Signal;

verus! {

/// What one signal did to the device gate, for the supervisor's log.
#[derive(Debug, Clone, Copy, PartialEq, Eq, Structural)]
pub enum GateAction {
    Started,
    AlreadyRunning,
    Stopped,
    AlreadyStopped,
    Interrupt,
}

/// The per-device gate: whether the device is usable right now.
pub struct Gate {
    /// Armed while the bus believes the device responsive.
    pub on: bool,
}

impl Gate {
    /// A device starts unproven, so its gate starts down.
    pub fn new() -> (r: Gate)
        ensures
            !r.on,
    {
        Gate { on: false }
    }

    /// Apply one lifecycle signal. `On` arms, `Off` disarms, `Intr`
    /// changes nothing; a redundant transition is reported as such.
    pub fn apply(&mut self, s: Signal) -> (r: GateAction)
        ensures
            (match s {
                Signal::On => final(self).on && r == (if old(self).on {
                    GateAction::AlreadyRunning
                } else {
                    GateAction::Started
                }),
                Signal::Off => !final(self).on && r == (if old(self).on {
                    GateAction::Stopped
                } else {
                    GateAction::AlreadyStopped
                }),
                Signal::Intr => final(self).on == old(self).on && r == GateAction::Interrupt,
            }),
    {
        match s {
            Signal::On => {
                let was = self.on;
                self.on = true;
                if was {
                    GateAction::AlreadyRunning
                } else {
                    GateAction::Started
                }
            },
            Signal::Off => {
                let was = self.on;
                self.on = false;
                if was {
                    GateAction::Stopped
                } else {
                    GateAction::AlreadyStopped
                }
            },
            Signal::Intr => GateAction::Interrupt,
        }
    }
}

} // verus!
