//! Model of the two chained legacy 8259 interrupt controllers.
//!
//! Each chip owns eight interrupt lines starting at its configured vector
//! offset; the secondary chip is cascaded through the primary, so an
//! acknowledgment for a line of the secondary must also be sent to the
//! primary. The remap sequence itself is a fixed series of port writes
//! performed by the unverified shell; what is modelled here is the
//! configuration the driver maintains and the acknowledgment decision
//! every hardware-interrupt handler relies on.

use vstd::prelude::*;

verus! {

/// Which end-of-interrupt commands one acknowledgment sends, and to which
/// of the two chips.
#[derive(Debug, Clone, Copy, PartialEq, Eq, Structural)]
pub enum EndOfInterrupt {
    /// The vector belongs to neither chip: no command is sent.
    NotHandled,
    /// The vector belongs to the primary chip: one command, to the primary.
    Primary,
    /// The vector belongs to the secondary chip: one command to the
    /// secondary, then one to the primary it is cascaded through.
    SecondaryThenPrimary,
}

/// How many end-of-interrupt commands an acknowledgment sends to the
/// primary chip.
pub open spec fn primary_eoi_count(e: EndOfInterrupt) -> nat {
    match e {
        EndOfInterrupt::NotHandled => 0,
        EndOfInterrupt::Primary => 1,
        EndOfInterrupt::SecondaryThenPrimary => 1,
    }
}

/// How many end-of-interrupt commands an acknowledgment sends to the
/// secondary chip.
pub open spec fn secondary_eoi_count(e: EndOfInterrupt) -> nat {
    match e {
        EndOfInterrupt::NotHandled => 0,
        EndOfInterrupt::Primary => 0,
        EndOfInterrupt::SecondaryThenPrimary => 1,
    }
}

/// The pair of chained interrupt controllers with their vector offsets.
pub struct ChainedPics {
    primary_offset: u8,
    secondary_offset: u8,
    initialized: bool,
}

impl ChainedPics {
    /// The vector offset of the primary chip.
    pub closed spec fn primary_offset(&self) -> u8 {
        self.primary_offset
    }

    /// The vector offset of the secondary chip.
    pub closed spec fn secondary_offset(&self) -> u8 {
        self.secondary_offset
    }

    /// Whether the remap sequence has been performed.
    pub closed spec fn is_initialized(&self) -> bool {
        self.initialized
    }

    /// The configuration invariant: both offsets lie above the CPU
    /// exception range, and the secondary chip's eight lines follow
    /// directly after the primary's.
    pub open spec fn wf(&self) -> bool {
        &&& 0x20 <= self.primary_offset()
        &&& self.primary_offset() <= 0xF0
        &&& self.secondary_offset() == self.primary_offset() + 8
    }

    /// A driver for controllers to be remapped at the given offsets.
    /// The offsets must respect the configuration invariant; the remap
    /// itself has not happened yet.
    pub fn new(offset1: u8, offset2: u8) -> (r: ChainedPics)
        requires
            0x20 <= offset1,
            offset1 <= 0xF0,
            offset2 == offset1 + 8,
        ensures
            r.wf(),
            r.primary_offset() == offset1,
            r.secondary_offset() == offset2,
            !r.is_initialized(),
    {
        ChainedPics { primary_offset: offset1, secondary_offset: offset2, initialized: false }
    }

    /// Record the remap: after this, the hardware maps the two chips at
    /// the configured offsets. The offsets themselves are unchanged.
    pub fn initialize(&mut self)
        requires
            old(self).wf(),
        ensures
            final(self).wf(),
            final(self).primary_offset() == old(self).primary_offset(),
            final(self).secondary_offset() == old(self).secondary_offset(),
            final(self).is_initialized(),
    {
        self.initialized = true;
    }

    /// Whether the primary chip owns this vector.
    pub open spec fn spec_primary_handles(&self, interrupt_id: u8) -> bool {
        self.primary_offset() <= interrupt_id < self.primary_offset() + 8
    }

    /// Whether the secondary chip owns this vector.
    pub open spec fn spec_secondary_handles(&self, interrupt_id: u8) -> bool {
        self.secondary_offset() <= interrupt_id < self.secondary_offset() + 8
    }

    /// Whether either chip owns this vector.
    pub open spec fn spec_handles_interrupt(&self, interrupt_id: u8) -> bool {
        self.spec_primary_handles(interrupt_id) || self.spec_secondary_handles(interrupt_id)
    }

    /// Whether either chip owns this vector.
    pub fn handles_interrupt(&self, interrupt_id: u8) -> (r: bool)
        ensures
            r == self.spec_handles_interrupt(interrupt_id),
    {
        let id = interrupt_id as u16;
        (self.primary_offset as u16 <= id && id < self.primary_offset as u16 + 8) || (
        self.secondary_offset as u16 <= id && id < self.secondary_offset as u16 + 8)
    }

    /// The acknowledgment owed for a vector: nothing if neither chip owns
    /// it; the secondary and then the primary if the secondary owns it
    /// (it is cascaded through the primary); the primary alone otherwise.
    pub open spec fn spec_end_of_interrupt(&self, interrupt_id: u8) -> EndOfInterrupt {
        if self.spec_secondary_handles(interrupt_id) {
            EndOfInterrupt::SecondaryThenPrimary
        } else if self.spec_primary_handles(interrupt_id) {
            EndOfInterrupt::Primary
        } else {
            EndOfInterrupt::NotHandled
        }
    }

    /// Decide the acknowledgment for a serviced interrupt. The
    /// configuration is untouched; the returned value tells the shell
    /// which chips to send the end-of-interrupt command to, in order.
    pub fn notify_end_of_interrupt(&mut self, interrupt_id: u8) -> (e: EndOfInterrupt)
        requires
            old(self).wf(),
        ensures
            *final(self) == *old(self),
            e == old(self).spec_end_of_interrupt(interrupt_id),
    {
        let id = interrupt_id as u16;
        if self.secondary_offset as u16 <= id && id < self.secondary_offset as u16 + 8 {
            EndOfInterrupt::SecondaryThenPrimary
        } else if self.primary_offset as u16 <= id && id < self.primary_offset as u16 + 8 {
            EndOfInterrupt::Primary
        } else {
            EndOfInterrupt::NotHandled
        }
    }
}

} // verus!
