//! Bootstrap and trap-handling core of a minimal x86-64 kernel, modelled
//! as verified state machines over plain data.
//!
//! The hardware itself (port I/O, privileged instructions, the live VGA
//! text buffer) cannot be touched from verified code; every component here
//! is therefore written against an explicit model of the hardware state it
//! drives, with contracts that pin down the exact effect of each
//! operation. A thin unverified shell owns the real registers, replays
//! each model transition against them, and defers every decision to the
//! functions in this crate.

use vstd::prelude::*;

pub mod allocator;
pub mod gdt;
pub mod heap;
pub mod interrupts;
pub mod keyboard;
pub mod pic;
pub mod rtc;
pub mod vga_buffer;

use crate::gdt::{GdtState, StackRegion};
use crate::interrupts::{Idt, PIC_1_OFFSET, PIC_2_OFFSET};
use crate::pic::ChainedPics;

verus! {

/// Outcome reported to the emulator's debug-exit device by the test
/// harness (not part of normal kernel operation). The device shifts the
/// written value left by one and sets the low bit, so these values come
/// back as 33 and 35.
#[derive(Debug, Clone, Copy, PartialEq, Eq, Structural)]
pub enum QemuExitCode {
    Success,
    Failed,
}

/// The value written to the debug-exit port for each outcome.
pub open spec fn spec_exit_port_value(code: QemuExitCode) -> u32 {
    match code {
        QemuExitCode::Success => 0x10,
        QemuExitCode::Failed => 0x11,
    }
}

impl QemuExitCode {
    /// The value the shell writes to the debug-exit port.
    pub fn port_value(self) -> (r: u32)
        ensures
            r == spec_exit_port_value(self),
    {
        match self {
            QemuExitCode::Success => 0x10,
            QemuExitCode::Failed => 0x11,
        }
    }
}

/// A test wrapped for the harness: running it reports its own name and
/// outcome through the shell's serial writer.
pub trait Testable {
    fn run(&self);
}

/// Run every test in order; reaching the end means they all passed, and
/// the returned code tells the shell to report success and exit.
pub fn test_runner<T: Testable>(tests: &[T]) -> (r: QemuExitCode)
    ensures
        r == QemuExitCode::Success,
{
    let mut i: usize = 0;
    while i < tests.len()
        decreases tests.len() - i,
    {
        tests[i].run();
        i = i + 1;
    }
    QemuExitCode::Success
}

/// One step of the boot sequence, in the order it must happen.
#[derive(Debug, Clone, Copy, PartialEq, Eq, Structural)]
pub enum BootStep {
    DisableInterrupts,
    LoadGdt,
    LoadIdt,
    InitializePics,
    EnableInterrupts,
}

/// The kernel's process-wide state: the loaded trap table, the segment
/// and task-state setup, the interrupt-controller driver, and whether
/// interrupts are unmasked. Built exactly once by `init` and never torn
/// down.
pub struct Kernel {
    idt: Idt,
    gdt: GdtState,
    pics: ChainedPics,
    interrupts_enabled: bool,
}

impl Kernel {
    /// The loaded trap table.
    pub closed spec fn spec_trap_table(&self) -> Idt {
        self.idt
    }

    /// The segment and task-state setup.
    pub closed spec fn spec_gdt(&self) -> GdtState {
        self.gdt
    }

    /// The interrupt-controller driver.
    pub closed spec fn spec_pics(&self) -> ChainedPics {
        self.pics
    }

    /// Whether interrupts are unmasked.
    pub closed spec fn spec_interrupts_enabled(&self) -> bool {
        self.interrupts_enabled
    }

    /// A fully armed kernel: the trap table is this kernel's table, the
    /// descriptor tables are loaded with a usable dedicated double-fault
    /// stack, the controllers are remapped to the standard offsets, and
    /// only then are interrupts unmasked — so no interrupt can ever fire
    /// against an unpopulated table.
    pub open spec fn armed(&self) -> bool {
        &&& self.spec_trap_table().is_kernel_table()
        &&& self.spec_gdt().wf()
        &&& self.spec_gdt().is_loaded()
        &&& self.spec_gdt().spec_double_fault_stack().wf()
        &&& self.spec_pics().wf()
        &&& self.spec_pics().is_initialized()
        &&& self.spec_pics().primary_offset() == PIC_1_OFFSET
        &&& self.spec_pics().secondary_offset() == PIC_2_OFFSET
        &&& self.spec_interrupts_enabled()
    }

    /// The loaded trap table, for the dispatcher.
    pub fn trap_table(&self) -> (r: &Idt)
        ensures
            *r == self.spec_trap_table(),
    {
        &self.idt
    }

    /// The segment and task-state setup, for the dispatcher.
    pub fn gdt_state(&self) -> (r: &GdtState)
        ensures
            *r == self.spec_gdt(),
    {
        &self.gdt
    }

    /// The interrupt-controller driver, for reading its configuration.
    pub fn pics_state(&self) -> (r: &ChainedPics)
        ensures
            *r == self.spec_pics(),
    {
        &self.pics
    }

    /// The interrupt-controller driver, for the hardware-interrupt
    /// handlers that must acknowledge it.
    pub fn pics_mut(&mut self) -> (r: &mut ChainedPics)
        ensures
            *r == old(self).spec_pics(),
            final(self).spec_pics() == *final(r),
            final(self).spec_trap_table() == old(self).spec_trap_table(),
            final(self).spec_gdt() == old(self).spec_gdt(),
            final(self).spec_interrupts_enabled() == old(self).spec_interrupts_enabled(),
    {
        &mut self.pics
    }
}

/// Boot-time initialization, called exactly once: with interrupts
/// masked, build and load the descriptor tables around the given
/// dedicated double-fault stack, then build and load the trap table
/// (whose double-fault entry names a slot of that task-state record),
/// remap the interrupt controllers, and only then unmask interrupts.
/// The returned steps record the order the shell must replay them in.
pub fn init(double_fault_stack: StackRegion) -> (r: (Kernel, Vec<BootStep>))
    requires
        double_fault_stack.wf(),
    ensures
        r.0.armed(),
        r.0.spec_gdt().spec_double_fault_stack() == double_fault_stack,
        r.1@ == seq![
            BootStep::DisableInterrupts,
            BootStep::LoadGdt,
            BootStep::LoadIdt,
            BootStep::InitializePics,
            BootStep::EnableInterrupts,
        ],
{
    let mut steps: Vec<BootStep> = Vec::new();
    // Interrupts start (and stay) masked until every table is armed.
    steps.push(BootStep::DisableInterrupts);
    // The descriptor tables first: the trap table's double-fault entry
    // relies on the task-state record's dedicated stack slot.
    let gdt_state = gdt::init(double_fault_stack);
    steps.push(BootStep::LoadGdt);
    // The trap table that handles interrupts and CPU exceptions.
    let idt = interrupts::init_idt();
    steps.push(BootStep::LoadIdt);
    // Remap the controllers away from the CPU-exception vectors.
    let mut pics = ChainedPics::new(PIC_1_OFFSET, PIC_2_OFFSET);
    pics.initialize();
    steps.push(BootStep::InitializePics);
    // Everything is armed: interrupts may fire now.
    let kernel = Kernel { idt, gdt: gdt_state, pics, interrupts_enabled: true };
    steps.push(BootStep::EnableInterrupts);
    assert(steps@ =~= seq![
        BootStep::DisableInterrupts,
        BootStep::LoadGdt,
        BootStep::LoadIdt,
        BootStep::InitializePics,
        BootStep::EnableInterrupts,
    ]);
    (kernel, steps)
}

} // verus!
