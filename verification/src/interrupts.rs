//! Trap table and dispatcher.
//!
//! Handlers run at any instruction boundary, so they must do the right
//! thing and do very little: no allocation, no blocking, and no lock that
//! the interrupted code might hold. Each handler is therefore a pure
//! decision: it takes the saved machine state and the models of the
//! components it touches, and returns the diagnostic to render and whether
//! execution resumes or the machine halts. The unverified shell registers
//! thin trampolines that call these functions and carry out the returned
//! actions.

use crate::gdt::{DOUBLE_FAULT_IST_INDEX, GdtState, StackRegion};
use crate::keyboard::{ScancodePush, ScancodeQueue, add_scancode, spec_offer};
use crate::pic::{ChainedPics, EndOfInterrupt, primary_eoi_count, secondary_eoi_count};
use vstd::prelude::*;

verus! {

/// Vector offset of the primary interrupt controller: the first vector
/// past the 0x00-0x1F CPU-exception range.
pub const PIC_1_OFFSET: u8 = 0x20;

/// Vector offset of the secondary interrupt controller: eight lines after
/// the primary.
pub const PIC_2_OFFSET: u8 = PIC_1_OFFSET + 8;

/// Vector of the breakpoint exception.
pub const BREAKPOINT_VECTOR: u8 = 3;

/// Vector of the double-fault exception.
pub const DOUBLE_FAULT_VECTOR: u8 = 8;

/// Vector of the page-fault exception.
pub const PAGE_FAULT_VECTOR: u8 = 14;

/// The remapped hardware-interrupt vectors this kernel services.
#[derive(Debug, Clone, Copy, PartialEq, Eq, Structural)]
pub enum InterruptIndex {
    Timer,
    Keyboard,
}

/// The vector a hardware interrupt arrives on after the remap.
pub open spec fn spec_interrupt_vector(index: InterruptIndex) -> u8 {
    match index {
        InterruptIndex::Timer => PIC_1_OFFSET,
        InterruptIndex::Keyboard => (PIC_1_OFFSET + 1) as u8,
    }
}

impl InterruptIndex {
    /// The vector this interrupt arrives on.
    pub fn as_u8(self) -> (r: u8)
        ensures
            r == spec_interrupt_vector(self),
    {
        match self {
            InterruptIndex::Timer => PIC_1_OFFSET,
            InterruptIndex::Keyboard => PIC_1_OFFSET + 1,
        }
    }

    /// The vector as a table index.
    pub fn as_usize(self) -> (r: usize)
        ensures
            r == spec_interrupt_vector(self) as usize,
    {
        self.as_u8() as usize
    }
}

/// The handlers this kernel binds into its trap table.
#[derive(Debug, Clone, Copy, PartialEq, Eq, Structural)]
pub enum TrapHandler {
    Breakpoint,
    DoubleFault,
    Timer,
    Keyboard,
    PageFault,
}

/// One bound vector-table entry: which handler, and which
/// interrupt-stack-table slot to switch to, if any.
#[derive(Debug, Clone, Copy, PartialEq, Eq, Structural)]
pub struct IdtEntry {
    pub handler: TrapHandler,
    pub stack_index: Option<u16>,
}

/// The trap table this kernel installs, by vector: breakpoint, double
/// fault (on the dedicated stack), page fault, and the two remapped
/// hardware interrupts; every other vector is unbound.
pub open spec fn spec_idt_entry(vector: int) -> Option<IdtEntry> {
    if vector == BREAKPOINT_VECTOR as int {
        Some(IdtEntry { handler: TrapHandler::Breakpoint, stack_index: None })
    } else if vector == DOUBLE_FAULT_VECTOR as int {
        Some(
            IdtEntry {
                handler: TrapHandler::DoubleFault,
                stack_index: Some(DOUBLE_FAULT_IST_INDEX),
            },
        )
    } else if vector == PAGE_FAULT_VECTOR as int {
        Some(IdtEntry { handler: TrapHandler::PageFault, stack_index: None })
    } else if vector == PIC_1_OFFSET as int {
        Some(IdtEntry { handler: TrapHandler::Timer, stack_index: None })
    } else if vector == PIC_1_OFFSET as int + 1 {
        Some(IdtEntry { handler: TrapHandler::Keyboard, stack_index: None })
    } else {
        None
    }
}

/// The vector table: one optional bound entry per vector, immutable once
/// built and loaded.
pub struct Idt {
    entries: Vec<Option<IdtEntry>>,
}

impl Idt {
    /// The table as a sequence of 256 optional entries.
    pub closed spec fn entries(&self) -> Seq<Option<IdtEntry>> {
        self.entries@
    }

    /// One entry per possible vector.
    pub open spec fn wf(&self) -> bool {
        self.entries().len() == 256
    }

    /// Whether this is exactly the table this kernel installs.
    pub open spec fn is_kernel_table(&self) -> bool {
        &&& self.wf()
        &&& forall|v: int| 0 <= v < 256 ==> #[trigger] self.entries()[v] == spec_idt_entry(v)
    }

    /// The entry bound at one vector.
    pub fn entry(&self, vector: u8) -> (r: Option<IdtEntry>)
        requires
            self.wf(),
        ensures
            r == self.entries()[vector as int],
    {
        self.entries[vector as usize]
    }
}

/// Build the complete trap table and hand it over for the shell to load:
/// breakpoint, double fault on the dedicated stack, page fault, timer and
/// keyboard, and nothing else. The table is immutable after this.
pub fn init_idt() -> (t: Idt)
    ensures
        t.is_kernel_table(),
{
    let mut entries: Vec<Option<IdtEntry>> = Vec::new();
    let mut i: usize = 0;
    while i < 256
        invariant
            i <= 256,
            entries@.len() == i,
            forall|j: int| 0 <= j < i ==> entries@[j] is None,
        decreases 256 - i,
    {
        entries.push(None);
        i = i + 1;
    }
    entries[BREAKPOINT_VECTOR as usize] = Some(
        IdtEntry { handler: TrapHandler::Breakpoint, stack_index: None },
    );
    entries[DOUBLE_FAULT_VECTOR as usize] = Some(
        IdtEntry { handler: TrapHandler::DoubleFault, stack_index: Some(DOUBLE_FAULT_IST_INDEX) },
    );
    entries[PAGE_FAULT_VECTOR as usize] = Some(
        IdtEntry { handler: TrapHandler::PageFault, stack_index: None },
    );
    let timer = InterruptIndex::Timer.as_usize();
    entries[timer] = Some(IdtEntry { handler: TrapHandler::Timer, stack_index: None });
    let keyboard = InterruptIndex::Keyboard.as_usize();
    entries[keyboard] = Some(IdtEntry { handler: TrapHandler::Keyboard, stack_index: None });
    let t = Idt { entries };
    assert forall|v: int| 0 <= v < 256 implies t.entries()[v] == spec_idt_entry(v) by {}
    t
}

/// The machine state the CPU saves when a trap is taken.
#[derive(Debug, Clone, Copy, PartialEq, Eq, Structural)]
pub struct InterruptStackFrame {
    pub instruction_pointer: u64,
    pub code_segment: u64,
    pub cpu_flags: u64,
    pub stack_pointer: u64,
    pub stack_segment: u64,
}

/// The report a handler asks the display collaborator to render.
#[derive(Debug, Clone, Copy, PartialEq, Eq, Structural)]
pub enum Diagnostic {
    Breakpoint { stack_frame: InterruptStackFrame },
    DoubleFault { stack_frame: InterruptStackFrame, error_code: u64 },
    PageFault { stack_frame: InterruptStackFrame, error_code: u64, accessed_address: u64 },
}

/// Whether execution continues after a handler, or the machine halts.
#[derive(Debug, Clone, Copy, PartialEq, Eq, Structural)]
pub enum Resolution {
    Resume,
    Halt,
}

/// The dispatcher's lifecycle: nothing handles traps until the table is
/// loaded; each vector firing is then an independent transition that
/// leaves the dispatcher state alone, except the fatal exceptions, which
/// halt the whole machine.
#[derive(Debug, Clone, Copy, PartialEq, Eq, Structural)]
pub enum Phase {
    Uninitialized,
    Armed,
    Halted,
}

/// The machine phase after a handler resolves: resuming keeps the phase,
/// halting ends the machine.
pub open spec fn spec_phase_after(phase: Phase, resolution: Resolution) -> Phase {
    match resolution {
        Resolution::Resume => phase,
        Resolution::Halt => Phase::Halted,
    }
}

/// What the breakpoint handler does: report and resume.
pub open spec fn spec_breakpoint(stack_frame: InterruptStackFrame) -> (Diagnostic, Resolution) {
    (Diagnostic::Breakpoint { stack_frame }, Resolution::Resume)
}

/// Breakpoint exception: report the saved frame and resume at the next
/// instruction. Nothing else in the kernel is touched.
pub fn breakpoint_handler(stack_frame: InterruptStackFrame) -> (r: (Diagnostic, Resolution))
    ensures
        r == spec_breakpoint(stack_frame),
        r.1 == Resolution::Resume,
{
    (Diagnostic::Breakpoint { stack_frame }, Resolution::Resume)
}

/// Law: a breakpoint is reported and always resumed — an armed machine
/// stays armed — and it reads nothing and writes nothing beyond its own
/// saved frame, so firing it any number of times leaves the kernel state
/// intact and produces the same resolution every time.
pub proof fn lemma_breakpoint_is_recoverable(frame: InterruptStackFrame, other: InterruptStackFrame)
    ensures
        spec_breakpoint(frame).1 == Resolution::Resume,
        spec_phase_after(Phase::Armed, spec_breakpoint(frame).1) == Phase::Armed,
        spec_breakpoint(frame) == spec_breakpoint(other) <==> frame == other,
{
}

/// Double-fault exception: report the frame and the error code and halt;
/// the kernel's invariants can no longer be trusted. The CPU has already
/// switched to the dedicated stack named by the trap-table entry.
pub fn double_fault_handler(stack_frame: InterruptStackFrame, error_code: u64) -> (r: (
    Diagnostic,
    Resolution,
))
    ensures
        r.0 == (Diagnostic::DoubleFault { stack_frame, error_code }),
        r.1 == Resolution::Halt,
{
    (Diagnostic::DoubleFault { stack_frame, error_code }, Resolution::Halt)
}

/// Page-fault exception: report the faulting address (read from the
/// control register by the shell) and the access-violation flags, then
/// halt — this kernel does not implement demand paging or recovery.
pub fn page_fault_handler(
    stack_frame: InterruptStackFrame,
    error_code: u64,
    accessed_address: u64,
) -> (r: (Diagnostic, Resolution))
    ensures
        r.0 == (Diagnostic::PageFault { stack_frame, error_code, accessed_address }),
        r.1 == Resolution::Halt,
{
    (Diagnostic::PageFault { stack_frame, error_code, accessed_address }, Resolution::Halt)
}

/// Timer interrupt: no bookkeeping yet, but the controller must be
/// acknowledged or every line at or below the timer's priority starves.
pub fn timer_interrupt_handler(pics: &mut ChainedPics) -> (e: EndOfInterrupt)
    requires
        old(pics).wf(),
    ensures
        *final(pics) == *old(pics),
        e == old(pics).spec_end_of_interrupt(spec_interrupt_vector(InterruptIndex::Timer)),
{
    let vector = InterruptIndex::Timer.as_u8();
    pics.notify_end_of_interrupt(vector)
}

/// Keyboard interrupt: the shell reads one byte from the keyboard data
/// port and passes it here; the byte is offered to the scancode queue
/// (dropped if it is full) and the controller is acknowledged.
pub fn keyboard_interrupt_handler(
    scancode: u8,
    queue: &mut ScancodeQueue,
    pics: &mut ChainedPics,
) -> (r: (ScancodePush, EndOfInterrupt))
    requires
        old(queue).wf(),
        old(pics).wf(),
    ensures
        final(queue).wf(),
        final(queue).capacity() == old(queue).capacity(),
        final(queue)@ == spec_offer(old(queue)@, old(queue).capacity(), scancode),
        r.0 == ScancodePush::Queued <==> old(queue)@.len() < old(queue).capacity(),
        r.0 == ScancodePush::Queued ==> final(queue).is_notified(),
        *final(pics) == *old(pics),
        r.1 == old(pics).spec_end_of_interrupt(spec_interrupt_vector(InterruptIndex::Keyboard)),
{
    let pushed = add_scancode(queue, scancode);
    let vector = InterruptIndex::Keyboard.as_u8();
    let eoi = pics.notify_end_of_interrupt(vector);
    (pushed, eoi)
}

/// Law: with the controllers remapped to offsets 0x20 and 0x28, servicing
/// a timer interrupt acknowledges exactly one controller — one
/// end-of-interrupt command to the primary chip, none to the secondary.
pub proof fn lemma_timer_eoi_exactly_primary(pics: ChainedPics)
    requires
        pics.primary_offset() == PIC_1_OFFSET,
        pics.secondary_offset() == PIC_2_OFFSET,
    ensures
        pics.spec_end_of_interrupt(spec_interrupt_vector(InterruptIndex::Timer))
            == EndOfInterrupt::Primary,
        primary_eoi_count(pics.spec_end_of_interrupt(spec_interrupt_vector(InterruptIndex::Timer)))
            == 1,
        secondary_eoi_count(
            pics.spec_end_of_interrupt(spec_interrupt_vector(InterruptIndex::Timer)),
        ) == 0,
{
}

/// Consult the trap table for a double fault, as the CPU does: take the
/// entry's interrupt-stack-table slot, switch to the end of the dedicated
/// stack region recorded there, and run the handler on it.
/// Returns the stack-pointer value the handler runs on and its report.
pub fn dispatch_double_fault(
    idt: &Idt,
    gdt: &GdtState,
    stack_frame: InterruptStackFrame,
    error_code: u64,
) -> (r: (u64, Diagnostic, Resolution))
    requires
        idt.is_kernel_table(),
        gdt.wf(),
        gdt.spec_double_fault_stack().wf(),
    ensures
        r.0 == gdt.spec_double_fault_stack_top(),
        r.1 == (Diagnostic::DoubleFault { stack_frame, error_code }),
        r.2 == Resolution::Halt,
{
    let entry = idt.entry(DOUBLE_FAULT_VECTOR);
    proof {
        assert(idt.entries()[DOUBLE_FAULT_VECTOR as int] == spec_idt_entry(
            DOUBLE_FAULT_VECTOR as int,
        ));
    }
    match entry {
        Some(entry) => {
            match entry.stack_index {
                Some(_index) => {
                    let stack_top = gdt.double_fault_stack_top();
                    let (diagnostic, resolution) = double_fault_handler(stack_frame, error_code);
                    (stack_top, diagnostic, resolution)
                },
                None => {
                    proof {
                        assert(false);
                    }
                    (0, Diagnostic::DoubleFault { stack_frame, error_code }, Resolution::Halt)
                },
            }
        },
        None => {
            proof {
                assert(false);
            }
            (0, Diagnostic::DoubleFault { stack_frame, error_code }, Resolution::Halt)
        },
    }
}

/// Law: a stack overflow is caught by the double-fault path exactly once.
/// The kernel's trap table binds the double-fault vector to the dedicated
/// interrupt-stack-table slot, the stack pointer the CPU switches to is
/// the end of the dedicated region, and every address of that region lies
/// outside the exhausted stack — so servicing the fault cannot fault on
/// the stack again, and the handler reaches its reporting step and halts.
pub proof fn lemma_double_fault_caught_once(idt: Idt, gdt: GdtState, exhausted: StackRegion)
    requires
        idt.is_kernel_table(),
        gdt.wf(),
        gdt.spec_double_fault_stack().wf(),
        gdt.spec_double_fault_stack().spec_disjoint(exhausted),
    ensures
        idt.entries()[DOUBLE_FAULT_VECTOR as int] == Some(
            IdtEntry {
                handler: TrapHandler::DoubleFault,
                stack_index: Some(DOUBLE_FAULT_IST_INDEX),
            },
        ),
        forall|a: int|
            gdt.spec_double_fault_stack().spec_contains(a) ==> !exhausted.spec_contains(a),
        gdt.spec_double_fault_stack().spec_contains(gdt.spec_double_fault_stack_top() - 1),
        spec_phase_after(Phase::Armed, Resolution::Halt) == Phase::Halted,
{
    assert(idt.entries()[DOUBLE_FAULT_VECTOR as int] == spec_idt_entry(DOUBLE_FAULT_VECTOR as int));
}

} // verus!
