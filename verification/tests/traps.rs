use greg_os::gdt::{StackRegion, DOUBLE_FAULT_IST_INDEX};
use greg_os::interrupts::{
    breakpoint_handler, dispatch_double_fault, double_fault_handler, init_idt,
    keyboard_interrupt_handler, page_fault_handler, timer_interrupt_handler, Diagnostic,
    InterruptIndex, Resolution, TrapHandler, BREAKPOINT_VECTOR, DOUBLE_FAULT_VECTOR,
    PAGE_FAULT_VECTOR, PIC_1_OFFSET, PIC_2_OFFSET,
};
use greg_os::interrupts::InterruptStackFrame;
use greg_os::keyboard::{ScancodePush, ScancodeQueue};
use greg_os::pic::{ChainedPics, EndOfInterrupt};
use greg_os::{init, BootStep, QemuExitCode, Testable};

fn frame() -> InterruptStackFrame {
    InterruptStackFrame {
        instruction_pointer: 0x1000,
        code_segment: 8,
        cpu_flags: 0x202,
        stack_pointer: 0x9000,
        stack_segment: 0,
    }
}

#[test]
fn idt_binds_exactly_the_kernel_handlers() {
    let idt = init_idt();
    let bp = idt.entry(BREAKPOINT_VECTOR).unwrap();
    assert_eq!(bp.handler, TrapHandler::Breakpoint);
    assert_eq!(bp.stack_index, None);
    let df = idt.entry(DOUBLE_FAULT_VECTOR).unwrap();
    assert_eq!(df.handler, TrapHandler::DoubleFault);
    assert_eq!(df.stack_index, Some(DOUBLE_FAULT_IST_INDEX));
    let pf = idt.entry(PAGE_FAULT_VECTOR).unwrap();
    assert_eq!(pf.handler, TrapHandler::PageFault);
    assert_eq!(idt.entry(PIC_1_OFFSET).unwrap().handler, TrapHandler::Timer);
    assert_eq!(idt.entry(PIC_1_OFFSET + 1).unwrap().handler, TrapHandler::Keyboard);
    // Every other vector is unbound.
    for v in 0..=255u8 {
        if v != BREAKPOINT_VECTOR
            && v != DOUBLE_FAULT_VECTOR
            && v != PAGE_FAULT_VECTOR
            && v != PIC_1_OFFSET
            && v != PIC_1_OFFSET + 1
        {
            assert!(idt.entry(v).is_none());
        }
    }
}

#[test]
fn interrupt_index_vectors() {
    assert_eq!(InterruptIndex::Timer.as_u8(), 0x20);
    assert_eq!(InterruptIndex::Keyboard.as_u8(), 0x21);
    assert_eq!(InterruptIndex::Timer.as_usize(), 0x20);
    assert_eq!(PIC_2_OFFSET, 0x28);
}

#[test]
fn test_breakpoint_exception() {
    // A breakpoint is reported and resumed, and repeating it changes
    // nothing: both invocations give the same report and resolution.
    let first = breakpoint_handler(frame());
    let second = breakpoint_handler(frame());
    assert_eq!(first.1, Resolution::Resume);
    assert_eq!(second.1, Resolution::Resume);
    assert_eq!(first, second);
    match first.0 {
        Diagnostic::Breakpoint { stack_frame } => assert_eq!(stack_frame, frame()),
        _ => panic!("wrong diagnostic"),
    }
}

#[test]
fn double_fault_halts() {
    let (diag, resolution) = double_fault_handler(frame(), 0);
    assert_eq!(resolution, Resolution::Halt);
    match diag {
        Diagnostic::DoubleFault { error_code, .. } => assert_eq!(error_code, 0),
        _ => panic!("wrong diagnostic"),
    }
}

#[test]
fn page_fault_reports_address_and_halts() {
    let (diag, resolution) = page_fault_handler(frame(), 0b10, 0xDEAD_B000);
    assert_eq!(resolution, Resolution::Halt);
    match diag {
        Diagnostic::PageFault { error_code, accessed_address, .. } => {
            assert_eq!(error_code, 0b10);
            assert_eq!(accessed_address, 0xDEAD_B000);
        }
        _ => panic!("wrong diagnostic"),
    }
}

#[test]
fn stack_overflow_caught_once_on_dedicated_stack() {
    // A stack overflow double-faults; the dispatcher must hand the
    // handler the dedicated stack (whose pointer is the region's end),
    // so servicing the fault cannot fault again, and the handler reaches
    // its reporting step and halts.
    let stack = StackRegion { start: 0x5000_0000, size: 4096 * 5 };
    let (kernel, _steps) = init(stack);
    let (stack_top, diag, resolution) =
        dispatch_double_fault(kernel.trap_table(), kernel.gdt_state(), frame(), 0);
    assert_eq!(stack_top, 0x5000_0000 + 4096 * 5);
    assert_eq!(resolution, Resolution::Halt);
    assert!(matches!(diag, Diagnostic::DoubleFault { .. }));
    // The dedicated stack is disjoint from the faulting stack around
    // 0x9000, so the handler's pushes land outside the exhausted region.
    assert!(stack_top > 0x9000 + 4096 || stack_top <= 0x9000);
}

#[test]
fn timer_acknowledges_primary_exactly_once() {
    let mut pics = ChainedPics::new(PIC_1_OFFSET, PIC_2_OFFSET);
    pics.initialize();
    let eoi = timer_interrupt_handler(&mut pics);
    assert_eq!(eoi, EndOfInterrupt::Primary);
    // One command to the primary chip, none to the secondary.
    let (to_primary, to_secondary) = match eoi {
        EndOfInterrupt::NotHandled => (0, 0),
        EndOfInterrupt::Primary => (1, 0),
        EndOfInterrupt::SecondaryThenPrimary => (1, 1),
    };
    assert_eq!(to_primary, 1);
    assert_eq!(to_secondary, 0);
}

#[test]
fn secondary_vector_acknowledges_both() {
    let mut pics = ChainedPics::new(PIC_1_OFFSET, PIC_2_OFFSET);
    pics.initialize();
    assert_eq!(pics.notify_end_of_interrupt(0x28), EndOfInterrupt::SecondaryThenPrimary);
    assert_eq!(pics.notify_end_of_interrupt(0x2F), EndOfInterrupt::SecondaryThenPrimary);
    assert_eq!(pics.notify_end_of_interrupt(0x30), EndOfInterrupt::NotHandled);
    assert_eq!(pics.notify_end_of_interrupt(0x1F), EndOfInterrupt::NotHandled);
    assert!(pics.handles_interrupt(0x20));
    assert!(!pics.handles_interrupt(0x30));
}

#[test]
fn keyboard_interrupt_queues_and_acknowledges() {
    let mut pics = ChainedPics::new(PIC_1_OFFSET, PIC_2_OFFSET);
    pics.initialize();
    let mut queue = ScancodeQueue::new(100);
    let (push, eoi) = keyboard_interrupt_handler(0x2C, &mut queue, &mut pics);
    assert_eq!(push, ScancodePush::Queued);
    assert_eq!(eoi, EndOfInterrupt::Primary);
    assert_eq!(queue.pop_scancode(), Some(0x2C));
}

#[test]
fn boot_sequence_order() {
    let stack = StackRegion { start: 0x5000_0000, size: 4096 * 5 };
    let (mut kernel, steps) = init(stack);
    assert_eq!(
        steps,
        vec![
            BootStep::DisableInterrupts,
            BootStep::LoadGdt,
            BootStep::LoadIdt,
            BootStep::InitializePics,
            BootStep::EnableInterrupts,
        ]
    );
    assert_eq!(kernel.gdt_state().double_fault_stack_top(), 0x5000_0000 + 4096 * 5);
    assert_eq!(kernel.pics_state().handles_interrupt(0x20), true);
    // A timer interrupt against the armed kernel acknowledges the
    // primary controller exactly once.
    assert_eq!(timer_interrupt_handler(kernel.pics_mut()), EndOfInterrupt::Primary);
}

struct Probe {
    hits: std::cell::Cell<u32>,
}

impl Testable for Probe {
    fn run(&self) {
        self.hits.set(self.hits.get() + 1);
    }
}

#[test]
fn test_runner_runs_all_and_reports_success() {
    let tests = [
        Probe { hits: std::cell::Cell::new(0) },
        Probe { hits: std::cell::Cell::new(0) },
    ];
    let code = greg_os::test_runner(&tests);
    assert_eq!(code, QemuExitCode::Success);
    assert_eq!(tests[0].hits.get(), 1);
    assert_eq!(tests[1].hits.get(), 1);
}

#[test]
fn qemu_exit_codes() {
    assert_eq!(QemuExitCode::Success.port_value(), 0x10);
    assert_eq!(QemuExitCode::Failed.port_value(), 0x11);
}
