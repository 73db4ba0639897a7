//! Segment and task-state setup.
//!
//! The descriptor table holds a kernel code segment and a task-state
//! segment; the task-state record carries the interrupt stack table, whose
//! slot for the double-fault handler must point at the *end* (highest
//! address) of a dedicated stack region, because the CPU pushes downward
//! after the stack switch. Both tables are built once at boot and never
//! touched again. The dedicated stack is a statically reserved region
//! whose addresses the unverified shell supplies.

use vstd::prelude::*;

verus! {

/// Interrupt-stack-table slot reserved for the double-fault handler.
pub const DOUBLE_FAULT_IST_INDEX: u16 = 0;

/// Number of slots in the interrupt stack table.
pub const IST_SLOTS: usize = 7;

/// A contiguous stack region: `size` bytes starting at `start`.
#[derive(Debug, Clone, Copy, PartialEq, Eq, Structural)]
pub struct StackRegion {
    pub start: u64,
    pub size: u64,
}

impl StackRegion {
    /// A usable stack region: not empty, and its end fits in an address.
    pub open spec fn wf(&self) -> bool {
        &&& self.size > 0
        &&& self.start + self.size <= u64::MAX
    }

    /// One past the highest address of the region: the value loaded into
    /// a stack pointer, since the CPU pushes downward from it.
    pub open spec fn spec_top(&self) -> int {
        self.start + self.size
    }

    /// Whether an address lies inside the region.
    pub open spec fn spec_contains(&self, address: int) -> bool {
        self.start <= address < self.start + self.size
    }

    /// Whether two regions share no address.
    pub open spec fn spec_disjoint(&self, other: StackRegion) -> bool {
        forall|a: int| self.spec_contains(a) ==> !other.spec_contains(a)
    }

    /// One past the highest address of the region.
    pub fn top(&self) -> (r: u64)
        requires
            self.wf(),
        ensures
            r == self.spec_top(),
    {
        self.start + self.size
    }
}

/// The task-state record: the interrupt stack table, one optional
/// dedicated stack region per slot.
pub struct TaskState {
    ist: Vec<Option<StackRegion>>,
}

impl TaskState {
    /// The interrupt stack table as a sequence of slots.
    pub closed spec fn ist(&self) -> Seq<Option<StackRegion>> {
        self.ist@
    }

    /// The table has exactly its seven slots and every configured slot
    /// holds a usable region.
    pub open spec fn wf(&self) -> bool {
        &&& self.ist().len() == 7
        &&& forall|i: int|
            0 <= i < 7 && self.ist()[i] is Some ==> self.ist()[i]->Some_0.wf()
    }

    /// The stack region configured in one slot.
    pub fn ist_region(&self, index: usize) -> (r: Option<StackRegion>)
        requires
            self.wf(),
            index < 7,
        ensures
            r == self.ist()[index as int],
    {
        self.ist[index]
    }
}

/// The kinds of descriptor the boot descriptor table holds.
#[derive(Debug, Clone, Copy, PartialEq, Eq, Structural)]
pub enum Descriptor {
    KernelCode,
    TaskStateSegment,
}

/// The boot descriptor table together with its task-state record, and
/// whether the CPU registers have been loaded from them.
pub struct GdtState {
    descriptors: Vec<Descriptor>,
    tss: TaskState,
    loaded: bool,
}

impl GdtState {
    /// The descriptors, in table order.
    pub closed spec fn descriptors(&self) -> Seq<Descriptor> {
        self.descriptors@
    }

    /// The task-state record the table points at.
    pub closed spec fn tss(&self) -> TaskState {
        self.tss
    }

    /// Whether the descriptor-table register and the task register have
    /// been loaded.
    pub closed spec fn is_loaded(&self) -> bool {
        self.loaded
    }

    /// A well-formed boot table: a code descriptor and a task-state
    /// descriptor, a well-formed task state, and a dedicated double-fault
    /// stack in its reserved slot.
    pub open spec fn wf(&self) -> bool {
        &&& self.descriptors() == seq![Descriptor::KernelCode, Descriptor::TaskStateSegment]
        &&& self.tss().wf()
        &&& self.tss().ist()[DOUBLE_FAULT_IST_INDEX as int] is Some
    }

    /// The stack region reserved for the double-fault handler.
    pub open spec fn spec_double_fault_stack(&self) -> StackRegion {
        self.tss().ist()[DOUBLE_FAULT_IST_INDEX as int]->Some_0
    }

    /// The stack-pointer value the CPU loads on a double fault: the end
    /// of the dedicated region.
    pub open spec fn spec_double_fault_stack_top(&self) -> int {
        self.spec_double_fault_stack().spec_top()
    }

    /// The stack pointer the CPU will switch to on a double fault.
    pub fn double_fault_stack_top(&self) -> (r: u64)
        requires
            self.wf(),
        ensures
            r == self.spec_double_fault_stack_top(),
    {
        let region = self.tss.ist_region(DOUBLE_FAULT_IST_INDEX as usize);
        match region {
            Some(region) => region.top(),
            None => {
                proof {
                    assert(false);
                }
                0
            },
        }
    }
}

/// Build the boot descriptor table: reserve the given region as the
/// double-fault stack, store its end in the reserved interrupt-stack-table
/// slot, lay out the code and task-state descriptors, and load the CPU
/// registers from them. Called exactly once, before the trap table.
pub fn init(double_fault_stack: StackRegion) -> (g: GdtState)
    requires
        double_fault_stack.wf(),
    ensures
        g.wf(),
        g.is_loaded(),
        g.spec_double_fault_stack() == double_fault_stack,
        g.spec_double_fault_stack_top() == double_fault_stack.spec_top(),
        forall|i: int| 0 < i < 7 ==> g.tss().ist()[i] is None,
{
    let mut ist: Vec<Option<StackRegion>> = Vec::new();
    ist.push(Some(double_fault_stack));
    let mut i: usize = 1;
    while i < IST_SLOTS
        invariant
            1 <= i <= 7,
            ist@.len() == i,
            ist@[0] == Some(double_fault_stack),
            forall|j: int| 0 < j < i ==> ist@[j] is None,
        decreases 7 - i,
    {
        ist.push(None);
        i = i + 1;
    }
    let mut descriptors: Vec<Descriptor> = Vec::new();
    descriptors.push(Descriptor::KernelCode);
    descriptors.push(Descriptor::TaskStateSegment);
    assert(descriptors@ =~= seq![Descriptor::KernelCode, Descriptor::TaskStateSegment]);
    GdtState { descriptors, tss: TaskState { ist }, loaded: true }
}

} // verus!
