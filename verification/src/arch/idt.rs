//! The interrupt table: which handler each of the 256 vectors leads to.
//!
//! The table here is the kernel's own record. A handler is known by the
//! address of its entry point; whoever loads the processor's table takes
//! the addresses from here.

use vstd::prelude::*;

verus! {

/// The first vector that a driver may bind: the vectors below it belong to
/// the processor's exceptions.
pub const FIRST_IRQ_VECTOR: u8 = 32;

/// The exceptions that the kernel handles itself.
#[derive(Debug, Clone, Copy, PartialEq, Eq, Structural)]
pub enum Exception {
    DivideError,
    Debug,
    Breakpoint,
    Overflow,
    BoundRangeExceeded,
    InvalidOpcode,
    DeviceNotAvailable,
    /// Handled on the interrupt stack with the index 0.
    DoubleFault,
    InvalidTss,
    SegmentNotPresent,
    StackSegmentFault,
    GeneralProtectionFault,
    PageFault,
}

/// What a vector leads to.
#[derive(Debug, Clone, Copy, PartialEq, Eq, Structural)]
pub enum VectorSlot {
    /// Nothing: the vector is not served.
    Missing,
    /// The kernel's handler for an exception.
    Exception(Exception),
    /// The placeholder that acknowledges the interrupt and reports it.
    Placeholder,
    /// The handler that a driver bound, by the address of its entry point.
    Handler(u64),
}

/// The interrupt table.
pub struct VectorTable {
    pub slots: Vec<VectorSlot>,
}

/// What the vector `vector` leads to before any driver binds a handler:
/// the exceptions lead to the kernel's handlers, the other vectors below
/// [`FIRST_IRQ_VECTOR`] to nothing, and every vector from there on to the
/// placeholder.
pub open spec fn initial_slot(vector: int) -> VectorSlot {
    if vector == 0 {
        VectorSlot::Exception(Exception::DivideError)
    } else if vector == 1 {
        VectorSlot::Exception(Exception::Debug)
    } else if vector == 3 {
        VectorSlot::Exception(Exception::Breakpoint)
    } else if vector == 4 {
        VectorSlot::Exception(Exception::Overflow)
    } else if vector == 5 {
        VectorSlot::Exception(Exception::BoundRangeExceeded)
    } else if vector == 6 {
        VectorSlot::Exception(Exception::InvalidOpcode)
    } else if vector == 7 {
        VectorSlot::Exception(Exception::DeviceNotAvailable)
    } else if vector == 8 {
        VectorSlot::Exception(Exception::DoubleFault)
    } else if vector == 10 {
        VectorSlot::Exception(Exception::InvalidTss)
    } else if vector == 11 {
        VectorSlot::Exception(Exception::SegmentNotPresent)
    } else if vector == 12 {
        VectorSlot::Exception(Exception::StackSegmentFault)
    } else if vector == 13 {
        VectorSlot::Exception(Exception::GeneralProtectionFault)
    } else if vector == 14 {
        VectorSlot::Exception(Exception::PageFault)
    } else if vector < FIRST_IRQ_VECTOR {
        VectorSlot::Missing
    } else {
        VectorSlot::Placeholder
    }
}

/// What the vector `vector` leads to before any driver binds a handler.
pub fn default_slot(vector: u8) -> (slot: VectorSlot)
    ensures
        slot == initial_slot(vector as int),
{
    match vector {
        0 => VectorSlot::Exception(Exception::DivideError),
        1 => VectorSlot::Exception(Exception::Debug),
        3 => VectorSlot::Exception(Exception::Breakpoint),
        4 => VectorSlot::Exception(Exception::Overflow),
        5 => VectorSlot::Exception(Exception::BoundRangeExceeded),
        6 => VectorSlot::Exception(Exception::InvalidOpcode),
        7 => VectorSlot::Exception(Exception::DeviceNotAvailable),
        8 => VectorSlot::Exception(Exception::DoubleFault),
        10 => VectorSlot::Exception(Exception::InvalidTss),
        11 => VectorSlot::Exception(Exception::SegmentNotPresent),
        12 => VectorSlot::Exception(Exception::StackSegmentFault),
        13 => VectorSlot::Exception(Exception::GeneralProtectionFault),
        14 => VectorSlot::Exception(Exception::PageFault),
        _ => if vector < FIRST_IRQ_VECTOR {
            VectorSlot::Missing
        } else {
            VectorSlot::Placeholder
        },
    }
}

impl VectorTable {
    /// The table has its 256 slots, and the vectors of the exceptions lead
    /// where they led at the start.
    pub open spec fn wf(&self) -> bool {
        &&& self.slots@.len() == 256
        &&& forall|v: int|
            0 <= v < FIRST_IRQ_VECTOR ==> #[trigger] self.slots@[v] == initial_slot(v)
    }

    /// Whether the table has its 256 slots and the vectors of the
    /// exceptions lead where they led at the start.
    pub fn is_wf(&self) -> (ok: bool)
        ensures
            ok == self.wf(),
    {
        if self.slots.len() != 256 {
            return false;
        }
        let mut v: u8 = 0;
        while v < FIRST_IRQ_VECTOR
            invariant
                v <= FIRST_IRQ_VECTOR,
                self.slots@.len() == 256,
                forall|k: int| 0 <= k < v ==> #[trigger] self.slots@[k] == initial_slot(k),
            decreases FIRST_IRQ_VECTOR - v,
        {
            if self.slots[v as usize] != default_slot(v) {
                return false;
            }
            v += 1;
        }
        true
    }

    /// The table before any driver binds a handler.
    pub fn new() -> (table: VectorTable)
        ensures
            table.wf(),
            forall|v: int| 0 <= v < 256 ==> #[trigger] table.slots@[v] == initial_slot(v),
    {
        let mut slots: Vec<VectorSlot> = Vec::new();
        let mut v: usize = 0;
        while v < 256
            invariant
                v <= 256,
                slots@.len() == v,
                forall|k: int| 0 <= k < v ==> #[trigger] slots@[k] == initial_slot(k),
            decreases 256 - v,
        {
            slots.push(default_slot(v as u8));
            v += 1;
        }
        VectorTable { slots }
    }
}

/// The table in `cell`, built first where the cell is empty. A table that
/// is there is left as it is, so building happens once however often this
/// is called.
pub fn ensure_idt_initialized(cell: &mut Option<VectorTable>)
    requires
        (*old(cell)) is Some ==> (*old(cell))->Some_0.wf(),
    ensures
        (*final(cell)) is Some,
        (*final(cell))->Some_0.wf(),
        (*old(cell)) is Some ==> *final(cell) == *old(cell),
        (*old(cell)) is None ==> forall|v: int|
            0 <= v < 256 ==> #[trigger] (*final(cell))->Some_0.slots@[v] == initial_slot(v),
{
    if cell.is_none() {
        *cell = Some(VectorTable::new());
    }
}

/// What a caller comes away with who tries to publish `candidate` where
/// `published` is what was published before: the first to publish wins,
/// and everyone after comes away with the winner's.
pub open spec fn published_after(published: Option<u64>, candidate: u64) -> u64 {
    match published {
        Some(winner) => winner,
        None => candidate,
    }
}

/// Publishes `candidate` unless something was published before, and
/// returns what is published now.
pub fn publish_once(published: &mut Option<u64>, candidate: u64) -> (winner: u64)
    ensures
        winner == published_after(*old(published), candidate),
        *final(published) == Some(winner),
{
    match *published {
        Some(winner) => winner,
        None => {
            *published = Some(candidate);
            candidate
        },
    }
}

/// Whoever publishes after the first comes away with what the first
/// published, whatever they offer themselves, and leaves it published.
pub proof fn lemma_first_publisher_wins(first: u64, later: u64)
    ensures
        published_after(Some(published_after(None, first)), later) == first,
{
}

/// Binds `handler` to the vector `vector`, in place of whatever the vector
/// led to. Only the vectors from [`FIRST_IRQ_VECTOR`] on can be bound.
pub fn register_irq_handler(table: &mut VectorTable, vector: u8, handler: u64)
    requires
        old(table).wf(),
        vector >= FIRST_IRQ_VECTOR,
    ensures
        final(table).wf(),
        final(table).slots@ == old(table).slots@.update(
            vector as int,
            VectorSlot::Handler(handler),
        ),
{
    table.slots[vector as usize] = VectorSlot::Handler(handler);
}

/// Takes the handler off the vector `vector`: the vector leads to the
/// placeholder again. Only the vectors from [`FIRST_IRQ_VECTOR`] on can be
/// unbound.
pub fn unregister_irq_handler(table: &mut VectorTable, vector: u8)
    requires
        old(table).wf(),
        vector >= FIRST_IRQ_VECTOR,
    ensures
        final(table).wf(),
        final(table).slots@ == old(table).slots@.update(vector as int, VectorSlot::Placeholder),
{
    table.slots[vector as usize] = VectorSlot::Placeholder;
}

/// What the vector `vector` leads to.
pub fn slot(table: &VectorTable, vector: u8) -> (slot: VectorSlot)
    requires
        table.wf(),
    ensures
        slot == table.slots@[vector as int],
{
    table.slots[vector as usize]
}

} // verus!
