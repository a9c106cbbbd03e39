//! The memory image: which storage units are copied from non-volatile storage
//! and which are cleared before the application may touch a global variable.

use vstd::prelude::*;
use crate::memory::Memory;
use crate::region::Region;

verus! {

/// The three address ranges that the link step hands to the boot sequence.
#[derive(Clone, Copy, Debug, PartialEq, Eq, Structural)]
pub struct MemoryImageDescriptor {
    /// Where the initial values lie in non-volatile storage.
    pub source: Region,
    /// Where the initialized data lives in working memory.
    pub destination: Region,
    /// The part of working memory that starts out as zero.
    pub zero: Region,
}

/// Why a memory layout cannot be booted from.
#[derive(Clone, Copy, Debug, PartialEq, Eq, Structural)]
pub enum LayoutError {
    /// A range ends before it starts.
    Unterminated,
    /// The source and the destination of the copy differ in size.
    SizeMismatch,
    /// A range reaches past the end of the address space.
    OutOfBounds,
    /// The vector table does not start at the base address or has no room
    /// for the stack-top value and the reset handler.
    TableMisplaced,
    /// A destination range shares an address with the source or with the
    /// other destination range.
    Overlap,
    /// A destination range shares an address with the vector table or with
    /// the reserved stack region.
    ReservedOverlap,
}

/// One memory access of the boot sequence.
#[derive(Clone, Copy, Debug, PartialEq, Eq, Structural)]
pub enum MemoryAction {
    /// Read the unit at `from` and store it at `to`.
    Copy { from: usize, to: usize },
    /// Store zero at `at`.
    Zero { at: usize },
    /// Nothing is left to do.
    Done,
}

impl MemoryImageDescriptor {
    /// The ranges are terminated, the copy's two ranges have one size, and no
    /// destination range shares an address with the source or with the other
    /// destination range.
    pub open spec fn well_formed(self) -> bool {
        &&& self.source.terminated()
        &&& self.destination.terminated()
        &&& self.zero.terminated()
        &&& self.source.spec_len() == self.destination.spec_len()
        &&& !self.destination.overlaps(self.source)
        &&& !self.zero.overlaps(self.source)
        &&& !self.destination.overlaps(self.zero)
    }

    /// Every range lies inside an address space of `units` storage units.
    pub open spec fn fits(self, units: nat) -> bool {
        &&& self.source.within(units)
        &&& self.destination.within(units)
        &&& self.zero.within(units)
    }

    /// The verdict on the descriptor for an address space of `units` storage
    /// units: `Ok`, or the first of its defects in the order in which
    /// `LayoutError` lists them.
    pub open spec fn verdict(self, units: nat) -> Result<(), LayoutError> {
        if !(self.source.terminated() && self.destination.terminated() && self.zero.terminated()) {
            Err(LayoutError::Unterminated)
        } else if self.source.spec_len() != self.destination.spec_len() {
            Err(LayoutError::SizeMismatch)
        } else if !self.fits(units) {
            Err(LayoutError::OutOfBounds)
        } else if self.destination.overlaps(self.source) || self.zero.overlaps(self.source)
            || self.destination.overlaps(self.zero) {
            Err(LayoutError::Overlap)
        } else {
            Ok(())
        }
    }

    /// The number of memory accesses that the boot sequence makes.
    pub open spec fn total_steps(self) -> nat {
        self.destination.spec_len() + self.zero.spec_len()
    }

    /// The access made at `step`: first the copy, unit by unit in address
    /// order, then the zero fill, unit by unit in address order.
    pub open spec fn spec_action_at(self, step: nat) -> MemoryAction {
        if step < self.destination.spec_len() {
            MemoryAction::Copy {
                from: (self.source.start + step) as usize,
                to: (self.destination.start + step) as usize,
            }
        } else if step - self.destination.spec_len() < self.zero.spec_len() {
            MemoryAction::Zero { at: (self.zero.start + (step - self.destination.spec_len())) as usize }
        } else {
            MemoryAction::Done
        }
    }

    /// Holds the descriptor against an address space of `units` storage
    /// units. An empty range is in order wherever it stands.
    pub fn validate(&self, units: usize) -> (outcome: Result<(), LayoutError>)
        ensures
            outcome == self.verdict(units as nat),
            outcome is Ok <==> self.well_formed() && self.fits(units as nat),
    {
        if !(self.source.is_terminated() && self.destination.is_terminated()
            && self.zero.is_terminated()) {
            Err(LayoutError::Unterminated)
        } else if self.source.len() != self.destination.len() {
            Err(LayoutError::SizeMismatch)
        } else if !(self.source.fits_within(units) && self.destination.fits_within(units)
            && self.zero.fits_within(units)) {
            Err(LayoutError::OutOfBounds)
        } else if self.destination.intersects(&self.source) || self.zero.intersects(&self.source)
            || self.destination.intersects(&self.zero) {
            Err(LayoutError::Overlap)
        } else {
            Ok(())
        }
    }

    /// The number of memory accesses that the boot sequence makes.
    pub fn step_count(&self) -> (n: usize)
        requires
            self.well_formed(),
        ensures
            n == self.total_steps(),
    {
        self.destination.len() + self.zero.len()
    }

    /// The memory access to make at `step`. Whoever owns the memory makes the
    /// accesses of steps 0, 1, 2, .. in this order until `Done` comes. No
    /// access reads outside the source range or writes outside the two
    /// destination ranges.
    pub fn action_at(&self, step: usize) -> (action: MemoryAction)
        requires
            self.well_formed(),
        ensures
            action == self.spec_action_at(step as nat),
            action is Done <==> step >= self.total_steps(),
            action matches MemoryAction::Copy { from, to } ==> self.source.contains(from as int)
                && self.destination.contains(to as int) && from - self.source.start == to
                - self.destination.start,
            action matches MemoryAction::Zero { at } ==> self.zero.contains(at as int),
    {
        let copies = self.destination.len();
        if step < copies {
            MemoryAction::Copy { from: self.source.start + step, to: self.destination.start + step }
        } else if step - copies < self.zero.len() {
            MemoryAction::Zero { at: self.zero.start + (step - copies) }
        } else {
            MemoryAction::Done
        }
    }
}

/// The memory after one access.
pub open spec fn apply(memory: Seq<u32>, action: MemoryAction) -> Seq<u32> {
    match action {
        MemoryAction::Copy { from, to } => memory.update(to as int, memory[from as int]),
        MemoryAction::Zero { at } => memory.update(at as int, 0u32),
        MemoryAction::Done => memory,
    }
}

/// The memory after the first `steps` accesses of the boot sequence.
pub open spec fn run(memory: Seq<u32>, descriptor: MemoryImageDescriptor, steps: nat) -> Seq<u32>
    decreases steps,
{
    if steps == 0 {
        memory
    } else {
        apply(
            run(memory, descriptor, (steps - 1) as nat),
            descriptor.spec_action_at((steps - 1) as nat),
        )
    }
}

/// The memory that the application must find: the zero range cleared, the
/// destination range equal to the source range as it was, the rest untouched.
pub open spec fn initialized(memory: Seq<u32>, descriptor: MemoryImageDescriptor) -> Seq<u32> {
    Seq::new(
        memory.len(),
        |addr: int|
            if descriptor.zero.contains(addr) {
                0u32
            } else if descriptor.destination.contains(addr) {
                memory[descriptor.source.start + (addr - descriptor.destination.start)]
            } else {
                memory[addr]
            },
    )
}

/// The memory while the boot sequence is under way, `steps` accesses in.
spec fn partly_initialized(memory: Seq<u32>, descriptor: MemoryImageDescriptor, steps: nat) -> Seq<
    u32,
> {
    let copies = descriptor.destination.spec_len();
    Seq::new(
        memory.len(),
        |addr: int|
            if steps > copies && descriptor.zero.start <= addr < descriptor.zero.start + (steps
                - copies) {
                0u32
            } else if descriptor.destination.start <= addr < descriptor.destination.start + steps
                && descriptor.destination.contains(addr) {
                memory[descriptor.source.start + (addr - descriptor.destination.start)]
            } else {
                memory[addr]
            },
    )
}

proof fn lemma_run_is_partly_initialized(
    memory: Seq<u32>,
    descriptor: MemoryImageDescriptor,
    steps: nat,
)
    requires
        descriptor.well_formed(),
        descriptor.fits(memory.len()),
        steps <= descriptor.total_steps(),
    ensures
        run(memory, descriptor, steps) == partly_initialized(memory, descriptor, steps),
    decreases steps,
{
    if steps == 0 {
        assert(partly_initialized(memory, descriptor, 0) =~= memory);
    } else {
        let prev = (steps - 1) as nat;
        lemma_run_is_partly_initialized(memory, descriptor, prev);
        let before = partly_initialized(memory, descriptor, prev);
        let action = descriptor.spec_action_at(prev);
        assert(apply(before, action) =~= partly_initialized(memory, descriptor, steps));
    }
}

/// The accesses that `action_at` hands out, made in order and to the last,
/// leave the memory initialized.
pub proof fn lemma_run_completes(memory: Seq<u32>, descriptor: MemoryImageDescriptor)
    requires
        descriptor.well_formed(),
        descriptor.fits(memory.len()),
    ensures
        run(memory, descriptor, descriptor.total_steps()) == initialized(memory, descriptor),
{
    lemma_run_is_partly_initialized(memory, descriptor, descriptor.total_steps());
    assert(partly_initialized(memory, descriptor, descriptor.total_steps()) =~= initialized(
        memory,
        descriptor,
    ));
}

/// The byte in lane `lane` of a storage unit, lane 0 the least significant.
pub open spec fn byte_of(word: u32, lane: int) -> u8 {
    if lane == 0 {
        (word % 256) as u8
    } else if lane == 1 {
        (word / 0x100 % 256) as u8
    } else if lane == 2 {
        (word / 0x1_0000 % 256) as u8
    } else {
        (word / 0x100_0000 % 256) as u8
    }
}

/// The byte at byte offset `offset` from the base of the address space, four
/// bytes to the storage unit.
pub open spec fn byte_at(memory: Seq<u32>, offset: int) -> u8 {
    byte_of(memory[offset / 4], offset % 4)
}

/// Copy correctness: after initialization every byte of the destination range
/// equals the byte at the same offset of the source range.
pub proof fn lemma_destination_bytes_equal_source(
    memory: Seq<u32>,
    descriptor: MemoryImageDescriptor,
    offset: int,
)
    requires
        descriptor.well_formed(),
        descriptor.fits(memory.len()),
        0 <= offset < 4 * descriptor.destination.spec_len(),
    ensures
        byte_at(initialized(memory, descriptor), 4 * descriptor.destination.start + offset)
            == byte_at(memory, 4 * descriptor.source.start + offset),
{
    let unit = offset / 4;
    assert((4 * descriptor.destination.start + offset) / 4 == descriptor.destination.start + unit);
    assert((4 * descriptor.source.start + offset) / 4 == descriptor.source.start + unit);
    assert((4 * descriptor.destination.start + offset) % 4 == offset % 4);
    assert((4 * descriptor.source.start + offset) % 4 == offset % 4);
    assert(descriptor.destination.contains(descriptor.destination.start + unit));
}

/// Zero-fill correctness: after initialization every byte of the zero range
/// is zero.
pub proof fn lemma_zero_range_bytes_are_zero(
    memory: Seq<u32>,
    descriptor: MemoryImageDescriptor,
    offset: int,
)
    requires
        descriptor.zero.within(memory.len()),
        0 <= offset < 4 * descriptor.zero.spec_len(),
    ensures
        byte_at(initialized(memory, descriptor), 4 * descriptor.zero.start + offset) == 0,
{
    let unit = offset / 4;
    assert((4 * descriptor.zero.start + offset) / 4 == descriptor.zero.start + unit);
    assert(descriptor.zero.contains(descriptor.zero.start + unit));
}

/// Initialization is idempotent: a second run leaves the memory as the first
/// run left it.
pub proof fn lemma_initialization_is_idempotent(
    memory: Seq<u32>,
    descriptor: MemoryImageDescriptor,
)
    requires
        descriptor.well_formed(),
        descriptor.fits(memory.len()),
    ensures
        initialized(initialized(memory, descriptor), descriptor) == initialized(
            memory,
            descriptor,
        ),
{
    let once = initialized(memory, descriptor);
    assert(initialized(once, descriptor) =~= once);
}

/// A descriptor whose ranges hold no address is accepted, and initialization
/// with it changes nothing.
pub proof fn lemma_empty_image_is_accepted_and_changes_nothing(
    memory: Seq<u32>,
    descriptor: MemoryImageDescriptor,
)
    requires
        descriptor.source.start == descriptor.source.end,
        descriptor.destination.start == descriptor.destination.end,
        descriptor.zero.start == descriptor.zero.end,
    ensures
        descriptor.verdict(memory.len()) is Ok,
        descriptor.total_steps() == 0,
        initialized(memory, descriptor) == memory,
{
    assert(initialized(memory, descriptor) =~= memory);
}

/// Brings working memory into the state that the application relies on:
/// copies the source range to the destination range, then clears the zero
/// range, each in address order. These are the accesses of `action_at`, made
/// one after the other.
pub fn initialize_memory(memory: &mut Memory, descriptor: &MemoryImageDescriptor)
    requires
        descriptor.well_formed(),
        descriptor.fits(old(memory)@.len()),
    ensures
        final(memory)@ == initialized(old(memory)@, *descriptor),
        final(memory)@ == run(old(memory)@, *descriptor, descriptor.total_steps()),
        final(memory)@.len() == old(memory)@.len(),
        forall|addr: int|
            descriptor.destination.contains(addr) ==> #[trigger] final(memory)@[addr] == old(
                memory,
            )@[descriptor.source.start + (addr - descriptor.destination.start)],
        forall|addr: int| descriptor.zero.contains(addr) ==> #[trigger] final(memory)@[addr] == 0,
        forall|addr: int|
            0 <= addr < old(memory)@.len() && !descriptor.destination.contains(addr)
                && !descriptor.zero.contains(addr) ==> #[trigger] final(memory)@[addr] == old(
                memory,
            )@[addr],
{
    let ghost before = memory@;
    let total = descriptor.step_count();
    let mut step: usize = 0;
    while step < total
        invariant
            descriptor.well_formed(),
            descriptor.fits(before.len()),
            total == descriptor.total_steps(),
            step <= total,
            memory@ == run(before, *descriptor, step as nat),
        decreases total - step,
    {
        proof {
            lemma_run_is_partly_initialized(before, *descriptor, step as nat);
        }
        match descriptor.action_at(step) {
            MemoryAction::Copy { from, to } => {
                if let Some(value) = memory.read(from) {
                    memory.write(to, value);
                }
            },
            MemoryAction::Zero { at } => {
                memory.write(at, 0);
            },
            MemoryAction::Done => {},
        }
        step += 1;
    }
    proof {
        lemma_run_completes(before, *descriptor);
    }
}

} // verus!
