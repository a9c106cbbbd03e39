//! The boot sequence: from power-on to the application's entry point, in one
//! fixed order.

use vstd::prelude::*;
use crate::image::{initialize_memory, initialized, LayoutError, MemoryImageDescriptor};
use crate::memory::Memory;
use crate::region::Region;
use crate::vector_table::{table_in_place, vector_table_in_place};

verus! {

/// How far the boot sequence has come. The states are passed in the order
/// in which they stand here, and none is ever left for an earlier one.
#[derive(Clone, Copy, Debug, PartialEq, Eq, Structural)]
pub enum BootState {
    /// The processor has come out of reset; nothing has run yet.
    PowerOn,
    /// The reset handler runs; working memory holds whatever it held.
    MemoryUninitialized,
    /// Working memory holds the initial values of the application's data.
    MemoryInitialized,
    /// Interrupts may be taken: every source finds its handler.
    VectorTableActive,
    /// The application has control and keeps it.
    ApplicationRunning,
}

/// What the processor is to do next.
#[derive(Clone, Copy, Debug, PartialEq, Eq, Structural)]
pub enum Control {
    /// Jump to the application's entry function.
    EnterApplication,
    /// Spin in place until the next hardware reset.
    Halt,
}

/// Where the boot sequence ended and what follows from it.
#[derive(Clone, Copy, Debug, PartialEq, Eq, Structural)]
pub struct BootReport {
    pub state: BootState,
    pub control: Control,
}

/// The memory image together with the two regions that no part of it may
/// touch.
#[derive(Clone, Copy, Debug, PartialEq, Eq, Structural)]
pub struct MemoryLayout {
    /// The vector table, from the base address on.
    pub vector_table: Region,
    /// The stack region reserved at the top of working memory.
    pub stack: Region,
    pub image: MemoryImageDescriptor,
}

impl BootState {
    /// The position of the state in the boot sequence.
    pub open spec fn rank(self) -> nat {
        match self {
            BootState::PowerOn => 0,
            BootState::MemoryUninitialized => 1,
            BootState::MemoryInitialized => 2,
            BootState::VectorTableActive => 3,
            BootState::ApplicationRunning => 4,
        }
    }

    /// The state that follows, if any does.
    pub open spec fn successor(self) -> Option<BootState> {
        match self {
            BootState::PowerOn => Some(BootState::MemoryUninitialized),
            BootState::MemoryUninitialized => Some(BootState::MemoryInitialized),
            BootState::MemoryInitialized => Some(BootState::VectorTableActive),
            BootState::VectorTableActive => Some(BootState::ApplicationRunning),
            BootState::ApplicationRunning => None,
        }
    }

    /// The state after `steps` transitions, if the sequence is that long.
    pub open spec fn after(self, steps: nat) -> Option<BootState>
        decreases steps,
    {
        if steps == 0 {
            Some(self)
        } else {
            match self.successor() {
                Some(next) => next.after((steps - 1) as nat),
                None => None,
            }
        }
    }

    /// The state that follows, if any does.
    pub fn next(self) -> (following: Option<BootState>)
        ensures
            following == self.successor(),
    {
        match self {
            BootState::PowerOn => Some(BootState::MemoryUninitialized),
            BootState::MemoryUninitialized => Some(BootState::MemoryInitialized),
            BootState::MemoryInitialized => Some(BootState::VectorTableActive),
            BootState::VectorTableActive => Some(BootState::ApplicationRunning),
            BootState::ApplicationRunning => None,
        }
    }

    /// Whether the sequence ends here.
    pub fn is_terminal(self) -> (terminal: bool)
        ensures
            terminal <==> self == BootState::ApplicationRunning,
            terminal <==> self.successor() is None,
    {
        match self {
            BootState::ApplicationRunning => true,
            _ => false,
        }
    }
}

/// Every transition moves one state forward: none leads back, none leads to
/// `PowerOn`, and only `ApplicationRunning` has none.
pub proof fn lemma_transitions_only_advance(state: BootState)
    ensures
        state.successor() matches Some(next) ==> next.rank() == state.rank() + 1,
        state.successor() != Some(BootState::PowerOn),
        state.successor() is None <==> state == BootState::ApplicationRunning,
{
}

/// No sequence of transitions is reversible: what is reached after `steps`
/// transitions stands exactly `steps` places later.
pub proof fn lemma_no_way_back(state: BootState, steps: nat)
    ensures
        state.after(steps) matches Some(later) ==> later.rank() == state.rank() + steps,
        steps > 0 ==> state.after(steps) != Some(state),
        steps > 0 ==> state.after(steps) != Some(BootState::PowerOn),
    decreases steps,
{
    if steps > 0 {
        match state.successor() {
            Some(next) => {
                lemma_no_way_back(next, (steps - 1) as nat);
            },
            None => {},
        }
    }
}

impl MemoryLayout {
    /// The image is well formed, the vector table starts at the base address
    /// with room for its two fixed slots, and no destination range shares an
    /// address with the vector table or with the stack region.
    pub open spec fn well_formed(self) -> bool {
        &&& self.image.well_formed()
        &&& self.vector_table.terminated()
        &&& self.stack.terminated()
        &&& self.vector_table.start == 0
        &&& self.vector_table.spec_len() >= 2
        &&& !self.image.destination.overlaps(self.vector_table)
        &&& !self.image.destination.overlaps(self.stack)
        &&& !self.image.zero.overlaps(self.vector_table)
        &&& !self.image.zero.overlaps(self.stack)
    }

    /// Every range lies inside an address space of `units` storage units.
    pub open spec fn fits(self, units: nat) -> bool {
        &&& self.image.fits(units)
        &&& self.vector_table.within(units)
        &&& self.stack.within(units)
    }

    /// The verdict on the layout for an address space of `units` storage
    /// units: `Ok`, or the first of its defects in the order in which
    /// `LayoutError` lists them.
    pub open spec fn verdict(self, units: nat) -> Result<(), LayoutError> {
        if !(self.vector_table.terminated() && self.stack.terminated()
            && self.image.source.terminated() && self.image.destination.terminated()
            && self.image.zero.terminated()) {
            Err(LayoutError::Unterminated)
        } else if self.image.source.spec_len() != self.image.destination.spec_len() {
            Err(LayoutError::SizeMismatch)
        } else if !self.fits(units) {
            Err(LayoutError::OutOfBounds)
        } else if self.vector_table.start != 0 || self.vector_table.spec_len() < 2 {
            Err(LayoutError::TableMisplaced)
        } else if self.image.destination.overlaps(self.image.source) || self.image.zero.overlaps(
            self.image.source,
        ) || self.image.destination.overlaps(self.image.zero) {
            Err(LayoutError::Overlap)
        } else if self.image.destination.overlaps(self.vector_table)
            || self.image.destination.overlaps(self.stack) || self.image.zero.overlaps(
            self.vector_table,
        ) || self.image.zero.overlaps(self.stack) {
            Err(LayoutError::ReservedOverlap)
        } else {
            Ok(())
        }
    }

    /// Holds the layout against an address space of `units` storage units.
    pub fn validate(&self, units: usize) -> (outcome: Result<(), LayoutError>)
        ensures
            outcome == self.verdict(units as nat),
            outcome is Ok <==> self.well_formed() && self.fits(units as nat),
    {
        let image = &self.image;
        if !(self.vector_table.is_terminated() && self.stack.is_terminated()
            && image.source.is_terminated() && image.destination.is_terminated()
            && image.zero.is_terminated()) {
            Err(LayoutError::Unterminated)
        } else if image.source.len() != image.destination.len() {
            Err(LayoutError::SizeMismatch)
        } else if !(image.source.fits_within(units) && image.destination.fits_within(units)
            && image.zero.fits_within(units) && self.vector_table.fits_within(units)
            && self.stack.fits_within(units)) {
            Err(LayoutError::OutOfBounds)
        } else if self.vector_table.start != 0 || self.vector_table.len() < 2 {
            Err(LayoutError::TableMisplaced)
        } else if image.destination.intersects(&image.source) || image.zero.intersects(
            &image.source,
        ) || image.destination.intersects(&image.zero) {
            Err(LayoutError::Overlap)
        } else if image.destination.intersects(&self.vector_table) || image.destination.intersects(
            &self.stack,
        ) || image.zero.intersects(&self.vector_table) || image.zero.intersects(&self.stack) {
            Err(LayoutError::ReservedOverlap)
        } else {
            Ok(())
        }
    }
}

/// Initialization leaves the vector table and the stack region as they were.
pub proof fn lemma_initialization_spares_reserved_regions(memory: Seq<u32>, layout: MemoryLayout)
    requires
        layout.well_formed(),
        layout.fits(memory.len()),
    ensures
        initialized(memory, layout.image).subrange(0, layout.vector_table.end as int)
            == memory.subrange(0, layout.vector_table.end as int),
        table_in_place(initialized(memory, layout.image), layout.vector_table) == table_in_place(
            memory,
            layout.vector_table,
        ),
        forall|addr: int|
            layout.stack.contains(addr) ==> #[trigger] initialized(memory, layout.image)[addr]
                == memory[addr],
{
    assert(initialized(memory, layout.image).subrange(0, layout.vector_table.end as int)
        =~= memory.subrange(0, layout.vector_table.end as int));
}

/// The report of a boot from `memory` with `layout`.
pub open spec fn boot_report(memory: Seq<u32>, layout: MemoryLayout) -> BootReport {
    if layout.verdict(memory.len()) is Err {
        BootReport { state: BootState::MemoryUninitialized, control: Control::Halt }
    } else if !table_in_place(memory, layout.vector_table) {
        BootReport { state: BootState::MemoryInitialized, control: Control::Halt }
    } else {
        BootReport { state: BootState::ApplicationRunning, control: Control::EnterApplication }
    }
}

/// The last step of the boot sequence. From `VectorTableActive` it hands
/// control to the application; from any other state it refuses and halts.
pub fn transfer_to_application(state: BootState) -> (report: BootReport)
    ensures
        state == BootState::VectorTableActive ==> report == (BootReport {
            state: BootState::ApplicationRunning,
            control: Control::EnterApplication,
        }),
        state != BootState::VectorTableActive ==> report == (BootReport {
            state,
            control: Control::Halt,
        }),
{
    match state {
        BootState::VectorTableActive => BootReport {
            state: BootState::ApplicationRunning,
            control: Control::EnterApplication,
        },
        _ => BootReport { state, control: Control::Halt },
    }
}

/// What to do when the application's entry function returns: nothing is left
/// to return to, so halt.
pub fn application_returned() -> (control: Control)
    ensures
        control == Control::Halt,
{
    Control::Halt
}

/// The handler of every interrupt that has no handler of its own. It reads no
/// state, since it may run before any state is set up, and halts.
#[allow(non_snake_case)]
pub fn DefaultHandler() -> (control: Control)
    ensures
        control == Control::Halt,
{
    Control::Halt
}

/// The panic policy: halt, whatever the cause.
pub fn panic() -> (control: Control)
    ensures
        control == Control::Halt,
{
    Control::Halt
}

fn advance(state: BootState) -> (following: BootState)
    ensures
        following == match state.successor() {
            Some(next) => next,
            None => state,
        },
{
    match state.next() {
        Some(next) => next,
        None => state,
    }
}

/// The reset handler: initializes memory from a layout that the link step is
/// trusted to have got right, and hands over to the application.
#[allow(non_snake_case)]
pub fn Reset(memory: &mut Memory, layout: &MemoryLayout) -> (report: BootReport)
    requires
        layout.well_formed(),
        layout.fits(old(memory)@.len()),
        table_in_place(old(memory)@, layout.vector_table),
    ensures
        final(memory)@ == initialized(old(memory)@, layout.image),
        final(memory)@.subrange(0, layout.vector_table.end as int) == old(memory)@.subrange(
            0,
            layout.vector_table.end as int,
        ),
        table_in_place(final(memory)@, layout.vector_table),
        report == (BootReport {
            state: BootState::ApplicationRunning,
            control: Control::EnterApplication,
        }),
{
    proof {
        lemma_initialization_spares_reserved_regions(memory@, *layout);
    }
    let mut state = advance(BootState::PowerOn);
    initialize_memory(memory, &layout.image);
    state = advance(state);
    state = advance(state);
    transfer_to_application(state)
}

/// The one way from power-on to the application: validates the layout,
/// initializes memory, makes sure the vector table is in place, and only then
/// hands over. Whatever is amiss ends in a halt, in the state reached so far;
/// a layout that is refused leaves the memory untouched.
pub fn boot(memory: &mut Memory, layout: &MemoryLayout) -> (report: BootReport)
    ensures
        report == boot_report(old(memory)@, *layout),
        layout.verdict(old(memory)@.len()) is Ok ==> final(memory)@ == initialized(
            old(memory)@,
            layout.image,
        ),
        layout.verdict(old(memory)@.len()) is Err ==> final(memory)@ == old(memory)@,
        layout.verdict(old(memory)@.len()) is Ok ==> final(memory)@.subrange(
            0,
            layout.vector_table.end as int,
        ) == old(memory)@.subrange(0, layout.vector_table.end as int),
        report.control == Control::EnterApplication ==> table_in_place(
            final(memory)@,
            layout.vector_table,
        ),
{
    let mut state = advance(BootState::PowerOn);
    if layout.validate(memory.len()).is_err() {
        return BootReport { state, control: Control::Halt };
    }
    proof {
        lemma_initialization_spares_reserved_regions(memory@, *layout);
    }
    initialize_memory(memory, &layout.image);
    state = advance(state);
    if !vector_table_in_place(memory, &layout.vector_table) {
        return BootReport { state, control: Control::Halt };
    }
    state = advance(state);
    transfer_to_application(state)
}

} // verus!
