//! The interrupt vector table: the addresses that the hardware consults on
//! reset and on every exception or interrupt.

use vstd::prelude::*;
use crate::memory::Memory;
use crate::region::Region;

verus! {

/// The slot of the initial stack-top value.
pub const STACK_TOP_SLOT: usize = 0;

/// The slot of the reset handler.
pub const RESET_SLOT: usize = 1;

/// The slot of source 0; source `n` has slot `FIRST_SOURCE_SLOT + n`.
pub const FIRST_SOURCE_SLOT: usize = 2;

/// The low bit of the reset entry, which tells the processor the
/// instruction-set mode to start in.
pub const MODE_BIT: u32 = 1;

/// The number of sources that the processor itself defines; they come first
/// among the sources, the peripherals' interrupts after them.
pub const SYSTEM_SOURCES: usize = 14;

/// The exceptions that the processor itself raises.
#[derive(Clone, Copy, Debug, PartialEq, Eq, Structural)]
pub enum Exception {
    Nmi,
    HardFault,
    MemManage,
    BusFault,
    UsageFault,
    SvCall,
    DebugMonitor,
    PendSv,
    SysTick,
}

/// Why a vector table entry is refused.
#[derive(Clone, Copy, Debug, PartialEq, Eq, Structural)]
pub enum TableError {
    /// The handler address is zero: the slot would stay unpopulated.
    MissingHandler,
    /// The table has no slot for the source.
    UnknownSource,
}

/// A vector table: slot 0 holds the initial stack-top value, slot 1 the reset
/// entry, every further slot the handler of one exception or interrupt source.
pub struct VectorTable {
    entries: Vec<u32>,
    fallback: u32,
}

impl View for VectorTable {
    type V = Seq<u32>;

    closed spec fn view(&self) -> Seq<u32> {
        self.entries@
    }
}

/// The entries form a usable table: the two fixed slots are there, the reset
/// entry carries the mode bit, and every source slot is populated.
pub open spec fn entries_well_formed(entries: Seq<u32>) -> bool {
    &&& entries.len() >= 2
    &&& entries[1] & MODE_BIT == MODE_BIT
    &&& forall|slot: int| 2 <= slot < entries.len() ==> #[trigger] entries[slot] != 0
}

/// The table as it is built: every source routed to the default handler.
pub open spec fn initial_entries(
    stack_top: u32,
    reset_handler: u32,
    default_handler: u32,
    sources: nat,
) -> Seq<u32> {
    Seq::new(
        2 + sources,
        |slot: int|
            if slot == 0 {
                stack_top
            } else if slot == 1 {
                reset_handler | MODE_BIT
            } else {
                default_handler
            },
    )
}

/// The memory with the table's entries at the base address.
pub open spec fn placed(memory: Seq<u32>, entries: Seq<u32>) -> Seq<u32> {
    Seq::new(
        memory.len(),
        |addr: int|
            if addr < entries.len() {
                entries[addr]
            } else {
                memory[addr]
            },
    )
}

/// The units of `region` start at the base address, lie inside the memory and
/// hold a usable table.
pub open spec fn table_in_place(memory: Seq<u32>, region: Region) -> bool {
    &&& region.start == 0
    &&& region.end <= memory.len()
    &&& entries_well_formed(memory.subrange(0, region.end as int))
}

proof fn lemma_mode_bit(address: u32)
    ensures
        (address | MODE_BIT) & MODE_BIT == MODE_BIT,
        address | MODE_BIT != 0,
        address & MODE_BIT == MODE_BIT ==> address != 0,
{
    assert((address | 1u32) & 1u32 == 1u32) by (bit_vector);
    assert(address | 1u32 != 0u32) by (bit_vector);
    assert(address & 1u32 == 1u32 ==> address != 0u32) by (bit_vector);
}

impl Exception {
    /// The source number of the exception. The numbers in between belong to
    /// no exception: the processor reserves them.
    pub open spec fn spec_source(self) -> nat {
        match self {
            Exception::Nmi => 0,
            Exception::HardFault => 1,
            Exception::MemManage => 2,
            Exception::BusFault => 3,
            Exception::UsageFault => 4,
            Exception::SvCall => 9,
            Exception::DebugMonitor => 10,
            Exception::PendSv => 12,
            Exception::SysTick => 13,
        }
    }

    /// The source number of the exception, to route it with `assign`.
    pub fn source(self) -> (n: usize)
        ensures
            n == self.spec_source(),
            n < SYSTEM_SOURCES,
    {
        match self {
            Exception::Nmi => 0,
            Exception::HardFault => 1,
            Exception::MemManage => 2,
            Exception::BusFault => 3,
            Exception::UsageFault => 4,
            Exception::SvCall => 9,
            Exception::DebugMonitor => 10,
            Exception::PendSv => 12,
            Exception::SysTick => 13,
        }
    }
}

/// No two exceptions share a slot.
pub proof fn lemma_exceptions_have_slots_of_their_own(a: Exception, b: Exception)
    requires
        a != b,
    ensures
        a.spec_source() != b.spec_source(),
{
}

impl VectorTable {
    /// The address that unassigned sources are routed to.
    pub closed spec fn default_address(&self) -> u32 {
        self.fallback
    }

    /// The number of exception and interrupt sources that the table serves.
    pub open spec fn sources(&self) -> nat {
        (self@.len() - 2) as nat
    }

    /// The table is usable and has a default handler.
    pub open spec fn well_formed(&self) -> bool {
        &&& entries_well_formed(self@)
        &&& self.default_address() != 0
    }

    /// A table for `sources` sources, each routed to `default_handler`. The
    /// reset entry is `reset_handler` with the mode bit set.
    pub fn new(stack_top: u32, reset_handler: u32, default_handler: u32, sources: usize) -> (built:
        Result<VectorTable, TableError>)
        requires
            sources + 2 <= usize::MAX,
        ensures
            built is Err <==> reset_handler == 0 || default_handler == 0,
            built matches Err(e) ==> e == TableError::MissingHandler,
            built matches Ok(table) ==> {
                &&& table.well_formed()
                &&& table@ == initial_entries(
                    stack_top,
                    reset_handler,
                    default_handler,
                    sources as nat,
                )
                &&& table.default_address() == default_handler
            },
    {
        if reset_handler == 0 || default_handler == 0 {
            return Err(TableError::MissingHandler);
        }
        let mut entries: Vec<u32> = Vec::new();
        entries.push(stack_top);
        entries.push(reset_handler | MODE_BIT);
        let mut source: usize = 0;
        while source < sources
            invariant
                source <= sources,
                sources + 2 <= usize::MAX,
                entries@.len() == 2 + source,
                entries@[0] == stack_top,
                entries@[1] == reset_handler | MODE_BIT,
                forall|slot: int| 2 <= slot < entries@.len() ==> entries@[slot] == default_handler,
            decreases sources - source,
        {
            entries.push(default_handler);
            source += 1;
        }
        proof {
            lemma_mode_bit(reset_handler);
            assert(entries@ =~= initial_entries(
                stack_top,
                reset_handler,
                default_handler,
                sources as nat,
            ));
        }
        Ok(VectorTable { entries, fallback: default_handler })
    }

    /// Routes `source` to `handler`. A refused assignment leaves the table as
    /// it was.
    pub fn assign(&mut self, source: usize, handler: u32) -> (outcome: Result<(), TableError>)
        requires
            old(self).well_formed(),
        ensures
            final(self).well_formed(),
            final(self).default_address() == old(self).default_address(),
            source >= old(self).sources() ==> outcome == Err::<(), TableError>(
                TableError::UnknownSource,
            ),
            source < old(self).sources() && handler == 0 ==> outcome == Err::<(), TableError>(
                TableError::MissingHandler,
            ),
            source < old(self).sources() && handler != 0 ==> outcome == Ok::<(), TableError>(()),
            outcome is Err ==> final(self)@ == old(self)@,
            outcome is Ok ==> final(self)@ == old(self)@.update(2 + source, handler),
    {
        if source >= self.entries.len() - 2 {
            Err(TableError::UnknownSource)
        } else if handler == 0 {
            Err(TableError::MissingHandler)
        } else {
            self.entries.set(source + 2, handler);
            Ok(())
        }
    }

    /// The number of slots, the two fixed ones included.
    pub fn len(&self) -> (n: usize)
        ensures
            n == self@.len(),
    {
        self.entries.len()
    }

    /// The number of exception and interrupt sources that the table serves.
    pub fn source_count(&self) -> (n: usize)
        requires
            self.well_formed(),
        ensures
            n == self.sources(),
    {
        self.entries.len() - 2
    }

    /// The entry in `slot`, if the table has that slot.
    pub fn entry(&self, slot: usize) -> (value: Option<u32>)
        ensures
            slot < self@.len() ==> value == Some(self@[slot as int]),
            slot >= self@.len() ==> value is None,
    {
        if slot < self.entries.len() {
            Some(self.entries[slot])
        } else {
            None
        }
    }

    /// The initial stack-top value.
    pub fn stack_top(&self) -> (value: u32)
        requires
            self.well_formed(),
        ensures
            value == self@[0],
    {
        self.entries[0]
    }

    /// The reset entry: the reset handler's address with the mode bit set.
    pub fn reset_entry(&self) -> (value: u32)
        requires
            self.well_formed(),
        ensures
            value == self@[1],
            value & MODE_BIT == MODE_BIT,
    {
        self.entries[1]
    }

    /// The address that unassigned sources are routed to.
    pub fn default_handler(&self) -> (value: u32)
        requires
            self.well_formed(),
        ensures
            value == self.default_address(),
            value != 0,
    {
        self.fallback
    }

    /// The handler of `source`, if the table serves that source. It is never
    /// zero: an interrupt that fires always finds code to run.
    pub fn handler(&self, source: usize) -> (value: Option<u32>)
        requires
            self.well_formed(),
        ensures
            source < self.sources() ==> value == Some(self@[2 + source]),
            source >= self.sources() ==> value is None,
            value matches Some(address) ==> address != 0,
    {
        if source < self.entries.len() - 2 {
            Some(self.entries[source + 2])
        } else {
            None
        }
    }

    /// The entries in slot order.
    pub fn to_words(&self) -> (words: Vec<u32>)
        ensures
            words@ == self@,
    {
        let mut words: Vec<u32> = Vec::new();
        let mut slot: usize = 0;
        while slot < self.entries.len()
            invariant
                slot <= self.entries@.len(),
                words@ == self.entries@.take(slot as int),
            decreases self.entries@.len() - slot,
        {
            words.push(self.entries[slot]);
            proof {
                assert(self.entries@.take(slot + 1) =~= self.entries@.take(slot as int).push(
                    self.entries@[slot as int],
                ));
            }
            slot += 1;
        }
        proof {
            assert(self.entries@.take(self.entries@.len() as int) =~= self.entries@);
        }
        words
    }
}

/// Every slot but the stack-top slot of a well-formed table holds a nonzero
/// address.
pub proof fn lemma_every_handler_slot_is_populated(table: VectorTable, slot: int)
    requires
        table.well_formed(),
        1 <= slot < table@.len(),
    ensures
        table@[slot] != 0,
{
    if slot == 1 {
        lemma_mode_bit(table@[1]);
    }
}

/// Places the table at the base address of `memory`, slot `i` at address `i`,
/// and returns the region it occupies. A table that is longer than the memory
/// is not placed.
pub fn install_vector_table(memory: &mut Memory, table: &VectorTable) -> (region: Option<Region>)
    requires
        table.well_formed(),
    ensures
        region is Some <==> table@.len() <= old(memory)@.len(),
        region matches Some(r) ==> {
            &&& r == (Region { start: 0, end: table@.len() as usize })
            &&& final(memory)@ == placed(old(memory)@, table@)
            &&& table_in_place(final(memory)@, r)
        },
        region is None ==> final(memory)@ == old(memory)@,
{
    let n = table.len();
    if n > memory.len() {
        return None;
    }
    let ghost before = memory@;
    let mut slot: usize = 0;
    while slot < n
        invariant
            n == table@.len(),
            n <= before.len(),
            slot <= n,
            memory@.len() == before.len(),
            forall|addr: int| 0 <= addr < slot ==> #[trigger] memory@[addr] == table@[addr],
            forall|addr: int| slot <= addr < before.len() ==> #[trigger] memory@[addr] == before[addr],
        decreases n - slot,
    {
        if let Some(value) = table.entry(slot) {
            memory.write(slot, value);
        }
        slot += 1;
    }
    proof {
        assert(memory@ =~= placed(before, table@));
        assert(memory@.subrange(0, n as int) =~= table@);
    }
    Some(Region { start: 0, end: n })
}

/// Tells whether the units of `region` hold a usable table at the base
/// address of `memory`.
pub fn vector_table_in_place(memory: &Memory, region: &Region) -> (ok: bool)
    ensures
        ok == table_in_place(memory@, *region),
{
    if region.start != 0 || region.end > memory.len() || region.end < 2 {
        return false;
    }
    let ghost entries = memory@.subrange(0, region.end as int);
    match memory.read(RESET_SLOT) {
        Some(reset) => {
            if reset & MODE_BIT != MODE_BIT {
                assert(entries[1] == reset);
                return false;
            }
        },
        None => {
            return false;
        },
    }
    let mut slot: usize = FIRST_SOURCE_SLOT;
    while slot < region.end
        invariant
            2 <= slot <= region.end,
            region.end <= memory@.len(),
            entries == memory@.subrange(0, region.end as int),
            forall|s: int| 2 <= s < slot ==> #[trigger] entries[s] != 0,
        decreases region.end - slot,
    {
        match memory.read(slot) {
            Some(value) => {
                if value == 0 {
                    assert(entries[slot as int] == 0);
                    return false;
                }
            },
            None => {
                return false;
            },
        }
        slot += 1;
    }
    assert(entries[1] == memory@[1]);
    true
}

} // verus!
