//! The memory-mapped registers of GPIO port 0, by name: no address is
//! computed anywhere else.

use vstd::prelude::*;

verus! {

/// Writing a one to bit `n` drives pin `n` high.
pub const GPIO_P0_OUTSET: u32 = 0x5000_0508;

/// Writing a one to bit `n` drives pin `n` low.
pub const GPIO_P0_OUTCLR: u32 = 0x5000_050C;

/// The configuration register of pin 0; the one of pin `n` lies `4 * n`
/// bytes further on.
pub const GPIO_P0_PIN_CNF: u32 = 0x5000_0700;

/// The number of pins of the port.
pub const PIN_COUNT: u32 = 32;

/// The configuration of a pin as an output.
pub const PIN_CNF_OUTPUT: u32 = 1;

/// The pin of row 1 of the LED matrix.
pub const ROW1_PIN: u32 = 21;

/// The pin of column 1 of the LED matrix.
pub const COL1_PIN: u32 = 28;

/// A pin of the port.
#[derive(Clone, Copy, Debug, PartialEq, Eq, Structural)]
pub struct Pin {
    number: u32,
}

/// A register of the port.
#[derive(Clone, Copy, Debug, PartialEq, Eq, Structural)]
pub enum Register {
    /// The configuration register of a pin.
    PinCnf(Pin),
    /// The output-set register.
    OutSet,
    /// The output-clear register.
    OutClr,
}

/// One aligned 32-bit store to a register.
#[derive(Clone, Copy, Debug, PartialEq, Eq, Structural)]
pub struct RegisterWrite {
    pub address: u32,
    pub value: u32,
}

impl Pin {
    /// The number of the pin.
    pub closed spec fn index(self) -> u32 {
        self.number
    }

    /// The port has the pin. Every pin that exists is one of the port's.
    pub open spec fn well_formed(self) -> bool {
        self.index() < PIN_COUNT
    }

    #[verifier::type_invariant]
    spec fn always_well_formed(self) -> bool {
        self.well_formed()
    }

    /// The bit that stands for the pin in the set and clear registers.
    pub open spec fn spec_mask(self) -> u32 {
        1u32 << self.index()
    }

    /// Pin `number`, if the port has it.
    pub fn new(number: u32) -> (pin: Option<Pin>)
        ensures
            pin is Some <==> number < PIN_COUNT,
            pin matches Some(p) ==> p.index() == number && p.well_formed(),
    {
        if number < PIN_COUNT {
            Some(Pin { number })
        } else {
            None
        }
    }

    /// The number of the pin.
    pub fn number(self) -> (n: u32)
        ensures
            n == self.index(),
            n < PIN_COUNT,
    {
        proof {
            use_type_invariant(self);
        }
        self.number
    }

    /// The bit that stands for the pin in the set and clear registers.
    pub fn mask(self) -> (bit: u32)
        ensures
            bit == self.spec_mask(),
    {
        proof {
            use_type_invariant(self);
        }
        1u32 << self.number
    }
}

impl Register {
    /// The address of the register.
    pub open spec fn spec_address(self) -> u32 {
        match self {
            Register::PinCnf(pin) => (GPIO_P0_PIN_CNF + 4 * pin.index()) as u32,
            Register::OutSet => GPIO_P0_OUTSET,
            Register::OutClr => GPIO_P0_OUTCLR,
        }
    }

    /// The address of the register.
    pub fn address(self) -> (addr: u32)
        ensures
            addr == self.spec_address(),
            addr % 4 == 0,
    {
        match self {
            Register::PinCnf(pin) => GPIO_P0_PIN_CNF + 4 * pin.number(),
            Register::OutSet => GPIO_P0_OUTSET,
            Register::OutClr => GPIO_P0_OUTCLR,
        }
    }
}

/// The store that makes `pin` an output.
pub fn configure_output(pin: Pin) -> (write: RegisterWrite)
    ensures
        write == (RegisterWrite {
            address: Register::PinCnf(pin).spec_address(),
            value: PIN_CNF_OUTPUT,
        }),
{
    RegisterWrite { address: Register::PinCnf(pin).address(), value: PIN_CNF_OUTPUT }
}

/// The store that drives `pin` high.
pub fn drive_high(pin: Pin) -> (write: RegisterWrite)
    ensures
        write == (RegisterWrite { address: GPIO_P0_OUTSET, value: pin.spec_mask() }),
{
    RegisterWrite { address: Register::OutSet.address(), value: pin.mask() }
}

/// The store that drives `pin` low.
pub fn drive_low(pin: Pin) -> (write: RegisterWrite)
    ensures
        write == (RegisterWrite { address: GPIO_P0_OUTCLR, value: pin.spec_mask() }),
{
    RegisterWrite { address: Register::OutClr.address(), value: pin.mask() }
}

/// The stores that prepare one LED of the matrix: row and column become
/// outputs, and the column is driven low, which arms it.
pub fn led_setup(row: Pin, column: Pin) -> (writes: Vec<RegisterWrite>)
    ensures
        writes@ == seq![
            RegisterWrite { address: Register::PinCnf(row).spec_address(), value: PIN_CNF_OUTPUT },
            RegisterWrite {
                address: Register::PinCnf(column).spec_address(),
                value: PIN_CNF_OUTPUT,
            },
            RegisterWrite { address: GPIO_P0_OUTCLR, value: column.spec_mask() },
        ],
{
    let mut writes: Vec<RegisterWrite> = Vec::new();
    writes.push(configure_output(row));
    writes.push(configure_output(column));
    writes.push(drive_low(column));
    proof {
        assert(writes@ =~= seq![
            RegisterWrite { address: Register::PinCnf(row).spec_address(), value: PIN_CNF_OUTPUT },
            RegisterWrite {
                address: Register::PinCnf(column).spec_address(),
                value: PIN_CNF_OUTPUT,
            },
            RegisterWrite { address: GPIO_P0_OUTCLR, value: column.spec_mask() },
        ]);
    }
    writes
}

/// The store that switches the LED on, by driving its row low, or off, by
/// driving its row high.
pub fn led_switch(row: Pin, lit: bool) -> (write: RegisterWrite)
    ensures
        lit ==> write == (RegisterWrite { address: GPIO_P0_OUTCLR, value: row.spec_mask() }),
        !lit ==> write == (RegisterWrite { address: GPIO_P0_OUTSET, value: row.spec_mask() }),
{
    if lit {
        drive_low(row)
    } else {
        drive_high(row)
    }
}

/// No two registers share an address.
pub proof fn lemma_registers_are_distinct(a: Register, b: Register)
    requires
        a matches Register::PinCnf(pin) ==> pin.well_formed(),
        b matches Register::PinCnf(pin) ==> pin.well_formed(),
        a != b,
    ensures
        a.spec_address() != b.spec_address(),
{
}

/// The mask of a pin has the pin's bit set and no other, so one store moves
/// one pin.
pub proof fn lemma_mask_selects_one_pin(pin: Pin, other: u32)
    requires
        pin.well_formed(),
        other < PIN_COUNT,
    ensures
        (pin.spec_mask() >> other) & 1 == (if other == pin.index() {
            1u32
        } else {
            0u32
        }),
{
    let n = pin.index();
    assert(n < 32 && other < 32 ==> ((1u32 << n) >> other) & 1 == (if other == n {
        1u32
    } else {
        0u32
    })) by (bit_vector);
}

} // verus!
