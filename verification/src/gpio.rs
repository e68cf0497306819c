//! Pin and block abstraction: which register block owns a pin, and which bit
//! of the block's registers stands for it.

use vstd::prelude::*;
use crate::error::Error;
use crate::register::RegOp;
use crate::register::bit;
use crate::register::bit_mask;
use crate::register::write_reg32;

verus! {

/// Number of pins in the pin space; pin ids run from 0 to `GPIO_COUNT - 1`.
pub const GPIO_COUNT: usize = 76;

/// A block's registers are 32 bits wide, one bit per pin: only the first 32
/// pins of a block have a bit.
pub const BLOCK_MAX_PINS: u8 = 32;

/// Offset of a register within a block's bank.
pub type GpioReg = u16;

/// Output data, set register.
pub const GPIO_REG_DOUT_SET: GpioReg = 0x14;
/// Output data, reset register.
pub const GPIO_REG_DOUT_RESET: GpioReg = 0x18;
/// Output enable register.
pub const GPIO_REG_OE: GpioReg = 0x20;
/// Output enable, set register.
pub const GPIO_REG_OE_SET: GpioReg = 0x24;
/// Output enable, reset register.
pub const GPIO_REG_OE_RESET: GpioReg = 0x28;
/// Input edge select register.
pub const GPIO_REG_IES: GpioReg = 0x60;
/// Input edge select, set register.
pub const GPIO_REG_IES_SET: GpioReg = 0x64;
/// Input edge select, reset register.
pub const GPIO_REG_IES_RESET: GpioReg = 0x68;

/// How the registers of a block are laid out. The layouts differ in where the
/// data-in register lives.
#[derive(Clone, Copy, Debug, PartialEq, Eq, Structural)]
pub enum GpioBlockType {
    /// Pins multiplexed with the ADC.
    Adc,
    /// Pins that also support PWM.
    Pwm,
    /// A plain block.
    Grp,
    /// Pins multiplexed with I2C / SPI / UART.
    Isu,
    /// Pins multiplexed with I2S.
    I2s,
}

impl GpioBlockType {
    /// Offset of the data-in register in a block of this layout.
    pub open spec fn spec_din_reg(self) -> GpioReg {
        match self {
            GpioBlockType::Adc => 0x04,
            GpioBlockType::Pwm => 0x04,
            GpioBlockType::Grp => 0x04,
            GpioBlockType::Isu => 0x0C,
            GpioBlockType::I2s => 0x00,
        }
    }

    /// Offset of the data-in register in a block of this layout.
    #[verifier::when_used_as_spec(spec_din_reg)]
    pub fn din_reg(self) -> (offset: GpioReg)
        ensures
            offset == self.spec_din_reg(),
    {
        match self {
            GpioBlockType::Adc => 0x04,
            GpioBlockType::Pwm => 0x04,
            GpioBlockType::Grp => 0x04,
            GpioBlockType::Isu => 0x0C,
            GpioBlockType::I2s => 0x00,
        }
    }
}

/// A register block and the contiguous pins
/// `first_pin .. first_pin + pin_count` that it owns.
#[derive(Clone, Copy, Debug, PartialEq, Eq, Structural)]
pub struct GpioBlock {
    /// The start of the block's register bank.
    pub base_addr: usize,
    /// How the registers are laid out.
    pub block_type: GpioBlockType,
    /// First pin of the block.
    pub first_pin: u8,
    /// Number of pins of the block.
    pub pin_count: u8,
}

impl GpioBlock {
    /// Whether `pin` lies in the block's range.
    pub open spec fn owns(self, pin: int) -> bool {
        self.first_pin <= pin < self.first_pin + self.pin_count
    }

    /// Whether the whole range lies inside the pin space.
    pub open spec fn in_pin_space(self) -> bool {
        self.first_pin + self.pin_count <= GPIO_COUNT
    }

    /// Whether the two ranges share a pin.
    pub open spec fn overlaps(self, other: GpioBlock) -> bool {
        exists|pin: int| #[trigger] self.owns(pin) && other.owns(pin)
    }
}

/// Whether no pin of `block` has an owner in `pins`.
pub open spec fn range_free(pins: Seq<Option<GpioBlock>>, block: GpioBlock) -> bool {
    forall|pin: int| 0 <= pin < pins.len() && #[trigger] block.owns(pin) ==> pins[pin] is None
}

/// `pins` with every pin of `block` owned by `block`.
pub open spec fn with_block(pins: Seq<Option<GpioBlock>>, block: GpioBlock) -> Seq<
    Option<GpioBlock>,
> {
    Seq::new(pins.len(), |pin: int| if block.owns(pin) { Some(block) } else { pins[pin] })
}

/// Registration as a function: the verdict on `block` and the table afterwards.
/// A refused block leaves the table as it was.
pub open spec fn register_block(pins: Seq<Option<GpioBlock>>, block: GpioBlock) -> (
    Result<(), Error>,
    Seq<Option<GpioBlock>>,
) {
    if !block.in_pin_space() {
        (Err(Error::OutOfRange), pins)
    } else if !range_free(pins, block) {
        (Err(Error::AlreadyRegistered), pins)
    } else {
        (Ok(()), with_block(pins, block))
    }
}

/// The register word that stands for the pin at `offset` within its block:
/// bit `offset` alone for the first 32 pins of a block, and no bit at all for
/// a pin beyond them, which the 32-bit registers cannot address.
pub open spec fn pin_mask(offset: int) -> u32 {
    if 0 <= offset < BLOCK_MAX_PINS {
        bit_mask(offset as nat)
    } else {
        0
    }
}

/// What a pin lookup yields: the owning block and the pin's word in the
/// block's registers, `pin_mask(pin - first_pin)`.
pub open spec fn lookup(pins: Seq<Option<GpioBlock>>, pin: u8) -> Option<(GpioBlock, u32)> {
    if pin < pins.len() && pins[pin as int] is Some {
        let block = pins[pin as int]->Some_0;
        Some((block, pin_mask(pin - block.first_pin)))
    } else {
        None
    }
}

/// The pin table: for each pin id its owning block, if it has one. Slots are
/// filled at start-up by `mt3620_gpio_add_block` and only read afterwards.
pub struct PinTable {
    pins: [Option<GpioBlock>; 76],
}

impl PinTable {
    /// The table as a sequence indexed by pin id.
    pub closed spec fn view(&self) -> Seq<Option<GpioBlock>> {
        self.pins@
    }

    /// Every owned pin lies in its owner's range.
    #[verifier::type_invariant]
    spec fn consistent(&self) -> bool {
        forall|pin: int|
            0 <= pin < GPIO_COUNT && (#[trigger] self.pins@[pin]) is Some ==> (
            self.pins@[pin]->Some_0).owns(pin)
    }

    /// A table in which no pin has an owner.
    pub fn new() -> (table: PinTable)
        ensures
            table@.len() == GPIO_COUNT,
            forall|pin: int| 0 <= pin < GPIO_COUNT ==> table@[pin] is None,
    {
        PinTable { pins: [None; 76] }
    }

    /// The block that owns `pin`, if any.
    pub fn owner(&self, pin: u8) -> (block: Option<GpioBlock>)
        ensures
            self@.len() == GPIO_COUNT,
            block == if pin < GPIO_COUNT { self@[pin as int] } else { None },
    {
        if pin as usize >= GPIO_COUNT {
            None
        } else {
            self.pins[pin as usize]
        }
    }
}

/// Looks a pin up: its owning block and its word in the block's registers.
/// `None` for a pin without an owner and for an id outside the pin space. A
/// pin beyond the first 32 of its block is found with a word of zero: stores
/// of it reach the registers and move no pin.
pub fn pin_id_to_block(table: &PinTable, gpio_id: u8) -> (found: Option<(GpioBlock, u32)>)
    ensures
        found == lookup(table@, gpio_id),
{
    if gpio_id as usize >= GPIO_COUNT {
        return None;
    }
    proof {
        use_type_invariant(table);
    }
    match table.pins[gpio_id as usize] {
        None => None,
        Some(block) => {
            let idx: u8 = gpio_id - block.first_pin;
            let mask: u32 = if idx < BLOCK_MAX_PINS {
                bit(idx)
            } else {
                0
            };
            Some((block, mask))
        },
    }
}

/// Asks for `value` to be stored in register `reg` of `block`.
pub fn gpio_write_reg32(ops: &mut Vec<RegOp>, block: GpioBlock, reg: GpioReg, value: u32)
    ensures
        final(ops)@ == old(ops)@.push(
            RegOp::Write32 { base_addr: block.base_addr, offset: reg as usize, value },
        ),
{
    write_reg32(ops, block.base_addr, reg as usize, value);
}

/// The three stores that give a pin its direction: output enable and input
/// edge select are both cleared first, then exactly one of them is set, so
/// the pin never has both.
pub open spec fn direction_writes(block: GpioBlock, mask: u32, as_input: bool) -> Seq<RegOp> {
    seq![
        RegOp::Write32 {
            base_addr: block.base_addr,
            offset: GPIO_REG_OE_RESET as usize,
            value: mask,
        },
        RegOp::Write32 {
            base_addr: block.base_addr,
            offset: GPIO_REG_IES_RESET as usize,
            value: mask,
        },
        RegOp::Write32 {
            base_addr: block.base_addr,
            offset: if as_input {
                GPIO_REG_IES_SET as usize
            } else {
                GPIO_REG_OE_SET as usize
            },
            value: mask,
        },
    ]
}

/// The store that drives a pin: to the set register for high, to the reset
/// register for low. No register is read, so nothing races with an interrupt.
pub open spec fn level_write(block: GpioBlock, mask: u32, high: bool) -> RegOp {
    RegOp::Write32 {
        base_addr: block.base_addr,
        offset: if high {
            GPIO_REG_DOUT_SET as usize
        } else {
            GPIO_REG_DOUT_RESET as usize
        },
        value: mask,
    }
}

/// Makes `pin` an input or an output. Fails with `UnknownPin`, asking for
/// nothing, when the pin has no owning block.
pub fn configure_pin(table: &PinTable, pin: u8, as_input: bool, ops: &mut Vec<RegOp>) -> (result:
    Result<(), Error>)
    ensures
        match lookup(table@, pin) {
            None => result == Err::<(), Error>(Error::UnknownPin) && final(ops)@ == old(ops)@,
            Some((block, mask)) => result is Ok && final(ops)@ == old(ops)@ + direction_writes(
                block,
                mask,
                as_input,
            ),
        },
{
    match pin_id_to_block(table, pin) {
        None => Err(Error::UnknownPin),
        Some((block, pin_mask)) => {
            gpio_write_reg32(ops, block, GPIO_REG_OE_RESET, pin_mask);
            gpio_write_reg32(ops, block, GPIO_REG_IES_RESET, pin_mask);
            if as_input {
                gpio_write_reg32(ops, block, GPIO_REG_IES_SET, pin_mask);
            } else {
                gpio_write_reg32(ops, block, GPIO_REG_OE_SET, pin_mask);
            }
            Ok(())
        },
    }
}

/// Makes `pin` an output.
pub fn mt3620_gpio_configure_pin_for_output(table: &PinTable, pin: u8, ops: &mut Vec<RegOp>) -> (result:
    Result<(), Error>)
    ensures
        match lookup(table@, pin) {
            None => result == Err::<(), Error>(Error::UnknownPin) && final(ops)@ == old(ops)@,
            Some((block, mask)) => result is Ok && final(ops)@ == old(ops)@ + direction_writes(
                block,
                mask,
                false,
            ),
        },
{
    configure_pin(table, pin, false, ops)
}

/// Makes `pin` an input.
pub fn mt3620_gpio_configure_pin_for_input(table: &PinTable, pin: u8, ops: &mut Vec<RegOp>) -> (result:
    Result<(), Error>)
    ensures
        match lookup(table@, pin) {
            None => result == Err::<(), Error>(Error::UnknownPin) && final(ops)@ == old(ops)@,
            Some((block, mask)) => result is Ok && final(ops)@ == old(ops)@ + direction_writes(
                block,
                mask,
                true,
            ),
        },
{
    configure_pin(table, pin, true, ops)
}

/// Drives `pin` high (`state` true) or low. Fails with `UnknownPin`, asking
/// for nothing, when the pin has no owning block.
pub fn mt3620_gpio_write(table: &PinTable, pin: u8, state: bool, ops: &mut Vec<RegOp>) -> (result:
    Result<(), Error>)
    ensures
        match lookup(table@, pin) {
            None => result == Err::<(), Error>(Error::UnknownPin) && final(ops)@ == old(ops)@,
            Some((block, mask)) => result is Ok && final(ops)@ == old(ops)@.push(
                level_write(block, mask, state),
            ),
        },
{
    match pin_id_to_block(table, pin) {
        None => Err(Error::UnknownPin),
        Some((block, pin_mask)) => {
            let reg = if state {
                GPIO_REG_DOUT_SET
            } else {
                GPIO_REG_DOUT_RESET
            };
            gpio_write_reg32(ops, block, reg, pin_mask);
            Ok(())
        },
    }
}

/// Registers `block` as the owner of its pins. Fails with `OutOfRange` when
/// the range leaves the pin space and with `AlreadyRegistered` when one of
/// its pins has an owner; a refused block changes nothing.
pub fn mt3620_gpio_add_block(table: &mut PinTable, block: GpioBlock) -> (result: Result<(), Error>)
    ensures
        final(table)@.len() == GPIO_COUNT,
        (result, final(table)@) == register_block(old(table)@, block),
{
    let low: usize = block.first_pin as usize;
    let end: usize = low + block.pin_count as usize;
    if end > GPIO_COUNT {
        return Err(Error::OutOfRange);
    }
    let mut pin: usize = low;
    while pin < end
        invariant
            low <= pin <= end <= GPIO_COUNT,
            low == block.first_pin,
            end == block.first_pin + block.pin_count,
            *table == *old(table),
            forall|p: int| low <= p < pin ==> table.pins@[p] is None,
        decreases end - pin,
    {
        if table.pins[pin].is_some() {
            assert(block.owns(pin as int));
            return Err(Error::AlreadyRegistered);
        }
        pin = pin + 1;
    }
    pin = low;
    while pin < end
        invariant
            low <= pin <= end <= GPIO_COUNT,
            low == block.first_pin,
            end == block.first_pin + block.pin_count,
            forall|p: int|
                0 <= p < GPIO_COUNT ==> table.pins@[p] == if low <= p < pin {
                    Some(block)
                } else {
                    old(table).pins@[p]
                },
        decreases end - pin,
    {
        proof {
            use_type_invariant(&*table);
        }
        table.pins[pin] = Some(block);
        pin = pin + 1;
    }
    Ok(())
}

/// A block registers once: on a table where its range is free it is
/// accepted, and on the table that results every block of the pin space that
/// shares a pin with it is refused with `AlreadyRegistered`, the table
/// staying as it is.
pub proof fn lemma_block_registers_once(
    pins: Seq<Option<GpioBlock>>,
    block: GpioBlock,
    later: GpioBlock,
)
    requires
        pins.len() == GPIO_COUNT,
        block.in_pin_space(),
        range_free(pins, block),
        later.in_pin_space(),
        block.overlaps(later),
    ensures
        register_block(pins, block) == (Ok::<(), Error>(()), with_block(pins, block)),
        register_block(with_block(pins, block), later) == (
            Err::<(), Error>(Error::AlreadyRegistered),
            with_block(pins, block),
        ),
{
    let shared = choose|pin: int| #[trigger] block.owns(pin) && later.owns(pin);
    assert(with_block(pins, block)[shared] == Some(block));
}

} // verus!
