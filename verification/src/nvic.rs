//! Interrupt controller management: per-interrupt priority and enabling.

use vstd::prelude::*;
use crate::register::RegOp;
use crate::register::bit;
use crate::register::bit_mask;
use crate::register::set_reg32;
use crate::register::write_reg8;

verus! {

/// Base address of the set-enable register bank of the interrupt controller.
pub const NVIC_ISER_BASE: usize = 0xE000E100;

/// Base address of the priority-byte array of the interrupt controller.
pub const NVIC_IPR_BASE: usize = 0xE000E400;

/// The controller implements this many priority bits, the top ones of each
/// priority byte.
pub const IRQ_PRIORITY_BITS: u8 = 3;

/// The priority byte for a level: the level in the top three bits, the five
/// bits below them zero. Only the low three bits of the level count.
pub open spec fn priority_byte(level: u8) -> u8 {
    ((level % 8) * 32) as u8
}

/// Gives interrupt `irq_num` the priority `pri`. What was set before is
/// overwritten.
pub fn set_nvic_priority(ops: &mut Vec<RegOp>, irq_num: u8, pri: u8)
    ensures
        final(ops)@ == old(ops)@.push(
            RegOp::Write8 {
                base_addr: NVIC_IPR_BASE,
                offset: irq_num as usize,
                byte: priority_byte(pri),
            },
        ),
{
    let value: u8 = pri << (8 - IRQ_PRIORITY_BITS);
    assert(pri << 5u8 == ((pri % 8u8) * 32u8) as u8) by (bit_vector);
    write_reg8(ops, NVIC_IPR_BASE, irq_num as usize, value);
}

/// Enables interrupt `irq_num` at the controller: sets bit `irq_num % 32` of
/// the enable register with index `irq_num / 32`.
pub fn enable_nvic_interrupt(ops: &mut Vec<RegOp>, irq_num: u8)
    ensures
        final(ops)@ == old(ops)@.push(
            RegOp::SetBits32 {
                base_addr: NVIC_ISER_BASE,
                offset: (4 * (irq_num / 32)) as usize,
                bits: bit_mask((irq_num % 32) as nat),
            },
        ),
{
    let offset: usize = 4 * (irq_num as usize / 32);
    let mask: u32 = bit(irq_num % 32);
    set_reg32(ops, NVIC_ISER_BASE, offset, mask);
}

} // verus!
