//! Register access: the operations a driver can ask of memory-mapped hardware.
//!
//! The drivers never touch an address. They append [`RegOp`] values to a list,
//! in the order in which the accesses must happen, and the platform layer
//! performs them as volatile accesses that are neither elided nor reordered.

use vstd::prelude::*;
use vstd::arithmetic::power2::pow2;
use vstd::arithmetic::power2::lemma2_to64;
use vstd::bits::lemma_u32_shl_is_mul;

verus! {

/// One access to the hardware, addressed as the register primitives are: by the
/// base address of a register bank and the offset of a register within it.
#[derive(Clone, Copy, Debug, PartialEq, Eq, Structural)]
pub enum RegOp {
    /// Store one byte.
    Write8 { base_addr: usize, offset: usize, byte: u8 },
    /// Store one 32-bit word.
    Write32 { base_addr: usize, offset: usize, value: u32 },
    /// Read the word, set the given bits, store it back.
    SetBits32 { base_addr: usize, offset: usize, bits: u32 },
    /// Read the word, clear the given bits, store it back.
    ClearBits32 { base_addr: usize, offset: usize, bits: u32 },
    /// Mask every interrupt at or below the low priority floor and remember
    /// the floor that was in force.
    RaiseInterruptFloor,
    /// Put back the floor remembered by the matching `RaiseInterruptFloor`.
    RestoreInterruptFloor,
}

impl RegOp {
    /// What a 32-bit register holds after this operation, given what it held
    /// before. Operations that do not store a word leave it as it was.
    pub open spec fn spec_apply(self, current: u32) -> u32 {
        match self {
            RegOp::Write32 { value, .. } => value,
            RegOp::SetBits32 { bits, .. } => current | bits,
            RegOp::ClearBits32 { bits, .. } => current & !bits,
            _ => current,
        }
    }

    /// Computes the word to store for this operation from the word just read.
    #[verifier::when_used_as_spec(spec_apply)]
    pub fn apply(self, current: u32) -> (next: u32)
        ensures
            next == self.spec_apply(current),
    {
        match self {
            RegOp::Write32 { base_addr: _, offset: _, value } => value,
            RegOp::SetBits32 { base_addr: _, offset: _, bits } => current | bits,
            RegOp::ClearBits32 { base_addr: _, offset: _, bits } => current & !bits,
            _ => current,
        }
    }
}

/// The word in which only bit `index` is set.
pub open spec fn bit_mask(index: nat) -> u32
    recommends
        index < 32,
{
    pow2(index) as u32
}

/// Computes the word in which only bit `index` is set.
pub fn bit(index: u8) -> (mask: u32)
    requires
        index < 32,
    ensures
        mask == bit_mask(index as nat),
{
    let shift: u32 = index as u32;
    proof {
        lemma2_to64();
        vstd::bits::lemma_u32_pow2_no_overflow(index as nat);
        lemma_u32_shl_is_mul(1u32, shift);
    }
    1u32 << shift
}

/// Asks for `value` to be stored in the byte register at `base_addr + offset`.
pub fn write_reg8(ops: &mut Vec<RegOp>, base_addr: usize, offset: usize, value: u8)
    ensures
        final(ops)@ == old(ops)@.push(RegOp::Write8 { base_addr, offset, byte: value }),
{
    ops.push(RegOp::Write8 { base_addr, offset, byte: value });
}

/// Asks for `value` to be stored in the register at `base_addr + offset`.
pub fn write_reg32(ops: &mut Vec<RegOp>, base_addr: usize, offset: usize, value: u32)
    ensures
        final(ops)@ == old(ops)@.push(RegOp::Write32 { base_addr, offset, value }),
{
    ops.push(RegOp::Write32 { base_addr, offset, value });
}

/// Asks for the bits of `clear_bits` to be cleared in the register at
/// `base_addr + offset`, the others kept.
pub fn clear_reg32(ops: &mut Vec<RegOp>, base_addr: usize, offset: usize, clear_bits: u32)
    ensures
        final(ops)@ == old(ops)@.push(RegOp::ClearBits32 { base_addr, offset, bits: clear_bits }),
{
    ops.push(RegOp::ClearBits32 { base_addr, offset, bits: clear_bits });
}

/// Asks for the bits of `set_bits` to be set in the register at
/// `base_addr + offset`, the others kept.
pub fn set_reg32(ops: &mut Vec<RegOp>, base_addr: usize, offset: usize, set_bits: u32)
    ensures
        final(ops)@ == old(ops)@.push(RegOp::SetBits32 { base_addr, offset, bits: set_bits }),
{
    ops.push(RegOp::SetBits32 { base_addr, offset, bits: set_bits });
}

/// Opens a critical section: asks for the interrupt floor to be raised.
pub fn block_irqs(ops: &mut Vec<RegOp>)
    ensures
        final(ops)@ == old(ops)@.push(RegOp::RaiseInterruptFloor),
{
    ops.push(RegOp::RaiseInterruptFloor);
}

/// Closes the critical section opened last: asks for the floor it found to be
/// put back.
pub fn restore_irqs(ops: &mut Vec<RegOp>)
    ensures
        final(ops)@ == old(ops)@.push(RegOp::RestoreInterruptFloor),
{
    ops.push(RegOp::RestoreInterruptFloor);
}

} // verus!
