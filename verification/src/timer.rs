//! One-shot timers: countdown channels that fire once and are launched anew
//! for every period.
//!
//! Both channels share one interrupt line and one interrupt-enable register.

use vstd::prelude::*;
use crate::nvic::enable_nvic_interrupt;
use crate::nvic::set_nvic_priority;
use crate::nvic::priority_byte;
use crate::nvic::NVIC_IPR_BASE;
use crate::nvic::NVIC_ISER_BASE;
use crate::register::RegOp;
use crate::register::bit;
use crate::register::bit_mask;
use crate::register::block_irqs;
use crate::register::clear_reg32;
use crate::register::restore_irqs;
use crate::register::set_reg32;
use crate::register::write_reg32;

verus! {

/// Number of timer channels.
pub const TIMER_COUNT: usize = 2;

/// Base address of the timer block.
pub const GPT_BASE: usize = 0x21030000;

/// Priority at which the timer interrupt, and so every timer callback, runs.
pub const GPT_PRIORITY: u8 = 2;

/// Number of the interrupt that both channels share.
pub const GPT_IRQ: u8 = 1;

/// Interrupt status register: the pending bits of the channels; writing a
/// bit clears it.
pub const GPT_ISR: usize = 0x00;

/// Interrupt enable register: one bit per channel.
pub const GPT_IER: usize = 0x04;

/// Control value: clear on start, 1 kHz clock, one shot, enabled.
pub const GPT_CTRL_ONE_SHOT: u32 = 0x9;

/// Control bit: the channel is enabled.
pub const GPT_CTRL_ENABLE: u32 = 0x01;

/// Offset of the control register of channel `gpt`.
pub open spec fn spec_ctrl_reg_offset(gpt: usize) -> usize {
    if gpt == 0 {
        0x10
    } else {
        0x20
    }
}

/// Offset of the initial-count register of channel `gpt`.
pub open spec fn spec_icnt_reg_offset(gpt: usize) -> usize {
    if gpt == 0 {
        0x14
    } else {
        0x24
    }
}

/// Offset of the control register of channel `gpt`.
#[verifier::when_used_as_spec(spec_ctrl_reg_offset)]
pub fn ctrl_reg_offset(gpt: usize) -> (offset: usize)
    requires
        gpt < TIMER_COUNT,
    ensures
        offset == spec_ctrl_reg_offset(gpt),
{
    if gpt == 0 {
        0x10
    } else {
        0x20
    }
}

/// Offset of the initial-count register of channel `gpt`.
#[verifier::when_used_as_spec(spec_icnt_reg_offset)]
pub fn icnt_reg_offset(gpt: usize) -> (offset: usize)
    requires
        gpt < TIMER_COUNT,
    ensures
        offset == spec_icnt_reg_offset(gpt),
{
    if gpt == 0 {
        0x14
    } else {
        0x24
    }
}

/// The callback of each channel, if one was registered. A channel has one
/// callback at a time: launching it again replaces the callback.
pub struct TimerCallbacks<C> {
    /// One slot per channel.
    pub slots: [Option<C>; 2],
}

impl<C> TimerCallbacks<C> {
    /// The slots as a sequence indexed by channel.
    pub open spec fn view(&self) -> Seq<Option<C>> {
        self.slots@
    }

    /// Slots with no callback registered.
    pub fn new() -> (callbacks: TimerCallbacks<C>)
        ensures
            callbacks@ == seq![None::<C>, None::<C>],
    {
        let callbacks = TimerCallbacks { slots: [None, None] };
        callbacks
    }

    /// The callback of channel `gpt`.
    pub fn get(&self, gpt: usize) -> (callback: &Option<C>)
        requires
            gpt < TIMER_COUNT,
        ensures
            *callback == self@[gpt as int],
    {
        &self.slots[gpt]
    }
}

/// The operations that register the timer interrupt: its priority, then its
/// enabling.
pub open spec fn gpt_init_ops() -> Seq<RegOp> {
    seq![
        RegOp::Write8 {
            base_addr: NVIC_IPR_BASE,
            offset: GPT_IRQ as usize,
            byte: priority_byte(GPT_PRIORITY),
        },
        RegOp::SetBits32 {
            base_addr: NVIC_ISER_BASE,
            offset: (4 * (GPT_IRQ / 32)) as usize,
            bits: bit_mask((GPT_IRQ % 32) as nat),
        },
    ]
}

/// Gives the shared timer interrupt its priority and enables it at the
/// interrupt controller, once for all channels. The interrupt of a single
/// channel is enabled when the channel is launched.
pub fn gpt_init(ops: &mut Vec<RegOp>)
    ensures
        final(ops)@ == old(ops)@ + gpt_init_ops(),
{
    set_nvic_priority(ops, GPT_IRQ, GPT_PRIORITY);
    enable_nvic_interrupt(ops, GPT_IRQ);
}

/// The operations that launch channel `gpt` for `period_ms` milliseconds: the
/// channel is stopped if it runs; its interrupt is enabled, in a critical
/// section because the enable bits of all channels share one register and the
/// interrupt handler may be changing another bit of it; the countdown is set;
/// and the channel is started in one-shot mode.
pub open spec fn launch_ops(gpt: usize, period_ms: u32) -> Seq<RegOp> {
    seq![
        RegOp::ClearBits32 {
            base_addr: GPT_BASE,
            offset: spec_ctrl_reg_offset(gpt),
            bits: GPT_CTRL_ENABLE,
        },
        RegOp::RaiseInterruptFloor,
        RegOp::SetBits32 { base_addr: GPT_BASE, offset: GPT_IER, bits: bit_mask(gpt as nat) },
        RegOp::RestoreInterruptFloor,
        RegOp::Write32 { base_addr: GPT_BASE, offset: spec_icnt_reg_offset(gpt), value: period_ms },
        RegOp::Write32 {
            base_addr: GPT_BASE,
            offset: spec_ctrl_reg_offset(gpt),
            value: GPT_CTRL_ONE_SHOT,
        },
    ]
}

/// Launches channel `gpt`: after `period_ms` milliseconds its interrupt fires
/// once and `callback` is due.
pub fn launch_timer_ms<C>(
    callbacks: &mut TimerCallbacks<C>,
    gpt: usize,
    period_ms: u32,
    callback: C,
    ops: &mut Vec<RegOp>,
)
    requires
        gpt < TIMER_COUNT,
    ensures
        final(callbacks)@ == old(callbacks)@.update(gpt as int, Some(callback)),
        final(ops)@ == old(ops)@ + launch_ops(gpt, period_ms),
{
    callbacks.slots[gpt] = Some(callback);

    let mask: u32 = bit(gpt as u8);

    // Stop the channel if it runs.
    clear_reg32(ops, GPT_BASE, ctrl_reg_offset(gpt), GPT_CTRL_ENABLE);

    // The interrupt enable bits of both channels are in the same register.
    block_irqs(ops);
    set_reg32(ops, GPT_BASE, GPT_IER, mask);
    restore_irqs(ops);

    write_reg32(ops, GPT_BASE, icnt_reg_offset(gpt), period_ms);
    write_reg32(ops, GPT_BASE, ctrl_reg_offset(gpt), GPT_CTRL_ONE_SHOT);
}

/// Whether the interrupt status `active_irqs` has the bit of channel `gpt`.
pub open spec fn channel_fired(active_irqs: u32, gpt: usize) -> bool {
    active_irqs & bit_mask(gpt as nat) != 0
}

/// Handles the shared timer interrupt. `active_irqs` is what the interrupt
/// status register held; storing it back clears the bits that were read, in
/// one step. Returns, for each channel, whether its callback is due: its bit
/// was set and a callback is registered. Channels are one-shot, so none is
/// enabled again here.
pub fn gpt_handle_irq1<C>(
    callbacks: &TimerCallbacks<C>,
    active_irqs: u32,
    ops: &mut Vec<RegOp>,
) -> (due: [bool; 2])
    ensures
        final(ops)@ == old(ops)@.push(
            RegOp::Write32 { base_addr: GPT_BASE, offset: GPT_ISR, value: active_irqs },
        ),
        forall|gpt: int|
            0 <= gpt < TIMER_COUNT ==> due@[gpt] == (channel_fired(active_irqs, gpt as usize)
                && callbacks@[gpt] is Some),
{
    write_reg32(ops, GPT_BASE, GPT_ISR, active_irqs);
    let first: bool = (active_irqs & bit(0)) != 0 && callbacks.slots[0].is_some();
    let second: bool = (active_irqs & bit(1)) != 0 && callbacks.slots[1].is_some();
    [first, second]
}

} // verus!
