//! Serial driver: per-port software transmit and receive rings, filled and
//! drained by the port's interrupt handler.
//!
//! Each ring is a byte array with two free-running 16-bit counters, of which
//! only the low bits index the array. The bytes in a ring are those between
//! the dequeued and the enqueued count; equal counts mean an empty ring, never
//! a full one, because the counters and not the indices are compared.

use vstd::prelude::*;
use crate::nvic::enable_nvic_interrupt;
use crate::nvic::set_nvic_priority;
use crate::nvic::priority_byte;
use crate::nvic::NVIC_IPR_BASE;
use crate::nvic::NVIC_ISER_BASE;
use crate::register::RegOp;
use crate::register::bit_mask;
use crate::register::block_irqs;
use crate::register::clear_reg32;
use crate::register::restore_irqs;
use crate::register::set_reg32;
use crate::register::write_reg32;

verus! {

/// The serial ports of the chip.
#[derive(Clone, Copy, Debug, PartialEq, Eq, Structural)]
pub enum UartId {
    UartCM4Debug,
    UartIsu0,
    UartIsu1,
    UartIsu2,
    UartIsu3,
    UartIsu4,
}

/// Priority at which every serial interrupt runs.
pub const UART_PRIORITY: u8 = 2;

/// Depth of the hardware transmit FIFO.
pub const TX_FIFO_DEPTH: u32 = 16;

/// Capacity of the software transmit ring.
pub const TX_BUFFER_SIZE: usize = 256;

/// Capacity of the software receive ring.
pub const RX_BUFFER_SIZE: usize = 32;

/// Receive buffer when read, transmit holding register when written.
pub const UART_RBR_THR: usize = 0x00;
/// Interrupt enable register.
pub const UART_IER: usize = 0x04;
/// Interrupt identification register when read, FIFO control when written.
pub const UART_IIR_FCR: usize = 0x08;
/// Line control register.
pub const UART_LCR: usize = 0x0C;
/// Modem control register.
pub const UART_MCR: usize = 0x10;
/// Line status register.
pub const UART_LSR: usize = 0x14;
/// Number of bytes in the hardware transmit FIFO.
pub const UART_TX_OFFSET: usize = 0x6C;

/// Interrupt enable bit: receive data available.
pub const UART_INT_RX_BUFFER_FULL: u32 = 0x01;
/// Interrupt enable bit: transmit holding register empty.
pub const UART_INT_TX_BUFFER_EMPTY: u32 = 0x02;
/// Modem control bit: request to send.
pub const UART_MCR_RTS: u32 = 0x02;
/// Line status bit: a received byte is ready.
pub const UART_LSR_DATA_READY: u32 = 0x01;
/// Line status bit: the transmitter is idle, FIFO and shift register empty.
pub const UART_LSR_TX_IDLE: u32 = 0x40;

impl UartId {
    /// Base address of the port's register bank.
    pub open spec fn spec_base_addr(self) -> usize {
        match self {
            UartId::UartCM4Debug => 0x21040000,
            UartId::UartIsu0 => 0x38070500,
            UartId::UartIsu1 => 0x38080500,
            UartId::UartIsu2 => 0x38090500,
            UartId::UartIsu3 => 0x380a0500,
            UartId::UartIsu4 => 0x380b0500,
        }
    }

    /// Number of the port's interrupt at the interrupt controller.
    pub open spec fn spec_nvic_irq(self) -> u8 {
        match self {
            UartId::UartCM4Debug => 4,
            UartId::UartIsu0 => 47,
            UartId::UartIsu1 => 51,
            UartId::UartIsu2 => 55,
            UartId::UartIsu3 => 59,
            UartId::UartIsu4 => 63,
        }
    }

    /// Base address of the port's register bank.
    #[verifier::when_used_as_spec(spec_base_addr)]
    pub fn base_addr(self) -> (base: usize)
        ensures
            base == self.spec_base_addr(),
    {
        match self {
            UartId::UartCM4Debug => 0x21040000,
            UartId::UartIsu0 => 0x38070500,
            UartId::UartIsu1 => 0x38080500,
            UartId::UartIsu2 => 0x38090500,
            UartId::UartIsu3 => 0x380a0500,
            UartId::UartIsu4 => 0x380b0500,
        }
    }

    /// Number of the port's interrupt at the interrupt controller.
    #[verifier::when_used_as_spec(spec_nvic_irq)]
    pub fn nvic_irq(self) -> (irq: u8)
        ensures
            irq == self.spec_nvic_irq(),
    {
        match self {
            UartId::UartCM4Debug => 4,
            UartId::UartIsu0 => 47,
            UartId::UartIsu1 => 51,
            UartId::UartIsu2 => 55,
            UartId::UartIsu3 => 59,
            UartId::UartIsu4 => 63,
        }
    }

    /// The port's place in the table of ports.
    pub fn index(self) -> (index: usize)
        ensures
            index == match self {
                UartId::UartCM4Debug => 0usize,
                UartId::UartIsu0 => 1usize,
                UartId::UartIsu1 => 2usize,
                UartId::UartIsu2 => 3usize,
                UartId::UartIsu3 => 4usize,
                UartId::UartIsu4 => 5usize,
            },
    {
        match self {
            UartId::UartCM4Debug => 0,
            UartId::UartIsu0 => 1,
            UartId::UartIsu1 => 2,
            UartId::UartIsu2 => 3,
            UartId::UartIsu3 => 4,
            UartId::UartIsu4 => 5,
        }
    }
}

/// The number of bytes between two free-running 16-bit counters: their
/// difference modulo the counter width.
pub open spec fn counter_distance(enqueued: u16, dequeued: u16) -> int {
    if enqueued >= dequeued {
        enqueued - dequeued
    } else {
        enqueued - dequeued + 0x1_0000
    }
}

/// A free-running 16-bit counter advanced by `count`, wrapping.
pub open spec fn counter_add(counter: u16, count: int) -> u16 {
    ((counter + count) % 0x1_0000) as u16
}

/// The bytes that a ring of `capacity` bytes holds between its two counters,
/// oldest first: byte `i` lies at index `(dequeued + i) mod capacity`.
pub open spec fn ring_contents(buffer: Seq<u8>, capacity: int, enqueued: u16, dequeued: u16) -> Seq<
    u8,
> {
    Seq::new(
        counter_distance(enqueued, dequeued) as nat,
        |i: int| buffer[(dequeued + i) % capacity],
    )
}

/// The index in the transmit ring array at which the byte with the count
/// `enqueued + i` lies.
pub open spec fn tx_slot(enqueued: u16, i: int) -> int {
    (enqueued + i) % (TX_BUFFER_SIZE as int)
}

/// How many bytes behind the count `enqueued` the index `index` of the
/// transmit ring array lies.
pub open spec fn tx_offset(enqueued: u16, index: int) -> int {
    (index - enqueued) % (TX_BUFFER_SIZE as int)
}

/// The array of a ring of `capacity` bytes after `bytes` were stored from the
/// count `enqueued` on: byte `i` lies at index `(enqueued + i) mod capacity`,
/// and every other byte of the array is kept.
pub open spec fn ring_store(buffer: Seq<u8>, capacity: int, enqueued: u16, bytes: Seq<u8>) -> Seq<
    u8,
> {
    Seq::new(
        buffer.len(),
        |index: int|
            if (index - enqueued) % capacity < bytes.len() {
                bytes[(index - enqueued) % capacity]
            } else {
                buffer[index]
            },
    )
}

/// The smaller of two numbers.
pub open spec fn min(a: int, b: int) -> int {
    if a <= b {
        a
    } else {
        b
    }
}

/// The three operations of the critical section in which new bytes are
/// counted: the floor is raised, the transmit interrupt is switched on, the
/// floor is put back. The new count is stored between the first and the
/// second, so that the interrupt handler cannot run between the moment the
/// bytes are counted and the moment the interrupt is enabled, drain the ring,
/// switch the interrupt off and so leave it enabled for nothing.
pub open spec fn enable_tx_interrupt(base_addr: usize) -> Seq<RegOp> {
    seq![
        RegOp::RaiseInterruptFloor,
        RegOp::SetBits32 { base_addr, offset: UART_IER, bits: UART_INT_TX_BUFFER_EMPTY },
        RegOp::RestoreInterruptFloor,
    ]
}

/// The whole state of a port: where its registers are, the two ring arrays
/// with their counters, the count that waits to be committed, and the
/// callbacks.
pub struct UartView<C> {
    /// Base address of the port's register bank.
    pub base_addr: usize,
    /// Number of the port's interrupt.
    pub nvic_irq: u8,
    /// The array of the transmit ring.
    pub tx_buffer: Seq<u8>,
    /// Count of the bytes ever accepted for transmission.
    pub tx_enqueued_bytes: u16,
    /// Count of the bytes ever handed to the hardware.
    pub tx_dequeued_bytes: u16,
    /// The enqueued count that a write has prepared and that waits to be
    /// stored inside the critical section.
    pub tx_commit: Option<u16>,
    /// The array of the receive ring.
    pub rx_buffer: Seq<u8>,
    /// Count of the bytes ever received from the hardware.
    pub rx_enqueued_bytes: u16,
    /// Count of the bytes ever taken by the caller.
    pub rx_dequeued_bytes: u16,
    /// Called when received bytes are waiting.
    pub rx_callback: Option<C>,
    /// Called when everything was sent and the line is idle.
    pub tx_empty_callback: Option<C>,
}

impl<C> UartView<C> {
    /// Bytes accepted for transmission and not yet handed to the hardware.
    pub open spec fn tx(self) -> Seq<u8> {
        ring_contents(
            self.tx_buffer,
            TX_BUFFER_SIZE as int,
            self.tx_enqueued_bytes,
            self.tx_dequeued_bytes,
        )
    }

    /// Bytes received from the hardware and not yet taken by the caller.
    pub open spec fn rx(self) -> Seq<u8> {
        ring_contents(
            self.rx_buffer,
            RX_BUFFER_SIZE as int,
            self.rx_enqueued_bytes,
            self.rx_dequeued_bytes,
        )
    }

    /// Room in the transmit ring.
    pub open spec fn tx_free(self) -> int {
        TX_BUFFER_SIZE - counter_distance(self.tx_enqueued_bytes, self.tx_dequeued_bytes)
    }

    /// What every port satisfies at all times: the difference of the
    /// counters of a ring, modulo the counter width, is never negative and
    /// never above the capacity of the ring, and a count that waits to be
    /// committed lies within the room that the transmit ring has.
    pub open spec fn wf(self) -> bool {
        &&& self.tx_buffer.len() == TX_BUFFER_SIZE
        &&& self.rx_buffer.len() == RX_BUFFER_SIZE
        &&& 0 <= counter_distance(self.tx_enqueued_bytes, self.tx_dequeued_bytes) <= TX_BUFFER_SIZE
        &&& 0 <= counter_distance(self.rx_enqueued_bytes, self.rx_dequeued_bytes) <= RX_BUFFER_SIZE
        &&& self.tx_commit matches Some(count) ==> counter_distance(count, self.tx_enqueued_bytes)
            <= self.tx_free()
    }

    /// How many bytes of a write of `len` bytes are accepted: as many as fit
    /// into the room of the transmit ring, and none while an earlier write
    /// waits to be committed.
    pub open spec fn accepted(self, len: int) -> int {
        if self.tx_commit is Some {
            0
        } else {
            min(len, self.tx_free())
        }
    }

    /// The port after a write of `data` was prepared. With a full ring, or
    /// while an earlier write waits to be committed, nothing changes.
    /// Otherwise the accepted bytes are stored behind the enqueued count, which
    /// itself stays: the new count waits to be committed.
    pub open spec fn staged(self, data: Seq<u8>) -> UartView<C> {
        if self.tx_commit is Some || self.tx_free() == 0 {
            self
        } else {
            let count = self.accepted(data.len() as int);
            UartView {
                tx_buffer: ring_store(
                    self.tx_buffer,
                    TX_BUFFER_SIZE as int,
                    self.tx_enqueued_bytes,
                    data.take(count),
                ),
                tx_commit: Some(counter_add(self.tx_enqueued_bytes, count)),
                ..self
            }
        }
    }

    /// What preparing a write asks of the hardware: the floor is raised,
    /// unless nothing changes.
    pub open spec fn stage_ops(self) -> Seq<RegOp> {
        if self.tx_commit is Some || self.tx_free() == 0 {
            Seq::empty()
        } else {
            seq![RegOp::RaiseInterruptFloor]
        }
    }

    /// The port after the count that waits was stored: it is the enqueued
    /// count, and nothing waits any more.
    pub open spec fn committed(self) -> UartView<C> {
        match self.tx_commit {
            Some(count) => UartView { tx_enqueued_bytes: count, tx_commit: None, ..self },
            None => self,
        }
    }

    /// What committing asks of the hardware: the transmit interrupt is
    /// switched on and the floor is put back, if a count waited.
    pub open spec fn commit_ops(self) -> Seq<RegOp> {
        if self.tx_commit is Some {
            seq![
                RegOp::SetBits32 {
                    base_addr: self.base_addr,
                    offset: UART_IER,
                    bits: UART_INT_TX_BUFFER_EMPTY,
                },
                RegOp::RestoreInterruptFloor,
            ]
        } else {
            Seq::empty()
        }
    }
}

/// The state of one serial port. There is one per physical port, created at
/// start-up and changed only by the functions of this module.
pub struct UartInfo<C> {
    base_addr: usize,
    nvic_irq: u8,
    tx_buffer: [u8; 256],
    tx_enqueued_bytes: u16,
    tx_dequeued_bytes: u16,
    tx_commit: Option<u16>,
    rx_callback: Option<C>,
    tx_empty_callback: Option<C>,
    rx_buffer: [u8; 32],
    rx_enqueued_bytes: u16,
    rx_dequeued_bytes: u16,
}

impl<C> View for UartInfo<C> {
    type V = UartView<C>;

    closed spec fn view(&self) -> UartView<C> {
        UartView {
            base_addr: self.base_addr,
            nvic_irq: self.nvic_irq,
            tx_buffer: self.tx_buffer@,
            tx_enqueued_bytes: self.tx_enqueued_bytes,
            tx_dequeued_bytes: self.tx_dequeued_bytes,
            tx_commit: self.tx_commit,
            rx_buffer: self.rx_buffer@,
            rx_enqueued_bytes: self.rx_enqueued_bytes,
            rx_dequeued_bytes: self.rx_dequeued_bytes,
            rx_callback: self.rx_callback,
            tx_empty_callback: self.tx_empty_callback,
        }
    }
}

impl<C> UartInfo<C> {
    /// Every port is well formed at all times.
    #[verifier::type_invariant]
    spec fn well_formed(&self) -> bool {
        self@.wf()
    }

    /// The state of port `id` at start-up: zeroed rings with all counters at
    /// zero, nothing to commit, no callbacks.
    pub fn new(id: UartId) -> (unit: UartInfo<C>)
        ensures
            unit@ == (UartView::<C> {
                base_addr: id.spec_base_addr(),
                nvic_irq: id.spec_nvic_irq(),
                tx_buffer: Seq::new(TX_BUFFER_SIZE as nat, |i: int| 0u8),
                tx_enqueued_bytes: 0,
                tx_dequeued_bytes: 0,
                tx_commit: None,
                rx_buffer: Seq::new(RX_BUFFER_SIZE as nat, |i: int| 0u8),
                rx_enqueued_bytes: 0,
                rx_dequeued_bytes: 0,
                rx_callback: None,
                tx_empty_callback: None,
            }),
            unit@.wf(),
            unit@.tx() == Seq::<u8>::empty(),
            unit@.rx() == Seq::<u8>::empty(),
    {
        let unit = UartInfo {
            base_addr: id.base_addr(),
            nvic_irq: id.nvic_irq(),
            tx_buffer: [0; 256],
            tx_enqueued_bytes: 0,
            tx_dequeued_bytes: 0,
            tx_commit: None,
            rx_callback: None,
            tx_empty_callback: None,
            rx_buffer: [0; 32],
            rx_enqueued_bytes: 0,
            rx_dequeued_bytes: 0,
        };
        assert(unit@.tx_buffer =~= Seq::new(TX_BUFFER_SIZE as nat, |i: int| 0u8));
        assert(unit@.rx_buffer =~= Seq::new(RX_BUFFER_SIZE as nat, |i: int| 0u8));
        assert(unit@.tx() =~= Seq::<u8>::empty());
        assert(unit@.rx() =~= Seq::<u8>::empty());
        unit
    }

    /// Base address of the port's register bank.
    pub fn base_addr(&self) -> (base: usize)
        ensures
            base == self@.base_addr,
    {
        self.base_addr
    }

    /// Number of the port's interrupt.
    pub fn nvic_irq(&self) -> (irq: u8)
        ensures
            irq == self@.nvic_irq,
    {
        self.nvic_irq
    }

    /// The callback to call when received bytes are waiting.
    pub fn rx_callback(&self) -> (callback: &Option<C>)
        ensures
            *callback == self@.rx_callback,
    {
        &self.rx_callback
    }

    /// The callback to call when everything was sent and the line is idle.
    pub fn tx_empty_callback(&self) -> (callback: &Option<C>)
        ensures
            *callback == self@.tx_empty_callback,
    {
        &self.tx_empty_callback
    }

    /// The enqueued and the dequeued count of the transmit ring.
    pub fn tx_counters(&self) -> (counters: (u16, u16))
        ensures
            counters == (self@.tx_enqueued_bytes, self@.tx_dequeued_bytes),
    {
        (self.tx_enqueued_bytes, self.tx_dequeued_bytes)
    }

    /// The enqueued and the dequeued count of the receive ring.
    pub fn rx_counters(&self) -> (counters: (u16, u16))
        ensures
            counters == (self@.rx_enqueued_bytes, self@.rx_dequeued_bytes),
    {
        (self.rx_enqueued_bytes, self.rx_dequeued_bytes)
    }

    /// The enqueued count that waits to be committed, if one does.
    pub fn tx_commit(&self) -> (count: Option<u16>)
        ensures
            count == self@.tx_commit,
    {
        self.tx_commit
    }

    /// Number of bytes waiting in the transmit ring. In every state of a
    /// port it lies between zero and the capacity of the ring.
    pub fn tx_buffered(&self) -> (count: usize)
        ensures
            self@.wf(),
            count == self@.tx().len(),
            count == counter_distance(self@.tx_enqueued_bytes, self@.tx_dequeued_bytes),
            count <= TX_BUFFER_SIZE,
    {
        proof {
            use_type_invariant(self);
        }
        self.tx_enqueued_bytes.wrapping_sub(self.tx_dequeued_bytes) as usize
    }

    /// Number of bytes waiting in the receive ring. In every state of a
    /// port it lies between zero and the capacity of the ring.
    pub fn rx_buffered(&self) -> (count: usize)
        ensures
            self@.wf(),
            count == self@.rx().len(),
            count == counter_distance(self@.rx_enqueued_bytes, self@.rx_dequeued_bytes),
            count <= RX_BUFFER_SIZE,
    {
        proof {
            use_type_invariant(self);
        }
        self.rx_enqueued_bytes.wrapping_sub(self.rx_dequeued_bytes) as usize
    }
}

/// Where stored bytes lie in the transmit ring: byte `i` of `bytes` at index
/// `(enqueued + i) mod 256`, every other byte of the array as it was, and
/// with no bytes the array as it was.
pub proof fn lemma_ring_store(buffer: Seq<u8>, enqueued: u16, bytes: Seq<u8>)
    requires
        buffer.len() == TX_BUFFER_SIZE,
        bytes.len() <= TX_BUFFER_SIZE,
    ensures
        ({
            let stored = ring_store(buffer, TX_BUFFER_SIZE as int, enqueued, bytes);
            &&& stored.len() == TX_BUFFER_SIZE
            &&& forall|i: int|
                0 <= i < bytes.len() ==> stored[(enqueued + i) % 256] == #[trigger] bytes[i]
            &&& forall|index: int|
                0 <= index < 256 && (index - enqueued) % 256 >= bytes.len() ==> #[trigger] stored[index]
                    == buffer[index]
            &&& bytes.len() == 0 ==> stored == buffer
        }),
{
    let stored = ring_store(buffer, TX_BUFFER_SIZE as int, enqueued, bytes);
    assert forall|i: int| 0 <= i < bytes.len() implies stored[(enqueued + i) % 256]
        == #[trigger] bytes[i] by {
        let index = (enqueued + i) % 256;
        assert((index - enqueued) % 256 == i);
    }
    if bytes.len() == 0 {
        assert(stored =~= buffer);
    }
}

/// Prepares the transmission of `data` and returns how many of its bytes
/// were accepted: as many as the transmit ring has room for. The rest is
/// dropped.
///
/// The accepted bytes are stored in the ring array behind the enqueued count.
/// They are not counted yet: the new count is stored by `uart_commit_tx`,
/// inside the critical section that this call opens by asking for the floor
/// to be raised. The caller performs `ops`, calls `uart_commit_tx`, and
/// performs what that asks for.
///
/// With no room at all, or while an earlier write waits to be committed,
/// nothing is accepted, nothing changes, and nothing is asked of the
/// hardware.
pub fn uart_enqueue_data<C>(unit: &mut UartInfo<C>, data: &[u8], ops: &mut Vec<RegOp>) -> (accepted:
    usize)
    ensures
        accepted == old(unit)@.accepted(data@.len() as int),
        final(unit)@ == old(unit)@.staged(data@),
        final(ops)@ == old(ops)@ + old(unit)@.stage_ops(),
        final(unit)@.wf(),
        forall|i: int|
            0 <= i < accepted ==> final(unit)@.tx_buffer[#[trigger] tx_slot(
                old(unit)@.tx_enqueued_bytes,
                i,
            )] == data@[i],
        forall|index: int|
            0 <= index < TX_BUFFER_SIZE && #[trigger] tx_offset(
                old(unit)@.tx_enqueued_bytes,
                index,
            ) >= accepted ==> final(unit)@.tx_buffer[index] == old(unit)@.tx_buffer[index],
        accepted == 0 ==> final(unit)@.tx_buffer == old(unit)@.tx_buffer,
{
    proof {
        use_type_invariant(&*unit);
    }
    if unit.tx_commit.is_some() {
        return 0;
    }
    let enqueued: u16 = unit.tx_enqueued_bytes;
    let dequeued: u16 = unit.tx_dequeued_bytes;
    let pending: usize = enqueued.wrapping_sub(dequeued) as usize;
    let avail_space: usize = TX_BUFFER_SIZE - pending;

    // With no room, the transmit interrupt is left alone.
    if avail_space == 0 {
        return 0;
    }
    let bytes_to_write: usize = if data.len() < avail_space {
        data.len()
    } else {
        avail_space
    };
    let ghost before = unit@;
    let mut next: u16 = enqueued;
    let mut k: usize = 0;
    assert(ring_store(before.tx_buffer, 256, enqueued, data@.take(0)) =~= before.tx_buffer);
    while k < bytes_to_write
        invariant
            k <= bytes_to_write <= data@.len(),
            bytes_to_write <= TX_BUFFER_SIZE - pending,
            pending == counter_distance(enqueued, dequeued),
            next == counter_add(enqueued, k as int),
            before == old(unit)@,
            before.wf(),
            before.tx_enqueued_bytes == enqueued,
            unit@ == (UartView {
                tx_buffer: ring_store(
                    before.tx_buffer,
                    TX_BUFFER_SIZE as int,
                    enqueued,
                    data@.take(k as int),
                ),
                ..before
            }),
        decreases bytes_to_write - k,
    {
        proof {
            use_type_invariant(&*unit);
        }
        let ghost stored = unit.tx_buffer@;
        let idx: usize = next as usize % TX_BUFFER_SIZE;
        proof {
            vstd::arithmetic::div_mod::lemma_mod_mod(enqueued + k, 256, 256);
        }
        unit.tx_buffer[idx] = data[k];
        next = next.wrapping_add(1);
        k = k + 1;
        proof {
            let taken = data@.take(k as int);
            assert forall|index: int| 0 <= index < 256 implies unit.tx_buffer@[index]
                == ring_store(before.tx_buffer, 256, enqueued, taken)[index] by {
                let offset = (index - enqueued) % 256;
                assert(offset == k - 1 <==> index == idx);
                if index != idx {
                    assert(unit.tx_buffer@[index] == stored[index]);
                }
            }
            assert(unit.tx_buffer@ =~= ring_store(before.tx_buffer, 256, enqueued, taken));
        }
    }
    // The bytes are in place; the count is stored once the floor is raised.
    unit.tx_commit = Some(next);
    block_irqs(ops);
    proof {
        let taken = data@.take(bytes_to_write as int);
        lemma_ring_store(before.tx_buffer, enqueued, taken);
        assert forall|i: int| 0 <= i < bytes_to_write implies unit@.tx_buffer[#[trigger] tx_slot(
            enqueued,
            i,
        )] == data@[i] by {
            assert(taken[i] == data@[i]);
        }
    }
    bytes_to_write
}

/// Counts the bytes that `uart_enqueue_data` prepared: stores the new
/// enqueued count and asks for the transmit interrupt to be switched on and
/// for the floor to be put back. It is called after the floor was raised, so
/// that the count and the interrupt enable change together. With nothing to
/// commit it does nothing.
pub fn uart_commit_tx<C>(unit: &mut UartInfo<C>, ops: &mut Vec<RegOp>)
    ensures
        final(unit)@ == old(unit)@.committed(),
        final(ops)@ == old(ops)@ + old(unit)@.commit_ops(),
        final(unit)@.wf(),
{
    proof {
        use_type_invariant(&*unit);
    }
    match unit.tx_commit {
        Some(count) => {
            unit.tx_enqueued_bytes = count;
            unit.tx_commit = None;
            set_reg32(ops, unit.base_addr, UART_IER, UART_INT_TX_BUFFER_EMPTY);
            restore_irqs(ops);
        },
        None => {},
    }
}

/// A write that is prepared and then committed appends its accepted bytes to
/// what waits for transmission, advances the enqueued count by their number
/// and leaves the dequeued count alone; prepared on a port with room, the two
/// steps ask for exactly the critical section that switches the transmit
/// interrupt on.
pub proof fn lemma_commit_appends<C>(unit: UartView<C>, data: Seq<u8>)
    requires
        unit.wf(),
        unit.tx_commit is None,
    ensures
        ({
            let count = unit.accepted(data.len() as int);
            let after = unit.staged(data).committed();
            &&& count == min(data.len() as int, unit.tx_free())
            &&& after.wf()
            &&& after.tx() == unit.tx() + data.take(count)
            &&& after.tx_enqueued_bytes == counter_add(unit.tx_enqueued_bytes, count)
            &&& after.tx_dequeued_bytes == unit.tx_dequeued_bytes
            &&& after.tx_commit is None
            &&& unit.tx_free() > 0 ==> unit.stage_ops() + unit.staged(data).commit_ops()
                == enable_tx_interrupt(unit.base_addr)
            &&& unit.tx_free() == 0 ==> after == unit && unit.stage_ops() + unit.staged(
                data,
            ).commit_ops() == Seq::<RegOp>::empty()
        }),
{
    let count = unit.accepted(data.len() as int);
    let after = unit.staged(data).committed();
    let enqueued = unit.tx_enqueued_bytes;
    let dequeued = unit.tx_dequeued_bytes;
    let pending = counter_distance(enqueued, dequeued);
    if unit.tx_free() > 0 {
        assert(after.tx().len() == pending + count);
        assert forall|i: int| 0 <= i < pending + count implies after.tx()[i] == (unit.tx()
            + data.take(count))[i] by {
            let index = (dequeued + i) % 256;
            let offset = (index - enqueued) % 256;
            if i < pending {
                assert(offset >= count);
            } else {
                assert(offset == i - pending);
            }
        }
        assert(after.tx() =~= unit.tx() + data.take(count));
        assert(unit.stage_ops() + unit.staged(data).commit_ops() =~= enable_tx_interrupt(
            unit.base_addr,
        ));
    } else {
        assert(data.take(0) =~= Seq::<u8>::empty());
        assert(unit.tx() + data.take(0) =~= unit.tx());
        assert(unit.stage_ops() + unit.staged(data).commit_ops() =~= Seq::<RegOp>::empty());
    }
}

/// Takes received bytes out of the receive ring into the start of `buffer`,
/// oldest first, and returns how many were taken: as many as are waiting and
/// as `buffer` has room for. What lies in `buffer` behind them is kept. Only
/// the dequeued count of the receive ring advances, by the number taken.
pub fn uart_dequeue_data<C>(unit: &mut UartInfo<C>, buffer: &mut [u8]) -> (taken: usize)
    ensures
        taken == min(old(unit)@.rx().len() as int, old(buffer)@.len() as int),
        final(buffer)@ == old(unit)@.rx().take(taken as int) + old(buffer)@.skip(taken as int),
        final(unit)@ == (UartView {
            rx_dequeued_bytes: counter_add(old(unit)@.rx_dequeued_bytes, taken as int),
            ..old(unit)@
        }),
        final(unit)@.rx() == old(unit)@.rx().skip(taken as int),
        final(unit)@.wf(),
{
    proof {
        use_type_invariant(&*unit);
    }
    let enqueued: u16 = unit.rx_enqueued_bytes;
    let dequeued: u16 = unit.rx_dequeued_bytes;
    let avail_data: usize = enqueued.wrapping_sub(dequeued) as usize;
    let count: usize = if buffer.len() < avail_data {
        buffer.len()
    } else {
        avail_data
    };
    let ghost before = unit@.rx();
    let mut next: u16 = dequeued;
    let mut k: usize = 0;
    while k < count
        invariant
            k <= count <= avail_data,
            count <= buffer@.len(),
            buffer@.len() == old(buffer)@.len(),
            avail_data == counter_distance(enqueued, dequeued),
            avail_data <= RX_BUFFER_SIZE,
            next == counter_add(dequeued, k as int),
            *unit == *old(unit),
            unit.rx_enqueued_bytes == enqueued,
            unit.rx_dequeued_bytes == dequeued,
            before == old(unit)@.rx(),
            before.len() == avail_data,
            buffer@ == before.take(k as int) + old(buffer)@.skip(k as int),
        decreases count - k,
    {
        let idx: usize = next as usize % RX_BUFFER_SIZE;
        assert(unit.rx_buffer@[idx as int] == before[k as int]);
        buffer[k] = unit.rx_buffer[idx];
        next = next.wrapping_add(1);
        k = k + 1;
        assert(buffer@ =~= before.take(k as int) + old(buffer)@.skip(k as int));
    }
    unit.rx_dequeued_bytes = next;
    proof {
        let after = unit@.rx();
        assert forall|i: int| 0 <= i < after.len() implies after[i] == before.skip(
            count as int,
        )[i] by {
            assert((next + i) % 32 == (dequeued + (count + i)) % 32);
        }
        assert(after =~= before.skip(count as int));
    }
    count
}

/// Sets or clears the request-to-send output of the port.
pub fn set_rts<C>(unit: &UartInfo<C>, on: bool, ops: &mut Vec<RegOp>)
    ensures
        final(ops)@ == old(ops)@.push(
            if on {
                RegOp::SetBits32 { base_addr: unit@.base_addr, offset: UART_MCR, bits: UART_MCR_RTS }
            } else {
                RegOp::ClearBits32 {
                    base_addr: unit@.base_addr,
                    offset: UART_MCR,
                    bits: UART_MCR_RTS,
                }
            },
        ),
{
    if on {
        set_reg32(ops, unit.base_addr, UART_MCR, UART_MCR_RTS);
    } else {
        clear_reg32(ops, unit.base_addr, UART_MCR, UART_MCR_RTS);
    }
}

// ---- initialisation ----

/// Frequency in hertz of the clock that the baud rate is derived from.
pub const UART_CLOCK: u32 = 26_000_000;

/// The highest baud rate that can be set: it leaves four clock ticks per bit.
pub const UART_MAX_BAUDRATE: u32 = 6_500_000;

/// Divisor latch, low byte; shares its offset with the holding register and
/// is reached while the divisor latch access bit is set.
pub const UART_DLL: usize = 0x00;
/// Divisor latch, high byte; reached like `UART_DLL`.
pub const UART_DLH: usize = 0x04;
/// Speed mode register.
pub const UART_RATE_STEP: usize = 0x24;
/// Number of clock ticks per bit, less one.
pub const UART_STEP_COUNT: usize = 0x28;
/// The tick within a bit at which the line is sampled.
pub const UART_SAMPLE_COUNT: usize = 0x2C;
/// Fractional divider, low bits.
pub const UART_FRACDIV_L: usize = 0x54;
/// Fractional divider, high bits.
pub const UART_FRACDIV_M: usize = 0x58;

/// Line control field: word length, bits 0 and 1.
pub const UART_WLS_MASK: u32 = 0x03;
/// Line control field: number of stop bits, bit 2.
pub const UART_STOP_MASK: u32 = 0x04;
/// Line control field: parity, bits 3 to 5.
pub const UART_PARITY_MASK: u32 = 0x38;
/// Line control bit: break, the one bit that setting the format keeps.
pub const UART_LCR_BREAK: u32 = 0x40;
/// Line control bit: divisor latch access.
pub const UART_LCR_DLAB: u32 = 0x80;
/// Word length field for eight data bits.
pub const UART_DATABITS_8: u16 = 0x03;
/// FIFO control value: FIFOs enabled and cleared, transmit trigger at four
/// bytes.
pub const UART_FCR_SETUP: u32 = 0x17;

/// The values that set a baud rate.
#[derive(Clone, Copy, Debug, PartialEq, Eq, Structural)]
pub struct BaudSettings {
    /// Divisor of the clock.
    pub high_speed_div: u32,
    /// Clock ticks per bit, less one.
    pub sample_count: u32,
    /// The tick within a bit at which the line is sampled.
    pub sample_point: u32,
    /// Tenths of a tick by which a bit is longer than `sample_count + 1`
    /// ticks, rounded; at most ten.
    pub fraction: u8,
}

/// Clock ticks per bit at baud rate `baudrate`, undivided.
pub open spec fn baud_quotient(baudrate: u32) -> int {
    UART_CLOCK as int / baudrate as int
}

/// The divisor that brings the ticks per bit down to at most 256.
pub open spec fn baud_high_speed_div(baudrate: u32) -> int {
    baud_quotient(baudrate) / 256 + 1
}

/// Whole clock ticks per bit once the clock is divided.
pub open spec fn baud_ticks_per_bit(baudrate: u32) -> int {
    baud_quotient(baudrate) / baud_high_speed_div(baudrate)
}

/// Hundredths of a clock tick per bit once the clock is divided.
pub open spec fn baud_ticks_per_bit_scaled(baudrate: u32) -> int {
    UART_CLOCK * 10 / baudrate as int * 10 / baud_high_speed_div(baudrate)
}

/// The values that set the baud rate `baudrate`.
pub open spec fn spec_baud_settings(baudrate: u32) -> BaudSettings {
    let ticks = baud_ticks_per_bit(baudrate);
    let sample_count = ticks - 1;
    BaudSettings {
        high_speed_div: baud_high_speed_div(baudrate) as u32,
        sample_count: sample_count as u32,
        sample_point: if sample_count == 3 {
            0
        } else {
            (ticks / 2 - 2) as u32
        },
        fraction: (((baud_ticks_per_bit_scaled(baudrate) - ticks * 100) * 10 + 55) / 100) as u8,
    }
}

/// Low bits of the fractional divider for each number of tenths.
pub open spec fn spec_fraction_l(fraction: u8) -> u8 {
    if fraction == 0 {
        0x00
    } else if fraction == 1 {
        0x10
    } else if fraction == 2 {
        0x44
    } else if fraction == 3 {
        0x92
    } else if fraction == 4 {
        0x59
    } else if fraction == 5 {
        0xab
    } else if fraction == 6 {
        0xb7
    } else if fraction == 7 {
        0xdf
    } else {
        0xff
    }
}

/// High bits of the fractional divider for each number of tenths.
pub open spec fn spec_fraction_m(fraction: u8) -> u8 {
    if fraction <= 8 {
        0x00
    } else if fraction == 9 {
        0x01
    } else {
        0x03
    }
}

/// Low bits of the fractional divider for each number of tenths.
#[verifier::when_used_as_spec(spec_fraction_l)]
pub fn fraction_l(fraction: u8) -> (bits: u8)
    ensures
        bits == spec_fraction_l(fraction),
{
    match fraction {
        0 => 0x00,
        1 => 0x10,
        2 => 0x44,
        3 => 0x92,
        4 => 0x59,
        5 => 0xab,
        6 => 0xb7,
        7 => 0xdf,
        _ => 0xff,
    }
}

/// High bits of the fractional divider for each number of tenths.
#[verifier::when_used_as_spec(spec_fraction_m)]
pub fn fraction_m(fraction: u8) -> (bits: u8)
    ensures
        bits == spec_fraction_m(fraction),
{
    if fraction <= 8 {
        0x00
    } else if fraction == 9 {
        0x01
    } else {
        0x03
    }
}

/// The ranges in which the baud rate values lie.
proof fn lemma_baud_bounds(baudrate: u32)
    requires
        0 < baudrate <= UART_MAX_BAUDRATE,
    ensures
        4 <= baud_quotient(baudrate) <= UART_CLOCK,
        1 <= baud_high_speed_div(baudrate) <= 101_563,
        4 <= baud_ticks_per_bit(baudrate) <= 255,
        0 <= UART_CLOCK * 10 / baudrate as int <= 260_000_000,
        baud_ticks_per_bit(baudrate) * 100 <= baud_ticks_per_bit_scaled(baudrate)
            <= baud_ticks_per_bit(baudrate) * 100 + 99,
{
    let b = baudrate as int;
    let c = UART_CLOCK as int;
    let q = c / b;
    let t = c * 10 / b;
    let h = q / 256 + 1;
    let s = q / h;
    let a = t * 10 / h;
    let rq = c % b;
    let rt = (c * 10) % b;
    vstd::arithmetic::div_mod::lemma_fundamental_div_mod(c, b);
    vstd::arithmetic::div_mod::lemma_mod_bound(c, b);
    vstd::arithmetic::div_mod::lemma_fundamental_div_mod(c * 10, b);
    vstd::arithmetic::div_mod::lemma_mod_bound(c * 10, b);
    assert(4 <= q <= c) by (nonlinear_arith)
        requires
            c == b * q + rq,
            0 <= rq < b,
            0 < b,
            4 * b <= c,
    ;
    assert(10 * q <= t <= 10 * q + 9 && t <= 10 * c) by (nonlinear_arith)
        requires
            c == b * q + rq,
            c * 10 == b * t + rt,
            0 <= rq < b,
            0 <= rt < b,
            0 < b,
            0 < c,
    ;
    let rs = q % h;
    let ra = (t * 10) % h;
    vstd::arithmetic::div_mod::lemma_fundamental_div_mod(q, h);
    vstd::arithmetic::div_mod::lemma_mod_bound(q, h);
    vstd::arithmetic::div_mod::lemma_fundamental_div_mod(t * 10, h);
    vstd::arithmetic::div_mod::lemma_mod_bound(t * 10, h);
    assert(4 <= s <= 255) by (nonlinear_arith)
        requires
            q == h * s + rs,
            0 <= rs < h,
            4 * h <= q < 256 * h,
    ;
    assert(s * 100 <= a <= s * 100 + 99) by (nonlinear_arith)
        requires
            q == h * s + rs,
            t * 10 == h * a + ra,
            0 <= rs < h,
            0 <= ra < h,
            10 * q <= t <= 10 * q + 9,
    ;
}

/// Computes the values that set the baud rate `baudrate`.
pub fn baud_settings(baudrate: u32) -> (settings: BaudSettings)
    requires
        0 < baudrate <= UART_MAX_BAUDRATE,
    ensures
        settings == spec_baud_settings(baudrate),
        settings.fraction <= 10,
{
    proof {
        lemma_baud_bounds(baudrate);
    }
    let data: u32 = UART_CLOCK / baudrate;
    let high_speed_div: u32 = data / 256 + 1;
    let ticks: u32 = data / high_speed_div;
    let sample_count: u32 = ticks - 1;
    let sample_point: u32 = if sample_count == 3 {
        0
    } else {
        ticks / 2 - 2
    };
    let scaled: u32 = UART_CLOCK * 10 / baudrate * 10 / high_speed_div;
    let fraction: u32 = ((scaled - ticks * 100) * 10 + 55) / 100;
    BaudSettings { high_speed_div, sample_count, sample_point, fraction: fraction as u8 }
}


/// The line control word for a format: what the register held, with the
/// word length field replaced by `databit`, the stop field by `stopbit`, the
/// parity field by `parity`, and the divisor latch closed. The three values
/// are given as they lie in the register; what they hold outside their own
/// field does not count.
pub open spec fn spec_line_control_word(current: u32, databit: u16, stopbit: u16, parity: u16) -> u32 {
    (current & UART_LCR_BREAK) | (databit as u32 & UART_WLS_MASK) | (stopbit as u32
        & UART_STOP_MASK) | (parity as u32 & UART_PARITY_MASK)
}

/// Computes the line control word for a format.
#[verifier::when_used_as_spec(spec_line_control_word)]
pub fn line_control_word(current: u32, databit: u16, stopbit: u16, parity: u16) -> (word: u32)
    ensures
        word == spec_line_control_word(current, databit, stopbit, parity),
{
    (current & UART_LCR_BREAK) | (databit as u32 & UART_WLS_MASK) | (stopbit as u32
        & UART_STOP_MASK) | (parity as u32 & UART_PARITY_MASK)
}

/// Whether the three format values lie within their own fields of the line
/// control register: the word length below 4, the stop value 0 or 4, the
/// parity a multiple of 8 below 64.
pub open spec fn format_in_fields(databit: u16, stopbit: u16, parity: u16) -> bool {
    &&& databit < 4
    &&& stopbit == 0 || stopbit == 4
    &&& parity < 64 && parity % 8 == 0
}

/// The fields of a line control word are the values it was made from, its
/// divisor latch bit is clear, and of what the register held only the break
/// bit is left. For values that lie within their fields the word is the break
/// bit plus the three values.
pub proof fn lemma_line_control_fields(current: u32, databit: u16, stopbit: u16, parity: u16)
    ensures
        ({
            let word = spec_line_control_word(current, databit, stopbit, parity);
            &&& word & UART_WLS_MASK == databit as u32 & UART_WLS_MASK
            &&& word & UART_STOP_MASK == stopbit as u32 & UART_STOP_MASK
            &&& word & UART_PARITY_MASK == parity as u32 & UART_PARITY_MASK
            &&& word & UART_LCR_DLAB == 0
            &&& word & UART_LCR_BREAK == current & UART_LCR_BREAK
            &&& word < 0x80
            &&& format_in_fields(databit, stopbit, parity) ==> {
                &&& word & UART_WLS_MASK == databit
                &&& word & UART_STOP_MASK == stopbit
                &&& word & UART_PARITY_MASK == parity
                &&& word == (current & UART_LCR_BREAK) + databit + stopbit + parity
            }
        }),
{
    let d = databit as u32;
    let s = stopbit as u32;
    let p = parity as u32;
    let word = (current & 0x40) | (d & 0x03) | (s & 0x04) | (p & 0x38);
    assert(word & 0x03 == d & 0x03 && word & 0x04 == s & 0x04 && word & 0x38 == p & 0x38 && word
        & 0x80 == 0 && word & 0x40 == current & 0x40 && word < 0x80) by (bit_vector)
        requires
            word == (current & 0x40) | (d & 0x03) | (s & 0x04) | (p & 0x38),
    ;
    if format_in_fields(databit, stopbit, parity) {
        assert(d & 0x03 == d && s & 0x04 == s && p & 0x38 == p && word == (current & 0x40) + d
            + s + p) by (bit_vector)
            requires
                word == (current & 0x40) | (d & 0x03) | (s & 0x04) | (p & 0x38),
                d < 4,
                s == 0 || s == 4,
                p < 64 && p % 8 == 0,
        ;
    }
}

/// The stores that set up a port, in order: the fractional divider is
/// cleared and high-speed mode chosen; with the divisor latch opened, the
/// divisor, the sampling and the fractional divider are written and the line
/// control register is put back; then the line format is set and the FIFOs
/// are enabled and cleared.
pub open spec fn setup_writes(
    base_addr: usize,
    settings: BaudSettings,
    line_control: u32,
    databit: u16,
    parity: u16,
    stopbit: u16,
) -> Seq<RegOp> {
    seq![
        RegOp::Write32 { base_addr, offset: UART_FRACDIV_L, value: 0 },
        RegOp::Write32 { base_addr, offset: UART_FRACDIV_M, value: 0 },
        RegOp::Write32 { base_addr, offset: UART_RATE_STEP, value: 3 },
        RegOp::Write32 {
            base_addr,
            offset: UART_LCR,
            value: (line_control & 0xff) | UART_LCR_DLAB,
        },
        RegOp::Write32 { base_addr, offset: UART_DLL, value: settings.high_speed_div % 256 },
        RegOp::Write32 {
            base_addr,
            offset: UART_DLH,
            value: settings.high_speed_div / 256 % 256,
        },
        RegOp::Write32 { base_addr, offset: UART_STEP_COUNT, value: settings.sample_count },
        RegOp::Write32 { base_addr, offset: UART_SAMPLE_COUNT, value: settings.sample_point },
        RegOp::Write32 {
            base_addr,
            offset: UART_FRACDIV_M,
            value: spec_fraction_m(settings.fraction) as u32,
        },
        RegOp::Write32 {
            base_addr,
            offset: UART_FRACDIV_L,
            value: spec_fraction_l(settings.fraction) as u32,
        },
        RegOp::Write32 { base_addr, offset: UART_LCR, value: line_control & 0xff },
        RegOp::Write32 {
            base_addr,
            offset: UART_LCR,
            value: spec_line_control_word(line_control, databit, stopbit, parity),
        },
        RegOp::Write32 { base_addr, offset: UART_IIR_FCR, value: UART_FCR_SETUP },
    ]
}

/// The operations that register a port's interrupt: its priority, then its
/// enabling.
pub open spec fn interrupt_setup(nvic_irq: u8) -> Seq<RegOp> {
    seq![
        RegOp::Write8 {
            base_addr: NVIC_IPR_BASE,
            offset: nvic_irq as usize,
            byte: priority_byte(UART_PRIORITY),
        },
        RegOp::SetBits32 {
            base_addr: NVIC_ISER_BASE,
            offset: (4 * (nvic_irq / 32)) as usize,
            bits: bit_mask((nvic_irq % 32) as nat),
        },
    ]
}

/// Everything that `uart_init` asks of the hardware: the set-up stores, the
/// enabling of the receive and transmit interrupts if a receive callback was
/// given, and the registration of the port's interrupt.
pub open spec fn init_ops(
    base_addr: usize,
    nvic_irq: u8,
    baudrate: u32,
    databit: u16,
    parity: u16,
    stopbit: u16,
    line_control: u32,
    with_rx_callback: bool,
) -> Seq<RegOp> {
    setup_writes(
        base_addr,
        spec_baud_settings(baudrate),
        line_control,
        databit,
        parity,
        stopbit,
    ) + (if with_rx_callback {
        seq![
            RegOp::SetBits32 {
                base_addr,
                offset: UART_IER,
                bits: UART_INT_RX_BUFFER_FULL | UART_INT_TX_BUFFER_EMPTY,
            },
        ]
    } else {
        Seq::<RegOp>::empty()
    }) + interrupt_setup(nvic_irq)
}

/// Sets a port up for `baudrate` and the line format given by `databit`,
/// `parity` and `stopbit`, and registers its callbacks and interrupt.
///
/// `line_control` is what the line control register holds now. The three
/// format values are given as they lie in the line control register: the word
/// length in bits 0 and 1, the stop bits in bit 2, the parity in bits 3 to 5.
/// A callback that is given replaces the one registered before; one that is
/// not given leaves it registered. The rings and their counters are not
/// touched.
pub fn uart_init<C>(
    unit: &mut UartInfo<C>,
    baudrate: u32,
    databit: u16,
    parity: u16,
    stopbit: u16,
    rx_callback: Option<C>,
    tx_empty_callback: Option<C>,
    line_control: u32,
    ops: &mut Vec<RegOp>,
)
    requires
        0 < baudrate <= UART_MAX_BAUDRATE,
    ensures
        final(unit)@ == (UartView {
            rx_callback: if rx_callback is Some {
                rx_callback
            } else {
                old(unit)@.rx_callback
            },
            tx_empty_callback: if tx_empty_callback is Some {
                tx_empty_callback
            } else {
                old(unit)@.tx_empty_callback
            },
            ..old(unit)@
        }),
        final(unit)@.wf(),
        final(ops)@ == old(ops)@ + init_ops(
            old(unit)@.base_addr,
            old(unit)@.nvic_irq,
            baudrate,
            databit,
            parity,
            stopbit,
            line_control,
            rx_callback is Some,
        ),
{
    proof {
        use_type_invariant(&*unit);
    }
    let base: usize = unit.base_addr;
    let settings: BaudSettings = baud_settings(baudrate);
    let uart_lcr: u32 = line_control & 0xff;

    write_reg32(ops, base, UART_FRACDIV_L, 0x00);
    write_reg32(ops, base, UART_FRACDIV_M, 0x00);
    write_reg32(ops, base, UART_RATE_STEP, 0x03);

    // Divisor latch open.
    write_reg32(ops, base, UART_LCR, uart_lcr | UART_LCR_DLAB);
    write_reg32(ops, base, UART_DLL, settings.high_speed_div % 256);
    write_reg32(ops, base, UART_DLH, settings.high_speed_div / 256 % 256);
    write_reg32(ops, base, UART_STEP_COUNT, settings.sample_count);
    write_reg32(ops, base, UART_SAMPLE_COUNT, settings.sample_point);
    write_reg32(ops, base, UART_FRACDIV_M, fraction_m(settings.fraction) as u32);
    write_reg32(ops, base, UART_FRACDIV_L, fraction_l(settings.fraction) as u32);
    // Divisor latch closed.
    write_reg32(ops, base, UART_LCR, uart_lcr);

    write_reg32(ops, base, UART_LCR, line_control_word(line_control, databit, stopbit, parity));
    write_reg32(ops, base, UART_IIR_FCR, UART_FCR_SETUP);
    assert(ops@ =~= old(ops)@ + setup_writes(
        base,
        settings,
        line_control,
        databit,
        parity,
        stopbit,
    ));

    let with_rx_callback: bool = rx_callback.is_some();
    if with_rx_callback {
        unit.rx_callback = rx_callback;
        set_reg32(ops, base, UART_IER, UART_INT_RX_BUFFER_FULL | UART_INT_TX_BUFFER_EMPTY);
    }
    if tx_empty_callback.is_some() {
        unit.tx_empty_callback = tx_empty_callback;
    }
    set_nvic_priority(ops, unit.nvic_irq, UART_PRIORITY);
    enable_nvic_interrupt(ops, unit.nvic_irq);
    assert(ops@ =~= old(ops)@ + init_ops(
        base,
        old(unit)@.nvic_irq,
        baudrate,
        databit,
        parity,
        stopbit,
        line_control,
        with_rx_callback,
    ));
}

// ---- the interrupt handler ----

/// Interrupt cause: nothing is pending.
pub const UART_IIR_NONE: u32 = 0x01;
/// Interrupt cause: the transmit holding register is empty.
pub const UART_IIR_TX_EMPTY: u32 = 0x02;
/// Interrupt cause: received data is available.
pub const UART_IIR_RX_DATA: u32 = 0x04;
/// Interrupt cause: received data has waited too long in the FIFO.
pub const UART_IIR_RX_TIMEOUT: u32 = 0x0C;
/// The bits of the identification register that hold the cause.
pub const UART_IIR_ID_MASK: u32 = 0x1F;

/// Where the interrupt handler stands. Each phase but the last names the
/// register that is read next; the value read is what moves the handler on.
#[derive(Clone, Copy, Debug, PartialEq, Eq, Structural)]
pub enum IrqPhase {
    /// Read the cause of the interrupt.
    Identify,
    /// Read how many bytes the hardware transmit FIFO holds.
    TxFifoLevel,
    /// Read the line status, until the transmitter is idle.
    TxIdle,
    /// Read the line status, to see whether a received byte is ready.
    RxStatus,
    /// Read the received byte.
    RxData,
    /// Nothing is pending any more.
    Done,
}

/// A callback of a port.
#[derive(Clone, Copy, Debug, PartialEq, Eq, Structural)]
pub enum UartCallback {
    /// The callback for received bytes.
    Rx,
    /// The callback for a drained transmitter.
    TxEmpty,
}

/// What one step of the interrupt handler decided.
#[derive(Clone, Copy, Debug, PartialEq, Eq, Structural)]
pub struct IrqStep {
    /// The phase to go on with.
    pub next: IrqPhase,
    /// The callback to call before going on, if any. Only a registered
    /// callback is ever named.
    pub invoke: Option<UartCallback>,
}

impl IrqPhase {
    /// Offset of the register to read in this phase.
    pub open spec fn spec_register(self) -> Option<usize> {
        match self {
            IrqPhase::Identify => Some(UART_IIR_FCR),
            IrqPhase::TxFifoLevel => Some(UART_TX_OFFSET),
            IrqPhase::TxIdle => Some(UART_LSR),
            IrqPhase::RxStatus => Some(UART_LSR),
            IrqPhase::RxData => Some(UART_RBR_THR),
            IrqPhase::Done => None,
        }
    }

    /// Offset of the register to read in this phase; `None` when the handler
    /// is done.
    #[verifier::when_used_as_spec(spec_register)]
    pub fn register(self) -> (offset: Option<usize>)
        ensures
            offset == self.spec_register(),
    {
        match self {
            IrqPhase::Identify => Some(UART_IIR_FCR),
            IrqPhase::TxFifoLevel => Some(UART_TX_OFFSET),
            IrqPhase::TxIdle => Some(UART_LSR),
            IrqPhase::RxStatus => Some(UART_LSR),
            IrqPhase::RxData => Some(UART_RBR_THR),
            IrqPhase::Done => None,
        }
    }
}

/// The port whose interrupt has the number `irq`.
pub open spec fn spec_uart_for_irq(irq: u8) -> Option<UartId> {
    if irq == 4 {
        Some(UartId::UartCM4Debug)
    } else if irq == 47 {
        Some(UartId::UartIsu0)
    } else if irq == 51 {
        Some(UartId::UartIsu1)
    } else if irq == 55 {
        Some(UartId::UartIsu2)
    } else if irq == 59 {
        Some(UartId::UartIsu3)
    } else if irq == 63 || irq == 67 {
        Some(UartId::UartIsu4)
    } else {
        None
    }
}

/// The port that the interrupt with the number `irq` is handled for. The
/// last port answers to two interrupt numbers.
#[verifier::when_used_as_spec(spec_uart_for_irq)]
pub fn uart_for_irq(irq: u8) -> (id: Option<UartId>)
    ensures
        id == spec_uart_for_irq(irq),
{
    match irq {
        4 => Some(UartId::UartCM4Debug),
        47 => Some(UartId::UartIsu0),
        51 => Some(UartId::UartIsu1),
        55 => Some(UartId::UartIsu2),
        59 => Some(UartId::UartIsu3),
        63 => Some(UartId::UartIsu4),
        67 => Some(UartId::UartIsu4),
        _ => None,
    }
}

/// The stores that hand `bytes` to the transmit holding register, in order.
pub open spec fn thr_writes(base_addr: usize, bytes: Seq<u8>) -> Seq<RegOp> {
    Seq::new(
        bytes.len(),
        |i: int| RegOp::Write32 { base_addr, offset: UART_RBR_THR, value: bytes[i] as u32 },
    )
}

/// The room in a hardware transmit FIFO that holds `level` bytes.
pub open spec fn tx_fifo_space(level: u32) -> int {
    if level >= TX_FIFO_DEPTH {
        0
    } else {
        TX_FIFO_DEPTH - level
    }
}

/// How receiving ends: back to the cause register, after the receive
/// callback if one is registered.
pub open spec fn rx_finished<C>(unit: UartView<C>) -> IrqStep {
    IrqStep {
        next: IrqPhase::Identify,
        invoke: if unit.rx_callback is Some {
            Some(UartCallback::Rx)
        } else {
            None
        },
    }
}

/// One step of the interrupt handler as a function: from the port, the phase
/// and the value read in that phase to the port afterwards, the decision, and
/// the operations asked of the hardware.
///
/// - `Identify`: "nothing pending" ends the handler; "transmit holding
///   register empty" goes on to the FIFO level; "data available" and "receive
///   timeout" go on to receiving, which ends at once if the receive ring is
///   full; any other cause is passed over and the cause is read again.
/// - `TxFifoLevel`: bytes go from the transmit ring to the holding register
///   while the ring has bytes and the FIFO has room; only the dequeued count
///   of the transmit ring advances, by their number. If the ring is then
///   empty the transmit interrupt is switched off and the handler waits for
///   the transmitter to become idle.
/// - `TxIdle`: once the line status shows the transmitter idle, the drained
///   callback is due; until then the line status is read again.
/// - `RxStatus`: a ready byte is read if the receive ring has room;
///   otherwise receiving ends.
/// - `RxData`: the byte read is stored in the receive ring at the index of
///   the enqueued count, which alone advances, by one.
pub open spec fn irq_transition<C>(unit: UartView<C>, phase: IrqPhase, value: u32) -> (
    UartView<C>,
    IrqStep,
    Seq<RegOp>,
) {
    let stay = IrqStep { next: phase, invoke: None };
    let nothing = Seq::<RegOp>::empty();
    match phase {
        IrqPhase::Identify => {
            let cause = value & UART_IIR_ID_MASK;
            if cause == UART_IIR_NONE {
                (unit, IrqStep { next: IrqPhase::Done, invoke: None }, nothing)
            } else if cause == UART_IIR_TX_EMPTY {
                (unit, IrqStep { next: IrqPhase::TxFifoLevel, invoke: None }, nothing)
            } else if cause == UART_IIR_RX_DATA || cause == UART_IIR_RX_TIMEOUT {
                if unit.rx().len() < RX_BUFFER_SIZE {
                    (unit, IrqStep { next: IrqPhase::RxStatus, invoke: None }, nothing)
                } else {
                    (unit, rx_finished(unit), nothing)
                }
            } else {
                (unit, stay, nothing)
            }
        },
        IrqPhase::TxFifoLevel => {
            let count = min(unit.tx().len() as int, tx_fifo_space(value));
            let sent = thr_writes(unit.base_addr, unit.tx().take(count));
            let after = UartView {
                tx_dequeued_bytes: counter_add(unit.tx_dequeued_bytes, count),
                ..unit
            };
            if count == unit.tx().len() {
                (
                    after,
                    IrqStep { next: IrqPhase::TxIdle, invoke: None },
                    sent.push(
                        RegOp::ClearBits32 {
                            base_addr: unit.base_addr,
                            offset: UART_IER,
                            bits: UART_INT_TX_BUFFER_EMPTY,
                        },
                    ),
                )
            } else {
                (after, IrqStep { next: IrqPhase::Identify, invoke: None }, sent)
            }
        },
        IrqPhase::TxIdle => {
            if value & UART_LSR_TX_IDLE != 0 {
                (
                    unit,
                    IrqStep {
                        next: IrqPhase::Identify,
                        invoke: if unit.tx_empty_callback is Some {
                            Some(UartCallback::TxEmpty)
                        } else {
                            None
                        },
                    },
                    nothing,
                )
            } else {
                (unit, stay, nothing)
            }
        },
        IrqPhase::RxStatus => {
            if unit.rx().len() < RX_BUFFER_SIZE && value & UART_LSR_DATA_READY != 0 {
                (unit, IrqStep { next: IrqPhase::RxData, invoke: None }, nothing)
            } else {
                (unit, rx_finished(unit), nothing)
            }
        },
        IrqPhase::RxData => {
            if unit.rx().len() < RX_BUFFER_SIZE {
                let after = UartView {
                    rx_buffer: unit.rx_buffer.update(
                        unit.rx_enqueued_bytes as int % (RX_BUFFER_SIZE as int),
                        (value % 256) as u8,
                    ),
                    rx_enqueued_bytes: counter_add(unit.rx_enqueued_bytes, 1),
                    ..unit
                };
                if unit.rx().len() + 1 < RX_BUFFER_SIZE {
                    (after, IrqStep { next: IrqPhase::RxStatus, invoke: None }, nothing)
                } else {
                    (after, rx_finished(after), nothing)
                }
            } else {
                (unit, rx_finished(unit), nothing)
            }
        },
        IrqPhase::Done => (unit, stay, nothing),
    }
}

/// No step of the interrupt handler takes a ring past its capacity or leaves
/// it with a negative count: a well-formed port stays well formed. A drain
/// takes the bytes it sends from the front of what waits for transmission,
/// and a received byte goes to the end of what waits for the caller.
pub proof fn lemma_irq_transition_keeps_rings_in_range<C>(
    unit: UartView<C>,
    phase: IrqPhase,
    value: u32,
)
    requires
        unit.wf(),
    ensures
        ({
            let after = irq_transition(unit, phase, value).0;
            &&& after.wf()
            &&& after.tx().len() <= unit.tx().len() <= TX_BUFFER_SIZE
            &&& unit.rx().len() <= after.rx().len() <= RX_BUFFER_SIZE
            &&& phase == IrqPhase::TxFifoLevel ==> after.tx() == unit.tx().skip(
                min(unit.tx().len() as int, tx_fifo_space(value)),
            )
            &&& phase == IrqPhase::RxData && unit.rx().len() < RX_BUFFER_SIZE ==> after.rx()
                == unit.rx().push((value % 256) as u8)
        }),
{
    let after = irq_transition(unit, phase, value).0;
    if phase == IrqPhase::TxFifoLevel {
        let count = min(unit.tx().len() as int, tx_fifo_space(value));
        assert forall|i: int| 0 <= i < after.tx().len() implies after.tx()[i] == unit.tx().skip(
            count,
        )[i] by {
            assert((after.tx_dequeued_bytes + i) % 256 == (unit.tx_dequeued_bytes + (count + i))
                % 256);
        }
        assert(after.tx() =~= unit.tx().skip(count));
    }
    if phase == IrqPhase::RxData && unit.rx().len() < RX_BUFFER_SIZE {
        let byte = (value % 256) as u8;
        let pending = unit.rx().len() as int;
        assert forall|i: int| 0 <= i < pending + 1 implies after.rx()[i] == unit.rx().push(
            byte,
        )[i] by {
            let index = (unit.rx_dequeued_bytes + i) % 32;
            let slot = unit.rx_enqueued_bytes as int % 32;
            assert(index == slot <==> i == pending);
        }
        assert(after.rx() =~= unit.rx().push(byte));
    }
}

impl<C> UartInfo<C> {
    /// How receiving ends.
    fn rx_finished(&self) -> (step: IrqStep)
        ensures
            step == rx_finished(self@),
    {
        IrqStep {
            next: IrqPhase::Identify,
            invoke: if self.rx_callback.is_some() {
                Some(UartCallback::Rx)
            } else {
                None
            },
        }
    }

    /// Hands bytes of the transmit ring to the holding register while the
    /// ring has bytes and a FIFO that holds `level` bytes has room.
    fn drain_tx(&mut self, level: u32, ops: &mut Vec<RegOp>) -> (step: IrqStep)
        ensures
            (final(self)@, step, final(ops)@) == ({
                let t = irq_transition(old(self)@, IrqPhase::TxFifoLevel, level);
                (t.0, t.1, old(ops)@ + t.2)
            }),
    {
        proof {
            use_type_invariant(&*self);
        }
        let enqueued: u16 = self.tx_enqueued_bytes;
        let first: u16 = self.tx_dequeued_bytes;
        let mut dequeued: u16 = first;
        let space: u32 = if level >= TX_FIFO_DEPTH {
            0
        } else {
            TX_FIFO_DEPTH - level
        };
        let mut space_in_tx_fifo: u32 = space;
        let ghost before = self@.tx();
        let ghost base = self.base_addr;
        assert(ops@ =~= old(ops)@ + thr_writes(base, before.take(0)));
        while dequeued != enqueued && space_in_tx_fifo > 0
            invariant
                *self == *old(self),
                base == self.base_addr,
                self.tx_enqueued_bytes == enqueued,
                self.tx_dequeued_bytes == first,
                old(self)@.wf(),
                before == old(self)@.tx(),
                space_in_tx_fifo <= space,
                space == tx_fifo_space(level),
                space - space_in_tx_fifo <= before.len() <= TX_BUFFER_SIZE,
                dequeued == counter_add(first, space - space_in_tx_fifo),
                counter_distance(enqueued, dequeued) == before.len() - (space - space_in_tx_fifo),
                ops@ == old(ops)@ + thr_writes(base, before.take(space - space_in_tx_fifo)),
            decreases space_in_tx_fifo,
        {
            let ghost sent = space - space_in_tx_fifo;
            let tx_idx: usize = dequeued as usize % TX_BUFFER_SIZE;
            proof {
                vstd::arithmetic::div_mod::lemma_mod_mod(first + sent, 256, 256);
            }
            assert(self.tx_buffer@[tx_idx as int] == before[sent]);
            write_reg32(ops, self.base_addr, UART_RBR_THR, self.tx_buffer[tx_idx] as u32);
            dequeued = dequeued.wrapping_add(1);
            space_in_tx_fifo = space_in_tx_fifo - 1;
            proof {
                assert(thr_writes(base, before.take(sent + 1)) =~= thr_writes(
                    base,
                    before.take(sent),
                ).push(
                    RegOp::Write32 {
                        base_addr: base,
                        offset: UART_RBR_THR,
                        value: before[sent] as u32,
                    },
                ));
                assert(ops@ =~= old(ops)@ + thr_writes(base, before.take(sent + 1)));
            }
        }
        self.tx_dequeued_bytes = dequeued;

        // Everything sent: no more transmit interrupts, and wait for the line.
        if enqueued == dequeued {
            clear_reg32(ops, self.base_addr, UART_IER, UART_INT_TX_BUFFER_EMPTY);
            proof {
                let count = before.len() as int;
                assert(ops@ =~= old(ops)@ + thr_writes(base, before.take(count)).push(
                    RegOp::ClearBits32 {
                        base_addr: base,
                        offset: UART_IER,
                        bits: UART_INT_TX_BUFFER_EMPTY,
                    },
                ));
            }
            IrqStep { next: IrqPhase::TxIdle, invoke: None }
        } else {
            IrqStep { next: IrqPhase::Identify, invoke: None }
        }
    }

    /// Puts a byte read from the receive buffer register into the receive
    /// ring, if it has room.
    fn store_rx(&mut self, value: u32) -> (step: IrqStep)
        ensures
            (final(self)@, step) == ({
                let t = irq_transition(old(self)@, IrqPhase::RxData, value);
                (t.0, t.1)
            }),
    {
        proof {
            use_type_invariant(&*self);
        }
        let enqueued: u16 = self.rx_enqueued_bytes;
        let dequeued: u16 = self.rx_dequeued_bytes;
        let buffered: usize = enqueued.wrapping_sub(dequeued) as usize;
        if buffered >= RX_BUFFER_SIZE {
            return self.rx_finished();
        }
        let idx: usize = enqueued as usize % RX_BUFFER_SIZE;
        self.rx_buffer[idx] = (value % 256) as u8;
        self.rx_enqueued_bytes = enqueued.wrapping_add(1);
        if buffered + 1 < RX_BUFFER_SIZE {
            IrqStep { next: IrqPhase::RxStatus, invoke: None }
        } else {
            self.rx_finished()
        }
    }
}

/// One step of the interrupt handler of a port.
///
/// The handler starts in `IrqPhase::Identify`. In each phase the caller reads
/// the register that the phase names and hands the value in; it then performs
/// the operations that were added to `ops`, calls the callback that the step
/// names, and goes on with the phase that the step names, until that is
/// `IrqPhase::Done`. Waiting for the transmitter to become idle has no bound:
/// the handler stays in `IrqPhase::TxIdle` for as long as the line status says
/// that it is busy.
pub fn uart_handle_irq<C>(
    unit: &mut UartInfo<C>,
    phase: IrqPhase,
    value: u32,
    ops: &mut Vec<RegOp>,
) -> (step: IrqStep)
    ensures
        (final(unit)@, step, final(ops)@) == ({
            let t = irq_transition(old(unit)@, phase, value);
            (t.0, t.1, old(ops)@ + t.2)
        }),
        final(unit)@.wf(),
        step.invoke == Some(UartCallback::Rx) ==> final(unit)@.rx_callback is Some,
        step.invoke == Some(UartCallback::TxEmpty) ==> final(unit)@.tx_empty_callback is Some,
{
    proof {
        use_type_invariant(&*unit);
        assert(old(ops)@ + Seq::<RegOp>::empty() =~= old(ops)@);
    }
    let step = match phase {
        IrqPhase::Identify => {
            let cause: u32 = value & UART_IIR_ID_MASK;
            if cause == UART_IIR_NONE {
                IrqStep { next: IrqPhase::Done, invoke: None }
            } else if cause == UART_IIR_TX_EMPTY {
                IrqStep { next: IrqPhase::TxFifoLevel, invoke: None }
            } else if cause == UART_IIR_RX_DATA || cause == UART_IIR_RX_TIMEOUT {
                if unit.rx_buffered() < RX_BUFFER_SIZE {
                    IrqStep { next: IrqPhase::RxStatus, invoke: None }
                } else {
                    unit.rx_finished()
                }
            } else {
                IrqStep { next: IrqPhase::Identify, invoke: None }
            }
        },
        IrqPhase::TxFifoLevel => unit.drain_tx(value, ops),
        IrqPhase::TxIdle => {
            if value & UART_LSR_TX_IDLE != 0 {
                IrqStep {
                    next: IrqPhase::Identify,
                    invoke: if unit.tx_empty_callback.is_some() {
                        Some(UartCallback::TxEmpty)
                    } else {
                        None
                    },
                }
            } else {
                IrqStep { next: IrqPhase::TxIdle, invoke: None }
            }
        },
        IrqPhase::RxStatus => {
            if unit.rx_buffered() < RX_BUFFER_SIZE && value & UART_LSR_DATA_READY != 0 {
                IrqStep { next: IrqPhase::RxData, invoke: None }
            } else {
                unit.rx_finished()
            }
        },
        IrqPhase::RxData => unit.store_rx(value),
        IrqPhase::Done => IrqStep { next: IrqPhase::Done, invoke: None },
    };
    proof {
        use_type_invariant(&*unit);
    }
    step
}

} // verus!
