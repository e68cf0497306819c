//! Intercore transport: variable-length messages exchanged with the other
//! processor through a pair of shared ring buffers, one per direction.
//!
//! Each buffer is a [`BufferHeader`] followed by its data area. A message is
//! framed as a four-byte little-endian length, the payload, and padding up to
//! the next 16-byte boundary. The producer of a buffer is the only writer of
//! its write position and the consumer the only writer of its read position,
//! so neither side ever takes a lock: the payload is in place before the
//! position that exposes it is stored, and the doorbell is rung last.

use vstd::prelude::*;
use vstd::arithmetic::power2::pow2;
use vstd::arithmetic::power2::lemma2_to64;
use vstd::bits::lemma_u32_shl_is_mul;
use vstd::bits::lemma_u32_pow2_no_overflow;
use crate::error::Error;
use crate::register::RegOp;
use crate::register::write_reg32;

verus! {

/// Messages in a ring start on a multiple of this many bytes.
pub const RINGBUFFER_ALIGNMENT: u32 = 16;

/// Size in bytes of a [`BufferHeader`] in shared memory.
pub const BUFFER_HEADER_SIZE: u32 = 64;

/// Size in bytes of the length that precedes each payload.
pub const LENGTH_PREFIX_SIZE: u32 = 4;

/// The largest data area that a handshake can negotiate: the largest buffer,
/// `2^31` bytes, less its header.
pub const MAX_BUFFER_SIZE: usize = 0x7FFF_FFC0;

/// Base address of the mailbox that carries the handshake and the doorbells.
pub const MAILBOX_BASE: usize = 0x21050000;

/// Mailbox register that holds the command of the oldest pending message.
pub const MAILBOX_CMD_POP: usize = 0x50;

/// Mailbox register that holds the data word of the oldest pending message.
pub const MAILBOX_DATA_POP: usize = 0x54;

/// Mailbox register that counts the pending messages.
pub const MAILBOX_FIFO_POP_CNT: usize = 0x58;

/// Mailbox register whose bits ring the peer's doorbells.
pub const MAILBOX_SW_TX_INT_PORT: usize = 0x14;

/// Doorbell bit: a message was enqueued.
pub const DOORBELL_ENQUEUED: u32 = 0x1;

/// Doorbell bit: a message was dequeued, and its space is free again.
pub const DOORBELL_DEQUEUED: u32 = 0x2;

/// Mailbox command whose data word is the base of the outbound buffer.
pub const CMD_OUTBOUND_BASE: u32 = 0xBA5E0001;

/// Mailbox command whose data word is the base of the inbound buffer.
pub const CMD_INBOUND_BASE: u32 = 0xBA5E0002;

/// Mailbox command that ends the handshake.
pub const CMD_HANDSHAKE_COMPLETE: u32 = 0xBA5E0003;

/// The record at the start of each shared buffer. Both positions are byte
/// offsets into the data area that follows the header.
#[derive(Clone, Copy, Debug, PartialEq, Eq)]
pub struct BufferHeader {
    /// Where the producer of this buffer will write next.
    pub write_position: u32,
    /// Where the owner of this header will read next in the other buffer.
    pub read_position: u32,
    /// Pads the header to its fixed size.
    pub reserved: [u32; 14],
}

impl BufferHeader {
    /// A header with both positions at the start of the data area and
    /// its padding zeroed.
    pub fn new() -> (header: BufferHeader)
        ensures
            header.write_position == 0,
            header.read_position == 0,
            header.reserved@ == Seq::new(14, |i: int| 0u32),
    {
        let header = BufferHeader { write_position: 0, read_position: 0, reserved: [0; 14] };
        assert(header.reserved@ =~= Seq::new(14, |i: int| 0u32));
        header
    }
}

// ---- the ring as a mathematical object ----

/// The four bytes that encode `len`, least significant first.
pub open spec fn length_prefix(len: u32) -> Seq<u8> {
    seq![
        (len % 256) as u8,
        (len / 0x100 % 256) as u8,
        (len / 0x1_0000 % 256) as u8,
        (len / 0x100_0000) as u8,
    ]
}

/// The length that the first four bytes of `bytes` encode.
pub open spec fn prefix_value(bytes: Seq<u8>) -> int
    recommends
        bytes.len() >= 4,
{
    bytes[0] + 0x100 * bytes[1] + 0x1_0000 * bytes[2] + 0x100_0000 * bytes[3]
}

/// A message as it lies in the ring: its length, then its payload.
pub open spec fn frame(payload: Seq<u8>) -> Seq<u8> {
    length_prefix(payload.len() as u32) + payload
}

/// The index that lies `k` bytes after `at` in a ring of `size` bytes.
pub open spec fn ring_index(at: int, k: int, size: int) -> int {
    if at + k >= size {
        at + k - size
    } else {
        at + k
    }
}

/// How many bytes after `at` the index `i` lies in a ring of `size` bytes.
pub open spec fn ring_offset(at: int, i: int, size: int) -> int {
    if i >= at {
        i - at
    } else {
        i - at + size
    }
}

/// The ring `data` after `bytes` were written from index `at` on, going round
/// the end of the ring to its start.
pub open spec fn ring_write(data: Seq<u8>, at: int, bytes: Seq<u8>) -> Seq<u8> {
    Seq::new(
        data.len(),
        |i: int|
            if ring_offset(at, i, data.len() as int) < bytes.len() {
                bytes[ring_offset(at, i, data.len() as int)]
            } else {
                data[i]
            },
    )
}

/// The `len` bytes that lie in the ring `data` from index `at` on, going round
/// the end of the ring to its start.
pub open spec fn ring_read(data: Seq<u8>, at: int, len: int) -> Seq<u8> {
    Seq::new(len as nat, |k: int| data[ring_index(at, k, data.len() as int)])
}

/// `value` rounded up to the next multiple of the ring alignment.
pub open spec fn spec_round_up(value: int) -> int {
    (value + 15) / 16 * 16
}

/// The position that follows a message of `consumed` bytes at `position`:
/// rounded up to the alignment, and back at the start of the ring once it
/// reaches the end.
pub open spec fn advance(position: int, consumed: int, size: int) -> int {
    let next = spec_round_up(position + consumed);
    if next >= size {
        next - size
    } else {
        next
    }
}

/// The bytes that a producer at `write_position` may fill before it would run
/// into a consumer at `read_position`. Equal positions mean an empty ring.
pub open spec fn free_space(write_position: int, read_position: int, size: int) -> int {
    if read_position <= write_position {
        read_position - write_position + size
    } else {
        read_position - write_position
    }
}

/// The bytes that a consumer at `read_position` may take before it would run
/// into a producer at `write_position`.
pub open spec fn available_data(read_position: int, write_position: int, size: int) -> int {
    if write_position >= read_position {
        write_position - read_position
    } else {
        write_position - read_position + size
    }
}

/// Whether a message of `len` bytes can be enqueued into a ring of `size`
/// bytes, and if not, why. The checks are made in this order.
pub open spec fn enqueue_verdict(
    remote_read_position: u32,
    local_write_position: u32,
    size: int,
    len: int,
) -> Result<(), Error> {
    if remote_read_position >= size {
        Err(Error::InvalidPeerPosition)
    } else if free_space(local_write_position as int, remote_read_position as int, size)
        < LENGTH_PREFIX_SIZE + len + RINGBUFFER_ALIGNMENT {
        Err(Error::InsufficientSpace)
    } else if size - local_write_position < LENGTH_PREFIX_SIZE {
        Err(Error::InsufficientContiguousSpace)
    } else {
        Ok(())
    }
}

/// Whether a message can be dequeued from the ring `data` into a destination
/// of `capacity` bytes: its length if so, and if not, why. The checks are made
/// in this order.
pub open spec fn dequeue_verdict(
    remote_write_position: u32,
    local_read_position: u32,
    data: Seq<u8>,
    capacity: int,
) -> Result<usize, Error> {
    let size = data.len() as int;
    let available = available_data(local_read_position as int, remote_write_position as int, size);
    if remote_write_position > size {
        Err(Error::InvalidPeerPosition)
    } else if available < LENGTH_PREFIX_SIZE {
        Err(Error::InsufficientData)
    } else if size - local_read_position < LENGTH_PREFIX_SIZE {
        Err(Error::InsufficientContiguousSpace)
    } else {
        let len = prefix_value(data.skip(local_read_position as int));
        if len + LENGTH_PREFIX_SIZE > available {
            Err(Error::MalformedMessage)
        } else if len > capacity {
            Err(Error::DestinationTooSmall(len as usize))
        } else {
            Ok(len as usize)
        }
    }
}

/// The store that rings the doorbell bits `bits` at the peer.
pub open spec fn doorbell(bits: u32) -> RegOp {
    RegOp::Write32 { base_addr: MAILBOX_BASE, offset: MAILBOX_SW_TX_INT_PORT, value: bits }
}

// ---- helpers ----

/// Rounds `value` up to the next multiple of the ring alignment.
pub fn round_up(value: u64) -> (rounded: u64)
    requires
        value <= u64::MAX - 15,
    ensures
        rounded == spec_round_up(value as int),
        value <= rounded < value + 16,
        rounded % 16 == 0,
{
    (value + 15) / 16 * 16
}

/// Writes `src` into the ring `data` from index `at` on: first up to the
/// physical end of the ring, then the rest from its start.
pub fn ring_copy_in(data: &mut [u8], at: usize, src: &[u8])
    requires
        at <= old(data)@.len(),
        src@.len() <= old(data)@.len(),
    ensures
        final(data)@ == ring_write(old(data)@, at as int, src@),
{
    let size: usize = data.len();
    let to_end: usize = size - at;
    let first: usize = if src.len() < to_end {
        src.len()
    } else {
        to_end
    };
    let mut k: usize = 0;
    while k < first
        invariant
            k <= first <= src@.len(),
            first <= size - at,
            size == old(data)@.len(),
            data@.len() == size,
            data@ == ring_write(old(data)@, at as int, src@.take(k as int)),
        decreases first - k,
    {
        data[at + k] = src[k];
        k = k + 1;
    }
    while k < src.len()
        invariant
            first <= k <= src@.len(),
            first == size - at || first == src@.len(),
            first <= size - at,
            src@.len() <= size,
            size == old(data)@.len(),
            data@.len() == size,
            data@ == ring_write(old(data)@, at as int, src@.take(k as int)),
        decreases src@.len() - k,
    {
        data[k - first] = src[k];
        k = k + 1;
    }
    assert(src@.take(k as int) == src@);
}

/// Reads `len` bytes from the ring `data` from index `at` on into the start of
/// `dest`: first up to the physical end of the ring, then the rest from its
/// start. What lies in `dest` behind them is kept.
pub fn ring_copy_out(data: &[u8], at: usize, dest: &mut [u8], len: usize)
    requires
        at <= data@.len(),
        len <= data@.len(),
        len <= old(dest)@.len(),
    ensures
        final(dest)@ == ring_read(data@, at as int, len as int) + old(dest)@.skip(len as int),
{
    let size: usize = data.len();
    let to_end: usize = size - at;
    let first: usize = if len < to_end {
        len
    } else {
        to_end
    };
    let mut k: usize = 0;
    while k < first
        invariant
            k <= first <= len,
            first <= size - at,
            size == data@.len(),
            len <= dest@.len(),
            dest@.len() == old(dest)@.len(),
            dest@ == ring_read(data@, at as int, k as int) + old(dest)@.skip(k as int),
        decreases first - k,
    {
        dest[k] = data[at + k];
        k = k + 1;
    }
    while k < len
        invariant
            first <= k <= len,
            first == size - at || first == len,
            first <= size - at,
            len <= size,
            size == data@.len(),
            len <= dest@.len(),
            dest@.len() == old(dest)@.len(),
            dest@ == ring_read(data@, at as int, k as int) + old(dest)@.skip(k as int),
        decreases len - k,
    {
        dest[k] = data[k - first];
        k = k + 1;
    }
}

/// Encodes `len` as the four bytes of a length prefix.
pub fn encode_length(len: u32) -> (bytes: [u8; 4])
    ensures
        bytes@ == length_prefix(len),
{
    let bytes: [u8; 4] = [
        (len % 256) as u8,
        (len / 0x100 % 256) as u8,
        (len / 0x1_0000 % 256) as u8,
        (len / 0x100_0000) as u8,
    ];
    assert(bytes@ =~= length_prefix(len));
    bytes
}

/// Decodes the length prefix that lies in `data` at `at`.
pub fn decode_length(data: &[u8], at: usize) -> (len: u32)
    requires
        at + 4 <= data@.len(),
    ensures
        len == prefix_value(data@.skip(at as int)),
{
    let b0: u32 = data[at] as u32;
    let b1: u32 = data[at + 1] as u32;
    let b2: u32 = data[at + 2] as u32;
    let b3: u32 = data[at + 3] as u32;
    b0 + 0x100 * b1 + 0x1_0000 * b2 + 0x100_0000 * b3
}

// ---- the handshake ----

/// The size in bytes of the buffer that a base word announces: two to the
/// power of the word's low five bits.
pub open spec fn spec_buffer_size(buffer_base: usize) -> nat {
    pow2((buffer_base % 32) as nat)
}

/// The address of the buffer's header: the base word without its low five bits.
pub open spec fn spec_buffer_header(buffer_base: usize) -> int {
    buffer_base - buffer_base % 32
}

/// The size in bytes of the buffer that a base word announces.
pub fn get_buffer_size(buffer_base: usize) -> (size: u32)
    ensures
        size == spec_buffer_size(buffer_base),
{
    let exponent: u32 = (buffer_base % 32) as u32;
    proof {
        lemma2_to64();
        lemma_u32_pow2_no_overflow(exponent as nat);
        lemma_u32_shl_is_mul(1u32, exponent);
    }
    1u32 << exponent
}

/// The address of the header of the buffer that a base word announces.
pub fn get_buffer_header(buffer_base: usize) -> (header: usize)
    ensures
        header == spec_buffer_header(buffer_base),
{
    buffer_base - buffer_base % 32
}

/// What the mailbox has announced so far: the base words of the two buffers.
/// A word that was not announced is zero; one announced twice holds the later
/// value.
#[derive(Clone, Copy, Debug, PartialEq, Eq, Structural)]
pub struct Handshake {
    /// Base word of the buffer this side writes.
    pub base_write: usize,
    /// Base word of the buffer this side reads.
    pub base_read: usize,
}

impl Handshake {
    /// The state before any message.
    pub fn new() -> (handshake: Handshake)
        ensures
            handshake == (Handshake { base_write: 0, base_read: 0 }),
    {
        Handshake { base_write: 0, base_read: 0 }
    }

    /// The state after the mailbox message `(command, data)`.
    pub open spec fn spec_receive_message(self, command: u32, data: u32) -> Handshake {
        if command == CMD_OUTBOUND_BASE {
            Handshake { base_write: data as usize, ..self }
        } else if command == CMD_INBOUND_BASE {
            Handshake { base_read: data as usize, ..self }
        } else {
            self
        }
    }

    /// Takes one mailbox message in. Returns whether it ends the handshake;
    /// until it does, the caller waits for the next message. Messages with
    /// any other command are passed over.
    pub fn receive_message(&mut self, command: u32, data: u32) -> (complete: bool)
        ensures
            *final(self) == old(self).spec_receive_message(command, data),
            complete == (command == CMD_HANDSHAKE_COMPLETE),
    {
        if command == CMD_OUTBOUND_BASE {
            self.base_write = data as usize;
        } else if command == CMD_INBOUND_BASE {
            self.base_read = data as usize;
        }
        command == CMD_HANDSHAKE_COMPLETE
    }
}

/// The outcome of a handshake that announced `handshake`: the addresses of the
/// inbound and outbound headers and the size of each data area, or why the
/// buffers cannot be used.
pub open spec fn negotiated_buffers(handshake: Handshake) -> Result<(usize, usize, u32), Error> {
    let inbound_size = spec_buffer_size(handshake.base_read);
    let outbound_size = spec_buffer_size(handshake.base_write);
    if inbound_size != outbound_size {
        Err(Error::MismatchedBufferSizes)
    } else if inbound_size <= BUFFER_HEADER_SIZE {
        Err(Error::BufferTooSmall)
    } else {
        Ok(
            (
                spec_buffer_header(handshake.base_read) as usize,
                spec_buffer_header(handshake.base_write) as usize,
                (inbound_size - BUFFER_HEADER_SIZE) as u32,
            ),
        )
    }
}

/// Resolves the two shared buffers from what the mailbox announced: the
/// address of the inbound header, the address of the outbound header, and the
/// size of the data area that follows each.
pub fn get_intercore_buffers(handshake: &Handshake) -> (result: Result<(usize, usize, u32), Error>)
    ensures
        result == negotiated_buffers(*handshake),
        result matches Ok((_, _, buf_size)) ==> buf_size <= MAX_BUFFER_SIZE && buf_size % 16 == 0
            && buf_size >= 64,
{
    let inbound_buffer_size: u32 = get_buffer_size(handshake.base_read);
    let outbound_buffer_size: u32 = get_buffer_size(handshake.base_write);
    if inbound_buffer_size != outbound_buffer_size {
        return Err(Error::MismatchedBufferSizes);
    }
    if inbound_buffer_size <= BUFFER_HEADER_SIZE {
        return Err(Error::BufferTooSmall);
    }
    proof {
        lemma_negotiated_size(handshake.base_read);
    }
    let buf_size: u32 = inbound_buffer_size - BUFFER_HEADER_SIZE;
    let inbound: usize = get_buffer_header(handshake.base_read);
    let outbound: usize = get_buffer_header(handshake.base_write);
    Ok((inbound, outbound, buf_size))
}

/// A buffer larger than its header leaves a data area that is a multiple of
/// the alignment and no larger than `MAX_BUFFER_SIZE`.
proof fn lemma_negotiated_size(buffer_base: usize)
    requires
        spec_buffer_size(buffer_base) > BUFFER_HEADER_SIZE,
    ensures
        spec_buffer_size(buffer_base) - BUFFER_HEADER_SIZE <= MAX_BUFFER_SIZE,
        (spec_buffer_size(buffer_base) - BUFFER_HEADER_SIZE) % 16 == 0,
        spec_buffer_size(buffer_base) - BUFFER_HEADER_SIZE >= 64,
{
    let e = (buffer_base % 32) as nat;
    lemma2_to64();
    if e <= 6 {
        vstd::arithmetic::power2::lemma_pow2_strictly_increases(e, 7);
    } else {
        vstd::arithmetic::power2::lemma_pow2_adds(7, (e - 7) as nat);
        vstd::arithmetic::power2::lemma_pow2_pos((e - 7) as nat);
        if e < 31 {
            vstd::arithmetic::power2::lemma_pow2_strictly_increases(e, 31);
        }
        let q = pow2((e - 7) as nat);
        assert(pow2(e) == 128 * q);
    }
}

// ---- enqueue and dequeue ----

/// Adds the message `src` to the ring `data`, which this side produces.
///
/// `inbound` is the peer's header, of which only the read position is used;
/// `outbound` is this side's header, whose write position is advanced. On
/// success the doorbell is asked for last. A refused message changes nothing.
pub fn enqueue_data(
    inbound: &BufferHeader,
    outbound: &mut BufferHeader,
    data: &mut [u8],
    src: &[u8],
    ops: &mut Vec<RegOp>,
) -> (result: Result<(), Error>)
    requires
        old(data)@.len() <= MAX_BUFFER_SIZE,
    ensures
        result == enqueue_verdict(
            inbound.read_position,
            old(outbound).write_position,
            old(data)@.len() as int,
            src@.len() as int,
        ),
        result is Err ==> {
            &&& *final(outbound) == *old(outbound)
            &&& final(data)@ == old(data)@
            &&& final(ops)@ == old(ops)@
        },
        result is Ok ==> {
            &&& final(data)@ == ring_write(
                old(data)@,
                old(outbound).write_position as int,
                frame(src@),
            )
            &&& final(outbound).write_position == advance(
                old(outbound).write_position as int,
                LENGTH_PREFIX_SIZE + src@.len(),
                old(data)@.len() as int,
            )
            &&& final(outbound).read_position == old(outbound).read_position
            &&& final(outbound).reserved == old(outbound).reserved
            &&& final(ops)@ == old(ops)@.push(doorbell(DOORBELL_ENQUEUED))
        },
{
    let size: u64 = data.len() as u64;
    let remote_read_position: u64 = inbound.read_position as u64;
    let local_write_position: u64 = outbound.write_position as u64;
    let len: u64 = src.len() as u64;

    if remote_read_position >= size {
        return Err(Error::InvalidPeerPosition);
    }
    // If the read position is not ahead of the write position, the free space
    // goes round the end of the ring.

    let free: u64 = if remote_read_position <= local_write_position {
        let used: u64 = local_write_position - remote_read_position;
        if used > size {
            return Err(Error::InsufficientSpace);
        }
        size - used
    } else {
        remote_read_position - local_write_position
    };
    if free < 20 || free - 20 < len {
        return Err(Error::InsufficientSpace);
    }
    // The length must lie in one piece; the payload may go round.

    if local_write_position > size || size - local_write_position < 4 {
        return Err(Error::InsufficientContiguousSpace);
    }
    let prefix: [u8; 4] = encode_length(src.len() as u32);
    ring_copy_in(data, local_write_position as usize, prefix.as_slice());
    ring_copy_in(data, (local_write_position + 4) as usize, src);
    proof {
        lemma_ring_write_frame(
            old(data)@,
            local_write_position as int,
            length_prefix(src@.len() as u32),
            src@,
        );
    }
    let mut next: u64 = round_up(local_write_position + 4 + len);
    if next >= size {
        next = next - size;
    }
    outbound.write_position = next as u32;
    write_reg32(ops, MAILBOX_BASE, MAILBOX_SW_TX_INT_PORT, DOORBELL_ENQUEUED);
    Ok(())
}

/// Takes the oldest message out of the ring `data`, which the peer produces,
/// into the start of `dest`, and returns its length.
///
/// `inbound` is the peer's header, of which only the write position is used;
/// `outbound` is this side's header, whose read position is advanced. On
/// success the doorbell is asked for last. A refusal changes nothing; when the
/// destination is too small the error carries the length to come back with.
pub fn dequeue_data(
    outbound: &mut BufferHeader,
    inbound: &BufferHeader,
    data: &[u8],
    dest: &mut [u8],
    ops: &mut Vec<RegOp>,
) -> (result: Result<usize, Error>)
    requires
        data@.len() <= MAX_BUFFER_SIZE,
    ensures
        result == dequeue_verdict(
            inbound.write_position,
            old(outbound).read_position,
            data@,
            old(dest)@.len() as int,
        ),
        result is Err ==> {
            &&& *final(outbound) == *old(outbound)
            &&& final(dest)@ == old(dest)@
            &&& final(ops)@ == old(ops)@
        },
        result matches Ok(len) ==> {
            &&& final(dest)@ == ring_read(
                data@,
                ring_index(
                    old(outbound).read_position as int,
                    LENGTH_PREFIX_SIZE as int,
                    data@.len() as int,
                ),
                len as int,
            ) + old(dest)@.skip(len as int)
            &&& final(outbound).read_position == advance(
                old(outbound).read_position as int,
                LENGTH_PREFIX_SIZE + len,
                data@.len() as int,
            )
            &&& final(outbound).write_position == old(outbound).write_position
            &&& final(outbound).reserved == old(outbound).reserved
            &&& final(ops)@ == old(ops)@.push(doorbell(DOORBELL_DEQUEUED))
        },
{
    let size: u64 = data.len() as u64;
    let remote_write_position: u64 = inbound.write_position as u64;
    let local_read_position: u64 = outbound.read_position as u64;

    if remote_write_position > size {
        return Err(Error::InvalidPeerPosition);
    }
    // If the write position is behind the read position, the data goes round
    // the end of the ring.

    let available: u64 = if remote_write_position >= local_read_position {
        remote_write_position - local_read_position
    } else {
        let behind: u64 = local_read_position - remote_write_position;
        if behind > size {
            return Err(Error::InsufficientData);
        }
        size - behind
    };
    if available < 4 {
        return Err(Error::InsufficientData);
    }
    if local_read_position > size || size - local_read_position < 4 {
        return Err(Error::InsufficientContiguousSpace);
    }
    let block_size: u32 = decode_length(data, local_read_position as usize);

    if block_size as u64 + 4 > available {
        return Err(Error::MalformedMessage);
    }
    if block_size as u64 > dest.len() as u64 {
        return Err(Error::DestinationTooSmall(block_size as usize));
    }
    let start: u64 = if local_read_position + 4 >= size {
        local_read_position + 4 - size
    } else {
        local_read_position + 4
    };
    ring_copy_out(data, start as usize, dest, block_size as usize);

    let mut next: u64 = round_up(local_read_position + 4 + block_size as u64);
    if next >= size {
        next = next - size;
    }
    outbound.read_position = next as u32;
    write_reg32(ops, MAILBOX_BASE, MAILBOX_SW_TX_INT_PORT, DOORBELL_DEQUEUED);
    Ok(block_size as usize)
}

// ---- laws ----

/// Writing a length and then, right behind it, a payload is writing the two
/// as one piece.
proof fn lemma_ring_write_frame(data: Seq<u8>, at: int, prefix: Seq<u8>, payload: Seq<u8>)
    requires
        prefix.len() == 4,
        0 <= at,
        at + 4 <= data.len(),
        4 + payload.len() <= data.len(),
    ensures
        ring_write(ring_write(data, at, prefix), at + 4, payload) == ring_write(
            data,
            at,
            prefix + payload,
        ),
{
    let size = data.len() as int;
    let once = ring_write(data, at, prefix);
    let twice = ring_write(once, at + 4, payload);
    let whole = ring_write(data, at, prefix + payload);
    assert forall|i: int| 0 <= i < size implies twice[i] == whole[i] by {
        let o1 = ring_offset(at, i, size);
        let o2 = ring_offset(at + 4, i, size);
        if o1 < 4 {
            assert(o2 >= payload.len());
        } else {
            assert(o2 == o1 - 4);
        }
    }
    assert(twice =~= whole);
}

/// The length prefix decodes to the length it was made from.
pub proof fn lemma_length_prefix_round_trip(len: u32)
    ensures
        length_prefix(len).len() == 4,
        prefix_value(length_prefix(len)) == len,
{
}

/// What is written into a ring is read back from the same place, as long as
/// it is no longer than the ring.
pub proof fn lemma_ring_read_back(data: Seq<u8>, at: int, bytes: Seq<u8>)
    requires
        0 <= at <= data.len(),
        bytes.len() <= data.len(),
    ensures
        ring_read(ring_write(data, at, bytes), at, bytes.len() as int) == bytes,
{
    let size = data.len() as int;
    let written = ring_write(data, at, bytes);
    assert forall|k: int| 0 <= k < bytes.len() implies written[ring_index(at, k, size)]
        == bytes[k] by {
        assert(ring_offset(at, ring_index(at, k, size), size) == k);
    }
    assert(ring_read(written, at, bytes.len() as int) =~= bytes);
}

/// A message that was accepted can be taken out again by a consumer that
/// reads where it was written: the consumer finds its length, and, given a
/// destination that is large enough, its bytes as they were sent.
pub proof fn lemma_enqueued_message_is_dequeued(
    data: Seq<u8>,
    remote_read_position: u32,
    write_position: u32,
    payload: Seq<u8>,
    capacity: int,
)
    requires
        data.len() <= MAX_BUFFER_SIZE,
        enqueue_verdict(
            remote_read_position,
            write_position,
            data.len() as int,
            payload.len() as int,
        ) is Ok,
        payload.len() <= capacity,
    ensures
        ({
            let size = data.len() as int;
            let written = ring_write(data, write_position as int, frame(payload));
            let next = advance(write_position as int, LENGTH_PREFIX_SIZE + payload.len(), size);
            &&& 0 <= next < size
            &&& dequeue_verdict(next as u32, write_position, written, capacity) == Ok::<
                usize,
                Error,
            >(payload.len() as usize)
            &&& ring_read(
                written,
                ring_index(write_position as int, LENGTH_PREFIX_SIZE as int, size),
                payload.len() as int,
            ) == payload
        }),
{
    let size = data.len() as int;
    let at = write_position as int;
    let len = payload.len() as int;
    let written = ring_write(data, at, frame(payload));
    let next = advance(at, LENGTH_PREFIX_SIZE + len, size);
    let prefix = length_prefix(len as u32);
    lemma_length_prefix_round_trip(len as u32);
    assert forall|j: int| 0 <= j < 4 implies written.skip(at)[j] == prefix[j] by {
        assert(ring_offset(at, at + j, size) == j);
        assert(frame(payload)[j] == prefix[j]);
    }
    assert(prefix_value(written.skip(at)) == len);
    let start = ring_index(at, 4, size);
    assert forall|k: int| 0 <= k < len implies written[ring_index(start, k, size)]
        == payload[k] by {
        let i = ring_index(start, k, size);
        assert(ring_offset(at, i, size) == 4 + k);
        assert(frame(payload)[4 + k] == payload[k]);
    }
    assert(ring_read(written, start, len) =~= payload);
}

/// Round trip: a message of at most `size - 20` bytes, enqueued into an empty
/// ring whose size and positions are multiples of the alignment, is accepted;
/// dequeued at once into a destination that can hold it, it comes out byte for
/// byte, and the write position and the read position both end on the same
/// multiple of the alignment, below the size of the ring.
pub proof fn lemma_round_trip(data: Seq<u8>, position: u32, payload: Seq<u8>, capacity: int)
    requires
        data.len() <= MAX_BUFFER_SIZE,
        data.len() % 16 == 0,
        position % 16 == 0,
        position < data.len(),
        payload.len() + 20 <= data.len(),
        payload.len() <= capacity,
    ensures
        ({
            let size = data.len() as int;
            let written = ring_write(data, position as int, frame(payload));
            let next = advance(position as int, LENGTH_PREFIX_SIZE + payload.len(), size);
            &&& enqueue_verdict(position, position, size, payload.len() as int) is Ok
            &&& dequeue_verdict(next as u32, position, written, capacity) == Ok::<usize, Error>(
                payload.len() as usize,
            )
            &&& ring_read(
                written,
                ring_index(position as int, LENGTH_PREFIX_SIZE as int, size),
                payload.len() as int,
            ) == payload
            &&& next % 16 == 0
            &&& 0 <= next < size
        }),
{
    lemma_enqueued_message_is_dequeued(data, position, position, payload, capacity);
}

} // verus!
