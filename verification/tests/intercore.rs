use mt3620_rt::error::Error;
use mt3620_rt::intercore::decode_length;
use mt3620_rt::intercore::dequeue_data;
use mt3620_rt::intercore::encode_length;
use mt3620_rt::intercore::enqueue_data;
use mt3620_rt::intercore::get_buffer_header;
use mt3620_rt::intercore::get_buffer_size;
use mt3620_rt::intercore::get_intercore_buffers;
use mt3620_rt::intercore::ring_copy_in;
use mt3620_rt::intercore::ring_copy_out;
use mt3620_rt::intercore::round_up;
use mt3620_rt::intercore::BufferHeader;
use mt3620_rt::intercore::Handshake;
use mt3620_rt::register::RegOp;

const ENQUEUED: RegOp = RegOp::Write32 { base_addr: 0x2105_0000, offset: 0x14, value: 1 };
const DEQUEUED: RegOp = RegOp::Write32 { base_addr: 0x2105_0000, offset: 0x14, value: 2 };

fn header(write_position: u32, read_position: u32) -> BufferHeader {
    let mut h = BufferHeader::new();
    h.write_position = write_position;
    h.read_position = read_position;
    h
}

#[test]
fn round_trip_on_empty_buffer() {
    let mut data = vec![0xEEu8; 64];
    let mut ours = header(0, 0);
    let mut peer = header(0, 0);
    let mut ops = Vec::new();
    let payload = [1u8, 2, 3, 4, 5];
    assert_eq!(enqueue_data(&peer, &mut ours, &mut data, &payload, &mut ops), Ok(()));
    assert_eq!(&data[..9], &[5, 0, 0, 0, 1, 2, 3, 4, 5]);
    assert_eq!(data[9], 0xEE);
    assert_eq!(ours.write_position, 16);
    assert_eq!(ops, vec![ENQUEUED]);

    let mut dest = [0xAAu8; 8];
    assert_eq!(dequeue_data(&mut peer, &ours, &data, &mut dest, &mut ops), Ok(5));
    assert_eq!(dest, [1, 2, 3, 4, 5, 0xAA, 0xAA, 0xAA]);
    assert_eq!(peer.read_position, 16);
    assert_eq!(peer.write_position, 0);
    assert_eq!(ops, vec![ENQUEUED, DEQUEUED]);
}

#[test]
fn largest_message_fills_all_but_the_slack() {
    let mut data = vec![0u8; 64];
    let mut ours = header(32, 0);
    let mut peer = header(0, 32);
    let mut ops = Vec::new();
    let payload: Vec<u8> = (0..44).collect();
    assert_eq!(enqueue_data(&peer, &mut ours, &mut data, &payload, &mut ops), Ok(()));
    assert_eq!(ours.write_position, 16);
    assert_eq!(ours.write_position % 16, 0);
    let mut dest = vec![0u8; 44];
    assert_eq!(dequeue_data(&mut peer, &ours, &data, &mut dest, &mut ops), Ok(44));
    assert_eq!(dest, payload);
    assert_eq!(peer.read_position, 16);

    let too_long: Vec<u8> = (0..45).collect();
    let mut fresh = header(32, 0);
    let before = data.clone();
    assert_eq!(
        enqueue_data(&header(0, 32), &mut fresh, &mut data, &too_long, &mut ops),
        Err(Error::InsufficientSpace)
    );
    assert_eq!(data, before);
}

#[test]
fn payload_that_crosses_the_end_is_rebuilt() {
    let mut data = vec![0u8; 64];
    let mut ours = header(0, 0);
    let mut peer = header(0, 0);
    let mut ops = Vec::new();
    let mut dest = [0u8; 64];

    // Fill the buffer near its end, then drain it.
    let first: Vec<u8> = (100..140).collect();
    assert_eq!(enqueue_data(&peer, &mut ours, &mut data, &first, &mut ops), Ok(()));
    assert_eq!(ours.write_position, 48);
    assert_eq!(dequeue_data(&mut peer, &ours, &data, &mut dest, &mut ops), Ok(40));
    assert_eq!(&dest[..40], &first[..]);
    assert_eq!(peer.read_position, 48);

    // The next payload starts at 52 and goes round the end.
    let second: Vec<u8> = (1..=30).collect();
    assert_eq!(enqueue_data(&peer, &mut ours, &mut data, &second, &mut ops), Ok(()));
    assert_eq!(&data[48..52], &[30, 0, 0, 0]);
    assert_eq!(&data[52..64], &second[..12]);
    assert_eq!(&data[..18], &second[12..]);
    assert_eq!(ours.write_position, 32);

    assert_eq!(dequeue_data(&mut peer, &ours, &data, &mut dest, &mut ops), Ok(30));
    assert_eq!(&dest[..30], &second[..]);
    assert_eq!(peer.read_position, 32);
}

#[test]
fn payload_that_starts_at_the_wrap() {
    let mut data = vec![0u8; 64];
    let mut ours = header(60, 0);
    let peer = header(0, 32);
    let mut ops = Vec::new();
    assert_eq!(enqueue_data(&peer, &mut ours, &mut data, &[7, 8, 9], &mut ops), Ok(()));
    assert_eq!(&data[60..64], &[3, 0, 0, 0]);
    assert_eq!(&data[..3], &[7, 8, 9]);
    assert_eq!(ours.write_position, 16);

    let mut reader = header(0, 60);
    let mut dest = [0u8; 3];
    assert_eq!(dequeue_data(&mut reader, &ours, &data, &mut dest, &mut ops), Ok(3));
    assert_eq!(dest, [7, 8, 9]);
    assert_eq!(reader.read_position, 16);
}

#[test]
fn enqueue_refusals_leave_everything_alone() {
    let mut data = vec![0x55u8; 64];
    let before = data.clone();
    let mut ops = Vec::new();

    let mut ours = header(16, 3);
    assert_eq!(
        enqueue_data(&header(0, 64), &mut ours, &mut data, &[1], &mut ops),
        Err(Error::InvalidPeerPosition)
    );
    // Free space is 32 - 16 = 16, and one byte needs 21.
    assert_eq!(
        enqueue_data(&header(0, 32), &mut ours, &mut data, &[1], &mut ops),
        Err(Error::InsufficientSpace)
    );
    assert_eq!(ours, header(16, 3));

    let mut late = header(62, 0);
    assert_eq!(
        enqueue_data(&header(0, 40), &mut late, &mut data, &[1], &mut ops),
        Err(Error::InsufficientContiguousSpace)
    );
    assert_eq!(late, header(62, 0));
    assert_eq!(data, before);
    assert!(ops.is_empty());
}

#[test]
fn exact_fit_of_free_space_is_accepted() {
    let mut data = vec![0u8; 64];
    let mut ours = header(16, 0);
    let mut ops = Vec::new();
    // Free space is 48 - 16 = 32: room for 12 bytes, not for 13.
    let thirteen = [0u8; 13];
    assert_eq!(
        enqueue_data(&header(0, 48), &mut ours, &mut data, &thirteen, &mut ops),
        Err(Error::InsufficientSpace)
    );
    let twelve = [9u8; 12];
    assert_eq!(enqueue_data(&header(0, 48), &mut ours, &mut data, &twelve, &mut ops), Ok(()));
    assert_eq!(ours.write_position, 32);
}

#[test]
fn dequeue_refusals_leave_everything_alone() {
    let mut data = vec![0u8; 64];
    let mut ops = Vec::new();
    let mut dest = [0xAAu8; 4];

    let mut reader = header(0, 0);
    assert_eq!(
        dequeue_data(&mut reader, &header(65, 0), &data, &mut dest, &mut ops),
        Err(Error::InvalidPeerPosition)
    );
    assert_eq!(
        dequeue_data(&mut reader, &header(0, 0), &data, &mut dest, &mut ops),
        Err(Error::InsufficientData)
    );
    assert_eq!(
        dequeue_data(&mut reader, &header(3, 0), &data, &mut dest, &mut ops),
        Err(Error::InsufficientData)
    );

    let mut late = header(0, 62);
    assert_eq!(
        dequeue_data(&mut late, &header(16, 0), &data, &mut dest, &mut ops),
        Err(Error::InsufficientContiguousSpace)
    );

    // A length of 13 where only 16 bytes are there.
    data[0] = 13;
    assert_eq!(
        dequeue_data(&mut reader, &header(16, 0), &data, &mut dest, &mut ops),
        Err(Error::MalformedMessage)
    );
    // A length of 12 fits the data but not the destination.
    data[0] = 12;
    assert_eq!(
        dequeue_data(&mut reader, &header(16, 0), &data, &mut dest, &mut ops),
        Err(Error::DestinationTooSmall(12))
    );
    assert_eq!(reader, header(0, 0));
    assert_eq!(late, header(0, 62));
    assert_eq!(dest, [0xAA; 4]);
    assert!(ops.is_empty());

    // With room for it, the same message comes out.
    let mut large = [0u8; 12];
    assert_eq!(dequeue_data(&mut reader, &header(16, 0), &data, &mut large, &mut ops), Ok(12));
    assert_eq!(reader.read_position, 16);
}

#[test]
fn peer_write_position_at_the_size_is_tolerated() {
    let mut data = vec![0u8; 64];
    data[48] = 2;
    data[52] = 0x11;
    data[53] = 0x22;
    let mut reader = header(0, 48);
    let mut dest = [0u8; 2];
    let mut ops = Vec::new();
    assert_eq!(dequeue_data(&mut reader, &header(64, 0), &data, &mut dest, &mut ops), Ok(2));
    assert_eq!(dest, [0x11, 0x22]);
    assert_eq!(reader.read_position, 0);
}

#[test]
fn empty_message_round_trip() {
    let mut data = vec![0xFFu8; 32];
    let mut ours = header(16, 0);
    let mut peer = header(0, 16);
    let mut ops = Vec::new();
    assert_eq!(enqueue_data(&peer, &mut ours, &mut data, &[], &mut ops), Ok(()));
    assert_eq!(&data[16..20], &[0, 0, 0, 0]);
    assert_eq!(ours.write_position, 0);
    let mut dest = [];
    assert_eq!(dequeue_data(&mut peer, &ours, &data, &mut dest, &mut ops), Ok(0));
    assert_eq!(peer.read_position, 0);
}

#[test]
fn length_prefix_is_little_endian() {
    assert_eq!(encode_length(0x0403_0201), [1, 2, 3, 4]);
    assert_eq!(encode_length(300), [0x2C, 0x01, 0, 0]);
    assert_eq!(decode_length(&[9, 1, 2, 3, 4, 9], 1), 0x0403_0201);
    assert_eq!(decode_length(&[0xFF, 0xFF, 0xFF, 0xFF], 0), u32::MAX);
}

#[test]
fn round_up_to_sixteen() {
    assert_eq!(round_up(0), 0);
    assert_eq!(round_up(1), 16);
    assert_eq!(round_up(16), 16);
    assert_eq!(round_up(17), 32);
    assert_eq!(round_up(0x2_0000_0000), 0x2_0000_0000);
}

#[test]
fn ring_copies_go_round_the_end() {
    let mut ring = [0u8; 8];
    ring_copy_in(&mut ring, 6, &[1, 2, 3, 4]);
    assert_eq!(ring, [3, 4, 0, 0, 0, 0, 1, 2]);
    ring_copy_in(&mut ring, 8, &[9]);
    assert_eq!(ring, [9, 4, 0, 0, 0, 0, 1, 2]);
    let mut out = [0xAAu8; 6];
    ring_copy_out(&ring, 6, &mut out, 4);
    assert_eq!(out, [1, 2, 9, 4, 0xAA, 0xAA]);
}

#[test]
fn handshake_resolves_buffers() {
    let mut handshake = Handshake::new();
    assert!(!handshake.receive_message(0xBA5E_0001, 0x2000_000C));
    assert!(!handshake.receive_message(0x1234_5678, 0xFFFF_FFFF));
    assert!(!handshake.receive_message(0xBA5E_0002, 0x2000_100C));
    assert!(handshake.receive_message(0xBA5E_0003, 0));
    assert_eq!(handshake, Handshake { base_write: 0x2000_000C, base_read: 0x2000_100C });
    assert_eq!(get_intercore_buffers(&handshake), Ok((0x2000_1000, 0x2000_0000, 4096 - 64)));
}

#[test]
fn handshake_refuses_unusable_buffers() {
    let mismatched = Handshake { base_write: 0x2000_000C, base_read: 0x2000_100B };
    assert_eq!(get_intercore_buffers(&mismatched), Err(Error::MismatchedBufferSizes));
    let header_only = Handshake { base_write: 0x2000_0006, base_read: 0x2000_1006 };
    assert_eq!(get_intercore_buffers(&header_only), Err(Error::BufferTooSmall));
    assert_eq!(get_intercore_buffers(&Handshake::new()), Err(Error::BufferTooSmall));
    let smallest = Handshake { base_write: 0x2000_0007, base_read: 0x2000_1007 };
    assert_eq!(get_intercore_buffers(&smallest), Ok((0x2000_1000, 0x2000_0000, 64)));
}

#[test]
fn base_word_carries_size_and_address() {
    assert_eq!(get_buffer_size(0x2000_0000), 1);
    assert_eq!(get_buffer_size(0x2000_000C), 4096);
    assert_eq!(get_buffer_size(0x2000_001F), 0x8000_0000);
    assert_eq!(get_buffer_header(0x2000_001F), 0x2000_0000);
    assert_eq!(get_buffer_header(0x2000_0020), 0x2000_0020);
}

#[test]
fn new_header_is_all_zero() {
    let h = BufferHeader::new();
    assert_eq!(h.write_position, 0);
    assert_eq!(h.read_position, 0);
    assert_eq!(h.reserved, [0u32; 14]);
}
