use mt3620_rt::register::RegOp;
use mt3620_rt::uart::baud_settings;
use mt3620_rt::uart::fraction_l;
use mt3620_rt::uart::fraction_m;
use mt3620_rt::uart::set_rts;
use mt3620_rt::uart::line_control_word;
use mt3620_rt::uart::uart_commit_tx;
use mt3620_rt::uart::uart_dequeue_data;
use mt3620_rt::uart::uart_enqueue_data;
use mt3620_rt::uart::uart_for_irq;
use mt3620_rt::uart::uart_handle_irq;
use mt3620_rt::uart::uart_init;
use mt3620_rt::uart::BaudSettings;
use mt3620_rt::uart::IrqPhase;
use mt3620_rt::uart::IrqStep;
use mt3620_rt::uart::UartCallback;
use mt3620_rt::uart::UartId;
use mt3620_rt::uart::UartInfo;

const BASE: usize = 0x3808_0500;

fn port() -> UartInfo<u32> {
    UartInfo::new(UartId::UartIsu1)
}

fn step(next: IrqPhase) -> IrqStep {
    IrqStep { next, invoke: None }
}

fn tx_enable() -> Vec<RegOp> {
    vec![
        RegOp::RaiseInterruptFloor,
        RegOp::SetBits32 { base_addr: BASE, offset: 0x04, bits: 0x02 },
        RegOp::RestoreInterruptFloor,
    ]
}

/// Prepares a write and commits it, as the platform does around the raising
/// of the floor.
fn send(unit: &mut UartInfo<u32>, data: &[u8], ops: &mut Vec<RegOp>) -> usize {
    let accepted = uart_enqueue_data(unit, data, ops);
    uart_commit_tx(unit, ops);
    accepted
}

fn thr(byte: u8) -> RegOp {
    RegOp::Write32 { base_addr: BASE, offset: 0x00, value: byte as u32 }
}

/// Runs the transmit path once with a FIFO that holds `level` bytes.
fn drain(unit: &mut UartInfo<u32>, level: u32) -> (Vec<RegOp>, IrqStep) {
    let mut ops = Vec::new();
    assert_eq!(uart_handle_irq(unit, IrqPhase::Identify, 0x02, &mut ops), step(IrqPhase::TxFifoLevel));
    assert!(ops.is_empty());
    let s = uart_handle_irq(unit, IrqPhase::TxFifoLevel, level, &mut ops);
    (ops, s)
}

/// Feeds `bytes` through the receive path, as long as the handler asks for them.
fn receive(unit: &mut UartInfo<u32>, bytes: &[u8]) -> IrqStep {
    let mut ops = Vec::new();
    let mut s = uart_handle_irq(unit, IrqPhase::Identify, 0x04, &mut ops);
    for &b in bytes {
        if s.next != IrqPhase::RxStatus {
            break;
        }
        assert_eq!(uart_handle_irq(unit, IrqPhase::RxStatus, 0x61, &mut ops), step(IrqPhase::RxData));
        s = uart_handle_irq(unit, IrqPhase::RxData, 0xFFFF_FF00 | b as u32, &mut ops);
    }
    if s.next == IrqPhase::RxStatus {
        s = uart_handle_irq(unit, IrqPhase::RxStatus, 0x60, &mut ops);
    }
    assert!(ops.is_empty());
    s
}

#[test]
fn ports_have_their_addresses_and_interrupts() {
    let unit: UartInfo<u32> = UartInfo::new(UartId::UartCM4Debug);
    assert_eq!(unit.base_addr(), 0x2104_0000);
    assert_eq!(unit.nvic_irq(), 4);
    assert_eq!(UartId::UartIsu0.base_addr(), 0x3807_0500);
    assert_eq!(UartId::UartIsu0.nvic_irq(), 47);
    assert_eq!(UartId::UartIsu4.base_addr(), 0x380b_0500);
    assert_eq!(UartId::UartIsu4.nvic_irq(), 63);
    assert_eq!(UartId::UartIsu3.index(), 4);
    assert_eq!(unit.tx_buffered(), 0);
    assert_eq!(unit.rx_buffered(), 0);
    assert_eq!(unit.rx_callback(), &None);
    assert_eq!(unit.tx_empty_callback(), &None);
}

#[test]
fn interrupt_numbers_map_to_ports() {
    assert_eq!(uart_for_irq(4), Some(UartId::UartCM4Debug));
    assert_eq!(uart_for_irq(47), Some(UartId::UartIsu0));
    assert_eq!(uart_for_irq(51), Some(UartId::UartIsu1));
    assert_eq!(uart_for_irq(55), Some(UartId::UartIsu2));
    assert_eq!(uart_for_irq(59), Some(UartId::UartIsu3));
    assert_eq!(uart_for_irq(63), Some(UartId::UartIsu4));
    assert_eq!(uart_for_irq(67), Some(UartId::UartIsu4));
    assert_eq!(uart_for_irq(1), None);
}

#[test]
fn enqueue_accepts_what_fits_and_enables_the_interrupt() {
    let mut unit = port();
    let mut ops = Vec::new();
    assert_eq!(send(&mut unit, b"hello", &mut ops), 5);
    assert_eq!(unit.tx_buffered(), 5);
    assert_eq!(ops, tx_enable());

    let (sent, s) = drain(&mut unit, 0);
    assert_eq!(s, step(IrqPhase::TxIdle));
    assert_eq!(
        sent,
        vec![
            thr(b'h'),
            thr(b'e'),
            thr(b'l'),
            thr(b'l'),
            thr(b'o'),
            RegOp::ClearBits32 { base_addr: BASE, offset: 0x04, bits: 0x02 },
        ]
    );
    assert_eq!(unit.tx_buffered(), 0);
}

#[test]
fn enqueue_drops_the_excess_and_a_full_ring_takes_nothing() {
    let mut unit = port();
    let mut ops = Vec::new();
    let data: Vec<u8> = (0..300).map(|i| (i % 251) as u8).collect();
    assert_eq!(send(&mut unit, &data, &mut ops), 256);
    assert_eq!(unit.tx_buffered(), 256);
    assert_eq!(ops, tx_enable());

    ops.clear();
    assert_eq!(send(&mut unit, b"x", &mut ops), 0);
    assert!(ops.is_empty());
    assert_eq!(unit.tx_buffered(), 256);

    // The FIFO holds 6, so it has room for 10.
    let (sent, s) = drain(&mut unit, 6);
    assert_eq!(s, step(IrqPhase::Identify));
    let expected: Vec<RegOp> = data[..10].iter().map(|&b| thr(b)).collect();
    assert_eq!(sent, expected);
    assert_eq!(unit.tx_buffered(), 246);
}

#[test]
fn empty_write_still_enables_the_interrupt() {
    let mut unit = port();
    let mut ops = Vec::new();
    assert_eq!(send(&mut unit, &[], &mut ops), 0);
    assert_eq!(ops, tx_enable());
}

#[test]
fn transmit_ring_wraps_its_index_and_its_counters() {
    let mut unit = port();
    let mut ops = Vec::new();
    let mut next: u8 = 0;
    let mut expected: u8 = 0;
    // 70,000 bytes take the 16-bit counters round, in chunks that do not divide 256.
    for _ in 0..1000 {
        let chunk: Vec<u8> = (0..70).map(|_| { next = next.wrapping_mul(31).wrapping_add(7); next }).collect();
        assert_eq!(send(&mut unit, &chunk, &mut ops), 70);
        assert!(unit.tx_buffered() <= 256);
        while unit.tx_buffered() > 0 {
            let before = unit.tx_buffered();
            let (sent, _) = drain(&mut unit, 3);
            let count = before.min(13);
            assert_eq!(unit.tx_buffered(), before - count);
            for op in &sent[..count] {
                expected = expected.wrapping_mul(31).wrapping_add(7);
                assert_eq!(*op, thr(expected));
            }
        }
    }
}

#[test]
fn full_fifo_takes_nothing() {
    let mut unit = port();
    let mut ops = Vec::new();
    send(&mut unit, b"ab", &mut ops);
    let (sent, s) = drain(&mut unit, 16);
    assert!(sent.is_empty());
    assert_eq!(s, step(IrqPhase::Identify));
    let (sent, s) = drain(&mut unit, 200);
    assert!(sent.is_empty());
    assert_eq!(s, step(IrqPhase::Identify));
    assert_eq!(unit.tx_buffered(), 2);
}

#[test]
fn drained_callback_waits_for_an_idle_line() {
    let mut unit = port();
    let mut ops = Vec::new();
    uart_init(&mut unit, 115_200, 3, 0, 0, None, Some(77), 0, &mut ops);
    ops.clear();
    let (sent, s) = drain(&mut unit, 0);
    assert_eq!(s, step(IrqPhase::TxIdle));
    assert_eq!(sent, vec![RegOp::ClearBits32 { base_addr: BASE, offset: 0x04, bits: 0x02 }]);
    assert_eq!(uart_handle_irq(&mut unit, IrqPhase::TxIdle, 0x20, &mut ops), step(IrqPhase::TxIdle));
    assert_eq!(uart_handle_irq(&mut unit, IrqPhase::TxIdle, 0x00, &mut ops), step(IrqPhase::TxIdle));
    assert_eq!(
        uart_handle_irq(&mut unit, IrqPhase::TxIdle, 0x60, &mut ops),
        IrqStep { next: IrqPhase::Identify, invoke: Some(UartCallback::TxEmpty) }
    );
    assert_eq!(uart_handle_irq(&mut unit, IrqPhase::Identify, 0xC1, &mut ops), step(IrqPhase::Done));
    assert!(ops.is_empty());
    assert_eq!(unit.tx_empty_callback(), &Some(77));
}

#[test]
fn idle_line_without_callback_names_none() {
    let mut unit = port();
    let mut ops = Vec::new();
    assert_eq!(uart_handle_irq(&mut unit, IrqPhase::TxIdle, 0x40, &mut ops), step(IrqPhase::Identify));
}

#[test]
fn received_bytes_come_out_in_order() {
    let mut unit = port();
    assert_eq!(receive(&mut unit, b"abc"), step(IrqPhase::Identify));
    assert_eq!(unit.rx_buffered(), 3);
    let mut buffer = [0xAAu8; 5];
    assert_eq!(uart_dequeue_data(&mut unit, &mut buffer), 3);
    assert_eq!(buffer, [b'a', b'b', b'c', 0xAA, 0xAA]);
    assert_eq!(unit.rx_buffered(), 0);
    assert_eq!(uart_dequeue_data(&mut unit, &mut buffer), 0);
}

#[test]
fn dequeue_stops_at_the_capacity_of_the_caller() {
    let mut unit = port();
    receive(&mut unit, b"abcdef");
    let mut small = [0u8; 4];
    assert_eq!(uart_dequeue_data(&mut unit, &mut small), 4);
    assert_eq!(&small, b"abcd");
    assert_eq!(unit.rx_buffered(), 2);
    let mut none: [u8; 0] = [];
    assert_eq!(uart_dequeue_data(&mut unit, &mut none), 0);
    assert_eq!(unit.rx_buffered(), 2);
    assert_eq!(uart_dequeue_data(&mut unit, &mut small), 2);
    assert_eq!(&small, b"efcd");
}

#[test]
fn receive_ring_stops_when_full() {
    let mut unit = port();
    let mut ops = Vec::new();
    uart_init(&mut unit, 9600, 3, 0, 0, Some(5), None, 0, &mut ops);
    let bytes: Vec<u8> = (0..40).collect();
    let s = receive(&mut unit, &bytes);
    assert_eq!(s, IrqStep { next: IrqPhase::Identify, invoke: Some(UartCallback::Rx) });
    assert_eq!(unit.rx_buffered(), 32);
    // A full ring ends receiving at once, and a byte read anyway is dropped.
    assert_eq!(
        uart_handle_irq(&mut unit, IrqPhase::Identify, 0x0C, &mut ops),
        IrqStep { next: IrqPhase::Identify, invoke: Some(UartCallback::Rx) }
    );
    assert_eq!(
        uart_handle_irq(&mut unit, IrqPhase::RxStatus, 0x01, &mut ops),
        IrqStep { next: IrqPhase::Identify, invoke: Some(UartCallback::Rx) }
    );
    assert_eq!(
        uart_handle_irq(&mut unit, IrqPhase::RxData, 0x99, &mut ops),
        IrqStep { next: IrqPhase::Identify, invoke: Some(UartCallback::Rx) }
    );
    assert_eq!(unit.rx_buffered(), 32);
    let mut buffer = [0u8; 64];
    assert_eq!(uart_dequeue_data(&mut unit, &mut buffer), 32);
    assert_eq!(&buffer[..32], &bytes[..32]);
}

#[test]
fn receive_ring_wraps_its_index_and_its_counters() {
    let mut unit = port();
    let mut next: u8 = 0;
    let mut expected: u8 = 0;
    let mut buffer = [0u8; 7];
    for _ in 0..7000 {
        let chunk: Vec<u8> = (0..10).map(|_| { next = next.wrapping_add(13); next }).collect();
        receive(&mut unit, &chunk);
        assert!(unit.rx_buffered() <= 32);
        while unit.rx_buffered() > 0 {
            let taken = uart_dequeue_data(&mut unit, &mut buffer);
            for b in &buffer[..taken] {
                expected = expected.wrapping_add(13);
                assert_eq!(*b, expected);
            }
        }
    }
}

#[test]
fn timeout_and_data_cause_both_start_receiving() {
    let mut unit = port();
    let mut ops = Vec::new();
    assert_eq!(uart_handle_irq(&mut unit, IrqPhase::Identify, 0x04, &mut ops), step(IrqPhase::RxStatus));
    assert_eq!(uart_handle_irq(&mut unit, IrqPhase::Identify, 0x0C, &mut ops), step(IrqPhase::RxStatus));
    assert_eq!(uart_handle_irq(&mut unit, IrqPhase::RxStatus, 0x60, &mut ops), step(IrqPhase::Identify));
}

#[test]
fn other_causes_are_read_again_and_done_stays_done() {
    let mut unit = port();
    let mut ops = Vec::new();
    assert_eq!(uart_handle_irq(&mut unit, IrqPhase::Identify, 0x06, &mut ops), step(IrqPhase::Identify));
    assert_eq!(uart_handle_irq(&mut unit, IrqPhase::Identify, 0x00, &mut ops), step(IrqPhase::Identify));
    assert_eq!(uart_handle_irq(&mut unit, IrqPhase::Identify, 0x01, &mut ops), step(IrqPhase::Done));
    assert_eq!(uart_handle_irq(&mut unit, IrqPhase::Done, 0x02, &mut ops), step(IrqPhase::Done));
    assert!(ops.is_empty());
}

#[test]
fn phases_name_their_registers() {
    assert_eq!(IrqPhase::Identify.register(), Some(0x08));
    assert_eq!(IrqPhase::TxFifoLevel.register(), Some(0x6C));
    assert_eq!(IrqPhase::TxIdle.register(), Some(0x14));
    assert_eq!(IrqPhase::RxStatus.register(), Some(0x14));
    assert_eq!(IrqPhase::RxData.register(), Some(0x00));
    assert_eq!(IrqPhase::Done.register(), None);
}

#[test]
fn request_to_send_is_one_bit() {
    let unit = port();
    let mut ops = Vec::new();
    set_rts(&unit, true, &mut ops);
    set_rts(&unit, false, &mut ops);
    assert_eq!(
        ops,
        vec![
            RegOp::SetBits32 { base_addr: BASE, offset: 0x10, bits: 0x02 },
            RegOp::ClearBits32 { base_addr: BASE, offset: 0x10, bits: 0x02 },
        ]
    );
}

#[test]
fn baud_settings_for_common_rates() {
    assert_eq!(
        baud_settings(115_200),
        BaudSettings { high_speed_div: 1, sample_count: 224, sample_point: 110, fraction: 6 }
    );
    assert_eq!(
        baud_settings(9600),
        BaudSettings { high_speed_div: 11, sample_count: 245, sample_point: 121, fraction: 2 }
    );
    assert_eq!(
        baud_settings(6_500_000),
        BaudSettings { high_speed_div: 1, sample_count: 3, sample_point: 0, fraction: 0 }
    );
    assert_eq!(
        baud_settings(1),
        BaudSettings { high_speed_div: 101_563, sample_count: 254, sample_point: 125, fraction: 10 }
    );
}

#[test]
fn fraction_never_leaves_the_tables() {
    let mut baud: u32 = 1;
    while baud <= 6_500_000 {
        assert!(baud_settings(baud).fraction <= 10);
        baud += 1 + baud / 1000;
    }
}

#[test]
fn fractional_divider_tables() {
    let low = [0x00, 0x10, 0x44, 0x92, 0x59, 0xab, 0xb7, 0xdf, 0xff, 0xff, 0xff];
    let high = [0x00, 0x00, 0x00, 0x00, 0x00, 0x00, 0x00, 0x00, 0x00, 0x01, 0x03];
    for i in 0..11u8 {
        assert_eq!(fraction_l(i), low[i as usize]);
        assert_eq!(fraction_m(i), high[i as usize]);
    }
}

#[test]
fn init_programs_the_port() {
    let mut unit = port();
    let mut ops = Vec::new();
    uart_init(&mut unit, 115_200, 3, 0, 0, Some(1), Some(2), 0x1A5, &mut ops);
    let w = |offset: usize, value: u32| RegOp::Write32 { base_addr: BASE, offset, value };
    assert_eq!(
        ops,
        vec![
            w(0x54, 0),
            w(0x58, 0),
            w(0x24, 3),
            w(0x0C, 0xA5),
            w(0x00, 1),
            w(0x04, 0),
            w(0x28, 224),
            w(0x2C, 110),
            w(0x58, 0x00),
            w(0x54, 0xb7),
            w(0x0C, 0xA5),
            w(0x0C, 0x03),
            w(0x08, 0x17),
            RegOp::SetBits32 { base_addr: BASE, offset: 0x04, bits: 0x03 },
            RegOp::Write8 { base_addr: 0xE000_E400, offset: 51, byte: 0x40 },
            RegOp::SetBits32 { base_addr: 0xE000_E100, offset: 4, bits: 1 << 19 },
        ]
    );
    assert_eq!(unit.rx_callback(), &Some(1));
    assert_eq!(unit.tx_empty_callback(), &Some(2));
}

#[test]
fn init_without_callbacks_keeps_those_registered() {
    let mut unit = port();
    let mut ops = Vec::new();
    uart_init(&mut unit, 9600, 3, 0, 0, Some(1), Some(2), 0x03, &mut ops);
    ops.clear();
    uart_init(&mut unit, 9600, 3, 0, 0, None, None, 0x03, &mut ops);
    assert_eq!(ops.len(), 15);
    assert!(!ops.contains(&RegOp::SetBits32 { base_addr: BASE, offset: 0x04, bits: 0x03 }));
    assert_eq!(ops[4], RegOp::Write32 { base_addr: BASE, offset: 0x00, value: 11 });
    assert_eq!(unit.rx_callback(), &Some(1));
    assert_eq!(unit.tx_empty_callback(), &Some(2));
}

#[test]
fn bytes_are_counted_by_the_commit_inside_the_critical_section() {
    let mut unit = port();
    let mut ops = Vec::new();
    assert_eq!(uart_enqueue_data(&mut unit, b"abc", &mut ops), 3);
    // Stored, not yet counted: the floor is to be raised first.
    assert_eq!(ops, vec![RegOp::RaiseInterruptFloor]);
    assert_eq!(unit.tx_counters(), (0, 0));
    assert_eq!(unit.tx_commit(), Some(3));
    assert_eq!(unit.tx_buffered(), 0);

    ops.clear();
    uart_commit_tx(&mut unit, &mut ops);
    assert_eq!(
        ops,
        vec![
            RegOp::SetBits32 { base_addr: BASE, offset: 0x04, bits: 0x02 },
            RegOp::RestoreInterruptFloor,
        ]
    );
    assert_eq!(unit.tx_counters(), (3, 0));
    assert_eq!(unit.tx_commit(), None);

    // With nothing to commit, committing does nothing.
    ops.clear();
    uart_commit_tx(&mut unit, &mut ops);
    assert!(ops.is_empty());
    assert_eq!(unit.tx_counters(), (3, 0));
}

#[test]
fn nothing_is_accepted_while_a_commit_is_due() {
    let mut unit = port();
    let mut ops = Vec::new();
    assert_eq!(uart_enqueue_data(&mut unit, b"ab", &mut ops), 2);
    ops.clear();
    assert_eq!(uart_enqueue_data(&mut unit, b"cd", &mut ops), 0);
    assert!(ops.is_empty());
    assert_eq!(unit.tx_commit(), Some(2));
    uart_commit_tx(&mut unit, &mut ops);
    let (sent, _) = drain(&mut unit, 0);
    assert_eq!(&sent[..2], &[thr(b'a'), thr(b'b')]);
    assert_eq!(sent.len(), 3);
}

#[test]
fn three_hundred_bytes_leave_the_counters_at_capacity() {
    let mut unit = port();
    let mut ops = Vec::new();
    assert_eq!(send(&mut unit, &[7u8; 300], &mut ops), 256);
    assert_eq!(unit.tx_counters(), (256, 0));
    ops.clear();
    assert_eq!(send(&mut unit, &[1], &mut ops), 0);
    assert!(ops.is_empty());
    assert_eq!(unit.tx_counters(), (256, 0));
    assert_eq!(unit.tx_commit(), None);
}

#[test]
fn each_operation_advances_its_own_counter() {
    let mut unit = port();
    let mut ops = Vec::new();
    send(&mut unit, b"hello", &mut ops);
    drain(&mut unit, 14);
    assert_eq!(unit.tx_counters(), (5, 2));
    assert_eq!(unit.rx_counters(), (0, 0));
    receive(&mut unit, b"xyz");
    assert_eq!(unit.rx_counters(), (3, 0));
    let mut buffer = [0u8; 2];
    uart_dequeue_data(&mut unit, &mut buffer);
    assert_eq!(unit.rx_counters(), (3, 2));
    assert_eq!(unit.tx_counters(), (5, 2));
    // An empty write with room counts nothing.
    send(&mut unit, &[], &mut ops);
    assert_eq!(unit.tx_counters(), (5, 2));
    // An empty ring gives nothing and moves nothing.
    uart_dequeue_data(&mut unit, &mut buffer);
    uart_dequeue_data(&mut unit, &mut buffer);
    assert_eq!(unit.rx_counters(), (3, 3));
}

#[test]
fn line_control_word_takes_the_three_fields() {
    // Eight data bits, no parity, one stop bit.
    assert_eq!(line_control_word(0xFF, 3, 0, 0), 0x43);
    assert_eq!(line_control_word(0x00, 3, 0, 0), 0x03);
    // Seven data bits, two stop bits, even parity.
    assert_eq!(line_control_word(0x80, 2, 4, 0x18), 0x1E);
    // What a value holds outside its field does not count.
    assert_eq!(line_control_word(0x00, 0xFFFF, 0xFFFF, 0xFFFF), 0x3F);
}

#[test]
fn init_sets_the_line_format_that_was_asked_for() {
    let mut unit = port();
    let mut ops = Vec::new();
    uart_init(&mut unit, 9600, 2, 0x18, 4, None, None, 0xC0, &mut ops);
    assert_eq!(ops[3], RegOp::Write32 { base_addr: BASE, offset: 0x0C, value: 0xC0 });
    assert_eq!(ops[10], RegOp::Write32 { base_addr: BASE, offset: 0x0C, value: 0xC0 });
    assert_eq!(ops[11], RegOp::Write32 { base_addr: BASE, offset: 0x0C, value: 0x5E });
    assert_eq!(ops[12], RegOp::Write32 { base_addr: BASE, offset: 0x08, value: 0x17 });
    assert_eq!(unit.tx_counters(), (0, 0));
    assert_eq!(unit.rx_counters(), (0, 0));
}
