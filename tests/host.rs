use std::collections::HashMap;

use nic_emu::e1000::receive::ReceiveState;
use nic_emu::e1000::{E1000Error, E1000};
use nic_emu::NicContext;

/// A host that records what the device asks of it.
#[derive(Default)]
struct Host {
    memory: HashMap<usize, u8>,
    sent: Vec<Vec<u8>>,
    dma_writes: Vec<(usize, Vec<u8>)>,
    interrupts: usize,
    timers: Vec<u64>,
    deleted_timers: usize,
    now: u64,
    fail_send: bool,
}

impl NicContext for Host {
    fn send(&mut self, buffer: &[u8]) -> Result<usize, ()> {
        if self.fail_send {
            return Err(());
        }
        self.sent.push(buffer.to_vec());
        Ok(buffer.len())
    }

    fn dma_read(&mut self, address: usize, buffer: &mut [u8], offset: usize) {
        for (i, b) in buffer.iter_mut().enumerate() {
            *b = *self.memory.get(&(address + offset + i)).unwrap_or(&0);
        }
    }

    fn dma_write(&mut self, address: usize, buffer: &[u8], offset: usize) {
        self.dma_writes.push((address + offset, buffer.to_vec()));
        for (i, b) in buffer.iter().enumerate() {
            self.memory.insert(address + offset + i, *b);
        }
    }

    fn trigger_interrupt(&mut self) {
        self.interrupts += 1;
    }

    fn set_timer(&mut self, nanos: u64) {
        self.timers.push(nanos);
    }

    fn delete_timer(&mut self) {
        self.deleted_timers += 1;
    }

    fn monotonic_nanos(&mut self) -> u64 {
        self.now
    }
}

impl Host {
    fn put(&mut self, address: usize, bytes: &[u8]) {
        for (i, b) in bytes.iter().enumerate() {
            self.memory.insert(address + i, *b);
        }
    }

    fn get(&self, address: usize, len: usize) -> Vec<u8> {
        (0..len).map(|i| *self.memory.get(&(address + i)).unwrap_or(&0)).collect()
    }
}

fn write_reg(e: &mut E1000<Host>, offset: usize, value: u32) {
    let mut data = value.to_le_bytes();
    assert_eq!(e.region_access_bar0(offset, &mut data, true), Ok(4));
}

fn read_reg(e: &mut E1000<Host>, offset: usize) -> u32 {
    let mut data = [0u8; 4];
    assert_eq!(e.region_access_bar0(offset, &mut data, false), Ok(4));
    u32::from_le_bytes(data)
}

fn device() -> E1000<Host> {
    E1000::new(Host::default(), false)
}

const LSC: u32 = 1 << 2;
const RXT0: u32 = 1 << 7;
const TXDW: u32 = 1 << 0;
const TXQE: u32 = 1 << 1;

/// Sets up a receive ring of eight descriptors at 0x1000_0000, head 0, tail 7.
fn setup_rx(e: &mut E1000<Host>) {
    write_reg(e, 0x2800, 0x1000_0000);
    write_reg(e, 0x2804, 0);
    write_reg(e, 0x2808, 1 << 7);
    write_reg(e, 0x2810, 0);
    write_reg(e, 0x2818, 7);
    write_reg(e, 0x100, 1 << 1);
}

/// Sets up a transmit ring of eight descriptors at 0x3000_0000, head and tail 0.
fn setup_tx(e: &mut E1000<Host>) {
    write_reg(e, 0x3800, 0x3000_0000);
    write_reg(e, 0x3804, 0);
    write_reg(e, 0x3808, 1 << 7);
    write_reg(e, 0x3810, 0);
    write_reg(e, 0x3818, 0);
    write_reg(e, 0x400, 1 << 1);
}

fn legacy_descriptor(buffer: u64, length: u16, cmd: u8) -> [u8; 16] {
    let mut d = [0u8; 16];
    d[0..8].copy_from_slice(&buffer.to_le_bytes());
    d[8..10].copy_from_slice(&length.to_le_bytes());
    d[11] = cmd;
    d
}

#[test]
fn bring_up_and_link_with_mask() {
    let mut e = device();
    write_reg(&mut e, 0xD0, LSC);
    let mut data = [0x40, 0, 0, 0];
    assert_eq!(e.region_access_bar0(0, &mut data, true), Ok(4));
    assert_eq!(read_reg(&mut e, 0x8) & 0x2, 0x2);
    assert_eq!(e.nic_ctx.interrupts, 1);
}

#[test]
fn bring_up_and_link_without_mask() {
    let mut e = device();
    write_reg(&mut e, 0x0, 0x40);
    assert_eq!(read_reg(&mut e, 0x8), 0xC3);
    assert_eq!(e.nic_ctx.interrupts, 0);
    // The cause is still recorded, and cleared by reading ICR
    assert_eq!(read_reg(&mut e, 0xC0), LSC);
    assert_eq!(read_reg(&mut e, 0xC0), 0);
}

#[test]
fn ring_configuration() {
    let mut e = device();
    assert!(!e.receive_state.is_ready());
    setup_rx(&mut e);
    assert!(e.receive_state.is_ready());
    assert!(!e.receive_state.should_defer());
    let ring = e.rx_ring.unwrap();
    assert_eq!(ring.length, 8);
    assert_eq!(ring.ring_address, 0x1000_0000);
    assert_eq!(ring.hardware_owned_descriptors(), 7);
}

#[test]
fn receive_single_frame() {
    let mut e = device();
    write_reg(&mut e, 0xD0, RXT0);
    setup_rx(&mut e);
    e.nic_ctx.put(0x1000_0000, &0x2000_0000u64.to_le_bytes());
    let frame = [0xAAu8; 60];
    assert_eq!(e.receive(&frame), Ok(()));
    assert_eq!(e.nic_ctx.dma_writes[0], (0x2000_0000, frame.to_vec()));
    let written = e.nic_ctx.get(0x1000_0000, 16);
    assert_eq!(&written[0..8], &0x2000_0000u64.to_le_bytes());
    assert_eq!(u16::from_le_bytes([written[8], written[9]]), 64);
    assert_eq!(written[12] & 0x3, 0x3);
    assert_eq!(read_reg(&mut e, 0x2810), 1);
    assert_eq!(e.nic_ctx.interrupts, 1);
}

#[test]
fn receive_with_stripped_crc_reports_frame_length() {
    let mut e = device();
    setup_rx(&mut e);
    write_reg(&mut e, 0x100, (1 << 1) | (1 << 26));
    e.nic_ctx.put(0x1000_0000, &0x2000_0000u64.to_le_bytes());
    assert_eq!(e.receive(&[1u8; 60]), Ok(()));
    let written = e.nic_ctx.get(0x1000_0000, 16);
    assert_eq!(u16::from_le_bytes([written[8], written[9]]), 60);
}

#[test]
fn receive_throttles_when_ring_nearly_full() {
    let mut e = device();
    write_reg(&mut e, 0x2800, 0x1000_0000);
    write_reg(&mut e, 0x2808, 1 << 7);
    write_reg(&mut e, 0x2818, 2);
    write_reg(&mut e, 0x100, 1 << 1);
    assert_eq!(e.receive_state, ReceiveState::Online);
    e.nic_ctx.put(0x1000_0000, &0x2000_0000u64.to_le_bytes());
    assert_eq!(e.receive(&[1u8; 10]), Ok(()));
    assert!(e.receive_state.should_defer());
    write_reg(&mut e, 0x2818, 5);
    assert!(e.receive_state.is_ready());
}

#[test]
fn receive_oversize_frame_is_unimplemented() {
    let mut e = device();
    setup_rx(&mut e);
    write_reg(&mut e, 0x100, (1 << 1) | (3 << 16));
    e.nic_ctx.put(0x1000_0000, &0x2000_0000u64.to_le_bytes());
    assert_eq!(
        e.receive(&[1u8; 253]),
        Err(E1000Error::Unimplemented)
    );
    assert_eq!(e.receive(&[1u8; 252]), Ok(()));
}

#[test]
fn receive_null_buffer_is_unimplemented() {
    let mut e = device();
    setup_rx(&mut e);
    assert_eq!(
        e.receive(&[1u8; 20]),
        Err(E1000Error::Unimplemented)
    );
}

#[test]
fn legacy_transmit() {
    let mut e = device();
    write_reg(&mut e, 0xD0, TXDW | TXQE);
    setup_tx(&mut e);
    let payload: Vec<u8> = (0..42u8).collect();
    e.nic_ctx.put(0x4000_0000, &payload);
    e.nic_ctx.put(0x3000_0000, &legacy_descriptor(0x4000_0000, 42, 0x01 | 0x08));
    write_reg(&mut e, 0x3818, 1);
    assert_eq!(e.nic_ctx.sent, vec![payload]);
    let written = e.nic_ctx.get(0x3000_0000, 16);
    assert_eq!(written[12] & 1, 1);
    assert_eq!(e.regs.interrupt_cause.bits & (TXDW | TXQE), TXDW | TXQE);
    assert_eq!(e.nic_ctx.interrupts, 1);
    assert_eq!(read_reg(&mut e, 0x3810), 1);
}

#[test]
fn transmit_without_report_status_sets_only_queue_empty() {
    let mut e = device();
    setup_tx(&mut e);
    e.nic_ctx.put(0x4000_0000, &[7u8; 30]);
    e.nic_ctx.put(0x3000_0000, &legacy_descriptor(0x4000_0000, 30, 0x01));
    write_reg(&mut e, 0x3818, 1);
    assert_eq!(e.nic_ctx.sent.len(), 1);
    assert_eq!(e.regs.interrupt_cause.bits & (TXDW | TXQE), TXQE);
    // No write-back without report status
    assert_eq!(e.nic_ctx.get(0x3000_0000 + 12, 1), vec![0]);
}

#[test]
fn transmit_packet_over_two_descriptors() {
    let mut e = device();
    setup_tx(&mut e);
    e.nic_ctx.put(0x4000_0000, &[1u8; 10]);
    e.nic_ctx.put(0x5000_0000, &[2u8; 5]);
    e.nic_ctx.put(0x3000_0000, &legacy_descriptor(0x4000_0000, 10, 0));
    e.nic_ctx.put(0x3000_0010, &legacy_descriptor(0x5000_0000, 5, 0x01));
    write_reg(&mut e, 0x3818, 2);
    let mut expected = vec![1u8; 10];
    expected.extend_from_slice(&[2u8; 5]);
    assert_eq!(e.nic_ctx.sent, vec![expected]);
}

#[test]
fn transmit_skips_faulty_descriptors() {
    let mut e = device();
    setup_tx(&mut e);
    // Null buffer, then legacy checksum insertion, then an unknown type
    e.nic_ctx.put(0x3000_0000, &legacy_descriptor(0, 10, 0x01));
    e.nic_ctx.put(0x3000_0010, &legacy_descriptor(0x4000_0000, 10, 0x01 | 0x04));
    let mut unknown = [0u8; 16];
    unknown[10] = 0x20;
    unknown[11] = 0x20;
    e.nic_ctx.put(0x3000_0020, &unknown);
    e.nic_ctx.put(0x4000_0000, &[3u8; 10]);
    e.nic_ctx.put(0x3000_0030, &legacy_descriptor(0x4000_0000, 10, 0x01));
    e.regs.td_t.bits = 4;
    let outcome = e.process_tx_ring();
    assert_eq!(
        outcome.errors,
        vec![
            E1000Error::NullTransmitBuffer,
            E1000Error::Unimplemented,
            E1000Error::BadDescriptor
        ]
    );
    assert_eq!(e.nic_ctx.sent, vec![vec![3u8; 10]]);
    assert_eq!(e.tx_ring.unwrap().head, 4);
}

#[test]
fn transmit_send_failure_is_reported() {
    let mut e = device();
    setup_tx(&mut e);
    e.nic_ctx.fail_send = true;
    e.nic_ctx.put(0x4000_0000, &[3u8; 10]);
    e.nic_ctx.put(0x3000_0000, &legacy_descriptor(0x4000_0000, 10, 0x01));
    e.regs.td_t.bits = 1;
    let outcome = e.process_tx_ring();
    assert_eq!(outcome.errors, vec![E1000Error::SendFailure]);
}

fn ones_sum(bytes: &[u8], initial: u32) -> u16 {
    let mut sum = initial;
    for pair in bytes.chunks(2) {
        let word = if pair.len() == 2 {
            u16::from_be_bytes([pair[0], pair[1]])
        } else {
            u16::from_be_bytes([pair[0], 0])
        };
        sum += word as u32;
    }
    while sum > 0xFFFF {
        sum = (sum & 0xFFFF) + (sum >> 16);
    }
    sum as u16
}

/// A TCP context descriptor with the fields of a segmentation offload.
fn tso_context(ipcse: u16, flags: u8) -> [u8; 16] {
    let mut d = [0u8; 16];
    d[0] = 14; // IPCSS
    d[1] = 24; // IPCSO
    d[2..4].copy_from_slice(&ipcse.to_le_bytes());
    d[4] = 34; // TUCSS
    d[5] = 50; // TUCSO
    let paylen: u32 = 4380;
    d[8] = paylen as u8;
    d[9] = (paylen >> 8) as u8;
    d[10] = ((paylen >> 16) & 0xF) as u8; // DTYP 0
    d[11] = flags | 0x20; // DEXT
    d[13] = 54; // HDRLEN
    d[14..16].copy_from_slice(&1460u16.to_le_bytes());
    d
}

fn tso_frame() -> Vec<u8> {
    let mut frame = vec![0u8; 54];
    frame[12] = 0x08; // IPv4
    frame[14] = 0x45;
    frame[18] = 0x12; // identification
    frame[19] = 0x34;
    frame[22] = 64;
    frame[23] = 6;
    frame[26..30].copy_from_slice(&[10, 0, 0, 1]);
    frame[30..34].copy_from_slice(&[10, 0, 0, 2]);
    frame[38..42].copy_from_slice(&1000u32.to_be_bytes()); // sequence number
    frame[46] = 0x50;
    frame[47] = 0x19; // FIN, PSH, ACK
    // Partial checksum: the pseudo header without its length
    let pseudo = ones_sum(&[10, 0, 0, 1, 10, 0, 0, 2, 0, 6], 0);
    frame[50..52].copy_from_slice(&pseudo.to_be_bytes());
    frame.extend((0..4380u32).map(|i| (i % 251) as u8));
    frame
}

fn run_tso(ipcse: u16) -> E1000<Host> {
    let mut e = device();
    setup_tx(&mut e);
    e.nic_ctx.put(0x3000_0000, &tso_context(ipcse, 0x01 | 0x02 | 0x04));
    let frame = tso_frame();
    e.nic_ctx.put(0x4000_0000, &frame);
    let mut data = [0u8; 16];
    data[0..8].copy_from_slice(&0x4000_0000u64.to_le_bytes());
    let length = frame.len() as u32;
    data[8] = length as u8;
    data[9] = (length >> 8) as u8;
    data[10] = ((length >> 16) & 0xF) as u8 | 0x10; // DTYP 1
    data[11] = 0x01 | 0x20; // EOP, DEXT
    data[13] = 0x01 | 0x02; // IXSM, TXSM
    e.nic_ctx.put(0x3000_0010, &data);
    write_reg(&mut e, 0x3818, 2);
    e
}

#[test]
fn tso_segments() {
    let e = run_tso(0);
    let sent = &e.nic_ctx.sent;
    assert_eq!(sent.len(), 3);
    for (i, p) in sent.iter().enumerate() {
        assert_eq!(p.len(), 54 + 1460);
        let seq = u32::from_be_bytes([p[38], p[39], p[40], p[41]]);
        assert_eq!(seq, 1000 + 1460 * i as u32);
        let id = u16::from_be_bytes([p[18], p[19]]);
        assert_eq!(id, 0x1234 + i as u16);
        assert_eq!(u16::from_be_bytes([p[16], p[17]]), 1460 + 54 - 14);
        if i < 2 {
            assert_eq!(p[47] & 0x09, 0);
        } else {
            assert_eq!(p[47] & 0x09, 0x09);
        }
        // TCP checksum over pseudo header and segment
        let tcp_length = (p.len() - 34) as u16;
        let mut pseudo = vec![10, 0, 0, 1, 10, 0, 0, 2, 0, 6];
        pseudo.extend_from_slice(&tcp_length.to_be_bytes());
        let total = ones_sum(&p[34..], ones_sum(&pseudo, 0) as u32);
        assert_eq!(total, 0xFFFF);
        // The IP checksum, inserted last, covers the rest of the packet
        assert_eq!(ones_sum(&p[14..], 0), 0xFFFF);
    }
    let d = e.nic_ctx.get(0x3000_0010, 16);
    assert_eq!(d[12] & 1, 0);
}

#[test]
fn tso_ip_header_checksum() {
    let e = run_tso(33);
    for p in &e.nic_ctx.sent {
        assert_eq!(ones_sum(&p[14..34], 0), 0xFFFF);
    }
}

#[test]
fn interrupt_mitigation() {
    let mut e = E1000::new(Host::default(), true);
    write_reg(&mut e, 0xD0, LSC | RXT0);
    write_reg(&mut e, 0xC4, 0x100);
    e.nic_ctx.now = 1_000;
    write_reg(&mut e, 0x0, 0x40);
    assert_eq!(e.nic_ctx.interrupts, 1);
    e.nic_ctx.now = 2_000;
    write_reg(&mut e, 0xC8, RXT0);
    assert_eq!(e.nic_ctx.interrupts, 1);
    assert_eq!(e.nic_ctx.timers, vec![1_000 + 65_536 - 2_000]);
    // A second cause inside the window arms no second timer
    e.report_rxt0();
    assert_eq!(e.nic_ctx.timers.len(), 1);
    assert_eq!(e.nic_ctx.interrupts, 1);
    // Early timer calls do nothing
    e.timer_elapsed();
    assert_eq!(e.nic_ctx.interrupts, 1);
    e.nic_ctx.now = 1_000 + 65_536;
    e.timer_elapsed();
    assert_eq!(e.nic_ctx.interrupts, 2);
    let window = e.interrupt_mitigation.unwrap();
    assert_eq!(window.expiration, 1_000 + 65_536 * 2);
    assert!(!window.interrupt_after);
}

#[test]
fn interrupt_after_expired_window_cancels_timer() {
    let mut e = E1000::new(Host::default(), true);
    write_reg(&mut e, 0xD0, LSC);
    write_reg(&mut e, 0xC4, 1);
    e.nic_ctx.now = 100;
    e.report_lsc();
    e.nic_ctx.now = 200;
    e.report_lsc();
    assert_eq!(e.nic_ctx.timers, vec![156]);
    e.nic_ctx.now = 400;
    e.report_lsc();
    assert_eq!(e.nic_ctx.deleted_timers, 1);
    assert_eq!(e.nic_ctx.interrupts, 2);
}

#[test]
fn bar1_address_round_trip() {
    let mut e = device();
    let mut x = [0x10, 0x28, 0, 0];
    assert_eq!(e.region_access_bar1(0, &mut x, true), Ok(4));
    let mut y = [0u8; 4];
    assert_eq!(e.region_access_bar1(0, &mut y, false), Ok(4));
    assert_eq!(y, [0x10, 0x28, 0, 0]);
    // The data register reaches RDH
    let mut v = 5u32.to_le_bytes();
    assert_eq!(e.region_access_bar1(4, &mut v, true), Ok(4));
    assert_eq!(read_reg(&mut e, 0x2810), 5);
}

#[test]
fn bad_access_shapes() {
    let mut e = device();
    let mut three = [0u8; 3];
    assert_eq!(e.region_access_bar0(0, &mut three, true), Err(E1000Error::BadAccessShape));
    let mut four = [0u8; 4];
    assert_eq!(e.region_access_bar0(2, &mut four, true), Err(E1000Error::BadAccessShape));
    assert_eq!(e.region_access_bar1(8, &mut four, true), Err(E1000Error::UnsupportedIoOffset));
    assert_eq!(e.region_access_bar1(0, &mut three, true), Err(E1000Error::BadAccessShape));
    // Unknown registers read as given and ignore writes
    let mut data = [1, 2, 3, 4];
    assert_eq!(e.region_access_bar0(0x1234, &mut data, false), Ok(4));
    assert_eq!(data, [1, 2, 3, 4]);
}

#[test]
fn reset_clears_state_but_keeps_eeprom() {
    let mut e = device();
    e.eeprom.initial_eeprom.set_ethernet_address([0x02, 0x34, 0x56, 0x78, 0x9A, 0xBC]);
    e.eeprom.pack_initial_eeprom();
    setup_rx(&mut e);
    setup_tx(&mut e);
    write_reg(&mut e, 0xD0, LSC);
    write_reg(&mut e, 0x0, 1 << 26);
    assert_eq!(e.receive_state, ReceiveState::Offline);
    assert!(e.rx_ring.is_none());
    assert!(e.tx_ring.is_none());
    assert!(e.interrupt_mitigation.is_none());
    assert_eq!(e.nic_ctx.deleted_timers, 1);
    for offset in [0x0, 0x10, 0x20, 0xC4, 0xC8, 0xD0, 0x100, 0x400, 0x2800, 0x2808, 0x3818] {
        assert_eq!(read_reg(&mut e, offset) & !0x180, 0, "offset {:x}", offset);
    }
    assert_eq!(read_reg(&mut e, 0x8), 0xC1);
    assert_eq!(read_reg(&mut e, 0x5400), 0x7856_3402);
    assert_eq!(read_reg(&mut e, 0x5404), 0xBC9A);
    assert_eq!(e.eeprom.data[0], 0x3402);
}

#[test]
fn eeprom_checksum_after_packing() {
    let mut e = device();
    e.eeprom.initial_eeprom.set_ethernet_address([0x02, 0x34, 0x56, 0x78, 0x9A, 0xBC]);
    assert_eq!(e.eeprom.initial_eeprom.ethernet_address(), [0x02, 0x34, 0x56, 0x78, 0x9A, 0xBC]);
    e.eeprom.pack_initial_eeprom();
    let sum = e.eeprom.data.iter().fold(0u16, |s, w| s.wrapping_add(*w));
    assert_eq!(sum, 0xBABA);
    assert_eq!(&e.eeprom.data[0..3], &[0x3402, 0x7856, 0xBC9A]);
}

const SK: u32 = 1;
const CS: u32 = 2;
const DI: u32 = 4;
const DO: u32 = 8;

fn clock_bit(e: &mut E1000<Host>, bit: bool) -> Result<bool, nic_emu::e1000::E1000Error> {
    let di = if bit { DI } else { 0 };
    let mut data = (CS | di).to_le_bytes();
    e.region_access_bar0(0x10, &mut data, true)?;
    let mut data = (CS | SK | di).to_le_bytes();
    e.region_access_bar0(0x10, &mut data, true)?;
    let out = read_reg(e, 0x10) & DO != 0;
    let mut data = (CS | di).to_le_bytes();
    e.region_access_bar0(0x10, &mut data, true)?;
    Ok(out)
}

#[test]
fn eeprom_microwire_read() {
    let mut e = device();
    e.eeprom.initial_eeprom.set_ethernet_address([0x02, 0x34, 0x56, 0x78, 0x9A, 0xBC]);
    e.eeprom.pack_initial_eeprom();
    assert_eq!(read_reg(&mut e, 0x10) & 0x180, 0x180);
    write_reg(&mut e, 0x10, 0);
    for bit in [true, true, false] {
        clock_bit(&mut e, bit).unwrap();
    }
    for _ in 0..6 {
        clock_bit(&mut e, false).unwrap();
    }
    let mut word = 0u16;
    for _ in 0..16 {
        word = (word << 1) | clock_bit(&mut e, false).unwrap() as u16;
    }
    assert_eq!(word, 0x3402);
    let mut next = 0u16;
    for _ in 0..16 {
        next = (next << 1) | clock_bit(&mut e, false).unwrap() as u16;
    }
    assert_eq!(next, 0x7856);
}

#[test]
fn eeprom_write_opcode_is_unsupported() {
    let mut e = device();
    write_reg(&mut e, 0x10, 0);
    clock_bit(&mut e, true).unwrap();
    clock_bit(&mut e, false).unwrap();
    assert_eq!(
        clock_bit(&mut e, true),
        Err(E1000Error::UnsupportedEepromOpcode)
    );
}

#[test]
fn mdic_reads_phy_identifiers() {
    let mut e = device();
    write_reg(&mut e, 0x20, (0b10 << 26) | (2 << 16));
    let v = read_reg(&mut e, 0x20);
    assert_eq!(v & 0xFFFF, 0x0141);
    assert_ne!(v & (1 << 28), 0);
    write_reg(&mut e, 0x20, (0b10 << 26) | (3 << 16));
    assert_eq!(read_reg(&mut e, 0x20) & 0xFFFF, 0x0C20);
}

#[test]
fn mdic_link_status_and_interrupt() {
    let mut e = device();
    write_reg(&mut e, 0xD0, 1 << 9);
    write_reg(&mut e, 0x0, 0x40);
    write_reg(&mut e, 0x20, (0b10 << 26) | (1 << 16) | (1 << 29));
    assert_eq!(read_reg(&mut e, 0x20) & 0xFFFF, 0x4);
    assert_eq!(e.nic_ctx.interrupts, 1);
    assert_ne!(e.regs.interrupt_cause.bits & (1 << 9), 0);
}

#[test]
fn rdt_beyond_ring_stays_inside() {
    let mut e = device();
    setup_rx(&mut e);
    write_reg(&mut e, 0x2818, 13);
    let ring = e.rx_ring.unwrap();
    assert_eq!(ring.tail, 5);
    assert!(ring.head < ring.length && ring.tail < ring.length);
}
