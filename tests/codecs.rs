use nic_emu::e1000::descriptors::{
    DescriptorRing, ReceiveDescriptor, TransmitDescriptor, TransmitDescriptorCommon,
    TransmitDescriptorLegacy, TransmitDescriptorTcpContext, TransmitDescriptorTcpData,
    TransmitDescriptorVariant,
};
use nic_emu::e1000::interrupts::{decide_interrupt, InterruptMitigation};
use nic_emu::e1000::receive::receive_writeback;
use nic_emu::e1000::registers::{
    InterruptCauses, InterruptDelay, ReceiveControl, Register, Registers, Status,
};
use nic_emu::e1000::transmit::{update_prototype_headers, write_internet_checksum};
use nic_emu::e1000::E1000Error;
use nic_emu::util::{wrapping_add_to_u16_be_bytes, wrapping_add_to_u32_be_bytes};

fn reversed(b: [u8; 16]) -> [u8; 16] {
    let mut r = b;
    r.reverse();
    r
}

#[test]
fn receive_descriptor_round_trip() {
    let d = ReceiveDescriptor {
        buffer: 0x1122_3344_5566_7788,
        length: 0x0102,
        status_dd: true,
        status_eop: false,
    };
    let packed = d.pack();
    assert_eq!(ReceiveDescriptor::unpack(&packed), d);
    let memory = reversed(packed);
    assert_eq!(&memory[0..8], &0x1122_3344_5566_7788u64.to_le_bytes());
    assert_eq!(&memory[8..10], &[0x02, 0x01]);
    assert_eq!(memory[12], 0b101);
    // Memory bytes round trip where only modelled bits are set
    assert_eq!(reversed(ReceiveDescriptor::unpack(&reversed(memory)).pack()), memory);
}

#[test]
fn transmit_descriptor_round_trips() {
    let legacy = TransmitDescriptor {
        common: TransmitDescriptorCommon {
            dtyp: 0x3,
            cmd_rs: true,
            cmd_rps: false,
            cmd_dext: false,
            status_dd: false,
        },
        variant: TransmitDescriptorVariant::Legacy(TransmitDescriptorLegacy {
            buffer: 0x4000_0000,
            length: 42,
            cso: 0x30,
            cmd_eop: true,
            cmd_ic: false,
            css: 14,
            special: 0xBEEF,
        }),
    };
    let context = TransmitDescriptor {
        common: TransmitDescriptorCommon {
            dtyp: 0,
            cmd_rs: false,
            cmd_rps: true,
            cmd_dext: true,
            status_dd: true,
        },
        variant: TransmitDescriptorVariant::TcpContext(TransmitDescriptorTcpContext {
            ip_css: 14,
            ip_cso: 24,
            ip_cse: 33,
            tu_css: 34,
            tu_cso: 50,
            tu_cse: 0,
            paylen: 0xA_BCDE,
            tucmd_tcp: true,
            tucmd_ip: true,
            tucmd_tse: true,
            hdrlen: 54,
            mss: 1460,
        }),
    };
    let data = TransmitDescriptor {
        common: TransmitDescriptorCommon {
            dtyp: 1,
            cmd_rs: true,
            cmd_rps: false,
            cmd_dext: true,
            status_dd: false,
        },
        variant: TransmitDescriptorVariant::TcpData(TransmitDescriptorTcpData {
            buffer: 0x1234_5678,
            length: 0xF_0001,
            dcmd_eop: true,
            popts_ixsm: true,
            popts_txsm: false,
            special: 7,
        }),
    };
    for d in [legacy, context, data] {
        let packed = d.pack();
        assert_eq!(TransmitDescriptor::unpack(&packed), Ok(d));
        let memory = reversed(packed);
        let again = TransmitDescriptor::unpack(&reversed(memory)).unwrap().pack();
        assert_eq!(reversed(again), memory);
    }
    let memory = reversed(context.pack());
    assert_eq!(memory[10], 0x0A);
    assert_eq!(memory[11], 0x20 | 0x10 | 0x07);
    assert_eq!(memory[12], 1);
}

#[test]
fn unknown_transmit_descriptor_type() {
    let mut memory = [0u8; 16];
    memory[11] = 0x20;
    memory[10] = 0x20;
    assert_eq!(TransmitDescriptor::unpack(&reversed(memory)), Err(E1000Error::BadDescriptor));
}

#[test]
fn ring_arithmetic() {
    let mut ring = DescriptorRing { ring_address: 0, length: 8, head: 6, tail: 2 };
    assert_eq!(ring.hardware_owned_descriptors(), 4);
    ring.advance_head();
    ring.advance_head();
    assert_eq!(ring.head, 0);
    assert!(!ring.is_empty());
    ring.tail = 0;
    assert!(ring.is_empty());
    assert_eq!(ring.hardware_owned_descriptors(), 0);
}

struct NoHost;

impl nic_emu::NicContext for NoHost {
    fn send(&mut self, _: &[u8]) -> Result<usize, ()> {
        Err(())
    }
    fn dma_read(&mut self, _: usize, _: &mut [u8], _: usize) {}
    fn dma_write(&mut self, _: usize, _: &[u8], _: usize) {}
    fn trigger_interrupt(&mut self) {}
    fn set_timer(&mut self, _: u64) {}
    fn delete_timer(&mut self) {}
    fn monotonic_nanos(&mut self) -> u64 {
        0
    }
}

#[test]
fn empty_ring_head_access() {
    let mut ring = DescriptorRing { ring_address: 0x1000, length: 8, head: 3, tail: 3 };
    assert_eq!(ring.read_head(&mut NoHost), Err(E1000Error::EmptyRingHeadAccess));
    assert_eq!(
        ring.write_and_advance_head(&[0u8; 16], &mut NoHost),
        Err(E1000Error::EmptyRingHeadAccess)
    );
    assert_eq!(ring.head, 3);
}

#[test]
fn buffer_sizes() {
    let sizes: Vec<usize> = [0u32, 1, 2, 3]
        .iter()
        .map(|b| ReceiveControl { bits: b << 16 }.get_buffer_size())
        .collect();
    assert_eq!(sizes, vec![2048, 1024, 512, 256]);
    assert_eq!(ReceiveControl { bits: (1 << 16) | (1 << 25) }.get_buffer_size(), 16384);
}

#[test]
fn itr_interval() {
    assert_eq!(InterruptDelay { bits: 0 }.get_itr_interval(), None);
    assert_eq!(InterruptDelay { bits: 0x100 }.get_itr_interval(), Some(65_536));
}

#[test]
fn interrupt_cause_modify() {
    let mut c = InterruptCauses { bits: 0b101 };
    c.modify(&InterruptCauses { bits: 0b011 }, false);
    assert_eq!(c.bits, 0b111);
    c.modify(&InterruptCauses { bits: 0b110 }, true);
    assert_eq!(c.bits, 0b001);
}

#[test]
fn register_bytes() {
    let mut s = Status { bits: 0 };
    s.write([0xFF, 0xFF, 0xFF, 0xFF]);
    assert_eq!(s.bits, 0x2);
    assert_eq!(s.read(), [0xC3, 0, 0, 0]);
    let mut regs = Registers::new();
    regs.set_mac([1, 2, 3, 4, 5, 6]);
    assert_eq!(regs.ral0.bits, 0x0403_0201);
    assert_eq!(regs.rah0.bits, 0x0605);
    regs.rd_ba_l.bits = 0x1234_5678;
    regs.rd_ba_h.bits = 0x9;
    assert_eq!(regs.get_receive_descriptor_base_address(), 0x9_1234_5670);
}

#[test]
fn wrapping_adds() {
    let mut a = [0xFFu8, 0xFF];
    wrapping_add_to_u16_be_bytes(&mut a, 2);
    assert_eq!(a, [0, 1]);
    let mut b = [0x00u8, 0x00, 0xFF, 0xFF];
    wrapping_add_to_u32_be_bytes(&mut b, 1);
    assert_eq!(b, [0, 1, 0, 0]);
    let mut c = [0xFFu8, 0xFF, 0xFF, 0xFF];
    wrapping_add_to_u32_be_bytes(&mut c, 3);
    assert_eq!(c, [0, 0, 0, 2]);
}

#[test]
fn internet_checksum_written() {
    // The IPv4 header example of RFC 1071 discussions: checksum 0xB861
    let mut header = vec![
        0x45, 0x00, 0x00, 0x73, 0x00, 0x00, 0x40, 0x00, 0x40, 0x11, 0x00, 0x00, 0xC0, 0xA8, 0x00,
        0x01, 0xC0, 0xA8, 0x00, 0xC7,
    ];
    write_internet_checksum(&mut header, 10, 0, 19);
    assert_eq!(&header[10..12], &[0xB8, 0x61]);
    // To the end of the packet
    let mut again = header.clone();
    again[10] = 0;
    again[11] = 0;
    write_internet_checksum(&mut again, 10, 0, 0);
    assert_eq!(again, header);
}

#[test]
fn internet_checksum_with_carries() {
    let mut data = vec![0xFFu8; 32];
    data.push(0x01);
    data.extend_from_slice(&[0u8; 31]);
    data.extend_from_slice(&[0, 0]);
    write_internet_checksum(&mut data, 64, 0, 63);
    assert_eq!(&data[64..66], &[0xFE, 0xFF]);
    // An odd length pads the last byte
    let mut odd = vec![0x12u8, 0x34, 0x56, 0, 0];
    write_internet_checksum(&mut odd, 3, 0, 2);
    assert_eq!(&odd[3..5], &(!(0x1234u16 + 0x5600)).to_be_bytes());
}

#[test]
fn udp_ipv6_header_patch() {
    let context = TransmitDescriptorTcpContext {
        ip_css: 14,
        ip_cso: 0,
        ip_cse: 0,
        tu_css: 54,
        tu_cso: 60,
        tu_cse: 0,
        paylen: 0,
        tucmd_tcp: false,
        tucmd_ip: false,
        tucmd_tse: true,
        hdrlen: 62,
        mss: 100,
    };
    let mut packet = vec![0u8; 62 + 40];
    update_prototype_headers(&mut packet, &context, 1, true, false);
    assert_eq!(&packet[18..20], &[0, 102 - 14]);
    assert_eq!(&packet[58..60], &[0, 102 - 54]);
    // With checksum offload the partial checksum takes the length
    let mut packet = vec![0u8; 62 + 40];
    update_prototype_headers(&mut packet, &context, 1, true, true);
    assert_eq!(&packet[60..62], &[0, 102 - 54]);
}

#[test]
fn receive_writeback_lengths() {
    let d = ReceiveDescriptor { buffer: 0x2000_0000, length: 0, status_dd: false, status_eop: false };
    let w = receive_writeback(d, 60, false, 2048).unwrap();
    assert_eq!((w.length, w.status_dd, w.status_eop, w.buffer), (64, true, true, 0x2000_0000));
    assert_eq!(receive_writeback(d, 60, true, 2048).unwrap().length, 60);
    assert_eq!(receive_writeback(d, 2045, false, 2048), Err(E1000Error::Unimplemented));
    assert_eq!(receive_writeback(d, 2048, true, 2048).unwrap().length, 2048);
}

#[test]
fn no_interrupt_inside_window() {
    let window = Some(InterruptMitigation { expiration: 500, interrupt_after: false });
    let d = decide_interrupt(window, true, 100, true, Some(256));
    assert!(!d.trigger);
    assert_eq!(d.set_timer, Some(400));
    let d = decide_interrupt(d.mitigation, true, 200, true, Some(256));
    assert!(!d.trigger);
    assert_eq!(d.set_timer, None);
    let d = decide_interrupt(d.mitigation, true, 500, true, Some(256));
    assert!(d.trigger);
    assert!(d.delete_timer);
    assert_eq!(d.mitigation, Some(InterruptMitigation { expiration: 756, interrupt_after: false }));
    let d = decide_interrupt(None, false, 0, true, Some(256));
    assert!(!d.trigger);
}
