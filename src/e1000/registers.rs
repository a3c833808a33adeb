//! The register bank.
// Register bits carry the datasheet's upper case abbreviations.
#![allow(non_snake_case)]

use vstd::prelude::*;

use crate::util::{le32_bytes, le32_value, u32_from_le_bytes, u32_to_le_bytes};

verus! {

/// A 32-bit device register as the driver sees it.
///
/// A register holds the bits of its mask; the bits of its fixed pattern
/// always read as one; all other bits read as zero and ignore writes.
pub trait Register {
    spec fn spec_bits(&self) -> u32;

    spec fn spec_mask() -> u32;

    spec fn spec_fixed() -> u32;

    /// The value a read returns.
    fn value(&self) -> (r: u32)
        ensures
            r == (self.spec_bits() & Self::spec_mask()) | Self::spec_fixed(),
    ;

    /// Takes a written value.
    fn store(&mut self, v: u32)
        ensures
            final(self).spec_bits() == v & Self::spec_mask(),
    ;

    /// The little-endian bytes of a read.
    fn read(&self) -> (r: [u8; 4])
        ensures
            r@ == le32_bytes((self.spec_bits() & Self::spec_mask()) | Self::spec_fixed()),
    {
        u32_to_le_bytes(self.value())
    }

    /// Takes a little-endian write.
    fn write(&mut self, data: [u8; 4])
        ensures
            final(self).spec_bits() == le32_value(data@) & Self::spec_mask(),
    {
        self.store(u32_from_le_bytes(data))
    }
}

pub const CONTROL_MASK: u32 = 0x0400_0040;

pub const CONTROL_FIXED: u32 = 0;

/// Device control (CTRL): set-link-up at bit 6, device reset at bit 26.
#[derive(Debug, Clone, Copy, PartialEq, Eq, Structural)]
pub struct Control {
    pub bits: u32,
}

impl Register for Control {
    open spec fn spec_bits(&self) -> u32 {
        self.bits
    }

    open spec fn spec_mask() -> u32 {
        CONTROL_MASK
    }

    open spec fn spec_fixed() -> u32 {
        CONTROL_FIXED
    }

    fn value(&self) -> (r: u32) {
        (self.bits & CONTROL_MASK) | CONTROL_FIXED
    }

    fn store(&mut self, v: u32) {
        self.bits = v & CONTROL_MASK;
    }
}

pub const STATUS_MASK: u32 = 0x0000_0002;

pub const STATUS_FIXED: u32 = 0x0000_00C1;

/// Device status (STATUS): link-up at bit 1; full duplex and 1000 Mb/s always reported.
#[derive(Debug, Clone, Copy, PartialEq, Eq, Structural)]
pub struct Status {
    pub bits: u32,
}

impl Register for Status {
    open spec fn spec_bits(&self) -> u32 {
        self.bits
    }

    open spec fn spec_mask() -> u32 {
        STATUS_MASK
    }

    open spec fn spec_fixed() -> u32 {
        STATUS_FIXED
    }

    fn value(&self) -> (r: u32) {
        (self.bits & STATUS_MASK) | STATUS_FIXED
    }

    fn store(&mut self, v: u32) {
        self.bits = v & STATUS_MASK;
    }
}

pub const EEPROM_CONTROL_AND_DATA_MASK: u32 = 0x0000_004F;

pub const EEPROM_CONTROL_AND_DATA_FIXED: u32 = 0x0000_0180;

/// EEPROM control and data (EECD): clock, chip select, data in, data out, request;
/// grant and present always reported.
#[derive(Debug, Clone, Copy, PartialEq, Eq, Structural)]
pub struct EepromControlAndData {
    pub bits: u32,
}

impl Register for EepromControlAndData {
    open spec fn spec_bits(&self) -> u32 {
        self.bits
    }

    open spec fn spec_mask() -> u32 {
        EEPROM_CONTROL_AND_DATA_MASK
    }

    open spec fn spec_fixed() -> u32 {
        EEPROM_CONTROL_AND_DATA_FIXED
    }

    fn value(&self) -> (r: u32) {
        (self.bits & EEPROM_CONTROL_AND_DATA_MASK) | EEPROM_CONTROL_AND_DATA_FIXED
    }

    fn store(&mut self, v: u32) {
        self.bits = v & EEPROM_CONTROL_AND_DATA_MASK;
    }
}

pub const MDI_CONTROL_MASK: u32 = 0x3C1F_FFFF;

pub const MDI_CONTROL_FIXED: u32 = 0;

/// MDI control (MDIC): data at bits 0..16, PHY register at 16..21, opcode at 26..28,
/// ready at bit 28, interrupt enable at bit 29.
#[derive(Debug, Clone, Copy, PartialEq, Eq, Structural)]
pub struct MdiControl {
    pub bits: u32,
}

impl Register for MdiControl {
    open spec fn spec_bits(&self) -> u32 {
        self.bits
    }

    open spec fn spec_mask() -> u32 {
        MDI_CONTROL_MASK
    }

    open spec fn spec_fixed() -> u32 {
        MDI_CONTROL_FIXED
    }

    fn value(&self) -> (r: u32) {
        (self.bits & MDI_CONTROL_MASK) | MDI_CONTROL_FIXED
    }

    fn store(&mut self, v: u32) {
        self.bits = v & MDI_CONTROL_MASK;
    }
}

pub const INTERRUPT_DELAY_MASK: u32 = 0x0000_FFFF;

pub const INTERRUPT_DELAY_FIXED: u32 = 0;

/// Interrupt throttling interval (ITR) in 256 ns units.
#[derive(Debug, Clone, Copy, PartialEq, Eq, Structural)]
pub struct InterruptDelay {
    pub bits: u32,
}

impl Register for InterruptDelay {
    open spec fn spec_bits(&self) -> u32 {
        self.bits
    }

    open spec fn spec_mask() -> u32 {
        INTERRUPT_DELAY_MASK
    }

    open spec fn spec_fixed() -> u32 {
        INTERRUPT_DELAY_FIXED
    }

    fn value(&self) -> (r: u32) {
        (self.bits & INTERRUPT_DELAY_MASK) | INTERRUPT_DELAY_FIXED
    }

    fn store(&mut self, v: u32) {
        self.bits = v & INTERRUPT_DELAY_MASK;
    }
}

pub const INTERRUPT_CAUSES_MASK: u32 = 0x0000_0297;

pub const INTERRUPT_CAUSES_FIXED: u32 = 0;

/// Interrupt causes, shared by ICR, ICS, IMS and IMC: TXDW, TXQE, LSC, RXDMT0, RXT0, MDAC.
#[derive(Debug, Clone, Copy, PartialEq, Eq, Structural)]
pub struct InterruptCauses {
    pub bits: u32,
}

impl Register for InterruptCauses {
    open spec fn spec_bits(&self) -> u32 {
        self.bits
    }

    open spec fn spec_mask() -> u32 {
        INTERRUPT_CAUSES_MASK
    }

    open spec fn spec_fixed() -> u32 {
        INTERRUPT_CAUSES_FIXED
    }

    fn value(&self) -> (r: u32) {
        (self.bits & INTERRUPT_CAUSES_MASK) | INTERRUPT_CAUSES_FIXED
    }

    fn store(&mut self, v: u32) {
        self.bits = v & INTERRUPT_CAUSES_MASK;
    }
}

pub const RECEIVE_CONTROL_MASK: u32 = 0x0603_0002;

pub const RECEIVE_CONTROL_FIXED: u32 = 0;

/// Receive control (RCTL): enable at bit 1, buffer size at 16..18, size extension at 25,
/// strip CRC at 26.
#[derive(Debug, Clone, Copy, PartialEq, Eq, Structural)]
pub struct ReceiveControl {
    pub bits: u32,
}

impl Register for ReceiveControl {
    open spec fn spec_bits(&self) -> u32 {
        self.bits
    }

    open spec fn spec_mask() -> u32 {
        RECEIVE_CONTROL_MASK
    }

    open spec fn spec_fixed() -> u32 {
        RECEIVE_CONTROL_FIXED
    }

    fn value(&self) -> (r: u32) {
        (self.bits & RECEIVE_CONTROL_MASK) | RECEIVE_CONTROL_FIXED
    }

    fn store(&mut self, v: u32) {
        self.bits = v & RECEIVE_CONTROL_MASK;
    }
}

pub const TRANSMIT_CONTROL_MASK: u32 = 0x0000_0002;

pub const TRANSMIT_CONTROL_FIXED: u32 = 0;

/// Transmit control (TCTL): enable at bit 1.
#[derive(Debug, Clone, Copy, PartialEq, Eq, Structural)]
pub struct TransmitControl {
    pub bits: u32,
}

impl Register for TransmitControl {
    open spec fn spec_bits(&self) -> u32 {
        self.bits
    }

    open spec fn spec_mask() -> u32 {
        TRANSMIT_CONTROL_MASK
    }

    open spec fn spec_fixed() -> u32 {
        TRANSMIT_CONTROL_FIXED
    }

    fn value(&self) -> (r: u32) {
        (self.bits & TRANSMIT_CONTROL_MASK) | TRANSMIT_CONTROL_FIXED
    }

    fn store(&mut self, v: u32) {
        self.bits = v & TRANSMIT_CONTROL_MASK;
    }
}

pub const DESCRIPTOR_BASE_ADDRESS_LOW_MASK: u32 = 0xFFFF_FFF0;

pub const DESCRIPTOR_BASE_ADDRESS_LOW_FIXED: u32 = 0;

/// Low half of a descriptor ring base address (bits 4..32).
#[derive(Debug, Clone, Copy, PartialEq, Eq, Structural)]
pub struct DescriptorBaseAddressLow {
    pub bits: u32,
}

impl Register for DescriptorBaseAddressLow {
    open spec fn spec_bits(&self) -> u32 {
        self.bits
    }

    open spec fn spec_mask() -> u32 {
        DESCRIPTOR_BASE_ADDRESS_LOW_MASK
    }

    open spec fn spec_fixed() -> u32 {
        DESCRIPTOR_BASE_ADDRESS_LOW_FIXED
    }

    fn value(&self) -> (r: u32) {
        (self.bits & DESCRIPTOR_BASE_ADDRESS_LOW_MASK) | DESCRIPTOR_BASE_ADDRESS_LOW_FIXED
    }

    fn store(&mut self, v: u32) {
        self.bits = v & DESCRIPTOR_BASE_ADDRESS_LOW_MASK;
    }
}

pub const DESCRIPTOR_BASE_ADDRESS_HIGH_MASK: u32 = 0xFFFF_FFFF;

pub const DESCRIPTOR_BASE_ADDRESS_HIGH_FIXED: u32 = 0;

/// High half of a descriptor ring base address.
#[derive(Debug, Clone, Copy, PartialEq, Eq, Structural)]
pub struct DescriptorBaseAddressHigh {
    pub bits: u32,
}

impl Register for DescriptorBaseAddressHigh {
    open spec fn spec_bits(&self) -> u32 {
        self.bits
    }

    open spec fn spec_mask() -> u32 {
        DESCRIPTOR_BASE_ADDRESS_HIGH_MASK
    }

    open spec fn spec_fixed() -> u32 {
        DESCRIPTOR_BASE_ADDRESS_HIGH_FIXED
    }

    fn value(&self) -> (r: u32) {
        (self.bits & DESCRIPTOR_BASE_ADDRESS_HIGH_MASK) | DESCRIPTOR_BASE_ADDRESS_HIGH_FIXED
    }

    fn store(&mut self, v: u32) {
        self.bits = v & DESCRIPTOR_BASE_ADDRESS_HIGH_MASK;
    }
}

pub const DESCRIPTOR_LENGTH_MASK: u32 = 0x000F_FF80;

pub const DESCRIPTOR_LENGTH_FIXED: u32 = 0;

/// Descriptor ring length: bits 7..20 count groups of eight descriptors.
#[derive(Debug, Clone, Copy, PartialEq, Eq, Structural)]
pub struct DescriptorLength {
    pub bits: u32,
}

impl Register for DescriptorLength {
    open spec fn spec_bits(&self) -> u32 {
        self.bits
    }

    open spec fn spec_mask() -> u32 {
        DESCRIPTOR_LENGTH_MASK
    }

    open spec fn spec_fixed() -> u32 {
        DESCRIPTOR_LENGTH_FIXED
    }

    fn value(&self) -> (r: u32) {
        (self.bits & DESCRIPTOR_LENGTH_MASK) | DESCRIPTOR_LENGTH_FIXED
    }

    fn store(&mut self, v: u32) {
        self.bits = v & DESCRIPTOR_LENGTH_MASK;
    }
}

pub const DESCRIPTOR_HEAD_MASK: u32 = 0x0000_FFFF;

pub const DESCRIPTOR_HEAD_FIXED: u32 = 0;

/// Descriptor ring head index.
#[derive(Debug, Clone, Copy, PartialEq, Eq, Structural)]
pub struct DescriptorHead {
    pub bits: u32,
}

impl Register for DescriptorHead {
    open spec fn spec_bits(&self) -> u32 {
        self.bits
    }

    open spec fn spec_mask() -> u32 {
        DESCRIPTOR_HEAD_MASK
    }

    open spec fn spec_fixed() -> u32 {
        DESCRIPTOR_HEAD_FIXED
    }

    fn value(&self) -> (r: u32) {
        (self.bits & DESCRIPTOR_HEAD_MASK) | DESCRIPTOR_HEAD_FIXED
    }

    fn store(&mut self, v: u32) {
        self.bits = v & DESCRIPTOR_HEAD_MASK;
    }
}

pub const DESCRIPTOR_TAIL_MASK: u32 = 0x0000_FFFF;

pub const DESCRIPTOR_TAIL_FIXED: u32 = 0;

/// Descriptor ring tail index.
#[derive(Debug, Clone, Copy, PartialEq, Eq, Structural)]
pub struct DescriptorTail {
    pub bits: u32,
}

impl Register for DescriptorTail {
    open spec fn spec_bits(&self) -> u32 {
        self.bits
    }

    open spec fn spec_mask() -> u32 {
        DESCRIPTOR_TAIL_MASK
    }

    open spec fn spec_fixed() -> u32 {
        DESCRIPTOR_TAIL_FIXED
    }

    fn value(&self) -> (r: u32) {
        (self.bits & DESCRIPTOR_TAIL_MASK) | DESCRIPTOR_TAIL_FIXED
    }

    fn store(&mut self, v: u32) {
        self.bits = v & DESCRIPTOR_TAIL_MASK;
    }
}

pub const RECEIVE_ADDRESS_LOW_MASK: u32 = 0xFFFF_FFFF;

pub const RECEIVE_ADDRESS_LOW_FIXED: u32 = 0;

/// Low four bytes of receive address 0 (the station MAC).
#[derive(Debug, Clone, Copy, PartialEq, Eq, Structural)]
pub struct ReceiveAddressLow {
    pub bits: u32,
}

impl Register for ReceiveAddressLow {
    open spec fn spec_bits(&self) -> u32 {
        self.bits
    }

    open spec fn spec_mask() -> u32 {
        RECEIVE_ADDRESS_LOW_MASK
    }

    open spec fn spec_fixed() -> u32 {
        RECEIVE_ADDRESS_LOW_FIXED
    }

    fn value(&self) -> (r: u32) {
        (self.bits & RECEIVE_ADDRESS_LOW_MASK) | RECEIVE_ADDRESS_LOW_FIXED
    }

    fn store(&mut self, v: u32) {
        self.bits = v & RECEIVE_ADDRESS_LOW_MASK;
    }
}

pub const RECEIVE_ADDRESS_HIGH_MASK: u32 = 0x0000_FFFF;

pub const RECEIVE_ADDRESS_HIGH_FIXED: u32 = 0;

/// High two bytes of receive address 0.
#[derive(Debug, Clone, Copy, PartialEq, Eq, Structural)]
pub struct ReceiveAddressHigh {
    pub bits: u32,
}

impl Register for ReceiveAddressHigh {
    open spec fn spec_bits(&self) -> u32 {
        self.bits
    }

    open spec fn spec_mask() -> u32 {
        RECEIVE_ADDRESS_HIGH_MASK
    }

    open spec fn spec_fixed() -> u32 {
        RECEIVE_ADDRESS_HIGH_FIXED
    }

    fn value(&self) -> (r: u32) {
        (self.bits & RECEIVE_ADDRESS_HIGH_MASK) | RECEIVE_ADDRESS_HIGH_FIXED
    }

    fn store(&mut self, v: u32) {
        self.bits = v & RECEIVE_ADDRESS_HIGH_MASK;
    }
}

// Bits of the registers the device logic reads or sets.
pub const CTRL_SLU: u32 = 0x40;

pub const CTRL_RST: u32 = 0x0400_0000;

pub const STATUS_LU: u32 = 0x2;

pub const EECD_SK: u32 = 0x1;

pub const EECD_CS: u32 = 0x2;

pub const EECD_DI: u32 = 0x4;

pub const EECD_DO: u32 = 0x8;

pub const MDIC_DATA: u32 = 0xFFFF;

pub const MDIC_READY: u32 = 0x1000_0000;

pub const MDIC_INTERRUPT_ENABLE: u32 = 0x2000_0000;

pub const ICR_TXDW: u32 = 0x1;

pub const ICR_TXQE: u32 = 0x2;

pub const ICR_LSC: u32 = 0x4;

pub const ICR_RXDMT0: u32 = 0x10;

pub const ICR_RXT0: u32 = 0x80;

pub const ICR_MDAC: u32 = 0x200;

pub const RCTL_EN: u32 = 0x2;

pub const RCTL_BSEX: u32 = 0x0200_0000;

pub const RCTL_SECRC: u32 = 0x0400_0000;

pub const TCTL_EN: u32 = 0x2;

/// The receive buffer size that RCTL's BSIZE and BSEX fields select.
pub open spec fn buffer_size_of(bsize: u32, bsex: bool) -> nat {
    let base: nat = if bsize == 0 {
        2048
    } else if bsize == 1 {
        1024
    } else if bsize == 2 {
        512
    } else {
        256
    };
    if bsex {
        base * 16
    } else {
        base
    }
}

impl ReceiveControl {
    pub open spec fn spec_bsize(&self) -> u32 {
        self.bits / 0x1_0000 % 4
    }

    pub open spec fn spec_bsex(&self) -> bool {
        self.bits & RCTL_BSEX != 0
    }

    pub open spec fn spec_secrc(&self) -> bool {
        self.bits & RCTL_SECRC != 0
    }

    pub open spec fn spec_buffer_size(&self) -> int {
        buffer_size_of(self.spec_bsize(), self.spec_bsex()) as int
    }

    /// The size of each receive buffer in bytes.
    pub fn get_buffer_size(&self) -> (r: usize)
        ensures
            r == buffer_size_of(self.spec_bsize(), self.spec_bsex()),
    {
        let bsize = self.bits / 0x1_0000 % 4;
        let mut size: usize = if bsize == 0 {
            2048
        } else if bsize == 1 {
            1024
        } else if bsize == 2 {
            512
        } else {
            256
        };
        if self.bits & RCTL_BSEX != 0 {
            // BSEX is meant for BSIZE values other than 00b, but is honoured for all
            size = size * 16;
        }
        size
    }
}

impl InterruptDelay {
    /// The interval field, in 256 ns units.
    pub open spec fn spec_interval(&self) -> u32 {
        self.bits % 0x1_0000
    }

    /// The throttling interval of ITR in nanoseconds, `None` where throttling is off.
    pub fn get_itr_interval(&self) -> (r: Option<u64>)
        ensures
            self.spec_interval() == 0 ==> r is None,
            self.spec_interval() != 0 ==> r == Some((self.spec_interval() * 256) as u64),
    {
        let interval = self.bits % 0x1_0000;
        if interval == 0 {
            None
        } else {
            Some(interval as u64 * 256)
        }
    }
}

impl InterruptCauses {
    /// Sets the causes of `mask`, or clears them where `clear` holds.
    pub fn modify(&mut self, mask: &InterruptCauses, clear: bool)
        ensures
            final(self).bits == if clear {
                old(self).bits & !mask.bits
            } else {
                old(self).bits | mask.bits
            },
    {
        if clear {
            self.bits = self.bits & !mask.bits;
        } else {
            self.bits = self.bits | mask.bits;
        }
    }
}

/// The registers of the device that the model emulates.
#[derive(Debug)]
pub struct Registers {
    pub ctrl: Control,
    pub status: Status,
    pub eecd: EepromControlAndData,
    pub mdic: MdiControl,
    pub interrupt_throttling: InterruptDelay,
    pub interrupt_cause: InterruptCauses,
    pub interrupt_mask: InterruptCauses,
    pub rctl: ReceiveControl,
    pub tctl: TransmitControl,
    pub rd_ba_l: DescriptorBaseAddressLow,
    pub rd_ba_h: DescriptorBaseAddressHigh,
    pub rd_len: DescriptorLength,
    pub rd_h: DescriptorHead,
    pub rd_t: DescriptorTail,
    pub td_ba_l: DescriptorBaseAddressLow,
    pub td_ba_h: DescriptorBaseAddressHigh,
    pub td_len: DescriptorLength,
    pub td_h: DescriptorHead,
    pub td_t: DescriptorTail,
    pub ral0: ReceiveAddressLow,
    pub rah0: ReceiveAddressHigh,
}

/// The descriptor ring base address that a low and a high register give.
pub open spec fn base_address_of(low: u32, high: u32) -> u64 {
    ((low & DESCRIPTOR_BASE_ADDRESS_LOW_MASK) as u64) | ((high as u64) << 32u64)
}

/// The 16-bit value of two little-endian bytes.
pub open spec fn le16_of(lo: u8, hi: u8) -> u32 {
    (lo as u32 + hi as u32 * 0x100) as u32
}

impl Registers {
    /// Every register is zero, but for the receive address, which is `mac`.
    pub open spec fn is_reset_with_mac(&self, mac: Seq<u8>) -> bool {
        &&& self.ctrl.bits == 0
        &&& self.status.bits == 0
        &&& self.eecd.bits == 0
        &&& self.mdic.bits == 0
        &&& self.interrupt_throttling.bits == 0
        &&& self.interrupt_cause.bits == 0
        &&& self.interrupt_mask.bits == 0
        &&& self.rctl.bits == 0
        &&& self.tctl.bits == 0
        &&& self.rd_ba_l.bits == 0
        &&& self.rd_ba_h.bits == 0
        &&& self.rd_len.bits == 0
        &&& self.rd_h.bits == 0
        &&& self.rd_t.bits == 0
        &&& self.td_ba_l.bits == 0
        &&& self.td_ba_h.bits == 0
        &&& self.td_len.bits == 0
        &&& self.td_h.bits == 0
        &&& self.td_t.bits == 0
        &&& self.ral0.bits == le16_of(mac[0], mac[1]) + le16_of(mac[2], mac[3]) * 0x1_0000
        &&& self.rah0.bits == le16_of(mac[4], mac[5])
    }

    /// All registers at their power-on value of zero.
    pub fn new() -> (r: Registers)
        ensures
            r.is_reset_with_mac(seq![0u8, 0, 0, 0, 0, 0]),
    {
        Registers {
            ctrl: Control { bits: 0 },
            status: Status { bits: 0 },
            eecd: EepromControlAndData { bits: 0 },
            mdic: MdiControl { bits: 0 },
            interrupt_throttling: InterruptDelay { bits: 0 },
            interrupt_cause: InterruptCauses { bits: 0 },
            interrupt_mask: InterruptCauses { bits: 0 },
            rctl: ReceiveControl { bits: 0 },
            tctl: TransmitControl { bits: 0 },
            rd_ba_l: DescriptorBaseAddressLow { bits: 0 },
            rd_ba_h: DescriptorBaseAddressHigh { bits: 0 },
            rd_len: DescriptorLength { bits: 0 },
            rd_h: DescriptorHead { bits: 0 },
            rd_t: DescriptorTail { bits: 0 },
            td_ba_l: DescriptorBaseAddressLow { bits: 0 },
            td_ba_h: DescriptorBaseAddressHigh { bits: 0 },
            td_len: DescriptorLength { bits: 0 },
            td_h: DescriptorHead { bits: 0 },
            td_t: DescriptorTail { bits: 0 },
            ral0: ReceiveAddressLow { bits: 0 },
            rah0: ReceiveAddressHigh { bits: 0 },
        }
    }

    /// Places the station MAC in receive address 0, little-endian.
    pub fn set_mac(&mut self, mac: [u8; 6])
        ensures
            final(self).ral0.bits == le16_of(mac[0], mac[1]) + le16_of(mac[2], mac[3]) * 0x1_0000,
            final(self).rah0.bits == le16_of(mac[4], mac[5]),
            final(self).ctrl == old(self).ctrl,
            final(self).status == old(self).status,
            final(self).eecd == old(self).eecd,
            final(self).mdic == old(self).mdic,
            final(self).interrupt_throttling == old(self).interrupt_throttling,
            final(self).interrupt_cause == old(self).interrupt_cause,
            final(self).interrupt_mask == old(self).interrupt_mask,
            final(self).rctl == old(self).rctl,
            final(self).tctl == old(self).tctl,
            final(self).rd_ba_l == old(self).rd_ba_l,
            final(self).rd_ba_h == old(self).rd_ba_h,
            final(self).rd_len == old(self).rd_len,
            final(self).rd_h == old(self).rd_h,
            final(self).rd_t == old(self).rd_t,
            final(self).td_ba_l == old(self).td_ba_l,
            final(self).td_ba_h == old(self).td_ba_h,
            final(self).td_len == old(self).td_len,
            final(self).td_h == old(self).td_h,
            final(self).td_t == old(self).td_t,
    {
        self.ral0.bits = (mac[0] as u32 + mac[1] as u32 * 0x100) + (mac[2] as u32 + mac[3] as u32
            * 0x100) * 0x1_0000;
        self.rah0.bits = mac[4] as u32 + mac[5] as u32 * 0x100;
    }

    pub fn get_receive_descriptor_base_address(&self) -> (r: u64)
        ensures
            r == base_address_of(self.rd_ba_l.bits, self.rd_ba_h.bits),
    {
        ((self.rd_ba_l.bits & DESCRIPTOR_BASE_ADDRESS_LOW_MASK) as u64) | ((self.rd_ba_h.bits as u64)
            << 32u64)
    }

    pub fn get_transmit_descriptor_base_address(&self) -> (r: u64)
        ensures
            r == base_address_of(self.td_ba_l.bits, self.td_ba_h.bits),
    {
        ((self.td_ba_l.bits & DESCRIPTOR_BASE_ADDRESS_LOW_MASK) as u64) | ((self.td_ba_h.bits as u64)
            << 32u64)
    }
}

impl Default for Registers {
    fn default() -> (r: Registers)
        ensures
            r.is_reset_with_mac(seq![0u8, 0, 0, 0, 0, 0]),
    {
        Registers::new()
    }
}

} // verus!
