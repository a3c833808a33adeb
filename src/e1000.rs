//! The device: its state and the host's entry points.
use vstd::prelude::*;

pub mod descriptors;
pub mod eeprom;
pub mod interrupts;
pub mod phy;
pub mod receive;
pub mod registers;
pub mod transmit;

use crate::e1000::descriptors::{owned_count, reverse_descriptor, DescriptorRing, DESCRIPTOR_LENGTH};
use crate::e1000::eeprom::{EepromInterface, EepromWires};
use crate::e1000::interrupts::InterruptMitigation;
use crate::e1000::phy::{Phy, PHY_STATUS_LINK};
use crate::e1000::receive::{throttled_state, ReceiveState};
use crate::e1000::registers::{
    base_address_of, DescriptorBaseAddressHigh, DescriptorBaseAddressLow, DescriptorHead,
    Control, DescriptorLength, DescriptorTail, EepromControlAndData, InterruptCauses, MdiControl,
    ReceiveControl, TransmitControl, CONTROL_MASK, EEPROM_CONTROL_AND_DATA_MASK, MDI_CONTROL_MASK,
    TRANSMIT_CONTROL_MASK, InterruptDelay, ReceiveAddressHigh,
    ReceiveAddressLow, Register, Registers, Status, DESCRIPTOR_BASE_ADDRESS_HIGH_MASK,
    DESCRIPTOR_BASE_ADDRESS_LOW_MASK, DESCRIPTOR_HEAD_MASK, DESCRIPTOR_LENGTH_MASK,
    DESCRIPTOR_TAIL_MASK, INTERRUPT_CAUSES_MASK, INTERRUPT_DELAY_MASK, RECEIVE_CONTROL_MASK, RECEIVE_ADDRESS_HIGH_MASK, RECEIVE_ADDRESS_LOW_MASK,
    STATUS_MASK, CTRL_RST, CTRL_SLU, EECD_CS, EECD_DI,
    EECD_DO, EECD_SK, ICR_LSC, RCTL_EN, STATUS_LU, TCTL_EN,
};
use crate::util::{le32_bytes, le32_value, u32_from_le_bytes, u32_to_le_bytes};
use crate::NicContext;

verus! {

/// What can go wrong in the device model.
#[derive(Debug, Clone, Copy, PartialEq, Eq, Structural)]
pub enum E1000Error {
    /// A register access that is not four bytes at a multiple of four.
    BadAccessShape,
    /// An I/O access outside the address and data registers.
    UnsupportedIoOffset,
    /// A transmit descriptor of unknown type or out of sequence.
    BadDescriptor,
    /// A read or write of the head of a ring that hardware does not own.
    EmptyRingHeadAccess,
    /// A transmit descriptor whose buffer address is zero.
    NullTransmitBuffer,
    /// A feature the model does not emulate.
    Unimplemented,
    /// An EEPROM opcode other than READ.
    UnsupportedEepromOpcode,
    /// The host failed to send a frame.
    SendFailure,
}

/// A call the device made to its host: DMA with the bytes read or written, a frame
/// sent, the interrupt line or the timer.
pub enum HostEffect {
    DmaPrepare { address: usize, length: usize },
    /// `bytes` are what the host returned.
    DmaRead { address: usize, offset: usize, bytes: Ghost<Seq<u8>> },
    DmaWrite { address: usize, offset: usize, bytes: Ghost<Seq<u8>> },
    Send { frame: Ghost<Seq<u8>> },
    TriggerInterrupt,
    SetTimer { nanos: u64 },
    DeleteTimer,
}

/// The emulated network controller, generic over its host.
pub struct E1000<C: NicContext> {
    pub nic_ctx: C,
    /// Throttle interrupts as ITR asks; the host's timer must then call `timer_elapsed`.
    pub enable_interrupt_mitigation: bool,
    pub receive_state: ReceiveState,
    pub regs: Registers,
    /// I/O address register of BAR1: the BAR0 offset that the I/O data register reaches.
    pub io_addr: u32,
    pub eeprom: EepromInterface,
    pub phy: Phy,
    pub rx_ring: Option<DescriptorRing>,
    pub tx_ring: Option<DescriptorRing>,
    pub interrupt_mitigation: Option<InterruptMitigation>,
    /// The calls made to the host, oldest first (reading its clock aside).
    pub effects: Ghost<Seq<HostEffect>>,
}

/// The value a driver reads from a register.
pub open spec fn reg_value<R: Register>(r: R) -> u32 {
    (r.spec_bits() & R::spec_mask()) | R::spec_fixed()
}

/// The ring that base, length, head and tail registers describe: `None` for a
/// length of zero; head and tail taken modulo the length.
pub open spec fn ring_of(
    low: DescriptorBaseAddressLow,
    high: DescriptorBaseAddressHigh,
    len: DescriptorLength,
    head: DescriptorHead,
    tail: DescriptorTail,
) -> Option<DescriptorRing> {
    let length = ((len.bits / 0x80 % 0x2000) * 8) as u32;
    if length == 0 {
        None
    } else {
        Some(
            DescriptorRing {
                ring_address: base_address_of(low.bits, high.bits) as usize,
                length: length as usize,
                head: ((head.bits % 0x1_0000) % length) as usize,
                tail: ((tail.bits % 0x1_0000) % length) as usize,
            },
        )
    }
}

impl<C: NicContext> E1000<C> {
    /// After a CTRL write from state `o`: a device reset, which cancels the timer; or
    /// link up, reported by a link status change; or nothing.
    pub open spec fn ctrl_written(&self, o: Self) -> bool {
        if o.regs.ctrl.bits & CTRL_RST != 0 {
            self.is_reset() && self.effects@ == o.effects@.push(HostEffect::DeleteTimer) && self.eeprom
                == o.eeprom
        } else if o.regs.ctrl.bits & CTRL_SLU != 0 {
            &&& self.regs == (Registers {
                status: Status { bits: o.regs.status.bits | STATUS_LU },
                interrupt_cause: InterruptCauses { bits: o.regs.interrupt_cause.bits | ICR_LSC },
                ..o.regs
            })
            &&& self.phy.status.bits == o.phy.status.bits | PHY_STATUS_LINK
            &&& self.rx_ring == o.rx_ring && self.tx_ring == o.tx_ring && self.receive_state == o.receive_state
            &&& self.interrupted(o, (o.regs.interrupt_cause.bits | ICR_LSC) & o.regs.interrupt_mask.bits != 0)
        } else {
            *self == o
        }
    }

    /// Nothing but the rings and the receive state differs from `o`.
    pub open spec fn only_rings_changed(&self, o: Self) -> bool {
        *self == (E1000 { rx_ring: self.rx_ring, tx_ring: self.tx_ring, receive_state: self.receive_state, ..o })
    }

    /// After an RCTL write from state `o`: enabling the receiver sets up its ring
    /// from the RD registers and the receive state from the ring.
    pub open spec fn rctl_written(&self, o: Self) -> bool {
        &&& self.only_rings_changed(o)
        &&& self.tx_ring == o.tx_ring
        &&& if o.regs.rctl.bits & RCTL_EN != 0 && o.rx_ring is None {
            let ring = ring_of(o.regs.rd_ba_l, o.regs.rd_ba_h, o.regs.rd_len, o.regs.rd_h, o.regs.rd_t);
            &&& self.rx_ring == ring
            &&& ring is Some ==> self.receive_state == throttled_state(
                owned_count(ring->Some_0.head as int, ring->Some_0.tail as int, ring->Some_0.length as int),
            )
            &&& ring is None ==> self.receive_state == o.receive_state
        } else {
            self.rx_ring == o.rx_ring && self.receive_state == o.receive_state
        }
    }

    /// After a TCTL write from state `o`: enabling the transmitter sets up its ring.
    pub open spec fn tctl_written(&self, o: Self) -> bool {
        &&& self.only_rings_changed(o)
        &&& self.rx_ring == o.rx_ring
        &&& self.receive_state == o.receive_state
        &&& self.tx_ring == if o.regs.tctl.bits & TCTL_EN != 0 && o.tx_ring is None {
            ring_of(o.regs.td_ba_l, o.regs.td_ba_h, o.regs.td_len, o.regs.td_h, o.regs.td_t)
        } else {
            o.tx_ring
        }
    }

    /// After an RDT write from state `o`: the receive ring takes the new tail, and the
    /// receive state follows.
    pub open spec fn rdt_written(&self, o: Self) -> bool {
        &&& self.only_rings_changed(o)
        &&& self.tx_ring == o.tx_ring
        &&& if o.rx_ring is Some {
            let before = o.rx_ring->Some_0;
            let n = self.rx_ring->Some_0;
            &&& self.rx_ring is Some
            &&& n == (DescriptorRing {
                tail: ((o.regs.rd_t.bits % 0x1_0000) % (before.length as u32)) as usize,
                ..before
            })
            &&& self.receive_state == throttled_state(owned_count(n.head as int, n.tail as int, n.length as int))
        } else {
            self.rx_ring is None && self.receive_state == o.receive_state
        }
    }

    /// The Microwire lines that EECD drives.
    pub open spec fn eecd_wires(&self) -> EepromWires {
        EepromWires {
            clock_input: self.regs.eecd.bits & EECD_SK != 0,
            chip_select: self.regs.eecd.bits & EECD_CS != 0,
            data_input: self.regs.eecd.bits & EECD_DI != 0,
            data_output: false,
        }
    }

    /// After an EECD write from state `o`: the EEPROM takes one sample of the lines,
    /// and EECD's data output shows the line it drives.
    pub open spec fn eecd_written(&self, o: Self, r: Result<(), E1000Error>) -> bool {
        let (result, eeprom, output) = o.eeprom.spec_process_wires(o.eecd_wires());
        &&& r == result
        &&& self.eeprom == eeprom
        &&& self.regs == (Registers {
            eecd: EepromControlAndData {
                bits: if output {
                    o.regs.eecd.bits | EECD_DO
                } else {
                    o.regs.eecd.bits & !EECD_DO
                },
            },
            ..o.regs
        })
        &&& *self == (E1000 { regs: self.regs, eeprom: self.eeprom, ..o })
    }

    pub open spec fn with_regs(self, regs: Registers) -> Self {
        E1000 { regs, ..self }
    }

    /// After the register at `offset` was written `v` from state `o`, with result `r`:
    /// the register takes the bits of its mask, then its side effect runs.
    pub open spec fn register_written(
        &self,
        o: Self,
        offset: u32,
        v: u32,
        r: Option<Result<(), E1000Error>>,
    ) -> bool {
        let ok = r == Some(Ok::<(), E1000Error>(()));
        if offset == 0x0 {
            ok && self.ctrl_written(o.with_regs(Registers { ctrl: Control { bits: v & CONTROL_MASK }, ..o.regs }))
        } else if offset == 0x10 {
            r is Some && self.eecd_written(
                o.with_regs(Registers { eecd: EepromControlAndData { bits: v & EEPROM_CONTROL_AND_DATA_MASK }, ..o.regs }),
                r->Some_0,
            )
        } else if offset == 0x20 {
            ok && self.mdic_written(o.with_regs(Registers { mdic: MdiControl { bits: v & MDI_CONTROL_MASK }, ..o.regs }))
        } else if offset == 0xC0 || offset == 0xC8 {
            let causes = v & INTERRUPT_CAUSES_MASK;
            let c = if offset == 0xC0 {
                o.regs.interrupt_cause.bits & !causes
            } else {
                o.regs.interrupt_cause.bits | causes
            };
            let regs = Registers { interrupt_cause: InterruptCauses { bits: c }, ..o.regs };
            &&& ok
            &&& self.regs == regs
            &&& self.unchanged_but_host_and_mitigation(o.with_regs(regs))
            &&& self.interrupted(o, c & o.regs.interrupt_mask.bits != 0)
        } else if offset == 0xD0 || offset == 0xD8 {
            let causes = v & INTERRUPT_CAUSES_MASK;
            let m = if offset == 0xD8 {
                o.regs.interrupt_mask.bits & !causes
            } else {
                o.regs.interrupt_mask.bits | causes
            };
            let regs = Registers { interrupt_mask: InterruptCauses { bits: m }, ..o.regs };
            &&& ok
            &&& self.regs == regs
            &&& self.unchanged_but_host_and_mitigation(o.with_regs(regs))
            &&& self.interrupted(o, o.regs.interrupt_cause.bits & m != 0)
        } else if offset == 0x100 {
            ok && self.rctl_written(o.with_regs(Registers { rctl: ReceiveControl { bits: v & RECEIVE_CONTROL_MASK }, ..o.regs }))
        } else if offset == 0x400 {
            ok && self.tctl_written(o.with_regs(Registers { tctl: TransmitControl { bits: v & TRANSMIT_CONTROL_MASK }, ..o.regs }))
        } else if offset == 0x2818 {
            ok && self.rdt_written(o.with_regs(Registers { rd_t: DescriptorTail { bits: v & DESCRIPTOR_TAIL_MASK }, ..o.regs }))
        } else if offset == 0x3818 {
            ok && self.tdt_written(o.with_regs(Registers { td_t: DescriptorTail { bits: v & DESCRIPTOR_TAIL_MASK }, ..o.regs }))
        } else if is_plain_register(offset) {
            ok && *self == o.with_regs(plain_written(o.regs, offset, v))
        } else {
            r is None && *self == o
        }
    }

    /// After a BAR0 access from state `o` at `offset` with buffer `before`, which
    /// reads `after`, with result `r`.
    pub open spec fn bar0_accessed(
        &self,
        o: Self,
        offset: usize,
        before: Seq<u8>,
        after: Seq<u8>,
        write: bool,
        r: Result<usize, E1000Error>,
    ) -> bool {
        if before.len() != 4 || offset % 4 != 0 {
            r == Err::<usize, E1000Error>(E1000Error::BadAccessShape) && *self == o && after == before
        } else if offset > u32::MAX {
            r == Ok::<usize, E1000Error>(4) && *self == o && after == before
        } else if !write {
            &&& r == Ok::<usize, E1000Error>(4)
            &&& match read_value(o.regs, offset as u32) {
                Some(v) => after == le32_bytes(v) && *self == if offset == 0xC0 {
                    o.with_regs(Registers { interrupt_cause: InterruptCauses { bits: 0 }, ..o.regs })
                } else {
                    o
                },
                None => after == before && *self == o,
            }
        } else {
            &&& after == before
            &&& exists|ar: Option<Result<(), E1000Error>>|
                #[trigger] self.register_written(o, offset as u32, le32_value(before), ar) && r == match ar {
                    Some(Err(e)) => Err::<usize, E1000Error>(e),
                    _ => Ok::<usize, E1000Error>(4),
                }
        }
    }

    /// After a TDT write from state `o`: the transmit ring drained, where there is one.
    pub open spec fn tdt_written(&self, o: Self) -> bool {
        if o.tx_ring is None {
            *self == o
        } else {
            exists|report_status: bool| #[trigger] self.tx_drained(o, report_status)
        }
    }

    /// Everything but the host and the record of its effects is as in `o`.
    pub open spec fn only_host_changed(&self, o: Self) -> bool {
        *self == (E1000 { nic_ctx: self.nic_ctx, effects: self.effects, ..o })
    }

    pub fn host_dma_write(&mut self, address: usize, buffer: &[u8], offset: usize)
        ensures
            final(self).only_host_changed(*old(self)),
            final(self).effects@ == old(self).effects@.push(
                HostEffect::DmaWrite { address, offset, bytes: Ghost(buffer@) },
            ),
    {
        self.nic_ctx.dma_write(address, buffer, offset);
        proof {
            self.effects@ = self.effects@.push(HostEffect::DmaWrite { address, offset, bytes: Ghost(buffer@) });
        }
    }

    pub fn host_dma_prepare(&mut self, address: usize, length: usize)
        ensures
            final(self).only_host_changed(*old(self)),
            final(self).effects@ == old(self).effects@.push(HostEffect::DmaPrepare { address, length }),
    {
        self.nic_ctx.dma_prepare(address, length);
        proof {
            self.effects@ = self.effects@.push(HostEffect::DmaPrepare { address, length });
        }
    }

    pub fn host_dma_read(&mut self, address: usize, buffer: &mut [u8], offset: usize)
        ensures
            final(self).only_host_changed(*old(self)),
            final(buffer)@.len() == old(buffer)@.len(),
            final(self).effects@ == old(self).effects@.push(
                HostEffect::DmaRead { address, offset, bytes: Ghost(final(buffer)@) },
            ),
    {
        self.nic_ctx.dma_read(address, buffer, offset);
        proof {
            self.effects@ = self.effects@.push(HostEffect::DmaRead { address, offset, bytes: Ghost(buffer@) });
        }
    }

    /// Reads the head slot of `ring`, in packed form: the memory bytes reversed.
    pub fn read_ring_head(&mut self, ring: &DescriptorRing) -> (r: [u8; 16])
        requires
            ring.wf(),
        ensures
            final(self).only_host_changed(*old(self)),
            final(self).effects@ == old(self).effects@ + seq![
                HostEffect::DmaPrepare { address: ring.ring_address, length: (ring.length * 16) as usize },
                HostEffect::DmaRead {
                    address: ring.ring_address,
                    offset: (ring.head * 16) as usize,
                    bytes: Ghost(r@.reverse()),
                },
            ],
    {
        self.host_dma_prepare(ring.ring_address, ring.length * DESCRIPTOR_LENGTH);
        let mut data = [0u8; 16];
        self.host_dma_read(ring.ring_address, &mut data, ring.head * DESCRIPTOR_LENGTH);
        let r = reverse_descriptor(data);
        assert(r@.reverse() =~= data@);
        assert(self.effects@ =~= old(self).effects@ + seq![
            HostEffect::DmaPrepare { address: ring.ring_address, length: (ring.length * 16) as usize },
            HostEffect::DmaRead {
                address: ring.ring_address,
                offset: (ring.head * 16) as usize,
                bytes: Ghost(r@.reverse()),
            },
        ]);
        r
    }

    pub fn host_send(&mut self, frame: &[u8]) -> (r: Result<usize, ()>)
        ensures
            final(self).only_host_changed(*old(self)),
            final(self).effects@ == old(self).effects@.push(HostEffect::Send { frame: Ghost(frame@) }),
    {
        let r = self.nic_ctx.send(frame);
        proof {
            self.effects@ = self.effects@.push(HostEffect::Send { frame: Ghost(frame@) });
        }
        r
    }

    pub fn host_trigger_interrupt(&mut self)
        ensures
            final(self).only_host_changed(*old(self)),
            final(self).effects@ == old(self).effects@.push(HostEffect::TriggerInterrupt),
    {
        self.nic_ctx.trigger_interrupt();
        proof {
            self.effects@ = self.effects@.push(HostEffect::TriggerInterrupt);
        }
    }

    pub fn host_set_timer(&mut self, nanos: u64)
        ensures
            final(self).only_host_changed(*old(self)),
            final(self).effects@ == old(self).effects@.push(HostEffect::SetTimer { nanos }),
    {
        self.nic_ctx.set_timer(nanos);
        proof {
            self.effects@ = self.effects@.push(HostEffect::SetTimer { nanos });
        }
    }

    pub fn host_delete_timer(&mut self)
        ensures
            final(self).only_host_changed(*old(self)),
            final(self).effects@ == old(self).effects@.push(HostEffect::DeleteTimer),
    {
        self.nic_ctx.delete_timer();
        proof {
            self.effects@ = self.effects@.push(HostEffect::DeleteTimer);
        }
    }

    /// Writes a packed descriptor to the head slot of `ring`, in memory byte order.
    pub fn write_ring_head(&mut self, ring: &DescriptorRing, packed: &[u8; 16])
        requires
            ring.wf(),
        ensures
            final(self).only_host_changed(*old(self)),
            final(self).effects@ == old(self).effects@ + seq![
                HostEffect::DmaPrepare { address: ring.ring_address, length: (ring.length * 16) as usize },
                HostEffect::DmaWrite {
                    address: ring.ring_address,
                    offset: (ring.head * 16) as usize,
                    bytes: Ghost(packed@.reverse()),
                },
            ],
    {
        self.host_dma_prepare(ring.ring_address, ring.length * DESCRIPTOR_LENGTH);
        let data = reverse_descriptor(*packed);
        self.host_dma_write(ring.ring_address, &data, ring.head * DESCRIPTOR_LENGTH);
        assert(self.effects@ =~= old(self).effects@ + seq![
            HostEffect::DmaPrepare { address: ring.ring_address, length: (ring.length * 16) as usize },
            HostEffect::DmaWrite {
                address: ring.ring_address,
                offset: (ring.head * 16) as usize,
                bytes: Ghost(packed@.reverse()),
            },
        ]);
    }

    /// Rings keep head and tail within bounds, and receiving is only ever on with a ring.
    pub open spec fn wf(&self) -> bool {
        &&& self.rx_ring is Some ==> self.rx_ring->Some_0.wf()
        &&& self.tx_ring is Some ==> self.tx_ring->Some_0.wf()
        &&& self.receive_state != ReceiveState::Offline ==> self.rx_ring is Some
    }

    pub open spec fn unchanged_but_host_and_mitigation(&self, o: Self) -> bool {
        &&& self.enable_interrupt_mitigation == o.enable_interrupt_mitigation
        &&& self.receive_state == o.receive_state
        &&& self.regs == o.regs
        &&& self.io_addr == o.io_addr
        &&& self.eeprom == o.eeprom
        &&& self.phy == o.phy
        &&& self.rx_ring == o.rx_ring
        &&& self.tx_ring == o.tx_ring
    }

    pub open spec fn unchanged_but_causes_host_and_mitigation(&self, o: Self) -> bool {
        &&& self.enable_interrupt_mitigation == o.enable_interrupt_mitigation
        &&& self.receive_state == o.receive_state
        &&& self.regs == Registers { interrupt_cause: self.regs.interrupt_cause, ..o.regs }
        &&& self.io_addr == o.io_addr
        &&& self.eeprom == o.eeprom
        &&& self.phy == o.phy
        &&& self.rx_ring == o.rx_ring
        &&& self.tx_ring == o.tx_ring
    }

    pub open spec fn unchanged_but_receive_state(&self, o: Self) -> bool {
        &&& self.enable_interrupt_mitigation == o.enable_interrupt_mitigation
        &&& self.io_addr == o.io_addr
        &&& self.eeprom == o.eeprom
        &&& self.phy == o.phy
    }

    /// The state right after power-on or a reset, with the EEPROM kept.
    pub open spec fn is_reset(&self) -> bool {
        &&& self.wf()
        &&& self.receive_state == ReceiveState::Offline
        &&& self.regs.is_reset_with_mac(self.eeprom.initial_eeprom.spec_ethernet_address())
        &&& self.phy.is_default()
        &&& self.rx_ring is None
        &&& self.tx_ring is None
        &&& self.interrupt_mitigation is None
    }

    /// A device in power-on state; `mitigate_interrupts` turns interrupt throttling on,
    /// for which the host's timer must call `timer_elapsed`.
    pub fn new(nic_ctx: C, mitigate_interrupts: bool) -> (r: Self)
        ensures
            r.is_reset(),
            r.effects@.len() == 0,
            r.nic_ctx == nic_ctx,
            r.enable_interrupt_mitigation == mitigate_interrupts,
            r.io_addr == 0,
            r.eeprom.initial_eeprom.spec_ethernet_address() == seq![0u8, 0, 0, 0, 0, 0],
            forall|i: int| 0 <= i < 64 ==> r.eeprom.data[i] == 0,
    {
        E1000 {
            nic_ctx,
            enable_interrupt_mitigation: mitigate_interrupts,
            receive_state: ReceiveState::Offline,
            regs: Registers::new(),
            io_addr: 0,
            eeprom: EepromInterface::new(),
            phy: Phy::new(),
            rx_ring: None,
            tx_ring: None,
            interrupt_mitigation: None,
            effects: Ghost(Seq::empty()),
        }
    }

    /// Returns the device to its power-on state. The EEPROM keeps its contents and
    /// supplies the receive address; any armed timer is cancelled.
    pub fn reset_e1000(&mut self)
        ensures
            final(self).is_reset(),
            final(self).eeprom == old(self).eeprom,
            final(self).io_addr == old(self).io_addr,
            final(self).enable_interrupt_mitigation == old(self).enable_interrupt_mitigation,
            final(self).effects@ == old(self).effects@.push(HostEffect::DeleteTimer),
    {
        self.receive_state = ReceiveState::Offline;
        self.regs = Registers::new();
        let mac = self.eeprom.initial_eeprom.ethernet_address();
        self.regs.set_mac(mac);
        self.phy = Phy::new();
        self.rx_ring = None;
        self.tx_ring = None;
        self.host_delete_timer();
        self.interrupt_mitigation = None;
    }

    /// Sets up the receive ring from the RDBA, RDLEN, RDH and RDT registers.
    pub fn setup_rx_ring(&mut self)
        requires
            old(self).wf(),
        ensures
            final(self).rx_ring == ring_of(
                old(self).regs.rd_ba_l,
                old(self).regs.rd_ba_h,
                old(self).regs.rd_len,
                old(self).regs.rd_h,
                old(self).regs.rd_t,
            ),
            final(self).rx_ring is Some ==> final(self).rx_ring->Some_0.wf(),
            final(self).tx_ring == old(self).tx_ring,
            final(self).receive_state == old(self).receive_state,
            final(self).regs == old(self).regs,
            final(self).nic_ctx == old(self).nic_ctx,
            final(self).interrupt_mitigation == old(self).interrupt_mitigation,
            final(self).effects == old(self).effects,
            final(self).unchanged_but_receive_state(*old(self)),
    {
        self.rx_ring = make_ring(
            self.regs.get_receive_descriptor_base_address(),
            &self.regs.rd_len,
            &self.regs.rd_h,
            &self.regs.rd_t,
        );
    }

    /// Sets up the transmit ring from the TDBA, TDLEN, TDH and TDT registers.
    pub fn setup_tx_ring(&mut self)
        requires
            old(self).wf(),
        ensures
            final(self).wf(),
            final(self).tx_ring == ring_of(
                old(self).regs.td_ba_l,
                old(self).regs.td_ba_h,
                old(self).regs.td_len,
                old(self).regs.td_h,
                old(self).regs.td_t,
            ),
            final(self).rx_ring == old(self).rx_ring,
            final(self).receive_state == old(self).receive_state,
            final(self).regs == old(self).regs,
            final(self).nic_ctx == old(self).nic_ctx,
            final(self).interrupt_mitigation == old(self).interrupt_mitigation,
            final(self).effects == old(self).effects,
            final(self).unchanged_but_receive_state(*old(self)),
    {
        self.tx_ring = make_ring(
            self.regs.get_transmit_descriptor_base_address(),
            &self.regs.td_len,
            &self.regs.td_h,
            &self.regs.td_t,
        );
    }

    /// A CTRL write: device reset, or set link up and report the link change.
    fn ctrl_write(&mut self)
        requires
            old(self).wf(),
        ensures
            final(self).wf(),
            old(self).regs.ctrl.bits & CTRL_RST != 0 ==> final(self).is_reset(),
            final(self).ctrl_written(*old(self)),
    {
        if self.regs.ctrl.bits & CTRL_RST != 0 {
            self.reset_e1000();
            return ;
        }
        if self.regs.ctrl.bits & CTRL_SLU != 0 {
            self.regs.status.bits = self.regs.status.bits | STATUS_LU;
            self.phy.status.bits = self.phy.status.bits | PHY_STATUS_LINK;
            let ghost mid = *self;
            self.report_lsc();
            proof {
                Self::lemma_interrupted_from(
                    *self,
                    mid,
                    *old(self),
                    (mid.regs.interrupt_cause.bits | ICR_LSC) & mid.regs.interrupt_mask.bits != 0,
                );
            }
        }
    }

    /// An RCTL write: enabling the receiver sets up its ring and receive state.
    fn rctl_write(&mut self)
        requires
            old(self).wf(),
        ensures
            final(self).wf(),
            final(self).rctl_written(*old(self)),
    {
        if self.regs.rctl.bits & RCTL_EN != 0 && self.rx_ring.is_none() {
            self.setup_rx_ring();
            self.update_rx_throttling();
        }
    }

    /// A TCTL write: enabling the transmitter sets up its ring.
    fn tctl_write(&mut self)
        requires
            old(self).wf(),
        ensures
            final(self).wf(),
            final(self).tctl_written(*old(self)),
    {
        if self.regs.tctl.bits & TCTL_EN != 0 && self.tx_ring.is_none() {
            self.setup_tx_ring();
        }
    }

    /// An RDT write: software hands descriptors back to hardware.
    fn rdt_write(&mut self)
        requires
            old(self).wf(),
        ensures
            final(self).wf(),
            final(self).rdt_written(*old(self)),
    {
        if let Some(mut rx_ring) = self.rx_ring {
            rx_ring.tail = ((self.regs.rd_t.bits % 0x1_0000) % (rx_ring.length as u32)) as usize;
            self.rx_ring = Some(rx_ring);
            self.update_rx_throttling();
        }
    }

    /// Reads or writes the register at `offset` through the four bytes of `data`,
    /// with the side effects of the register; `None` where no register is emulated.
    pub fn access_register(&mut self, offset: u32, data: &mut [u8], write: bool) -> (r: Option<
        Result<(), E1000Error>,
    >)
        requires
            old(self).wf(),
            old(data)@.len() == 4,
        ensures
            final(self).wf(),
            final(data)@.len() == 4,
            read_value(old(self).regs, offset) is None ==> r is None && final(data)@ == old(data)@
                && *final(self) == *old(self),
            read_value(old(self).regs, offset) is Some ==> r is Some,
            r == Some(Ok::<(), E1000Error>(())) || r is None || r == Some(
                Err::<(), E1000Error>(E1000Error::UnsupportedEepromOpcode),
            ),
            r == Some(Err::<(), E1000Error>(E1000Error::UnsupportedEepromOpcode)) ==> offset == 0x10 && write,
            !write && read_value(old(self).regs, offset) is Some ==> {
                &&& r == Some(Ok::<(), E1000Error>(()))
                &&& final(data)@ == le32_bytes(read_value(old(self).regs, offset)->Some_0)
                &&& final(self).regs == if offset == 0xC0 {
                    Registers { interrupt_cause: InterruptCauses { bits: 0 }, ..old(self).regs }
                } else {
                    old(self).regs
                }
            },
            write ==> final(data)@ == old(data)@,
            !write ==> *final(self) == old(self).with_regs(final(self).regs),
            write ==> final(self).register_written(*old(self), offset, le32_value(old(data)@), r),
            write && is_plain_register(offset) ==> r == Some(Ok::<(), E1000Error>(()))
                && final(self).regs == plain_written(old(self).regs, offset, le32_value(old(data)@))
                && final(self).rx_ring == old(self).rx_ring && final(self).tx_ring == old(self).tx_ring,
            write && (offset == 0xC8 || offset == 0xC0) ==> final(self).regs.interrupt_cause.bits == if offset == 0xC0 {
                old(self).regs.interrupt_cause.bits & !(le32_value(old(data)@) & INTERRUPT_CAUSES_MASK)
            } else {
                old(self).regs.interrupt_cause.bits | (le32_value(old(data)@) & INTERRUPT_CAUSES_MASK)
            },
            write && offset == 0x0 && le32_value(old(data)@) & CTRL_RST != 0 ==> final(self).is_reset(),
            write && offset == 0x0 && le32_value(old(data)@) & CTRL_RST == 0 && le32_value(old(data)@)
                & CTRL_SLU != 0 ==> {
                &&& final(self).regs.status.bits == old(self).regs.status.bits | STATUS_LU
                &&& final(self).regs.interrupt_cause.bits == old(self).regs.interrupt_cause.bits | ICR_LSC
            },
            write && offset == 0x2818 ==> final(self).regs.rd_t.bits == le32_value(old(data)@)
                & DESCRIPTOR_TAIL_MASK && (old(self).rx_ring is Some ==> ({
                let o = old(self).rx_ring->Some_0;
                let n = final(self).rx_ring->Some_0;
                &&& final(self).rx_ring is Some
                &&& n == (DescriptorRing {
                    tail: ((final(self).regs.rd_t.bits % 0x1_0000) % (o.length as u32)) as usize,
                    ..o
                })
                &&& final(self).receive_state == throttled_state(
                    owned_count(n.head as int, n.tail as int, n.length as int),
                )
            })),
            write && offset == 0x100 ==> final(self).regs.rctl.bits == le32_value(old(data)@)
                & RECEIVE_CONTROL_MASK,
            write && (offset == 0xD0 || offset == 0xD8) ==> final(self).regs.interrupt_mask.bits == if offset == 0xD8 {
                old(self).regs.interrupt_mask.bits & !(le32_value(old(data)@) & INTERRUPT_CAUSES_MASK)
            } else {
                old(self).regs.interrupt_mask.bits | (le32_value(old(data)@) & INTERRUPT_CAUSES_MASK)
            },
    {
        let bytes: [u8; 4] = [data[0], data[1], data[2], data[3]];
        assert(bytes@ =~= data@);
        if offset == 0x0 {
            if write {
                let ghost v = le32_value(bytes@);
                assert((v & 0x0400_0040u32) & 0x0400_0000u32 == v & 0x0400_0000u32 && (v & 0x0400_0040u32)
                    & 0x40u32 == v & 0x40u32) by (bit_vector);
                self.regs.ctrl.write(bytes);
                self.ctrl_write();
            } else {
                fill(data, self.regs.ctrl.read());
            }
        } else if offset == 0x8 {
            if write {
                self.regs.status.write(bytes);
            } else {
                fill(data, self.regs.status.read());
            }
        } else if offset == 0x10 {
            if write {
                self.regs.eecd.write(bytes);
                return Some(self.eecd_write());
            } else {
                fill(data, self.regs.eecd.read());
            }
        } else if offset == 0x20 {
            if write {
                self.regs.mdic.write(bytes);
                self.mdic_write();
            } else {
                fill(data, self.regs.mdic.read());
            }
        } else if offset == 0xC4 {
            if write {
                self.regs.interrupt_throttling.write(bytes);
            } else {
                fill(data, self.regs.interrupt_throttling.read());
            }
        } else if offset == 0xC0 || offset == 0xC8 {
            if write {
                // ICS sets causes; ICR clears them
                let mut causes = InterruptCauses { bits: 0 };
                causes.write(bytes);
                self.regs.interrupt_cause.modify(&causes, offset == 0xC0);
                let ghost mid = *self;
                self.interrupt();
                proof {
                    Self::lemma_interrupted_from(*self, mid, *old(self), mid.spec_pending());
                }
            } else {
                fill(data, self.regs.interrupt_cause.read());
                if offset == 0xC0 {
                    // ICR clears on read
                    self.regs.interrupt_cause = InterruptCauses { bits: 0 };
                }
            }
        } else if offset == 0xD0 || offset == 0xD8 {
            if write {
                // IMS enables causes, IMC disables them
                let mut causes = InterruptCauses { bits: 0 };
                causes.write(bytes);
                self.regs.interrupt_mask.modify(&causes, offset == 0xD8);
                let ghost mid = *self;
                self.interrupt();
                proof {
                    Self::lemma_interrupted_from(*self, mid, *old(self), mid.spec_pending());
                }
            } else {
                fill(data, self.regs.interrupt_mask.read());
            }
        } else if offset == 0x100 {
            if write {
                self.regs.rctl.write(bytes);
                self.rctl_write();
            } else {
                fill(data, self.regs.rctl.read());
            }
        } else if offset == 0x400 {
            if write {
                self.regs.tctl.write(bytes);
                self.tctl_write();
            } else {
                fill(data, self.regs.tctl.read());
            }
        } else if offset == 0x2800 {
            if write {
                self.regs.rd_ba_l.write(bytes);
            } else {
                fill(data, self.regs.rd_ba_l.read());
            }
        } else if offset == 0x2804 {
            if write {
                self.regs.rd_ba_h.write(bytes);
            } else {
                fill(data, self.regs.rd_ba_h.read());
            }
        } else if offset == 0x2808 {
            if write {
                self.regs.rd_len.write(bytes);
            } else {
                fill(data, self.regs.rd_len.read());
            }
        } else if offset == 0x2810 {
            if write {
                self.regs.rd_h.write(bytes);
            } else {
                fill(data, self.regs.rd_h.read());
            }
        } else if offset == 0x2818 {
            if write {
                self.regs.rd_t.write(bytes);
                self.rdt_write();
            } else {
                fill(data, self.regs.rd_t.read());
            }
        } else if offset == 0x3800 {
            if write {
                self.regs.td_ba_l.write(bytes);
            } else {
                fill(data, self.regs.td_ba_l.read());
            }
        } else if offset == 0x3804 {
            if write {
                self.regs.td_ba_h.write(bytes);
            } else {
                fill(data, self.regs.td_ba_h.read());
            }
        } else if offset == 0x3808 {
            if write {
                self.regs.td_len.write(bytes);
            } else {
                fill(data, self.regs.td_len.read());
            }
        } else if offset == 0x3810 {
            if write {
                self.regs.td_h.write(bytes);
            } else {
                fill(data, self.regs.td_h.read());
            }
        } else if offset == 0x3818 {
            if write {
                self.regs.td_t.write(bytes);
                self.tdt_write();
            } else {
                fill(data, self.regs.td_t.read());
            }
        } else if offset == 0x5400 {
            if write {
                self.regs.ral0.write(bytes);
            } else {
                fill(data, self.regs.ral0.read());
            }
        } else if offset == 0x5404 {
            if write {
                self.regs.rah0.write(bytes);
            } else {
                fill(data, self.regs.rah0.read());
            }
        } else {
            return None;
        }
        Some(Ok(()))
    }

    /// Memory-mapped access to BAR0: four bytes at a multiple of four, else
    /// `BadAccessShape`. Offsets without an emulated register read as they are and
    /// ignore writes.
    pub fn region_access_bar0(&mut self, offset: usize, data: &mut [u8], write: bool) -> (r: Result<
        usize,
        E1000Error,
    >)
        requires
            old(self).wf(),
        ensures
            final(self).wf(),
            final(data)@.len() == old(data)@.len(),
            old(data)@.len() != 4 || offset % 4 != 0 ==> r == Err::<usize, E1000Error>(E1000Error::BadAccessShape)
                && *final(self) == *old(self) && final(data)@ == old(data)@,
            old(data)@.len() == 4 && offset % 4 == 0 ==> (r == Ok::<usize, E1000Error>(4) || r == Err::<usize, E1000Error>(E1000Error::UnsupportedEepromOpcode)),
            r == Err::<usize, E1000Error>(E1000Error::UnsupportedEepromOpcode) ==> offset == 0x10 && write,
            final(self).bar0_accessed(*old(self), offset, old(data)@, final(data)@, write, r),
    {
        if data.len() != 4 || offset % 4 != 0 {
            return Err(E1000Error::BadAccessShape);
        }
        if offset > 0xFFFF_FFFF {
            return Ok(4);
        }
        let ar = self.access_register(offset as u32, data, write);
        match ar {
            Some(Err(e)) => Err(e),
            _ => Ok(4),
        }
    }

    /// I/O access to BAR1: offset 0 holds a BAR0 offset, and offset 4 reaches the
    /// BAR0 register at it.
    pub fn region_access_bar1(&mut self, offset: usize, data: &mut [u8], write: bool) -> (r: Result<
        usize,
        E1000Error,
    >)
        requires
            old(self).wf(),
        ensures
            final(self).wf(),
            final(data)@.len() == old(data)@.len(),
            old(data)@.len() != 4 ==> r == Err::<usize, E1000Error>(E1000Error::BadAccessShape)
                && *final(self) == *old(self),
            r is Err ==> final(data)@ == old(data)@,
            old(data)@.len() == 4 && offset != 0 && offset != 4 ==> r == Err::<usize, E1000Error>(
                E1000Error::UnsupportedIoOffset,
            ) && *final(self) == *old(self),
            old(data)@.len() == 4 && offset == 0 && write ==> r == Ok::<usize, E1000Error>(4)
                && *final(self) == (E1000 { io_addr: le32_value(old(data)@), ..*old(self) }),
            old(data)@.len() == 4 && offset == 0 && !write ==> r == Ok::<usize, E1000Error>(4)
                && *final(self) == *old(self) && final(data)@ == le32_bytes(old(self).io_addr),
            old(data)@.len() == 4 && offset == 4 ==> final(self).bar0_accessed(
                *old(self),
                old(self).io_addr as usize,
                old(data)@,
                final(data)@,
                write,
                r,
            ),
    {
        if data.len() != 4 {
            return Err(E1000Error::BadAccessShape);
        }
        if offset == 0 {
            if write {
                let bytes: [u8; 4] = [data[0], data[1], data[2], data[3]];
                assert(bytes@ =~= data@);
                self.io_addr = u32_from_le_bytes(bytes);
            } else {
                fill(data, u32_to_le_bytes(self.io_addr));
            }
            Ok(4)
        } else if offset == 4 {
            self.region_access_bar0(self.io_addr as usize, data, write)
        } else {
            Err(E1000Error::UnsupportedIoOffset)
        }
    }

    /// A TDT write: software hands descriptors to hardware for transmission.
    fn tdt_write(&mut self)
        requires
            old(self).wf(),
        ensures
            final(self).wf(),
            final(self).tdt_written(*old(self)),
    {
        // Faulty descriptors were skipped over; the driver learns of them no other way
        let r = self.process_tx_ring();
    }

    /// An EECD write: the Microwire lines drive the EEPROM, which drives data out.
    pub fn eecd_write(&mut self) -> (r: Result<(), E1000Error>)
        requires
            old(self).wf(),
        ensures
            final(self).wf(),
            final(self).eecd_written(*old(self), r),
            r == Ok::<(), E1000Error>(()) || r == Err::<(), E1000Error>(E1000Error::UnsupportedEepromOpcode),
    {
        let mut wires = EepromWires {
            clock_input: self.regs.eecd.bits & EECD_SK != 0,
            chip_select: self.regs.eecd.bits & EECD_CS != 0,
            data_input: self.regs.eecd.bits & EECD_DI != 0,
            data_output: false,
        };
        let result = self.eeprom.process_wires(&mut wires);
        if wires.data_output {
            self.regs.eecd.bits = self.regs.eecd.bits | EECD_DO;
        } else {
            self.regs.eecd.bits = self.regs.eecd.bits & !EECD_DO;
        }
        result
    }
}

/// What the driver writes to the BAR1 address register it reads back: a write
/// stores `le32_value` of the bytes and a read returns `le32_bytes` of the value.
pub proof fn lemma_bar1_address_round_trip(x: Seq<u8>)
    requires
        x.len() == 4,
    ensures
        le32_bytes(le32_value(x)) == x,
{
    crate::util::lemma_le32_bytes_round_trip(x);
}

/// Every ring the device holds keeps its head and tail inside it.
pub proof fn lemma_rings_in_bounds<C: NicContext>(e: E1000<C>)
    requires
        e.wf(),
    ensures
        e.rx_ring is Some ==> e.rx_ring->Some_0.head < e.rx_ring->Some_0.length
            && e.rx_ring->Some_0.tail < e.rx_ring->Some_0.length,
        e.tx_ring is Some ==> e.tx_ring->Some_0.head < e.tx_ring->Some_0.length
            && e.tx_ring->Some_0.tail < e.tx_ring->Some_0.length,
{
}

/// Offsets of the registers that take a write without side effects.
pub open spec fn is_plain_register(offset: u32) -> bool {
    offset == 0x8 || offset == 0xC4 || offset == 0x2800 || offset == 0x2804 || offset == 0x2808
        || offset == 0x2810 || offset == 0x3800 || offset == 0x3804 || offset == 0x3808 || offset
        == 0x3810 || offset == 0x5400 || offset == 0x5404
}

/// The value a read at `offset` returns, `None` where no register is emulated.
/// ICR and ICS read the causes, IMS and IMC the mask.
pub open spec fn read_value(regs: Registers, offset: u32) -> Option<u32> {
    if offset == 0x0 {
        Some(reg_value(regs.ctrl))
    } else if offset == 0x8 {
        Some(reg_value(regs.status))
    } else if offset == 0x10 {
        Some(reg_value(regs.eecd))
    } else if offset == 0x20 {
        Some(reg_value(regs.mdic))
    } else if offset == 0xC4 {
        Some(reg_value(regs.interrupt_throttling))
    } else if offset == 0xC0 || offset == 0xC8 {
        Some(reg_value(regs.interrupt_cause))
    } else if offset == 0xD0 || offset == 0xD8 {
        Some(reg_value(regs.interrupt_mask))
    } else if offset == 0x100 {
        Some(reg_value(regs.rctl))
    } else if offset == 0x400 {
        Some(reg_value(regs.tctl))
    } else if offset == 0x2800 {
        Some(reg_value(regs.rd_ba_l))
    } else if offset == 0x2804 {
        Some(reg_value(regs.rd_ba_h))
    } else if offset == 0x2808 {
        Some(reg_value(regs.rd_len))
    } else if offset == 0x2810 {
        Some(reg_value(regs.rd_h))
    } else if offset == 0x2818 {
        Some(reg_value(regs.rd_t))
    } else if offset == 0x3800 {
        Some(reg_value(regs.td_ba_l))
    } else if offset == 0x3804 {
        Some(reg_value(regs.td_ba_h))
    } else if offset == 0x3808 {
        Some(reg_value(regs.td_len))
    } else if offset == 0x3810 {
        Some(reg_value(regs.td_h))
    } else if offset == 0x3818 {
        Some(reg_value(regs.td_t))
    } else if offset == 0x5400 {
        Some(reg_value(regs.ral0))
    } else if offset == 0x5404 {
        Some(reg_value(regs.rah0))
    } else {
        None
    }
}

/// The registers once a register without side effects at `offset` takes `v`.
pub open spec fn plain_written(regs: Registers, offset: u32, v: u32) -> Registers {
    if offset == 0x8 {
        Registers { status: Status { bits: v & STATUS_MASK }, ..regs }
    } else if offset == 0xC4 {
        Registers { interrupt_throttling: InterruptDelay { bits: v & INTERRUPT_DELAY_MASK }, ..regs }
    } else if offset == 0x2800 {
        Registers { rd_ba_l: DescriptorBaseAddressLow { bits: v & DESCRIPTOR_BASE_ADDRESS_LOW_MASK }, ..regs }
    } else if offset == 0x2804 {
        Registers { rd_ba_h: DescriptorBaseAddressHigh { bits: v & DESCRIPTOR_BASE_ADDRESS_HIGH_MASK }, ..regs }
    } else if offset == 0x2808 {
        Registers { rd_len: DescriptorLength { bits: v & DESCRIPTOR_LENGTH_MASK }, ..regs }
    } else if offset == 0x2810 {
        Registers { rd_h: DescriptorHead { bits: v & DESCRIPTOR_HEAD_MASK }, ..regs }
    } else if offset == 0x3800 {
        Registers { td_ba_l: DescriptorBaseAddressLow { bits: v & DESCRIPTOR_BASE_ADDRESS_LOW_MASK }, ..regs }
    } else if offset == 0x3804 {
        Registers { td_ba_h: DescriptorBaseAddressHigh { bits: v & DESCRIPTOR_BASE_ADDRESS_HIGH_MASK }, ..regs }
    } else if offset == 0x3808 {
        Registers { td_len: DescriptorLength { bits: v & DESCRIPTOR_LENGTH_MASK }, ..regs }
    } else if offset == 0x3810 {
        Registers { td_h: DescriptorHead { bits: v & DESCRIPTOR_HEAD_MASK }, ..regs }
    } else if offset == 0x5400 {
        Registers { ral0: ReceiveAddressLow { bits: v & RECEIVE_ADDRESS_LOW_MASK }, ..regs }
    } else {
        Registers { rah0: ReceiveAddressHigh { bits: v & RECEIVE_ADDRESS_HIGH_MASK }, ..regs }
    }
}

/// Copies four bytes into an access buffer.
fn fill(data: &mut [u8], b: [u8; 4])
    requires
        old(data)@.len() == 4,
    ensures
        final(data)@ == b@,
{
    data[0] = b[0];
    data[1] = b[1];
    data[2] = b[2];
    data[3] = b[3];
    assert(final(data)@ =~= b@);
}

/// A ring from register values, as `ring_of` says.
fn make_ring(
    base: u64,
    len: &DescriptorLength,
    head: &DescriptorHead,
    tail: &DescriptorTail,
) -> (r: Option<DescriptorRing>)
    ensures
        r is Some ==> r->Some_0.wf(),
        forall|low: DescriptorBaseAddressLow, high: DescriptorBaseAddressHigh|
            base_address_of(low.bits, high.bits) == base ==> r == #[trigger] ring_of(low, high, *len, *head, *tail),
{
    let length: u32 = (len.bits / 0x80 % 0x2000) * 8;
    if length == 0 {
        return None;
    }
    Some(
        DescriptorRing {
            ring_address: base as usize,
            length: length as usize,
            head: ((head.bits % 0x1_0000) % length) as usize,
            tail: ((tail.bits % 0x1_0000) % length) as usize,
        },
    )
}

} // verus!
