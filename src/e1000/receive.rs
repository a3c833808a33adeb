//! The receive pipeline.
use vstd::prelude::*;

use crate::e1000::descriptors::{owned_count, DescriptorRing, ReceiveDescriptor};
use crate::e1000::registers::{buffer_size_of, ICR_RXT0, RCTL_SECRC};
use crate::e1000::{E1000, E1000Error, HostEffect};
use crate::NicContext;

verus! {

/// Descriptors that hardware keeps in reserve before receiving is throttled.
pub const RX_QUEUE_RESERVE: usize = 1;

/// Whether the device takes frames.
#[derive(Debug, Clone, Copy, PartialEq, Eq, Structural)]
pub enum ReceiveState {
    /// Receiving is not set up: the host drops frames.
    Offline,
    /// Frames are taken.
    Online,
    /// The ring is nearly full: the host holds frames back.
    Throttled,
}

impl ReceiveState {
    pub fn is_ready(&self) -> (r: bool)
        ensures
            r == (*self == ReceiveState::Online),
    {
        *self == ReceiveState::Online
    }

    pub fn should_defer(&self) -> (r: bool)
        ensures
            r == (*self == ReceiveState::Throttled),
    {
        *self == ReceiveState::Throttled
    }
}

/// The descriptor written back for a frame of `frame_len` bytes (see `receive_writeback`).
pub open spec fn spec_receive_writeback(
    descriptor: ReceiveDescriptor,
    frame_len: int,
    strip_crc: bool,
    buffer_size: int,
) -> Result<ReceiveDescriptor, E1000Error> {
    let len = if strip_crc {
        frame_len
    } else {
        frame_len + 4
    };
    if len > buffer_size || descriptor.buffer == 0 {
        Err(E1000Error::Unimplemented)
    } else {
        Ok(ReceiveDescriptor { length: len as u16, status_dd: true, status_eop: true, ..descriptor })
    }
}

/// The descriptor written back for a frame of `frame_len` bytes: its length counts
/// the frame check sequence unless the driver strips it, and it is done and ends
/// the packet. A frame that does not fit one buffer, or a descriptor without a
/// buffer, is not supported.
pub fn receive_writeback(
    descriptor: ReceiveDescriptor,
    frame_len: usize,
    strip_crc: bool,
    buffer_size: usize,
) -> (r: Result<ReceiveDescriptor, E1000Error>)
    requires
        buffer_size <= 0x8000,
    ensures
        r == spec_receive_writeback(descriptor, frame_len as int, strip_crc, buffer_size as int),
{
    if frame_len > buffer_size {
        // Frames spread over several descriptors are not emulated
        return Err(E1000Error::Unimplemented);
    }
    let mut length = frame_len;
    if !strip_crc {
        // The frame came without its check sequence: count it all the same
        length = length + 4;
    }
    if length > buffer_size {
        return Err(E1000Error::Unimplemented);
    }
    if descriptor.buffer == 0 {
        // Null descriptors only pad the ring
        return Err(E1000Error::Unimplemented);
    }
    Ok(ReceiveDescriptor { length: length as u16, status_dd: true, status_eop: true, ..descriptor })
}

/// The host calls that place a frame once the head slot of `ring` is read and `w` is
/// to be written back: the buffer prepared and the frame written to it, then the
/// descriptor written back to the slot.
pub open spec fn receive_calls(
    ring: DescriptorRing,
    w: ReceiveDescriptor,
    frame: Seq<u8>,
    buffer_size: int,
) -> Seq<HostEffect> {
    let address = #[verifier::truncate] (w.buffer as usize);
    seq![
        HostEffect::DmaPrepare { address, length: buffer_size as usize },
        HostEffect::DmaWrite { address, offset: 0, bytes: Ghost(frame) },
        HostEffect::DmaPrepare { address: ring.ring_address, length: (ring.length * 16) as usize },
        HostEffect::DmaWrite {
            address: ring.ring_address,
            offset: (ring.head * 16) as usize,
            bytes: Ghost(w.spec_pack().reverse()),
        },
    ]
}

/// The receive state once the ring holds `owned` hardware descriptors.
pub open spec fn throttled_state(owned: int) -> ReceiveState {
    if owned <= RX_QUEUE_RESERVE {
        ReceiveState::Throttled
    } else {
        ReceiveState::Online
    }
}

impl<C: NicContext> E1000<C> {
    /// Throttles receiving while hardware owns too few descriptors, and resumes it
    /// once software hands more back.
    pub fn update_rx_throttling(&mut self)
        requires
            old(self).wf(),
        ensures
            final(self).wf(),
            final(self).nic_ctx == old(self).nic_ctx,
            final(self).regs == old(self).regs,
            final(self).rx_ring == old(self).rx_ring,
            final(self).tx_ring == old(self).tx_ring,
            final(self).interrupt_mitigation == old(self).interrupt_mitigation,
            final(self).effects == old(self).effects,
            final(self).unchanged_but_receive_state(*old(self)),
            match old(self).rx_ring {
                Some(ring) => final(self).receive_state == throttled_state(
                    owned_count(ring.head as int, ring.tail as int, ring.length as int),
                ),
                None => final(self).receive_state == old(self).receive_state,
            },
    {
        if let Some(rx_ring) = &self.rx_ring {
            let owned = rx_ring.hardware_owned_descriptors();
            if owned <= RX_QUEUE_RESERVE {
                self.receive_state = ReceiveState::Throttled;
            } else {
                self.receive_state = ReceiveState::Online;
            }
        }
    }

    /// Places a received frame in the buffer of the head receive descriptor, writes
    /// the descriptor back and hands it to software, then reports a receive interrupt.
    pub fn receive(&mut self, received: &[u8]) -> (r: Result<(), E1000Error>)
        requires
            old(self).wf(),
            received@.len() > 0,
            old(self).receive_state == ReceiveState::Online,
        ensures
            final(self).wf(),
            r is Ok ==> ({
                let old_ring = old(self).rx_ring->Some_0;
                let ring = final(self).rx_ring->Some_0;
                &&& final(self).rx_ring is Some
                &&& ring.head == (old_ring.head + 1) % (old_ring.length as int)
                &&& ring.tail == old_ring.tail
                &&& final(self).regs.rd_h.bits == ring.head
                &&& final(self).regs.interrupt_cause.bits & ICR_RXT0 != 0
                &&& final(self).receive_state == throttled_state(
                    owned_count(ring.head as int, ring.tail as int, ring.length as int),
                )
            }),
            r is Err ==> final(self).rx_ring == old(self).rx_ring && final(self).regs == old(
                self,
            ).regs && final(self).receive_state == old(self).receive_state,
            old(self).rx_ring->Some_0.spec_is_empty() ==> final(self).effects == old(self).effects,
            !old(self).rx_ring->Some_0.spec_is_empty() ==> exists|slot: Seq<u8>|
                {
                    let ring = old(self).rx_ring->Some_0;
                    let reads = seq![
                        HostEffect::DmaPrepare { address: ring.ring_address, length: (ring.length * 16) as usize },
                        HostEffect::DmaRead {
                            address: ring.ring_address,
                            offset: (ring.head * 16) as usize,
                            bytes: Ghost(slot),
                        },
                    ];
                    let wb = spec_receive_writeback(
                        #[trigger] ReceiveDescriptor::spec_unpack(slot.reverse()),
                        received@.len() as int,
                        old(self).regs.rctl.spec_secrc(),
                        old(self).regs.rctl.spec_buffer_size(),
                    );
                    &&& slot.len() == 16
                    &&& match wb {
                        Err(e) => r == Err::<(), E1000Error>(e) && final(self).effects@ == old(self).effects@ + reads,
                        Ok(w) => r is Ok && final(self).delivered(
                            *old(self),
                            reads + receive_calls(ring, w, received@, old(self).regs.rctl.spec_buffer_size()),
                            (old(self).regs.interrupt_cause.bits | ICR_RXT0) & old(self).regs.interrupt_mask.bits
                                != 0,
                        ),
                    }
                },
            r == Err::<(), E1000Error>(E1000Error::EmptyRingHeadAccess) <==> old(self).rx_ring->Some_0.spec_is_empty(),
            r is Err ==> r == Err::<(), E1000Error>(E1000Error::EmptyRingHeadAccess) || r == Err::<(), E1000Error>(
                E1000Error::Unimplemented,
            ),
            !old(self).rx_ring->Some_0.spec_is_empty() && received@.len() + (if old(self).regs.rctl.bits
                & RCTL_SECRC != 0 {
                0int
            } else {
                4int
            }) > buffer_size_of(old(self).regs.rctl.spec_bsize(), old(self).regs.rctl.spec_bsex()) ==> r
                == Err::<(), E1000Error>(E1000Error::Unimplemented),
    {
        let mut rx_ring = match self.rx_ring {
            Some(ring) => ring,
            None => {
                return Err(E1000Error::EmptyRingHeadAccess);
            },
        };
        if rx_ring.is_empty() {
            return Err(E1000Error::EmptyRingHeadAccess);
        }
        let packed = self.read_ring_head(&rx_ring);
        let ghost slot = packed@.reverse();
        let ghost reads = seq![
            HostEffect::DmaPrepare { address: rx_ring.ring_address, length: (rx_ring.length * 16) as usize },
            HostEffect::DmaRead {
                address: rx_ring.ring_address,
                offset: (rx_ring.head * 16) as usize,
                bytes: Ghost(slot),
            },
        ];
        assert(slot.reverse() =~= packed@);
        let descriptor = ReceiveDescriptor::unpack(&packed);
        let buffer_size = self.regs.rctl.get_buffer_size();
        let strip_crc = self.regs.rctl.bits & RCTL_SECRC != 0;
        let written = match receive_writeback(descriptor, received.len(), strip_crc, buffer_size) {
            Ok(d) => d,
            Err(e) => {
                assert(self.effects@ == old(self).effects@ + reads);
                return Err(e);
            },
        };
        let ghost calls = receive_calls(rx_ring, written, received@, buffer_size as int);
        let address = #[verifier::truncate] (written.buffer as usize);
        self.host_dma_prepare(address, buffer_size);
        self.host_dma_write(address, received, 0);
        let packed = written.pack();
        self.write_ring_head(&rx_ring, &packed);
        rx_ring.advance_head();
        self.rx_ring = Some(rx_ring);
        self.regs.rd_h.bits = rx_ring.head as u32;
        self.update_rx_throttling();
        assert(self.effects@ =~= old(self).effects@ + (reads + calls));
        let ghost mid = *self;
        // No receive timer is emulated: report every frame
        self.report_rxt0();
        proof {
            Self::lemma_delivered_from(
                *self,
                mid,
                *old(self),
                reads + calls,
                (mid.regs.interrupt_cause.bits | ICR_RXT0) & mid.regs.interrupt_mask.bits != 0,
            );
        }
        let cause = self.regs.interrupt_cause.bits;
        assert(cause & ICR_RXT0 != 0) by (bit_vector)
            requires
                exists|c: u32| cause == c | ICR_RXT0,
        ;
        Ok(())
    }
}

} // verus!
