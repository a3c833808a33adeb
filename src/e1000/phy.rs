//! The PHY and its MDI/O access through MDIC.
use vstd::prelude::*;

use crate::e1000::registers::{Registers, ICR_MDAC, MDIC_DATA, MDIC_INTERRUPT_ENABLE, MDIC_READY};
use crate::e1000::E1000;
use crate::NicContext;

verus! {

pub const MDI_READ: u32 = 0b10;

pub const MDI_WRITE: u32 = 0b01;

pub const PHY_STATUS_LINK: u16 = 1 << 2;

/// PHY status register: link status at bit 2.
#[derive(Debug, Clone, Copy, PartialEq, Eq, Structural)]
pub struct PhyStatus {
    pub bits: u16,
}

/// PHY identifier register: the organizationally unique identifier the driver expects.
#[derive(Debug, Clone, Copy, PartialEq, Eq, Structural)]
pub struct PhyIdentifier {
    pub identifier: u16,
}

/// PHY extended identifier: revision at bits 0..4, model at 4..10, identifier at 10..16.
#[derive(Debug, Clone, Copy, PartialEq, Eq, Structural)]
pub struct PhyExtendedIdentifier {
    pub bits: u16,
}

impl PhyExtendedIdentifier {
    /// Revision 0, model 0x02, identifier 0x03, as the driver expects.
    pub fn new() -> (r: PhyExtendedIdentifier)
        ensures
            r.bits % 16 == 0,
            r.bits / 16 % 64 == 0x02,
            r.bits / 1024 == 0x03,
    {
        PhyExtendedIdentifier { bits: 0x03 * 1024 + 0x02 * 16 }
    }
}

impl Default for PhyIdentifier {
    fn default() -> (r: PhyIdentifier)
        ensures
            r.identifier == 0x0141,
    {
        PhyIdentifier { identifier: 0x0141 }
    }
}

impl Default for PhyExtendedIdentifier {
    fn default() -> (r: PhyExtendedIdentifier)
        ensures
            r.bits == 0x0C20,
    {
        PhyExtendedIdentifier::new()
    }
}

/// The PHY registers reachable through MDIC.
#[derive(Debug, Clone, Copy, PartialEq, Eq, Structural)]
pub struct Phy {
    pub status: PhyStatus,
    pub phy_identifier: PhyIdentifier,
    pub phy_extended_identifier: PhyExtendedIdentifier,
}

impl Phy {
    /// Link down, and the identifiers the driver expects.
    pub open spec fn is_default(&self) -> bool {
        &&& self.status.bits == 0
        &&& self.phy_identifier.identifier == 0x0141
        &&& self.phy_extended_identifier.bits == 0x0C20
    }

    pub fn new() -> (r: Phy)
        ensures
            r.is_default(),
    {
        Phy {
            status: PhyStatus { bits: 0 },
            phy_identifier: PhyIdentifier { identifier: 0x0141 },
            phy_extended_identifier: PhyExtendedIdentifier::new(),
        }
    }

    /// The value a read of PHY register `offset` gives, `None` for an unknown register.
    pub open spec fn spec_read(&self, offset: u32) -> Option<u16> {
        if offset == 1 {
            Some(self.status.bits & PHY_STATUS_LINK)
        } else if offset == 2 {
            Some(self.phy_identifier.identifier)
        } else if offset == 3 {
            Some(self.phy_extended_identifier.bits)
        } else {
            None
        }
    }

    /// The PHY once register `offset` takes `data`; unknown registers ignore writes.
    pub open spec fn spec_written(self, offset: u32, data: u16) -> Phy {
        if offset == 1 {
            Phy { status: PhyStatus { bits: data & PHY_STATUS_LINK }, ..self }
        } else if offset == 2 {
            Phy { phy_identifier: PhyIdentifier { identifier: data }, ..self }
        } else if offset == 3 {
            Phy { phy_extended_identifier: PhyExtendedIdentifier { bits: data }, ..self }
        } else {
            self
        }
    }

    /// One 16-bit transfer with PHY register `offset`. Returns the value read, or
    /// `data` itself for a write or an unknown register.
    pub fn access(&mut self, offset: u32, data: u16, write: bool) -> (r: u16)
        ensures
            !write ==> *final(self) == *old(self) && r == match old(self).spec_read(offset) {
                Some(v) => v,
                None => data,
            },
            write ==> r == data && *final(self) == old(self).spec_written(offset, data),
    {
        if offset == 1 {
            if write {
                self.status.bits = data & PHY_STATUS_LINK;
                data
            } else {
                self.status.bits & PHY_STATUS_LINK
            }
        } else if offset == 2 {
            if write {
                self.phy_identifier.identifier = data;
                data
            } else {
                self.phy_identifier.identifier
            }
        } else if offset == 3 {
            if write {
                self.phy_extended_identifier.bits = data;
                data
            } else {
                self.phy_extended_identifier.bits
            }
        } else {
            // Unknown PHY register
            data
        }
    }
}

impl Default for Phy {
    fn default() -> (r: Phy)
        ensures
            r.is_default(),
    {
        Phy::new()
    }
}

impl<C: NicContext> E1000<C> {
    pub open spec fn spec_mdic_opcode(&self) -> u32 {
        self.regs.mdic.bits / 0x400_0000 % 4
    }

    pub open spec fn spec_mdic_register(&self) -> u32 {
        self.regs.mdic.bits / 0x1_0000 % 0x20
    }

    /// After an MDIC write from state `o`: the MDI transaction of the opcode, MDIC
    /// ready, and an MDI access complete interrupt where enabled. An unknown opcode
    /// does nothing.
    pub open spec fn mdic_written(&self, o: Self) -> bool {
        let opcode = o.spec_mdic_opcode();
        let valid = opcode == MDI_READ || opcode == MDI_WRITE;
        let interrupting = valid && o.regs.mdic.bits & MDIC_INTERRUPT_ENABLE != 0;
        &&& self.wf() == o.wf()
        &&& !valid ==> *self == o
        &&& opcode == MDI_READ ==> {
            &&& self.phy == o.phy
            &&& self.regs.mdic.bits == ((o.regs.mdic.bits & !MDIC_DATA) | (match o.phy.spec_read(
                o.spec_mdic_register(),
            ) {
                Some(v) => v as u32,
                None => o.regs.mdic.bits & MDIC_DATA,
            })) | MDIC_READY
        }
        &&& opcode == MDI_WRITE ==> {
            &&& self.regs.mdic.bits == o.regs.mdic.bits | MDIC_READY
            &&& self.phy == o.phy.spec_written(o.spec_mdic_register(), (o.regs.mdic.bits & MDIC_DATA) as u16)
        }
        &&& interrupting ==> self.regs.interrupt_cause.bits == o.regs.interrupt_cause.bits | ICR_MDAC
            && self.interrupted(o, (o.regs.interrupt_cause.bits | ICR_MDAC) & o.regs.interrupt_mask.bits != 0)
        &&& !interrupting ==> self.regs.interrupt_cause == o.regs.interrupt_cause && self.effects == o.effects
            && self.interrupt_mitigation == o.interrupt_mitigation
        &&& self.regs == (Registers {
            mdic: self.regs.mdic,
            interrupt_cause: self.regs.interrupt_cause,
            ..o.regs
        })
        &&& self.rx_ring == o.rx_ring
        &&& self.tx_ring == o.tx_ring
        &&& self.receive_state == o.receive_state
        &&& self.eeprom == o.eeprom
    }

    /// Runs the MDI transaction that a write of MDIC asks for: a read places the PHY
    /// register in the data field, a write stores the data field; then MDIC reports
    /// ready, with an interrupt where enabled. An unknown opcode does nothing.
    pub fn mdic_write(&mut self)
        ensures
            final(self).mdic_written(*old(self)),
    {
        let offset = self.regs.mdic.bits / 0x1_0000 % 0x20;
        let opcode = self.regs.mdic.bits / 0x400_0000 % 4;
        let data = #[verifier::truncate] ((self.regs.mdic.bits & MDIC_DATA) as u16);
        let write = if opcode == MDI_READ {
            false
        } else if opcode == MDI_WRITE {
            true
        } else {
            return ;
        };
        let value = self.phy.access(offset, data, write);
        if !write {
            let m = self.regs.mdic.bits;
            let v = value as u32;
            assert((m & 0xFFFFu32) as u16 as u32 == m & 0xFFFFu32) by (bit_vector);
            assert(v < 0x1_0000 ==> ((m & !0xFFFFu32) | v) & 0x2000_0000u32 == m & 0x2000_0000u32)
                by (bit_vector);
            self.regs.mdic.bits = (m & !MDIC_DATA) | v;
        }
        let m = self.regs.mdic.bits;
        assert((m | 0x1000_0000u32) & 0x2000_0000u32 == m & 0x2000_0000u32) by (bit_vector);
        self.regs.mdic.bits = m | MDIC_READY;
        if self.regs.mdic.bits & MDIC_INTERRUPT_ENABLE != 0 {
            let ghost mid = *self;
            self.report_mdac();
            proof {
                Self::lemma_interrupted_from(
                    *self,
                    mid,
                    *old(self),
                    (mid.regs.interrupt_cause.bits | ICR_MDAC) & mid.regs.interrupt_mask.bits != 0,
                );
            }
        }
    }
}

} // verus!
