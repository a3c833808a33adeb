//! The EEPROM and its Microwire interface.
use vstd::prelude::*;

use crate::e1000::E1000Error;

verus! {

/// Opcode of a Microwire READ.
pub const MICROWIRE_OPCODE_READ: u8 = 0x6;

// Sizes of a small Microwire EEPROM.
pub const OPCODE_BITS: u16 = 3;

pub const ADDRESS_BITS: u16 = 6;

/// What the 16-bit sum of all EEPROM words must be.
pub const DESIRED_CHECKSUM: u16 = 0xBABA;

/// The four Microwire lines as the EECD register carries them.
#[derive(Debug, Clone, Copy, PartialEq, Eq, Structural)]
pub struct EepromWires {
    pub clock_input: bool,
    pub chip_select: bool,
    pub data_input: bool,
    pub data_output: bool,
}

/// Where a Microwire transaction stands.
#[derive(Debug, Clone, Copy, PartialEq, Eq, Structural)]
pub enum EepromOperationStage {
    WaitingOpcode { written_opcode: u8 },
    WaitingAddress { written_address: u16 },
    Reading { address: u16 },
}

/// The initial EEPROM image: the station Ethernet address in words 0 to 2,
/// all other words zero but for the checksum word.
#[derive(Debug, Clone, Copy)]
pub struct Eeprom {
    pub ethernet_address: [u8; 6],
}

impl Eeprom {
    pub open spec fn spec_ethernet_address(&self) -> Seq<u8> {
        self.ethernet_address@
    }

    /// An image with an all-zero Ethernet address.
    pub fn new() -> (r: Eeprom)
        ensures
            r.spec_ethernet_address() == seq![0u8, 0, 0, 0, 0, 0],
    {
        let r = Eeprom { ethernet_address: [0u8; 6] };
        assert(r.spec_ethernet_address() =~= seq![0u8, 0, 0, 0, 0, 0]);
        r
    }

    pub fn ethernet_address(&self) -> (r: [u8; 6])
        ensures
            r@ == self.spec_ethernet_address(),
    {
        self.ethernet_address
    }

    pub fn set_ethernet_address(&mut self, ethernet_address: [u8; 6])
        ensures
            final(self).spec_ethernet_address() == ethernet_address@,
    {
        self.ethernet_address = ethernet_address;
    }

    /// Word `i` of the image (the checksum word left at zero).
    pub open spec fn spec_word(&self, i: int) -> u16 {
        if 0 <= i < 3 {
            (self.ethernet_address@[2 * i] as int + self.ethernet_address@[2 * i + 1] as int
                * 0x100) as u16
        } else {
            0
        }
    }

    /// Word `i` of the image, from its little-endian bytes.
    fn word(&self, i: usize) -> (r: u16)
        ensures
            r == self.spec_word(i as int),
    {
        if i < 3 {
            self.ethernet_address[2 * i] as u16 + self.ethernet_address[2 * i + 1] as u16 * 0x100
        } else {
            0
        }
    }
}

impl Default for Eeprom {
    fn default() -> (r: Eeprom)
        ensures
            r.spec_ethernet_address() == seq![0u8, 0, 0, 0, 0, 0],
    {
        Eeprom::new()
    }
}

impl Default for EepromInterface {
    fn default() -> (r: EepromInterface)
        ensures
            r.initial_eeprom.spec_ethernet_address() == seq![0u8, 0, 0, 0, 0, 0],
            forall|i: int| 0 <= i < 64 ==> r.data[i] == 0,
    {
        EepromInterface::new()
    }
}

/// The sum of the first `n` words.
pub open spec fn word_sum(words: Seq<u16>, n: int) -> int
    decreases n,
{
    if n <= 0 {
        0
    } else {
        word_sum(words, n - 1) + words[n - 1]
    }
}

/// Sums of a prefix ignore the words past it.
proof fn lemma_word_sum_prefix(a: Seq<u16>, b: Seq<u16>, n: int)
    requires
        0 <= n <= a.len(),
        n <= b.len(),
        forall|j: int| 0 <= j < n ==> a[j] == b[j],
    ensures
        word_sum(a, n) == word_sum(b, n),
    decreases n,
{
    if n > 0 {
        lemma_word_sum_prefix(a, b, n - 1);
    }
}

proof fn lemma_word_sum_nonneg(a: Seq<u16>, n: int)
    ensures
        word_sum(a, n) >= 0,
    decreases n,
{
    if n > 0 {
        lemma_word_sum_nonneg(a, n - 1);
    }
}

/// The EEPROM contents and the state of its Microwire interface.
#[derive(Debug)]
pub struct EepromInterface {
    pub initial_eeprom: Eeprom,
    pub data: [u16; 64],
    pub previous_chip_select: bool,
    pub previous_clock: bool,
    pub stage: EepromOperationStage,
    pub bit_index: u16,
}

impl EepromInterface {
    /// An interface idle on an all-zero EEPROM.
    pub fn new() -> (r: EepromInterface)
        ensures
            r.initial_eeprom.spec_ethernet_address() == seq![0u8, 0, 0, 0, 0, 0],
            forall|i: int| 0 <= i < 64 ==> r.data[i] == 0,
            !r.previous_chip_select,
            !r.previous_clock,
            r.stage == (EepromOperationStage::WaitingOpcode { written_opcode: 0 }),
            r.bit_index == 0,
    {
        EepromInterface {
            initial_eeprom: Eeprom::new(),
            data: [0u16; 64],
            previous_chip_select: false,
            previous_clock: false,
            stage: EepromOperationStage::WaitingOpcode { written_opcode: 0 },
            bit_index: 0,
        }
    }

    /// The state once chip select is seen high: a rising select starts a transaction.
    pub open spec fn selected(self) -> EepromInterface {
        if self.previous_chip_select {
            self
        } else {
            EepromInterface {
                stage: EepromOperationStage::WaitingOpcode { written_opcode: 0 },
                bit_index: 0,
                previous_chip_select: true,
                ..self
            }
        }
    }

    /// The bit that a rising clock drives out while reading.
    pub open spec fn output_bit(self, address: u16) -> bool {
        let total: int = address as int * 16 + self.bit_index as int;
        let word = self.data[(total / 16) % 64];
        let bit = total % 16;
        (word >> ((15 - bit) as u16)) & 1 == 1
    }

    /// The state after a rising clock: a bit of opcode or address is shifted in.
    pub open spec fn after_rising_clock(self, data_input: bool) -> EepromInterface {
        let bit: int = if data_input {
            1
        } else {
            0
        };
        EepromInterface {
            previous_clock: true,
            stage: match self.stage {
                EepromOperationStage::WaitingOpcode { written_opcode } => {
                    EepromOperationStage::WaitingOpcode {
                        written_opcode: ((written_opcode as int * 2) % 0x100 + bit) as u8,
                    }
                },
                EepromOperationStage::WaitingAddress { written_address } => {
                    EepromOperationStage::WaitingAddress {
                        written_address: ((written_address as int * 2) % 0x1_0000 + bit) as u16,
                    }
                },
                EepromOperationStage::Reading { address } => EepromOperationStage::Reading {
                    address,
                },
            },
            ..self
        }
    }

    /// The state once a falling clock advances the bit index.
    pub open spec fn advanced(self) -> EepromInterface {
        EepromInterface {
            previous_clock: false,
            bit_index: ((self.bit_index + 1) % 0x1_0000) as u16,
            ..self
        }
    }

    /// One sample of the Microwire lines: the result, the state after it, and the data
    /// output line (`data_output` of `w` where the sample does not drive it). An opcode
    /// other than READ is refused once its bits are in, leaving the bit index advanced.
    pub open spec fn spec_process_wires(self, w: EepromWires) -> (Result<(), E1000Error>, EepromInterface, bool) {
        if !w.chip_select {
            (Ok(()), EepromInterface { previous_chip_select: false, ..self }, w.data_output)
        } else {
            let s = self.selected();
            if w.clock_input == s.previous_clock {
                (Ok(()), s, w.data_output)
            } else if w.clock_input {
                (
                    Ok(()),
                    s.after_rising_clock(w.data_input),
                    match s.stage {
                        EepromOperationStage::Reading { address } => s.output_bit(address),
                        _ => w.data_output,
                    },
                )
            } else {
                match s.after_falling_clock() {
                    Ok(n) => (Ok(()), n, w.data_output),
                    Err(_) => (Err(E1000Error::UnsupportedEepromOpcode), s.advanced(), w.data_output),
                }
            }
        }
    }

    /// The state after a falling clock: the bit index advances and a complete opcode
    /// or address moves the transaction on; `Err` for an opcode other than READ.
    pub open spec fn after_falling_clock(self) -> Result<EepromInterface, ()> {
        let advanced = EepromInterface {
            previous_clock: false,
            bit_index: ((self.bit_index + 1) % 0x1_0000) as u16,
            ..self
        };
        match self.stage {
            EepromOperationStage::WaitingOpcode { written_opcode } => {
                if advanced.bit_index == OPCODE_BITS {
                    if written_opcode == MICROWIRE_OPCODE_READ {
                        Ok(
                            EepromInterface {
                                stage: EepromOperationStage::WaitingAddress { written_address: 0 },
                                bit_index: 0,
                                ..advanced
                            },
                        )
                    } else {
                        Err(())
                    }
                } else {
                    Ok(advanced)
                }
            },
            EepromOperationStage::WaitingAddress { written_address } => {
                if advanced.bit_index == ADDRESS_BITS {
                    Ok(
                        EepromInterface {
                            stage: EepromOperationStage::Reading { address: written_address },
                            bit_index: 0,
                            ..advanced
                        },
                    )
                } else {
                    Ok(advanced)
                }
            },
            EepromOperationStage::Reading { .. } => Ok(advanced),
        }
    }

    /// Loads the initial image into the EEPROM: words 0 to 62 from the image,
    /// word 63 chosen so that the 16-bit sum of all words is the checksum.
    pub fn pack_initial_eeprom(&mut self)
        ensures
            forall|i: int| 0 <= i < 63 ==> final(self).data[i] == old(self).initial_eeprom.spec_word(i),
            word_sum(final(self).data@, 64) % 0x1_0000 == DESIRED_CHECKSUM,
            final(self).initial_eeprom == old(self).initial_eeprom,
            final(self).previous_chip_select == old(self).previous_chip_select,
            final(self).previous_clock == old(self).previous_clock,
            final(self).stage == old(self).stage,
            final(self).bit_index == old(self).bit_index,
    {
        let mut sum: u16 = 0;
        let mut i: usize = 0;
        while i < 63
            invariant
                0 <= i <= 63,
                forall|j: int| 0 <= j < i ==> self.data[j] == self.initial_eeprom.spec_word(j),
                sum as int == word_sum(self.data@, i as int) % 0x1_0000,
                self.initial_eeprom == old(self).initial_eeprom,
                self.previous_chip_select == old(self).previous_chip_select,
                self.previous_clock == old(self).previous_clock,
                self.stage == old(self).stage,
                self.bit_index == old(self).bit_index,
            decreases 63 - i,
        {
            let word = self.initial_eeprom.word(i);
            let ghost before = self.data@;
            self.data[i] = word;
            proof {
                lemma_word_sum_prefix(before, self.data@, i as int);
            }
            sum = ((sum as u32 + word as u32) % 0x1_0000) as u16;
            i = i + 1;
        }
        let ghost before = self.data@;
        // The checksum word completes the sum
        self.data[63] = ((DESIRED_CHECKSUM as u32 + 0x1_0000 - sum as u32) % 0x1_0000) as u16;
        proof {
            lemma_word_sum_prefix(before, self.data@, 63);
            assert(word_sum(self.data@, 64) == word_sum(before, 63) + self.data@[63]);
            let t = word_sum(before, 63);
            lemma_word_sum_nonneg(before, 63);
            assert((t + (DESIRED_CHECKSUM as int + 0x1_0000 - t % 0x1_0000) % 0x1_0000) % 0x1_0000
                == DESIRED_CHECKSUM as int) by (nonlinear_arith)
                requires
                    t >= 0,
            ;
        }
    }

    /// Samples the Microwire lines: edges of chip select and clock drive the
    /// READ transaction, and a rising clock while reading drives the data output.
    pub fn process_wires(&mut self, wires: &mut EepromWires) -> (r: Result<(), E1000Error>)
        ensures
            (r, *final(self), final(wires).data_output) == old(self).spec_process_wires(*old(wires)),
            r == Ok::<(), E1000Error>(()) || r == Err::<(), E1000Error>(E1000Error::UnsupportedEepromOpcode),
            final(wires).clock_input == old(wires).clock_input,
            final(wires).chip_select == old(wires).chip_select,
            final(wires).data_input == old(wires).data_input,
            !old(wires).chip_select ==> {
                &&& r is Ok
                &&& *final(self) == EepromInterface { previous_chip_select: false, ..*old(self) }
                &&& final(wires).data_output == old(wires).data_output
            },
            old(wires).chip_select ==> ({
                let s = old(self).selected();
                if old(wires).clock_input == s.previous_clock {
                    r is Ok && *final(self) == s && final(wires).data_output
                        == old(wires).data_output
                } else if old(wires).clock_input {
                    &&& r is Ok
                    &&& *final(self) == s.after_rising_clock(old(wires).data_input)
                    &&& final(wires).data_output == match s.stage {
                        EepromOperationStage::Reading { address } => s.output_bit(address),
                        _ => old(wires).data_output,
                    }
                } else {
                    &&& final(wires).data_output == old(wires).data_output
                    &&& match s.after_falling_clock() {
                        Ok(n) => r is Ok && *final(self) == n,
                        Err(_) => r == Err::<(), E1000Error>(
                            E1000Error::UnsupportedEepromOpcode,
                        ),
                    }
                }
            }),
    {
        if !wires.chip_select {
            self.previous_chip_select = false;
            return Ok(());
        }
        if !self.previous_chip_select {
            // Chip select was just raised
            self.stage = EepromOperationStage::WaitingOpcode { written_opcode: 0 };
            self.bit_index = 0;
            self.previous_chip_select = true;
        }
        if wires.clock_input == self.previous_clock {
            return Ok(());
        }
        self.previous_clock = wires.clock_input;
        let bit: u8 = if wires.data_input {
            1
        } else {
            0
        };
        if wires.clock_input {
            // Low to high: shift data in, or drive data out
            match self.stage {
                EepromOperationStage::WaitingOpcode { written_opcode } => {
                    self.stage = EepromOperationStage::WaitingOpcode {
                        written_opcode: (((written_opcode as u16 * 2) % 0x100) as u8) + bit,
                    };
                },
                EepromOperationStage::WaitingAddress { written_address } => {
                    self.stage = EepromOperationStage::WaitingAddress {
                        written_address: (((written_address as u32 * 2) % 0x1_0000) as u16)
                            + bit as u16,
                    };
                },
                EepromOperationStage::Reading { address } => {
                    let total: u32 = address as u32 * 16 + self.bit_index as u32;
                    // The read wraps around the end of the EEPROM
                    let word = self.data[((total / 16) % 64) as usize];
                    let bit_in_word = total % 16;
                    wires.data_output = (word >> ((15 - bit_in_word) as u16)) & 1 == 1;
                },
            }
        } else {
            // High to low: advance the bit index, move on when a field is complete
            self.bit_index = ((self.bit_index as u32 + 1) % 0x1_0000) as u16;
            match self.stage {
                EepromOperationStage::WaitingOpcode { written_opcode } => {
                    if self.bit_index == OPCODE_BITS {
                        if written_opcode == MICROWIRE_OPCODE_READ {
                            self.stage = EepromOperationStage::WaitingAddress {
                                written_address: 0,
                            };
                            self.bit_index = 0;
                        } else {
                            return Err(E1000Error::UnsupportedEepromOpcode);
                        }
                    }
                },
                EepromOperationStage::WaitingAddress { written_address } => {
                    if self.bit_index == ADDRESS_BITS {
                        self.stage = EepromOperationStage::Reading { address: written_address };
                        self.bit_index = 0;
                    }
                },
                EepromOperationStage::Reading { .. } => {},
            }
        }
        Ok(())
    }
}

} // verus!
