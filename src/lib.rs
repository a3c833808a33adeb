//! Behavioural model of an Intel 82540EM-class gigabit Ethernet controller.
//!
//! The device logic (register bank, descriptor rings, transmit and receive
//! pipelines, interrupt throttling, EEPROM and PHY) is written against the
//! abstract host interface [`NicContext`].
use vstd::prelude::*;

pub mod e1000;
pub mod util;

verus! {

/// Operations the device model asks of its host.
///
/// The host owns guest memory, the network backend, the interrupt line and
/// a one-shot monotonic timer. Times are nanoseconds on a monotonic clock.
pub trait NicContext {
    /// Send an Ethernet frame out of the device, returning the bytes sent.
    fn send(&mut self, buffer: &[u8]) -> Result<usize, ()>;

    /// Prepare the guest memory range in which the following DMA operations take place.
    fn dma_prepare(&mut self, address: usize, length: usize) {
    }

    /// Read `buffer.len()` bytes of guest memory at `address + offset`.
    fn dma_read(&mut self, address: usize, buffer: &mut [u8], offset: usize)
        ensures
            final(buffer)@.len() == old(buffer)@.len(),
    ;

    /// Write `buffer` to guest memory at `address + offset`.
    fn dma_write(&mut self, address: usize, buffer: &[u8], offset: usize);

    /// Assert the device interrupt.
    fn trigger_interrupt(&mut self);

    /// Set or re-arm the one-shot timer to fire after `nanos` nanoseconds.
    fn set_timer(&mut self, nanos: u64);

    /// Cancel the one-shot timer; it may not have been armed.
    fn delete_timer(&mut self);

    /// Current time of the monotonic clock that the timer runs on.
    fn monotonic_nanos(&mut self) -> u64;
}

} // verus!
