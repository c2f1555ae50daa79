//! A queue in use by an activated device, with what it takes to interrupt the driver.
use crate::defs::VIRTIO_MMIO_INT_VRING;
use crate::queue::VirtQueue;
use vstd::prelude::*;

verus! {

/// How an interrupt reaches the driver.
#[derive(Clone, Copy, Debug, PartialEq, Eq, Structural)]
pub enum Interrupt {
    /// The interrupt controller raises this line.
    Line(u32),
    /// The interrupt event is written.
    Event,
    /// The interrupt controller has no line to raise for the device: the interrupt cannot be
    /// raised.
    NoLine,
}

/// An interrupt to be raised.
#[derive(Clone, Copy, Debug, PartialEq, Eq, Structural)]
pub struct Signal {
    /// Bits to be set in the interrupt status first.
    pub status: u32,
    /// How the interrupt is raised.
    pub interrupt: Interrupt,
}

/// The interrupt that says that a queue has used buffers. A device with an interrupt controller
/// raises its line; one without writes the interrupt event.
pub open spec fn used_queue_signal(intc: bool, irq_line: Option<u32>) -> Signal {
    Signal {
        status: VIRTIO_MMIO_INT_VRING,
        interrupt: match irq_line {
            Some(line) if intc => Interrupt::Line(line),
            None if intc => Interrupt::NoLine,
            _ => Interrupt::Event,
        },
    }
}

/// Makes the interrupt that says that a queue has used buffers.
pub(crate) fn make_signal(intc: bool, irq_line: Option<u32>) -> (signal: Signal)
    ensures
        signal == used_queue_signal(intc, irq_line),
{
    let interrupt = match irq_line {
        Some(line) if intc => Interrupt::Line(line),
        None if intc => Interrupt::NoLine,
        _ => Interrupt::Event,
    };
    Signal { status: VIRTIO_MMIO_INT_VRING, interrupt }
}

/// A queue in use.
#[derive(Debug)]
pub struct Vring {
    /// The queue.
    pub queue: VirtQueue,
    /// Whether there is an interrupt controller.
    pub intc: bool,
    /// The interrupt line of the device.
    pub irq_line: Option<u32>,
}

impl Vring {
    /// The interrupt that the queue raises.
    pub open spec fn signal(self) -> Signal {
        used_queue_signal(self.intc, self.irq_line)
    }

    /// Makes the interrupt that says that the queue has used buffers.
    pub fn signal_used_queue(&self) -> (signal: Signal)
        ensures
            signal == self.signal(),
            signal.status == VIRTIO_MMIO_INT_VRING,
            signal.interrupt is Event <==> !self.intc,
            self.intc ==> signal.interrupt == match self.irq_line {
                Some(line) => Interrupt::Line(line),
                None => Interrupt::NoLine,
            },
    {
        make_signal(self.intc, self.irq_line)
    }
}

} // verus!
