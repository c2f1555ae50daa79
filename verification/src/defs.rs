//! Fixed properties of the device: its queues, its features and what its streams support.
use crate::virtio_sound::{
    VIRTIO_SND_PCM_FMT_S16, VIRTIO_SND_PCM_FMT_S24, VIRTIO_SND_PCM_FMT_S32, VIRTIO_SND_PCM_FMT_U8,
    VIRTIO_SND_PCM_RATE_11025, VIRTIO_SND_PCM_RATE_16000, VIRTIO_SND_PCM_RATE_22050,
    VIRTIO_SND_PCM_RATE_32000, VIRTIO_SND_PCM_RATE_44100, VIRTIO_SND_PCM_RATE_48000,
    VIRTIO_SND_PCM_RATE_8000,
};
use vstd::prelude::*;

verus! {

/// Name under which the device is known to the device manager.
pub const SND_DEV_ID: &'static str = "virtio_snd";

/// Number of virtqueues: control, event, transmit and receive.
pub const NUM_QUEUES: usize = 4;

/// Size of each virtqueue.
pub const QUEUE_SIZE: u16 = 256;

/// Index of the control queue.
pub const CTL_INDEX: usize = 0;

/// Index of the event queue.
pub const EVT_INDEX: usize = 1;

/// Index of the transmit queue.
pub const TXQ_INDEX: usize = 2;

/// Index of the receive queue.
pub const RXQ_INDEX: usize = 3;

/// Feature bit number of a device that follows the current virtio interface.
pub const VIRTIO_F_VERSION_1: u32 = 32;

/// Virtio device type of a sound device.
pub const VIRTIO_ID_SND: u32 = 25;

/// Virtio device type of a sound device.
pub const TYPE_SND: u32 = VIRTIO_ID_SND;

/// The features that the device offers: bit `VIRTIO_F_VERSION_1` alone.
pub const AVAIL_FEATURES: u64 = 1u64 << VIRTIO_F_VERSION_1;

/// Interrupt status bit: a used buffer was added to a queue.
pub const VIRTIO_MMIO_INT_VRING: u32 = 1;

/// The formats that every stream supports, one bit each.
pub const SUPPORTED_FORMATS: u64 = 1u64 << VIRTIO_SND_PCM_FMT_U8
    | 1u64 << VIRTIO_SND_PCM_FMT_S16
    | 1u64 << VIRTIO_SND_PCM_FMT_S24
    | 1u64 << VIRTIO_SND_PCM_FMT_S32;

/// The rates that every stream supports, one bit each.
pub const SUPPORTED_RATES: u64 = 1u64 << VIRTIO_SND_PCM_RATE_8000
    | 1u64 << VIRTIO_SND_PCM_RATE_11025
    | 1u64 << VIRTIO_SND_PCM_RATE_16000
    | 1u64 << VIRTIO_SND_PCM_RATE_22050
    | 1u64 << VIRTIO_SND_PCM_RATE_32000
    | 1u64 << VIRTIO_SND_PCM_RATE_44100
    | 1u64 << VIRTIO_SND_PCM_RATE_48000;

} // verus!
