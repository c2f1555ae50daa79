//! A virtio sound device.
//!
//! The driver of a guest talks to the device over four virtqueues. Requests on the control queue
//! describe the streams and command them; transfers on the transmit queue carry sound data. The
//! device passes what concerns sound on to an audio backend, whose worker plays it at an audio
//! server.
//!
//! - [`virtio_sound`] has the messages as they lie in guest memory, and [`guest_memory`] the
//!   access to it.
//! - [`queue`] and [`vring`] are the virtqueues and the interrupts.
//! - [`stream`] is the life cycle of a stream.
//! - [`error`] has the errors, and [`text`] what their texts are made with.
//! - [`control`] deals with requests, [`transmit`] with transfers, and [`message`] answers those
//!   that are answered later; [`completion`] ends transfers and releases.
//! - [`audio_backends`] has the backend, with what its worker decides.
//! - [`device`] and [`event_handler`] put these together.
//! - [`laws`] and [`audio_backends::laws`] state what holds of them as a whole.
//!
//! What the device does to the world outside (reads and writes of guest memory, actions passed on
//! to the backend, chains given back to the driver) is recorded in [`trace`], so that contracts
//! can speak of it. What has to be done at the audio server or with files is handed to the caller
//! as a value.
pub mod audio_backends;
pub mod completion;
pub mod control;
pub mod defs;
pub mod device;
pub mod error;
pub mod event_handler;
pub mod guest_memory;
pub mod laws;
pub mod message;
pub mod queue;
pub mod stream;
pub mod text;
pub mod trace;
pub mod transmit;
pub mod virtio_sound;
pub mod vring;

pub use self::audio_backends::pipewire::PwBackend;
pub use self::audio_backends::{alloc_audio_backend, AudioBackend, BackendType};
pub use self::defs::TYPE_SND;
pub use self::device::{Snd, VirtioSnd};
pub use self::error::Error;
pub use self::message::{ControlMessage, ControlMessageKind, IOMessage, InvalidControlMessage};
pub use self::vring::Vring;
