//! What the device asks of an audio backend.
pub mod format;
pub mod laws;
pub mod pipewire;
pub mod worker;
use crate::error::Error;
use crate::message::ControlMessage;
use crate::virtio_sound::VirtioSndPcmSetParams;
use self::pipewire::{PwAction, PwBackend};
use crossbeam_channel::Receiver;
use vstd::prelude::*;

verus! {

/// The audio backends.
#[derive(Clone, Copy, Debug, PartialEq, Eq, Structural)]
pub enum BackendType {
    /// The PipeWire server.
    Pipewire,
}

impl Default for BackendType {
    fn default() -> (backend: Self)
        ensures
            backend is Pipewire,
    {
        BackendType::Pipewire
    }
}

/// An audio backend. It answers the requests that come with a message, or hands the message back
/// so that the request is answered at once.
pub trait AudioBackend: Sized {
    /// Can the backend take requests?
    spec fn ready(&self) -> bool;

    /// Plays the buffers of a stream.
    fn write(&mut self, stream_id: u32) -> (res: Result<(), Error>)
        requires
            old(self).ready(),
        ensures
            final(self).ready(),
    ;

    /// Fills the buffers of a stream.
    fn read(&mut self, stream_id: u32) -> (res: Result<(), Error>)
        requires
            old(self).ready(),
        ensures
            final(self).ready(),
    ;

    /// Sets the parameters of a stream. A backend that needs none does nothing.
    fn set_parameters(
        &mut self,
        _stream_id: u32,
        msg: ControlMessage,
        _request: VirtioSndPcmSetParams,
    ) -> (res: Result<Option<ControlMessage>, Error>)
        requires
            old(self).ready(),
        ensures
            final(self).ready(),
        default_ensures
            res == Ok::<Option<ControlMessage>, Error>(Some(msg)),
            *final(self) == *old(self),
    {
        Ok(Some(msg))
    }

    /// Releases a stream. A backend that holds nothing does nothing.
    fn release(&mut self, _stream_id: u32, msg: ControlMessage) -> (res: Result<
        Option<ControlMessage>,
        Error,
    >)
        requires
            old(self).ready(),
        ensures
            final(self).ready(),
        default_ensures
            res == Ok::<Option<ControlMessage>, Error>(Some(msg)),
            *final(self) == *old(self),
    {
        Ok(Some(msg))
    }

    /// Prepares a stream. A backend that needs no preparation does nothing.
    fn prepare(&mut self, _stream_id: u32) -> (res: Result<(), Error>)
        requires
            old(self).ready(),
        ensures
            final(self).ready(),
        default_ensures
            res is Ok,
            *final(self) == *old(self),
    {
        Ok(())
    }

    /// Starts a stream. A backend that needs no start does nothing.
    fn start(&mut self, _stream_id: u32) -> (res: Result<(), Error>)
        requires
            old(self).ready(),
        ensures
            final(self).ready(),
        default_ensures
            res is Ok,
            *final(self) == *old(self),
    {
        Ok(())
    }

    /// Stops a stream. A backend that needs no stop does nothing.
    fn stop(&mut self, _stream_id: u32) -> (res: Result<(), Error>)
        requires
            old(self).ready(),
        ensures
            final(self).ready(),
        default_ensures
            res is Ok,
            *final(self) == *old(self),
    {
        Ok(())
    }
}

/// Makes an audio backend, and the end of the channel from which its worker takes the actions.
pub fn alloc_audio_backend(backend: BackendType) -> (res: Result<
    (PwBackend, Receiver<PwAction>),
    Error,
>)
    ensures
        ({
            &&& res matches Ok((b, receiver))
            &&& b.wf()
            &&& b.feeds(receiver)
            &&& b.sent() == Seq::<PwAction>::empty()
            &&& b.refused() == Seq::<PwAction>::empty()
        }),
{
    match backend {
        BackendType::Pipewire => Ok(PwBackend::new()),
    }
}

} // verus!
