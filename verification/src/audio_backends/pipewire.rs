//! The PipeWire backend.
use super::AudioBackend;
use crate::error::Error;
use crate::message::ControlMessage;
use crate::virtio_sound::VirtioSndPcmSetParams;
use crossbeam_channel::{Receiver, Sender};
use vstd::prelude::*;

verus! {

/// The sending end of a channel, `crossbeam_channel::Sender`.
#[verifier::external_type_specification]
#[verifier::external_body]
#[verifier::reject_recursive_types(T)]
pub struct ExSender<T>(crossbeam_channel::Sender<T>);

/// The receiving end of a channel, `crossbeam_channel::Receiver`.
#[verifier::external_type_specification]
#[verifier::external_body]
#[verifier::reject_recursive_types(T)]
pub struct ExReceiver<T>(crossbeam_channel::Receiver<T>);

/// What the worker of the backend is asked to do. The number is that of a stream.
#[derive(PartialEq, Eq, Structural)]
pub enum PwAction {
    /// Set the parameters of the stream.
    SetParameters(usize, ControlMessage, VirtioSndPcmSetParams),
    /// Prepare the stream.
    Prepare(usize),
    /// Release the stream.
    Release(usize, ControlMessage),
    /// Start the stream.
    Start(usize),
    /// Stop the stream.
    Stop(usize),
    /// Play the buffers of the stream.
    Write(usize),
    /// Fill the buffers of the stream.
    Read(usize),
}

/// The actions that the channel took from this sender, oldest first.
pub uninterp spec fn sent_actions(sender: Sender<PwAction>) -> Seq<PwAction>;

/// The actions that were offered to the channel through this sender and came back, oldest first.
pub uninterp spec fn refused_actions(sender: Sender<PwAction>) -> Seq<PwAction>;

/// Whether the channel of this sender holds any number of actions, so that sending never waits.
pub uninterp spec fn is_unbounded(sender: Sender<PwAction>) -> bool;

/// Whether the two are ends of the same channel, so that what is sent on the one arrives at the
/// other.
pub uninterp spec fn linked(sender: Sender<PwAction>, receiver: Receiver<PwAction>) -> bool;

/// Calls `crossbeam_channel::unbounded`: the two ends of a new channel that holds any number of
/// actions, and that nothing has been sent on or offered to.
#[verifier::external_body]
fn unbounded() -> (ends: (Sender<PwAction>, Receiver<PwAction>))
    ensures
        linked(ends.0, ends.1),
        is_unbounded(ends.0),
        sent_actions(ends.0) == Seq::<PwAction>::empty(),
        refused_actions(ends.0) == Seq::<PwAction>::empty(),
{
    crossbeam_channel::unbounded()
}

/// Calls `crossbeam_channel::Sender::send`. The channel takes the action, or the receiving end is
/// gone and the action comes back. Which of the two is up to the other end, and so is not said;
/// either way it is on record that the action was offered. The sender stays an end of the same
/// channel.
#[verifier::external_body]
fn send(sender: &mut Sender<PwAction>, action: PwAction) -> (res: Result<(), PwAction>)
    requires
        is_unbounded(*old(sender)),
    ensures
        is_unbounded(*final(sender)),
        forall|r: Receiver<PwAction>| #[trigger]
            linked(*final(sender), r) == linked(*old(sender), r),
        match res {
            Ok(_) => {
                &&& sent_actions(*final(sender)) == sent_actions(*old(sender)).push(action)
                &&& refused_actions(*final(sender)) == refused_actions(*old(sender))
            },
            Err(back) => {
                &&& back == action
                &&& sent_actions(*final(sender)) == sent_actions(*old(sender))
                &&& refused_actions(*final(sender)) == refused_actions(*old(sender)).push(action)
            },
        },
{
    sender.send(action).map_err(|error| error.0)
}

/// The backend as the device sees it: it passes every request on to a worker.
pub struct PwBackend {
    sender: Sender<PwAction>,
}

impl PwBackend {
    /// Passing a request on never waits for the worker.
    pub closed spec fn wf(self) -> bool {
        is_unbounded(self.sender)
    }

    /// The requests that were passed on to the worker, oldest first.
    pub closed spec fn sent(self) -> Seq<PwAction> {
        sent_actions(self.sender)
    }

    /// The requests that were to be passed on when the worker was gone, oldest first.
    pub closed spec fn refused(self) -> Seq<PwAction> {
        refused_actions(self.sender)
    }

    /// Does what is passed on arrive at this end of a channel?
    pub closed spec fn feeds(self, receiver: Receiver<PwAction>) -> bool {
        linked(self.sender, receiver)
    }

    /// Does what is passed on arrive where it did before?
    pub open spec fn feeds_as(self, before: Self) -> bool {
        forall|r: Receiver<PwAction>| #[trigger] self.feeds(r) == before.feeds(r)
    }

    /// A backend that has passed nothing on, and the end of its channel for its worker.
    pub fn new() -> (ends: (Self, Receiver<PwAction>))
        ensures
            ends.0.wf(),
            ends.0.feeds(ends.1),
            ends.0.sent() == Seq::<PwAction>::empty(),
            ends.0.refused() == Seq::<PwAction>::empty(),
    {
        let (sender, receiver) = unbounded();
        (PwBackend { sender }, receiver)
    }

    /// What holds after `action` was to be passed on: it was, or the worker is gone and it is on
    /// record that the action was offered to it.
    pub open spec fn passed_on(
        before: Self,
        after: Self,
        action: PwAction,
        res: Result<(), Error>,
    ) -> bool {
        &&& after.wf()
        &&& after.feeds_as(before)
        &&& match res {
            Ok(_) => {
                &&& after.sent() == before.sent().push(action)
                &&& after.refused() == before.refused()
            },
            Err(error) => {
                &&& error == Error::SendNotificationFailed
                &&& after.sent() == before.sent()
                &&& after.refused() == before.refused().push(action)
            },
        }
    }

    /// Passes an action on to the worker.
    pub fn pass_on(&mut self, action: PwAction) -> (res: Result<(), Error>)
        requires
            old(self).wf(),
        ensures
            Self::passed_on(*old(self), *final(self), action, res),
    {
        let res = send(&mut self.sender, action);
        assert(self.feeds_as(*old(self)));
        match res {
            Ok(_) => Ok(()),
            Err(_) => Err(Error::SendNotificationFailed),
        }
    }

    /// Passes an action on that carries a request, which nobody else is to answer.
    fn pass_request_on(&mut self, action: PwAction) -> (res: Result<Option<ControlMessage>, Error>)
        requires
            old(self).wf(),
        ensures
            Self::passed_on(*old(self), *final(self), action, done(res)),
            res matches Ok(left) ==> left is None,
    {
        match self.pass_on(action) {
            Ok(_) => Ok(None),
            Err(error) => Err(error),
        }
    }
}

/// Whether it was done, whatever is left to be answered.
pub open spec fn done(res: Result<Option<ControlMessage>, Error>) -> Result<(), Error> {
    match res {
        Ok(_) => Ok(()),
        Err(error) => Err(error),
    }
}

impl AudioBackend for PwBackend {
    open spec fn ready(&self) -> bool {
        self.wf()
    }

    fn write(&mut self, stream_id: u32) -> (res: Result<(), Error>)
        ensures
            Self::passed_on(*old(self), *final(self), PwAction::Write(stream_id as usize), res),
    {
        self.pass_on(PwAction::Write(stream_id as usize))
    }

    fn read(&mut self, stream_id: u32) -> (res: Result<(), Error>)
        ensures
            Self::passed_on(*old(self), *final(self), PwAction::Read(stream_id as usize), res),
    {
        self.pass_on(PwAction::Read(stream_id as usize))
    }

    fn set_parameters(
        &mut self,
        stream_id: u32,
        msg: ControlMessage,
        request: VirtioSndPcmSetParams,
    ) -> (res: Result<Option<ControlMessage>, Error>)
        ensures
            Self::passed_on(
                *old(self),
                *final(self),
                PwAction::SetParameters(stream_id as usize, msg, request),
                done(res),
            ),
            res matches Ok(left) ==> left is None,
    {
        self.pass_request_on(PwAction::SetParameters(stream_id as usize, msg, request))
    }

    fn release(&mut self, stream_id: u32, msg: ControlMessage) -> (res: Result<
        Option<ControlMessage>,
        Error,
    >)
        ensures
            Self::passed_on(
                *old(self),
                *final(self),
                PwAction::Release(stream_id as usize, msg),
                done(res),
            ),
            res matches Ok(left) ==> left is None,
    {
        self.pass_request_on(PwAction::Release(stream_id as usize, msg))
    }

    fn prepare(&mut self, stream_id: u32) -> (res: Result<(), Error>)
        ensures
            Self::passed_on(*old(self), *final(self), PwAction::Prepare(stream_id as usize), res),
    {
        self.pass_on(PwAction::Prepare(stream_id as usize))
    }

    fn start(&mut self, stream_id: u32) -> (res: Result<(), Error>)
        ensures
            Self::passed_on(*old(self), *final(self), PwAction::Start(stream_id as usize), res),
    {
        self.pass_on(PwAction::Start(stream_id as usize))
    }

    fn stop(&mut self, stream_id: u32) -> (res: Result<(), Error>)
        ensures
            Self::passed_on(*old(self), *final(self), PwAction::Stop(stream_id as usize), res),
    {
        self.pass_on(PwAction::Stop(stream_id as usize))
    }
}

} // verus!
