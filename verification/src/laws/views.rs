//! What stands for the decisions of the device and of its audio backend, field by field.
use crate::audio_backends::format::AudioInfo;
use crate::audio_backends::pipewire::{done, PwAction, PwBackend};
use crate::audio_backends::worker::{
    messages, outcome_view, plays, queue_views, Listener, OutcomeView, PwOutcome,
};
use crate::control::{Decision, DecisionView};
use crate::error::Error;
use crate::message::ControlMessage;
use crate::stream::{Buffer, BufferView};
use crate::transmit;
use crate::vring::Signal;
use std::collections::VecDeque;
use vstd::prelude::*;

verus! {

/// A description says what its fields say.
pub proof fn law_view_of_a_description(info: AudioInfo)
    ensures
        info@.format == info.format,
        info@.rate == info.rate,
        info@.flags == info.flags,
        info@.channels == info.channels,
        info@.position == info.position@,
{
}

/// A decision stands for one of its own kind with the same contents.
pub proof fn law_view_of_a_decision(decision: Decision)
    ensures
        match decision {
            Decision::Defer(action) => decision@ == DecisionView::Defer(action),
            Decision::Reply { code, info, action } => {
                &&& decision@ matches DecisionView::Reply { code: c, info: i, action: a }
                &&& c == code
                &&& a == action
                &&& i is Some <==> info is Some
                &&& info matches Some(bytes) ==> i->Some_0 == bytes@
            },
        },
{
}

/// What is to be done after an action stands for one of its own kind with the same contents.
pub proof fn law_view_of_an_outcome(outcome: PwOutcome)
    ensures
        outcome_view(Ok(outcome)) == Ok::<OutcomeView, Error>(outcome@),
        match outcome {
            PwOutcome::Idle => outcome@ is Idle,
            PwOutcome::NotConnected => outcome@ is NotConnected,
            PwOutcome::Rejected(error) => outcome@ == OutcomeView::Rejected(error),
            PwOutcome::SetActive { stream_id, active } => outcome@ == (OutcomeView::SetActive {
                stream_id,
                active,
            }),
            PwOutcome::Connect { stream_id, info, connection, ended } => outcome@ == (
            OutcomeView::Connect { stream_id, info: info@, connection, ended: ended@ }),
            PwOutcome::Disconnect { stream_id, message, ended } => outcome@ == (
            OutcomeView::Disconnect { stream_id, message, ended: ended@ }),
            PwOutcome::ReleaseRejected { message, error } => outcome@ == (
            OutcomeView::ReleaseRejected { message, error }),
            PwOutcome::ReleaseNotConnected { message } => outcome@ == (
            OutcomeView::ReleaseNotConnected { message }),
            PwOutcome::ParametersSet { message, code } => outcome@ == (OutcomeView::ParametersSet {
                message,
                code,
            }),
        },
{
}

/// An error of the worker stands for itself.
pub proof fn law_view_of_a_failed_action(error: Error)
    ensures
        outcome_view(Err(error)) == Err::<OutcomeView, Error>(error),
{
}

/// The ready queues hold their buffers in order, each under its number, and the messages of buffers
/// stand in the order of the buffers.
pub proof fn law_view_of_ready_queues(
    queues: Map<u64, VecDeque<Buffer>>,
    q: u64,
    buffers: Seq<BufferView>,
    i: int,
)
    ensures
        queue_views(queues).contains_key(q) <==> queues.contains_key(q),
        queues.contains_key(q) ==> queue_views(queues)[q].len() == queues[q]@.len(),
        queues.contains_key(q) && 0 <= i < queues[q]@.len() ==> {
            &&& queue_views(queues)[q][i].data == queues[q]@[i].data@
            &&& queue_views(queues)[q][i].pos == queues[q]@[i].pos
            &&& queue_views(queues)[q][i].message == queues[q]@[i].message
        },
        messages(buffers).len() == buffers.len(),
        0 <= i < buffers.len() ==> messages(buffers)[i] == buffers[i].message,
{
}

/// A stream plays from a queue where it is connected to it.
pub proof fn law_connected_streams_play(listener: Option<Listener>, queue: u64)
    ensures
        plays(listener, queue) <==> listener is Some && listener->Some_0.queue == queue,
{
}

/// An action that was passed on stands behind those that were; one that could not be is on record
/// as refused, and the error says so. Where actions arrive does not change.
pub proof fn law_actions_are_passed_on_in_order(
    before: PwBackend,
    after: PwBackend,
    action: PwAction,
    res: Result<(), Error>,
)
    requires
        PwBackend::passed_on(before, after, action, res),
    ensures
        after.wf(),
        res is Ok ==> {
            &&& after.sent().len() == before.sent().len() + 1
            &&& after.sent().last() == action
            &&& after.sent().drop_last() == before.sent()
            &&& after.refused() == before.refused()
        },
        res is Err ==> {
            &&& res->Err_0 == Error::SendNotificationFailed
            &&& after.refused().len() == before.refused().len() + 1
            &&& after.refused().last() == action
            &&& after.refused().drop_last() == before.refused()
            &&& after.sent() == before.sent()
        },
        forall|r: crossbeam_channel::Receiver<PwAction>| #[trigger]
            after.feeds(r) <==> before.feeds(r),
{
    if res is Ok {
        assert(after.sent().drop_last() =~= before.sent());
    } else {
        assert(after.refused().drop_last() =~= before.refused());
    }
}

/// Whether a request was taken does not depend on what is left to be answered; and a transfer that
/// was answered asks for an interrupt.
pub proof fn law_results_by_what_is_left(
    res: Result<Option<ControlMessage>, Error>,
    answer: Result<Option<Signal>, Error>,
)
    ensures
        done(res) is Ok <==> res is Ok,
        res matches Err(error) ==> done(res) == Err::<(), Error>(error),
        transmit::answered(answer) == Ok::<bool, Error>(true) <==> answer is Ok
            && answer->Ok_0 is Some,
        transmit::answered(answer) == Ok::<bool, Error>(false) <==> answer is Ok
            && answer->Ok_0 is None,
        answer matches Err(error) ==> transmit::answered(answer) == Err::<bool, Error>(error),
{
}

} // verus!
