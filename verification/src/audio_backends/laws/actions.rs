//! What each action does to the streams and to the worker, field by field.
use crate::audio_backends::format::{Direction, SampleFormat};
use crate::audio_backends::laws::formats::{law_descriptions_by_number, rate_by_number};
use crate::audio_backends::pipewire::PwAction;
use crate::audio_backends::worker::{
    can_handle, handled, messages, plays, Listener, OutcomeView, PwStep, WorkerView,
};
use crate::error::Error;
use crate::message::{ControlMessage, IOMessage};
use crate::stream::{self, has_bit, BufferView, PCMState, StreamView};
use crate::virtio_sound::VirtioSndPcmSetParams;
use vstd::prelude::*;

verus! {

/// Did nothing change but the state of the stream `id`?
pub open spec fn only_state_changes(
    before: Seq<StreamView>,
    after: Seq<StreamView>,
    id: int,
) -> bool {
    &&& after.len() == before.len()
    &&& forall|i: int| 0 <= i < before.len() && i != id ==> #[trigger] after[i] == before[i]
    &&& after[id].id == before[id].id
    &&& after[id].params == before[id].params
    &&& after[id].formats == before[id].formats
    &&& after[id].rates == before[id].rates
    &&& after[id].direction == before[id].direction
    &&& after[id].channels_min == before[id].channels_min
    &&& after[id].channels_max == before[id].channels_max
    &&& after[id].buffers == before[id].buffers
}

/// Was the command refused, and did nothing change?
pub open spec fn refused(
    worker: WorkerView,
    streams: Seq<StreamView>,
    id: int,
    next: PCMState,
    step: PwStep,
) -> bool {
    &&& step.worker == worker
    &&& step.streams == streams
    &&& step.outcome matches Ok(OutcomeView::Rejected(error))
    &&& error == stream::Error::InvalidStateTransition(streams[id].state, next)
}

/// Does a stream with this connection play from this queue?
pub open spec fn listens(listener: Option<Listener>, queue: u64) -> bool {
    listener matches Some(found) && found.queue == queue
}

/// Does a stream other than `id` play from this queue?
pub open spec fn another_listens(worker: WorkerView, queue: u64, id: int) -> bool {
    exists|j: int|
        0 <= j < worker.listeners.len() && j != id && listens(#[trigger] worker.listeners[j], queue)
}

/// The messages with which the transfers of buffers end, in order.
pub open spec fn ends(buffers: Seq<BufferView>) -> Seq<IOMessage> {
    Seq::new(buffers.len(), |i: int| buffers[i].message)
}

/// A stream that is connected is started at the audio server by the command to start, in whichever
/// state it takes that command: after it was prepared and after it was stopped. In any other state
/// it refuses. Nothing else changes.
pub proof fn law_start_starts(worker: WorkerView, streams: Seq<StreamView>, id: usize)
    requires
        id < streams.len(),
    ensures
        ({
            let step = handled(worker, streams, PwAction::Start(id));
            let before = streams[id as int];
            if before.state is Prepare || before.state is Stop {
                &&& step.worker == worker
                &&& only_state_changes(streams, step.streams, id as int)
                &&& step.streams[id as int].state is Start
                &&& step.outcome matches Ok(outcome)
                &&& worker.listeners[id as int] is Some ==> {
                    &&& outcome matches OutcomeView::SetActive { stream_id, active }
                    &&& stream_id == id
                    &&& active == true
                }
                &&& worker.listeners[id as int] is None ==> outcome is NotConnected
            } else {
                refused(worker, streams, id as int, PCMState::Start, step)
            }
        }),
{
    let step = handled(worker, streams, PwAction::Start(id));
    if !(streams[id as int].state is Prepare || streams[id as int].state is Stop) {
        assert(step.streams =~= streams);
    }
}

/// A stream that is connected is stopped at the audio server by the command to stop, which it
/// takes where it was started. In any other state it refuses. Nothing else changes.
pub proof fn law_stop_stops(worker: WorkerView, streams: Seq<StreamView>, id: usize)
    requires
        id < streams.len(),
    ensures
        ({
            let step = handled(worker, streams, PwAction::Stop(id));
            let before = streams[id as int];
            if before.state is Start {
                &&& step.worker == worker
                &&& only_state_changes(streams, step.streams, id as int)
                &&& step.streams[id as int].state is Stop
                &&& step.outcome matches Ok(outcome)
                &&& worker.listeners[id as int] is Some ==> {
                    &&& outcome matches OutcomeView::SetActive { stream_id, active }
                    &&& stream_id == id
                    &&& active == false
                }
                &&& worker.listeners[id as int] is None ==> outcome is NotConnected
            } else {
                refused(worker, streams, id as int, PCMState::Stop, step)
            }
        }),
{
    let step = handled(worker, streams, PwAction::Stop(id));
    if !(streams[id as int].state is Start) {
        assert(step.streams =~= streams);
    }
}

/// A stream takes parameters before it is started and after it was released. Where it supports
/// the format and the rate, each of its parameters is the one of the request, and the request is
/// found in order; else it keeps its parameters, and the request is answered with 0x8002. In any
/// other state nothing changes and the answer is 0x8001. Nothing but the parameters and the state
/// changes, and the request is the one that came.
pub proof fn law_parameters_are_those_of_the_request(
    worker: WorkerView,
    streams: Seq<StreamView>,
    id: usize,
    message: ControlMessage,
    request: VirtioSndPcmSetParams,
)
    requires
        id < streams.len(),
    ensures
        ({
            let step = handled(
                worker,
                streams,
                PwAction::SetParameters(id, message, request),
            );
            let before = streams[id as int];
            let after = step.streams[id as int];
            let takes = before.state is SetParameters || before.state is Prepare
                || before.state is Release;
            let supports = has_bit(before.formats, request.format) && has_bit(
                before.rates,
                request.rate,
            );
            &&& step.worker == worker
            &&& step.outcome matches Ok(
                OutcomeView::ParametersSet { message: answered, code },
            )
            &&& answered == message
            &&& code == if !takes {
                0x8001u32
            } else if !supports {
                0x8002u32
            } else {
                0x8000u32
            }
            &&& step.streams.len() == streams.len()
            &&& forall|i: int|
                0 <= i < streams.len() && i != id ==> #[trigger] step.streams[i] == streams[i]
            &&& after.id == before.id
            &&& after.formats == before.formats
            &&& after.rates == before.rates
            &&& after.direction == before.direction
            &&& after.channels_min == before.channels_min
            &&& after.channels_max == before.channels_max
            &&& after.buffers == before.buffers
            &&& takes ==> after.state is SetParameters
            &&& !takes ==> after.state == before.state
            &&& takes && supports ==> {
                &&& after.params.features == request.features
                &&& after.params.buffer_bytes == request.buffer_bytes
                &&& after.params.period_bytes == request.period_bytes
                &&& after.params.channels == request.channels
                &&& after.params.format == request.format
                &&& after.params.rate == request.rate
            }
            &&& !(takes && supports) ==> after.params == before.params
        }),
{
}

/// A stream can be prepared before it is started and after it was released. With one to six
/// channels it is then connected: with the number of channels that its parameters name, both at
/// the audio server and in its connection, and to the queue that is current. The server is offered
/// samples of 16 bits, at the rate of the parameters, and picks what the stream is connected to;
/// the stream waits to be started. With another number of channels the worker ends. In any other
/// state the stream refuses.
pub proof fn law_prepare_connects(worker: WorkerView, streams: Seq<StreamView>, id: usize)
    requires
        id < streams.len(),
        worker.listeners.len() == streams.len(),
    ensures
        ({
            let step = handled(worker, streams, PwAction::Prepare(id));
            let before = streams[id as int];
            let params = before.params;
            if !(before.state is SetParameters || before.state is Prepare
                || before.state is Release) {
                refused(worker, streams, id as int, PCMState::Prepare, step)
            } else {
                &&& only_state_changes(streams, step.streams, id as int)
                &&& step.streams[id as int].state is Prepare
                &&& if 1 <= params.channels <= 6 {
                    &&& step.outcome matches Ok(
                        OutcomeView::Connect { stream_id, info, connection, ended },
                    )
                    &&& stream_id == id
                    &&& step.worker.listeners[id as int] matches Some(listener)
                    &&& listener.channels == params.channels
                    &&& listener.queue == worker.current
                    &&& info.channels == params.channels
                    &&& info.rate == rate_by_number(params.rate)
                    &&& info.flags == 0
                    &&& connection.format == SampleFormat::S16Le
                    &&& connection.channels == params.channels
                    &&& connection.rate == rate_by_number(params.rate)
                    &&& connection.direction == if before.direction == 0 {
                        Direction::Output
                    } else {
                        Direction::Input
                    }
                    &&& connection.inactive && connection.autoconnect && connection.realtime
                        && connection.map_buffers
                    &&& step.worker.current == worker.current
                    &&& step.worker.listeners.len() == worker.listeners.len()
                    &&& forall|i: int|
                        0 <= i < worker.listeners.len() && i != id
                            ==> #[trigger] step.worker.listeners[i] == worker.listeners[i]
                } else {
                    &&& step.worker == worker
                    &&& step.outcome == Err::<OutcomeView, Error>(
                        Error::ChannelNotSupported(params.channels),
                    )
                }
            }
        }),
{
    let step = handled(worker, streams, PwAction::Prepare(id));
    let before = streams[id as int];
    law_descriptions_by_number(before.params);
    if !(before.state is SetParameters || before.state is Prepare || before.state is Release) {
        assert(step.streams =~= streams);
    }
}

/// Does this queue go when the stream `id` is prepared anew?
pub open spec fn goes(worker: WorkerView, id: int, queue: u64) -> bool {
    &&& listens(worker.listeners[id], queue)
    &&& queue != worker.current
    &&& !another_listens(worker, queue, id)
}

/// When a stream that is connected is prepared anew, the queue that it played from goes, unless it
/// is current or another stream plays from it. The transfers that wait there end, in order. No
/// other queue changes.
pub proof fn law_prepare_leaves_the_old_queue(
    worker: WorkerView,
    streams: Seq<StreamView>,
    id: usize,
)
    requires
        id < streams.len(),
        worker.listeners.len() == streams.len(),
        handled(worker, streams, PwAction::Prepare(id)).outcome matches Ok(outcome)
            && outcome is Connect,
    ensures
        ({
            let step = handled(worker, streams, PwAction::Prepare(id));
            let ended = step.outcome->Ok_0->Connect_ended;
            &&& forall|q: u64| #[trigger]
                step.worker.queues.contains_key(q) <==> worker.queues.contains_key(q)
                    && !goes(worker, id as int, q)
            &&& forall|q: u64| #[trigger]
                step.worker.queues.contains_key(q) ==> step.worker.queues[q] == worker.queues[q]
            &&& match worker.listeners[id as int] {
                Some(old) if goes(worker, id as int, old.queue) => ended == ends(
                    worker.queues[old.queue],
                ),
                _ => ended.len() == 0,
            }
        }),
{
    let step = handled(worker, streams, PwAction::Prepare(id));
    let ended = step.outcome->Ok_0->Connect_ended;
    let i = id as int;
    if let Some(old) = worker.listeners[i] {
        let listener = Listener { queue: worker.current, channels: streams[i].params.channels };
        let listening = WorkerView {
            listeners: worker.listeners.update(i, Some(listener)),
            ..worker
        };
        lemma_still_listened(worker, listening, old.queue, i);
        assert(messages(worker.queues[old.queue]) =~= ends(worker.queues[old.queue]));
        if old.queue == worker.current || another_listens(worker, old.queue, i) {
            assert(listening.in_use(old.queue));
        }
        assert(listens(worker.listeners[i], old.queue));
    }
}

/// A queue is played from by a stream other than `id`, whatever the connection of `id` becomes.
proof fn lemma_still_listened(before: WorkerView, after: WorkerView, queue: u64, id: int)
    requires
        0 <= id < before.listeners.len(),
        after.listeners.len() == before.listeners.len(),
        forall|j: int|
            0 <= j < before.listeners.len() && j != id ==> after.listeners[j]
                == before.listeners[j],
    ensures
        after.played(queue) <==> another_listens(before, queue, id) || listens(
            after.listeners[id],
            queue,
        ),
{
    if after.played(queue) {
        let j = choose|j: int|
            0 <= j < after.listeners.len() && plays(#[trigger] after.listeners[j], queue);
        if j != id {
            assert(listens(before.listeners[j], queue));
        }
    }
    if another_listens(before, queue, id) {
        let j = choose|j: int|
            0 <= j < before.listeners.len() && j != id && listens(
                #[trigger] before.listeners[j],
                queue,
            );
        assert(plays(after.listeners[j], queue));
    }
    if listens(after.listeners[id], queue) {
        assert(plays(after.listeners[id], queue));
    }
}

/// A stream can be released after it was prepared or stopped. One that is connected loses its
/// connection and what waits on it, and is disconnected at the audio server with the request that
/// came. One that is not connected only changes its state. In any other state nothing changes and
/// the request is answered with 0x8001.
pub proof fn law_release_disconnects(
    worker: WorkerView,
    streams: Seq<StreamView>,
    id: usize,
    message: ControlMessage,
)
    requires
        id < streams.len(),
        worker.listeners.len() == streams.len(),
    ensures
        ({
            let step = handled(worker, streams, PwAction::Release(id, message));
            let before = streams[id as int];
            let after = step.streams[id as int];
            if !(before.state is Prepare || before.state is Stop) {
                &&& step.worker == worker
                &&& step.streams == streams
                &&& step.outcome matches Ok(
                    OutcomeView::ReleaseRejected { message: answered, error },
                )
                &&& answered.code == 0x8001
                &&& answered.kind == message.kind
                &&& answered.desc_addr == message.desc_addr
                &&& answered.head_index == message.head_index
                &&& error == stream::Error::InvalidStateTransition(before.state, PCMState::Release)
            } else if worker.listeners[id as int] is None {
                &&& step.worker == worker
                &&& only_state_changes(streams, step.streams, id as int)
                &&& after.state is Release
                &&& step.outcome matches Ok(
                    OutcomeView::ReleaseNotConnected { message: answered },
                )
                &&& answered == message
            } else {
                &&& step.streams.len() == streams.len()
                &&& forall|i: int|
                    0 <= i < streams.len() && i != id ==> #[trigger] step.streams[i] == streams[i]
                &&& after == (StreamView {
                    state: PCMState::Release,
                    buffers: Seq::empty(),
                    ..before
                })
                &&& step.worker.listeners.len() == worker.listeners.len()
                &&& step.worker.listeners[id as int] is None
                &&& forall|i: int|
                    0 <= i < worker.listeners.len() && i != id
                        ==> #[trigger] step.worker.listeners[i] == worker.listeners[i]
                &&& step.outcome matches Ok(
                    OutcomeView::Disconnect { stream_id, message: answered, ended },
                )
                &&& stream_id == id
                &&& answered == message
            }
        }),
{
    let step = handled(worker, streams, PwAction::Release(id, message));
    if !(streams[id as int].state is Prepare || streams[id as int].state is Stop) {
        assert(step.streams =~= streams);
    }
}

/// When a stream is disconnected, another queue becomes current, which is empty and has the next
/// number. Of the queues before it those stay, as they are, that another stream plays from. The
/// transfers that wait on the stream end first; next those in the queue that was current, unless a
/// stream plays from it; last those in the queue that the stream played from, unless another one
/// does.
pub proof fn law_release_renews_the_current_queue(
    worker: WorkerView,
    streams: Seq<StreamView>,
    id: usize,
    message: ControlMessage,
)
    requires
        worker.wf(),
        id < streams.len(),
        worker.listeners.len() == streams.len(),
        worker.current < u64::MAX,
        handled(worker, streams, PwAction::Release(id, message)).outcome matches Ok(outcome)
            && outcome is Disconnect,
    ensures
        ({
            let step = handled(worker, streams, PwAction::Release(id, message));
            let ended = step.outcome->Ok_0->Disconnect_ended;
            let i = id as int;
            let left = worker.listeners[i]->Some_0.queue;
            let of_current = if left != worker.current && !another_listens(
                worker,
                worker.current,
                i,
            ) {
                ends(worker.queues[worker.current])
            } else {
                Seq::empty()
            };
            let of_left = if !another_listens(worker, left, i) {
                ends(worker.queues[left])
            } else {
                Seq::empty()
            };
            &&& step.worker.current == worker.current + 1
            &&& step.worker.queues.contains_key(step.worker.current)
            &&& step.worker.queues[step.worker.current].len() == 0
            &&& forall|q: u64|
                q != step.worker.current ==> (#[trigger] step.worker.queues.contains_key(q)
                    <==> another_listens(worker, q, i))
            &&& forall|q: u64|
                q != step.worker.current && #[trigger] step.worker.queues.contains_key(q)
                    ==> step.worker.queues[q] == worker.queues[q]
            &&& ended == ends(streams[i].buffers) + of_current + of_left
        }),
{
    let i = id as int;
    let step = handled(worker, streams, PwAction::Release(id, message));
    let last = step.worker;
    let left = worker.listeners[i]->Some_0.queue;
    assert(plays(worker.listeners[i], left));
    assert(worker.in_use(left));
    assert(worker.queues.contains_key(left));
    crate::audio_backends::worker::lemma_released_wf(worker, streams, i, message);
    let next = (worker.current + 1) as u64;
    let renewed = WorkerView {
        queues: worker.queues.insert(next, Seq::empty()),
        current: next,
        ..worker
    };
    let replaced = renewed.left(worker.current).0;
    let silent = WorkerView { listeners: replaced.listeners.update(i, None), ..replaced };
    lemma_still_listened(worker, renewed, worker.current, i);
    lemma_still_listened(worker, silent, left, i);
    assert(messages(streams[i].buffers) =~= ends(streams[i].buffers));
    assert(messages(worker.queues[worker.current]) =~= ends(worker.queues[worker.current]));
    assert(messages(worker.queues[left]) =~= ends(worker.queues[left]));
    assert forall|q: u64| q != last.current implies (#[trigger] last.queues.contains_key(q)
        <==> another_listens(worker, q, i)) by {
        lemma_still_listened(worker, last, q, i);
    }
    assert(silent.queues[left] == worker.queues[left] || left == worker.current);
    assert(renewed.queues[worker.current] == worker.queues[worker.current]);
}

/// What waits on a stream moves behind what is in the current queue, in order. Nothing else
/// changes.
pub proof fn law_write_moves_what_waits(worker: WorkerView, streams: Seq<StreamView>, id: usize)
    requires
        id < streams.len(),
        worker.queues.contains_key(worker.current),
    ensures
        ({
            let step = handled(worker, streams, PwAction::Write(id));
            let ready = worker.queues[worker.current];
            let waiting = streams[id as int].buffers;
            let queue = step.worker.queues[worker.current];
            &&& step.outcome matches Ok(outcome) && outcome is Idle
            &&& step.worker.listeners == worker.listeners
            &&& step.worker.current == worker.current
            &&& queue.len() == ready.len() + waiting.len()
            &&& forall|i: int| 0 <= i < ready.len() ==> #[trigger] queue[i] == ready[i]
            &&& forall|i: int|
                0 <= i < waiting.len() ==> #[trigger] queue[ready.len() + i] == waiting[i]
            &&& forall|q: u64| #[trigger]
                step.worker.queues.contains_key(q) <==> worker.queues.contains_key(q)
            &&& forall|q: u64|
                q != worker.current && #[trigger] worker.queues.contains_key(q)
                    ==> step.worker.queues[q] == worker.queues[q]
            &&& step.streams.len() == streams.len()
            &&& forall|i: int|
                0 <= i < streams.len() && i != id ==> #[trigger] step.streams[i] == streams[i]
            &&& step.streams[id as int] == (StreamView {
                buffers: Seq::empty(),
                ..streams[id as int]
            })
        }),
{
}

/// A read does nothing.
pub proof fn law_read_does_nothing(worker: WorkerView, streams: Seq<StreamView>, id: usize)
    ensures
        ({
            let step = handled(worker, streams, PwAction::Read(id));
            &&& step.worker == worker
            &&& step.streams == streams
            &&& step.outcome matches Ok(outcome) && outcome is Idle
        }),
{
}

/// The number of the stream in an action.
pub open spec fn named(action: PwAction) -> usize {
    match action {
        PwAction::SetParameters(id, message, request) => id,
        PwAction::Release(id, message) => id,
        PwAction::Prepare(id) => id,
        PwAction::Start(id) => id,
        PwAction::Stop(id) => id,
        PwAction::Write(id) => id,
        PwAction::Read(id) => id,
    }
}

/// An action can be carried out where its stream exists; but a stream that would be connected has
/// to play or record, and a stream is released only as long as there are numbers for queues. A read
/// can be carried out for any stream.
pub proof fn law_actions_that_can_be_handled(
    worker: WorkerView,
    streams: Seq<StreamView>,
    action: PwAction,
)
    requires
        worker.listeners.len() == streams.len(),
    ensures
        can_handle(worker, streams, action) <==> {
            let stream = streams[named(action) as int];
            &&& action is Read || named(action) < streams.len()
            &&& action is Prepare && (stream.state is SetParameters || stream.state is Prepare
                || stream.state is Release) && 1 <= stream.params.channels <= 6 ==> stream.direction
                == 0 || stream.direction == 1
            &&& action is Release ==> worker.current < 0xffff_ffff_ffff_ffff
        },
{
    law_descriptions_by_number(streams[named(action) as int].params);
}

} // verus!
