//! What holds of the worker whatever it is asked to do.
pub mod actions;
pub mod formats;
pub mod playback;

use super::pipewire::PwAction;
use super::worker::{
    can_handle, carried, drainable, drained, fetched, fetches, handled, lemma_prepared_wf,
    lemma_released_wf, lemma_same_in_use, messages, plays, requested, stream_of, Listener,
    OutcomeView, WorkerView,
};
use crate::completion::{end_writes, release_writes};
use crate::error::Error;
use crate::message::{ControlMessage, IOMessage};
use crate::stream::{after, has_bit, step, BufferView, PCMState, StreamView};
use crate::trace::stored;
use crate::virtio_sound::{
    VIRTIO_SND_D_INPUT, VIRTIO_SND_D_OUTPUT, VIRTIO_SND_S_BAD_MSG, VIRTIO_SND_S_OK,
};
use vstd::multiset::Multiset;
use vstd::prelude::*;

verus! {

/// A command that is refused leaves the stream as it was. A running stream can only be stopped. A
/// stream starts, and is released, only after it was prepared or stopped, and takes parameters
/// only where it could be prepared.
pub proof fn law_life_cycle(state: PCMState, next: PCMState)
    ensures
        step(state, next) is Err ==> after(state, next) == state,
        step(state, next) is Ok ==> after(state, next) == next,
        state is Start ==> (step(state, next) is Ok <==> next is Stop),
        next is Stop ==> (step(state, next) is Ok <==> state is Start),
        next is Start || next is Release ==> (step(state, next) is Ok <==> state is Prepare
            || state is Stop),
        step(state, PCMState::SetParameters) is Ok <==> step(state, PCMState::Prepare) is Ok,
{
}

/// A released stream is not started, stopped or released again before it is prepared.
pub proof fn law_released_stream_has_to_be_prepared(first: PCMState, second: PCMState)
    requires
        !(first is Prepare),
        !(second is Prepare),
    ensures
        ({
            let state = after(PCMState::Release, first);
            &&& state is Release || state is SetParameters
            &&& second is Start || second is Stop || second is Release ==> step(
                state,
                second,
            ) is Err
        }),
{
}

/// An action changes no stream but its own, and no connection but that of its stream. What a
/// stream supports, its direction and its number never change.
pub proof fn law_other_streams_are_untouched(
    worker: WorkerView,
    streams: Seq<StreamView>,
    action: PwAction,
    i: int,
)
    requires
        worker.wf(),
        can_handle(worker, streams, action),
        0 <= i < streams.len(),
    ensures
        ({
            let step = handled(worker, streams, action);
            &&& step.streams.len() == streams.len()
            &&& step.worker.listeners.len() == worker.listeners.len()
            &&& i != stream_of(action) ==> step.streams[i] == streams[i]
                && step.worker.listeners[i] == worker.listeners[i]
            &&& step.streams[i] == (StreamView {
                params: step.streams[i].params,
                state: step.streams[i].state,
                buffers: step.streams[i].buffers,
                ..streams[i]
            })
        }),
{
}

/// Parameters change only by a request to set them that the stream allows and supports. Then they
/// are those of the request, which is found to be in order; any other such request is found not
/// to be.
pub proof fn law_parameters_change_on_request_only(
    worker: WorkerView,
    streams: Seq<StreamView>,
    action: PwAction,
    i: int,
)
    requires
        worker.wf(),
        can_handle(worker, streams, action),
        0 <= i < streams.len(),
    ensures
        ({
            let step = handled(worker, streams, action);
            match action {
                PwAction::SetParameters(id, message, request) if id == i => {
                    let taken = streams[i].state.allows(PCMState::SetParameters) && has_bit(
                        streams[i].formats,
                        request.format,
                    ) && has_bit(streams[i].rates, request.rate);
                    &&& step.streams[i].params == if taken {
                        requested(request)
                    } else {
                        streams[i].params
                    }
                    &&& step.outcome matches Ok(OutcomeView::ParametersSet { code, .. })
                    &&& code == VIRTIO_SND_S_OK <==> taken
                },
                _ => step.streams[i].params == streams[i].params,
            }
        }),
{
}

/// The request that is to be answered after an action.
pub open spec fn to_be_answered(outcome: OutcomeView) -> Option<ControlMessage> {
    match outcome {
        OutcomeView::Disconnect { message, .. } => Some(message),
        OutcomeView::ReleaseRejected { message, .. } => Some(message),
        OutcomeView::ReleaseNotConnected { message } => Some(message),
        OutcomeView::ParametersSet { message, .. } => Some(message),
        _ => None,
    }
}

/// A request that comes with an action is answered after it, with the status that it came with;
/// but a release that the stream refuses is answered as a bad message. An action without a
/// request leaves nothing to be answered.
pub proof fn law_requests_are_answered(
    worker: WorkerView,
    streams: Seq<StreamView>,
    action: PwAction,
)
    requires
        worker.wf(),
        can_handle(worker, streams, action),
    ensures
        ({
            let outcome = handled(worker, streams, action).outcome;
            match carried(action) {
                Some(message) => {
                    let refused = action is Release && !streams[stream_of(action)].state.allows(
                        PCMState::Release,
                    );
                    &&& outcome is Ok
                    &&& to_be_answered(outcome->Ok_0) == Some(
                        if refused {
                            ControlMessage { code: VIRTIO_SND_S_BAD_MSG, ..message }
                        } else {
                            message
                        },
                    )
                },
                None => outcome matches Ok(o) ==> to_be_answered(o) is None,
            }
        }),
{
}

/// The worker ends only where a stream with a number of channels that is not supported is to be
/// prepared.
pub proof fn law_worker_ends_on_unsupported_channels_only(
    worker: WorkerView,
    streams: Seq<StreamView>,
    action: PwAction,
)
    requires
        worker.wf(),
        can_handle(worker, streams, action),
    ensures
        handled(worker, streams, action).outcome matches Err(error) ==> {
            let stream = streams[stream_of(action)];
            &&& action is Prepare
            &&& stream.state.allows(PCMState::Prepare)
            &&& !(1 <= stream.params.channels <= 6)
            &&& error == Error::ChannelNotSupported(stream.params.channels)
        },
{
}

/// Is nothing of these buffers played yet?
pub open spec fn unplayed(buffers: Seq<BufferView>) -> bool {
    forall|i: int| 0 <= i < buffers.len() ==> (#[trigger] buffers[i]).pos == 0
}

/// Is nothing of these buffers played yet, but for the first one?
pub open spec fn unplayed_but_first(buffers: Seq<BufferView>) -> bool {
    forall|i: int| 1 <= i < buffers.len() ==> (#[trigger] buffers[i]).pos == 0
}

/// Does a stream in this state need a connection?
pub open spec fn needs_connection(state: PCMState) -> bool {
    state is Prepare || state is Start || state is Stop
}

/// What holds of the worker and the streams at all times: every stream that was prepared is
/// connected until it is released, what waits on a stream is not played yet, and neither is what
/// waits in a ready queue, but for the first buffer.
pub open spec fn consistent(worker: WorkerView, streams: Seq<StreamView>) -> bool {
    &&& worker.wf()
    &&& worker.listeners.len() == streams.len()
    &&& forall|i: int|
        0 <= i < streams.len() ==> {
            &&& needs_connection((#[trigger] streams[i]).state) ==> worker.listeners[i] is Some
            &&& unplayed(streams[i].buffers)
        }
    &&& forall|q: u64| #[trigger]
        worker.queues.contains_key(q) ==> unplayed_but_first(worker.queues[q])
}

/// A worker that has done nothing yet is consistent with streams that have done nothing yet.
pub proof fn law_new_worker_is_consistent(worker: WorkerView, streams: Seq<StreamView>)
    requires
        worker.wf(),
        worker.listeners.len() == streams.len(),
        worker.queues == map![0u64 => Seq::<BufferView>::empty()],
        forall|i: int|
            0 <= i < streams.len() ==> (#[trigger] streams[i]).state is SetParameters
                && streams[i].buffers.len() == 0,
    ensures
        consistent(worker, streams),
{
}

/// Exactly the queues in use are kept, whatever the worker is asked to do.
pub proof fn law_queues_in_use_are_kept(
    worker: WorkerView,
    streams: Seq<StreamView>,
    action: PwAction,
)
    requires
        worker.wf(),
        can_handle(worker, streams, action),
    ensures
        handled(worker, streams, action).worker.wf(),
{
    match action {
        PwAction::Write(id) => {
            lemma_same_in_use(worker, handled(worker, streams, action).worker);
        },
        PwAction::Prepare(id) => {
            lemma_prepared_wf(worker, streams, id as int);
        },
        PwAction::Release(id, message) => {
            lemma_released_wf(worker, streams, id as int, message);
        },
        _ => {},
    }
}

/// A consistent worker stays so for as long as it does not end.
pub proof fn law_worker_stays_consistent(
    worker: WorkerView,
    streams: Seq<StreamView>,
    action: PwAction,
)
    requires
        consistent(worker, streams),
        can_handle(worker, streams, action),
        handled(worker, streams, action).outcome is Ok,
    ensures
        ({
            let step = handled(worker, streams, action);
            consistent(step.worker, step.streams)
        }),
{
    let step = handled(worker, streams, action);
    law_queues_in_use_are_kept(worker, streams, action);
    assert forall|i: int| 0 <= i < streams.len() implies {
        &&& needs_connection((#[trigger] step.streams[i]).state) ==> step.worker.listeners[
            i
        ] is Some
        &&& unplayed(step.streams[i].buffers)
    } by {
        assert(unplayed(streams[i].buffers));
    }
    assert forall|q: u64| #[trigger] step.worker.queues.contains_key(q) implies unplayed_but_first(
        step.worker.queues[q],
    ) by {
        if worker.queues.contains_key(q) {
            assert(unplayed_but_first(worker.queues[q]));
        }
    }
}

/// A stream that takes the command to start, to stop or to be released is connected.
pub proof fn law_commanded_stream_is_connected(
    worker: WorkerView,
    streams: Seq<StreamView>,
    action: PwAction,
)
    requires
        consistent(worker, streams),
        can_handle(worker, streams, action),
    ensures
        handled(worker, streams, action).outcome matches Ok(outcome) ==> !(
        outcome is NotConnected) && !(outcome is ReleaseNotConnected),
{
}

/// The messages of buffers, without their order.
pub open spec fn bag(buffers: Seq<BufferView>) -> Multiset<IOMessage> {
    messages(buffers).to_multiset()
}

/// The messages of the buffers that wait on the first `count` streams.
pub open spec fn on_streams(streams: Seq<StreamView>, count: nat) -> Multiset<IOMessage>
    decreases count,
{
    if count == 0 {
        Multiset::empty()
    } else {
        on_streams(streams, (count - 1) as nat).add(bag(streams[count - 1].buffers))
    }
}

/// The messages of the buffers in the queue with this number, if it is there.
pub open spec fn in_queue(queues: Map<u64, Seq<BufferView>>, queue: u64) -> Multiset<IOMessage> {
    if queues.contains_key(queue) {
        bag(queues[queue])
    } else {
        Multiset::empty()
    }
}

/// The messages of the buffers in the queues with the numbers below `count`.
pub open spec fn in_queues(queues: Map<u64, Seq<BufferView>>, count: nat) -> Multiset<IOMessage>
    decreases count,
{
    if count == 0 {
        Multiset::empty()
    } else {
        in_queues(queues, (count - 1) as nat).add(in_queue(queues, (count - 1) as u64))
    }
}

/// The transfers that are yet to be ended: they wait on a stream or in a ready queue.
pub open spec fn in_hand(worker: WorkerView, streams: Seq<StreamView>) -> Multiset<IOMessage> {
    on_streams(streams, streams.len()).add(in_queues(worker.queues, (worker.current + 1) as nat))
}

/// The transfers to be ended after an action.
pub open spec fn to_be_ended(outcome: Result<OutcomeView, Error>) -> Seq<IOMessage> {
    match outcome {
        Ok(OutcomeView::Connect { ended, .. }) => ended,
        Ok(OutcomeView::Disconnect { ended, .. }) => ended,
        _ => Seq::empty(),
    }
}

/// How often a message is on streams of which one was replaced.
proof fn lemma_on_streams_update(
    streams: Seq<StreamView>,
    count: nat,
    id: int,
    stream: StreamView,
    m: IOMessage,
)
    requires
        count <= streams.len(),
        0 <= id < streams.len(),
    ensures
        on_streams(streams.update(id, stream), count).count(m) == on_streams(streams, count).count(
            m,
        ) + if id < count {
            bag(stream.buffers).count(m) - bag(streams[id].buffers).count(m)
        } else {
            0
        },
    decreases count,
{
    if count > 0 {
        lemma_on_streams_update(streams, (count - 1) as nat, id, stream, m);
    }
}

/// How often a message is in queues of which one was replaced.
pub proof fn lemma_in_queues_insert(
    queues: Map<u64, Seq<BufferView>>,
    count: nat,
    queue: u64,
    buffers: Seq<BufferView>,
    m: IOMessage,
)
    requires
        count <= u64::MAX + 1,
    ensures
        in_queues(queues.insert(queue, buffers), count).count(m) == in_queues(queues, count).count(
            m,
        ) + if queue < count {
            bag(buffers).count(m) - in_queue(queues, queue).count(m)
        } else {
            0
        },
    decreases count,
{
    if count > 0 {
        lemma_in_queues_insert(queues, (count - 1) as nat, queue, buffers, m);
    }
}

/// How often a message is in queues of which one was dropped.
proof fn lemma_in_queues_remove(
    queues: Map<u64, Seq<BufferView>>,
    count: nat,
    queue: u64,
    m: IOMessage,
)
    requires
        count <= u64::MAX + 1,
    ensures
        in_queues(queues.remove(queue), count).count(m) == in_queues(queues, count).count(m)
            - if queue < count {
            in_queue(queues, queue).count(m) as int
        } else {
            0
        },
    decreases count,
{
    if count > 0 {
        lemma_in_queues_remove(queues, (count - 1) as nat, queue, m);
    }
}

/// There are no messages without buffers.
pub proof fn lemma_empty_bag()
    ensures
        bag(Seq::empty()) == Multiset::<IOMessage>::empty(),
        Seq::<IOMessage>::empty().to_multiset() == Multiset::<IOMessage>::empty(),
{
    Seq::<IOMessage>::empty().to_multiset_ensures();
    assert(messages(Seq::empty()) =~= Seq::<IOMessage>::empty());
}

/// The transfers that leaving a queue ends are those that it held.
pub proof fn lemma_left_keeps_transfers(worker: WorkerView, queue: u64, m: IOMessage)
    requires
        worker.queues.contains_key(queue),
        queue <= worker.current,
    ensures
        ({
            let (left, ended) = worker.left(queue);
            let count = (worker.current + 1) as nat;
            &&& left.current == worker.current
            &&& in_queues(worker.queues, count).count(m) == in_queues(left.queues, count).count(m)
                + ended.to_multiset().count(m)
        }),
{
    lemma_in_queues_remove(worker.queues, (worker.current + 1) as nat, queue, m);
    lemma_empty_bag();
}

/// The transfers that are in hand before and after a stream is written, prepared or released.
proof fn lemma_transfers_are_kept_or_ended(
    worker: WorkerView,
    streams: Seq<StreamView>,
    action: PwAction,
    m: IOMessage,
)
    requires
        worker.wf(),
        can_handle(worker, streams, action),
        action is Write || action is Prepare || action is Release,
    ensures
        ({
            let step = handled(worker, streams, action);
            let id = stream_of(action);
            in_queues(worker.queues, (worker.current + 1) as nat).count(m) + bag(
                streams[id].buffers,
            ).count(m) == in_queues(step.worker.queues, (step.worker.current + 1) as nat).count(m)
                + bag(step.streams[id].buffers).count(m) + to_be_ended(
                step.outcome,
            ).to_multiset().count(m)
        }),
{
    let step = handled(worker, streams, action);
    let count = (worker.current + 1) as nat;
    let id = stream_of(action);
    lemma_empty_bag();
    assert(worker.in_use(worker.current));
    assert(worker.queues.contains_key(worker.current));
    if let Some(old) = worker.listeners[id] {
        assert(plays(worker.listeners[id], old.queue));
        assert(worker.in_use(old.queue));
        assert(worker.queues.contains_key(old.queue));
    }
    match action {
        PwAction::Write(_) => {
            let ready = worker.queues[worker.current];
            let waiting = streams[id].buffers;
            lemma_in_queues_insert(worker.queues, count, worker.current, ready + waiting, m);
            assert(messages(ready + waiting) =~= messages(ready) + messages(waiting));
            vstd::seq_lib::lemma_multiset_commutative(messages(ready), messages(waiting));
        },
        PwAction::Prepare(_) => {
            if step.worker != worker {
                if let Some(old) = worker.listeners[id] {
                    let listener = Listener {
                        queue: worker.current,
                        channels: streams[id].params.channels,
                    };
                    let listening = WorkerView {
                        listeners: worker.listeners.update(id, Some(listener)),
                        ..worker
                    };
                    lemma_left_keeps_transfers(listening, old.queue, m);
                }
            }
        },
        _ => {
            if let Ok(OutcomeView::Disconnect { ended, .. }) = step.outcome {
                let listener = worker.listeners[id]->0;
                let next = (worker.current + 1) as u64;
                let renewed = WorkerView {
                    queues: worker.queues.insert(next, Seq::empty()),
                    current: next,
                    ..worker
                };
                lemma_in_queues_insert(worker.queues, count, next, Seq::empty(), m);
                assert(in_queues(renewed.queues, count + 1).count(m) == in_queues(
                    worker.queues,
                    count,
                ).count(m));
                let (replaced, ended1) = renewed.left(worker.current);
                lemma_left_keeps_transfers(renewed, worker.current, m);
                let silent = WorkerView {
                    listeners: replaced.listeners.update(id, None),
                    ..replaced
                };
                let (left, ended2) = silent.left(listener.queue);
                assert(plays(renewed.listeners[id], listener.queue));
                assert(renewed.in_use(listener.queue));
                lemma_left_keeps_transfers(silent, listener.queue, m);
                let first = messages(streams[id].buffers);
                vstd::seq_lib::lemma_multiset_commutative(first, ended1);
                vstd::seq_lib::lemma_multiset_commutative(first + ended1, ended2);
                assert(ended == first + ended1 + ended2);
            }
        },
    }
}

/// No transfer gets lost and none is ended twice: what is in hand before an action is in hand
/// after it, or is to be ended.
pub proof fn law_transfers_are_kept_or_ended(
    worker: WorkerView,
    streams: Seq<StreamView>,
    action: PwAction,
)
    requires
        worker.wf(),
        can_handle(worker, streams, action),
    ensures
        ({
            let step = handled(worker, streams, action);
            in_hand(worker, streams) == in_hand(step.worker, step.streams).add(
                to_be_ended(step.outcome).to_multiset(),
            )
        }),
{
    let step = handled(worker, streams, action);
    let id = stream_of(action);
    lemma_empty_bag();
    let all = in_hand(step.worker, step.streams).add(to_be_ended(step.outcome).to_multiset());
    assert forall|m: IOMessage| in_hand(worker, streams).count(m) == all.count(m) by {
        if !(action is Read) {
            lemma_on_streams_update(streams, streams.len(), id, step.streams[id], m);
            assert(step.streams =~= streams.update(id, step.streams[id]));
        }
        if action is Write || action is Prepare || action is Release {
            lemma_transfers_are_kept_or_ended(worker, streams, action, m);
        }
    }
    assert(in_hand(worker, streams) =~= all);
}

/// The release of the only connected stream flushes it: no sound waits on it or in a ready queue
/// any more, and every transfer that waited there is to be ended. The answers to the transfers are
/// written first, and the answer to the release, with the status that it came with, last.
pub proof fn law_release_flushes_the_stream(
    worker: WorkerView,
    streams: Seq<StreamView>,
    id: usize,
    message: ControlMessage,
)
    requires
        worker.wf(),
        can_handle(worker, streams, PwAction::Release(id, message)),
        streams[id as int].state.allows(PCMState::Release),
        worker.listeners[id as int] is Some,
        forall|i: int|
            0 <= i < worker.listeners.len() && i != id ==> (#[trigger] worker.listeners[i]) is None,
    ensures
        ({
            let step = handled(worker, streams, PwAction::Release(id, message));
            let waiting = in_queues(worker.queues, (worker.current + 1) as nat).add(
                bag(streams[id as int].buffers),
            );
            &&& step.streams[id as int].buffers.len() == 0
            &&& step.worker.queues == map![step.worker.current => Seq::<BufferView>::empty()]
            &&& to_be_ended(step.outcome).to_multiset() == waiting
            &&& step.outcome matches Ok(OutcomeView::Disconnect { stream_id, message: m, ended })
            &&& stream_id == id
            &&& m == message
            &&& forall|mapped: Set<u64>| #[trigger]
                release_writes(ended, m, mapped) == end_writes(ended, mapped) + stored(
                    mapped,
                    message.desc_addr,
                    message.reply(),
                )
            &&& step.streams[id as int].params == streams[id as int].params
        }),
{
    let action = PwAction::Release(id, message);
    let step = handled(worker, streams, action);
    let last = step.worker;
    let empty = map![last.current => Seq::<BufferView>::empty()];
    law_queues_in_use_are_kept(worker, streams, action);
    assert forall|q: u64| #[trigger] last.queues.contains_key(q) implies q == last.current by {
        if last.played(q) {
            let i = choose|i: int|
                0 <= i < last.listeners.len() && plays(#[trigger] last.listeners[i], q);
            assert(i == id || worker.listeners[i] is None);
        }
    }
    assert(last.in_use(last.current));
    assert(last.queues.contains_key(last.current));
    assert(last.queues =~= empty);
    let waiting = in_queues(worker.queues, (worker.current + 1) as nat).add(
        bag(streams[id as int].buffers),
    );
    let ended = to_be_ended(step.outcome).to_multiset();
    lemma_empty_bag();
    assert forall|m: IOMessage| ended.count(m) == waiting.count(m) by {
        lemma_transfers_are_kept_or_ended(worker, streams, action, m);
        lemma_empty_queues(last.current, (last.current + 1) as nat);
    }
    assert(ended =~= waiting);
}

/// There are no messages in an empty queue.
pub proof fn lemma_empty_queues(queue: u64, count: nat)
    ensures
        in_queues(map![queue => Seq::<BufferView>::empty()], count) == Multiset::<IOMessage>::empty(),
    decreases count,
{
    lemma_empty_bag();
    if count > 0 {
        lemma_empty_queues(queue, (count - 1) as nat);
        assert(in_queues(map![queue => Seq::<BufferView>::empty()], count) =~= Multiset::empty());
    }
}

/// The end of the worker loses no transfer: what was in hand waits on a stream, or is to be ended.
pub proof fn law_end_of_the_worker_keeps_transfers(
    before: WorkerView,
    after: WorkerView,
    streams: Seq<StreamView>,
    ended: Seq<IOMessage>,
)
    requires
        WorkerView::ended_with(before, after, ended),
    ensures
        in_hand(before, streams) == in_hand(after, streams).add(ended.to_multiset()),
        in_hand(after, streams) == on_streams(streams, streams.len()),
{
    lemma_empty_queues(after.current, (after.current + 1) as nat);
    assert(in_hand(after, streams) =~= on_streams(streams, streams.len()));
    assert(in_hand(before, streams) =~= in_hand(after, streams).add(ended.to_multiset()));
}

/// The worker and the streams after a sequence of actions, and what each of them led to. The
/// worker ends with the first error.
#[verifier::ext_equal]
pub struct PwRun {
    pub worker: WorkerView,
    pub streams: Seq<StreamView>,
    pub outcomes: Seq<OutcomeView>,
    pub error: Option<Error>,
}

/// Carries out actions, in order.
pub open spec fn ran(
    worker: WorkerView,
    streams: Seq<StreamView>,
    actions: Seq<PwAction>,
) -> PwRun
    decreases actions.len(),
{
    if actions.len() == 0 {
        PwRun { worker, streams, outcomes: Seq::empty(), error: None }
    } else {
        let before = ran(worker, streams, actions.drop_last());
        if before.error is Some {
            before
        } else {
            let step = handled(before.worker, before.streams, actions.last());
            match step.outcome {
                Ok(outcome) => PwRun {
                    worker: step.worker,
                    streams: step.streams,
                    outcomes: before.outcomes.push(outcome),
                    error: None,
                },
                Err(error) => PwRun {
                    worker: step.worker,
                    streams: step.streams,
                    outcomes: before.outcomes,
                    error: Some(error),
                },
            }
        }
    }
}

/// Can a worker be asked for these actions? Their streams exist, every stream has a known
/// direction, and there are numbers left for the queues that releases need.
pub open spec fn can_run(
    worker: WorkerView,
    streams: Seq<StreamView>,
    actions: Seq<PwAction>,
) -> bool {
    &&& worker.wf()
    &&& worker.listeners.len() == streams.len()
    &&& worker.current + actions.len() <= u64::MAX
    &&& forall|i: int|
        0 <= i < streams.len() ==> (#[trigger] streams[i]).direction == VIRTIO_SND_D_OUTPUT
            || streams[i].direction == VIRTIO_SND_D_INPUT
    &&& forall|i: int|
        0 <= i < actions.len() ==> actions[i] is Read || stream_of(#[trigger] actions[i])
            < streams.len()
}

/// However far a worker has come with its actions, it can carry out the next one.
proof fn lemma_ran_so_far(worker: WorkerView, streams: Seq<StreamView>, actions: Seq<PwAction>)
    requires
        can_run(worker, streams, actions),
    ensures
        ({
            let run = ran(worker, streams, actions);
            &&& run.worker.wf()
            &&& run.worker.listeners.len() == streams.len()
            &&& run.streams.len() == streams.len()
            &&& run.worker.current <= worker.current + actions.len()
            &&& forall|i: int|
                0 <= i < streams.len() ==> (#[trigger] run.streams[i]).direction
                    == streams[i].direction
        }),
    decreases actions.len(),
{
    if actions.len() > 0 {
        let fewer = actions.drop_last();
        lemma_ran_so_far(worker, streams, fewer);
        let before = ran(worker, streams, fewer);
        if before.error is None {
            let last = actions.last();
            assert(last is Read || stream_of(last) < streams.len()) by {
                assert(actions[actions.len() - 1] == last);
            }
            assert(can_handle(before.worker, before.streams, last));
            law_queues_in_use_are_kept(before.worker, before.streams, last);
        }
    }
}

/// Is this what the action with this position leads to after those before it?
pub open spec fn leads_to(
    worker: WorkerView,
    streams: Seq<StreamView>,
    actions: Seq<PwAction>,
    i: int,
    outcome: OutcomeView,
) -> bool {
    let before = ran(worker, streams, actions.take(i));
    &&& before.error is None
    &&& can_handle(before.worker, before.streams, actions[i])
    &&& handled(before.worker, before.streams, actions[i]).outcome == Ok::<OutcomeView, Error>(
        outcome,
    )
}

/// Over any sequence of actions, the worker ends only where a stream with a number of channels that
/// is not supported is to be prepared, with the error that says so. Until then every action is
/// carried out in order, whether or not a stream refused an earlier one.
pub proof fn law_worker_goes_on(
    worker: WorkerView,
    streams: Seq<StreamView>,
    actions: Seq<PwAction>,
)
    requires
        can_run(worker, streams, actions),
    ensures
        ({
            let run = ran(worker, streams, actions);
            &&& match run.error {
                None => run.outcomes.len() == actions.len(),
                Some(error) => {
                    &&& run.outcomes.len() < actions.len()
                    &&& actions[run.outcomes.len() as int] is Prepare
                    &&& error matches Error::ChannelNotSupported(channels)
                    &&& !(1 <= channels <= 6)
                },
            }
            &&& forall|i: int|
                0 <= i < run.outcomes.len() ==> #[trigger] leads_to(
                    worker,
                    streams,
                    actions,
                    i,
                    run.outcomes[i],
                )
        }),
    decreases actions.len(),
{
    let run = ran(worker, streams, actions);
    if actions.len() > 0 {
        let fewer = actions.drop_last();
        let before = ran(worker, streams, fewer);
        law_worker_goes_on(worker, streams, fewer);
        lemma_ran_so_far(worker, streams, fewer);
        let last = actions.last();
        assert(last is Read || stream_of(last) < streams.len()) by {
            assert(actions[actions.len() - 1] == last);
        }
        assert(can_handle(before.worker, before.streams, last));
        assert(fewer =~= actions.take(actions.len() - 1));
        assert(actions[actions.len() - 1] == last);
        if before.error is Some {
            let end = before.outcomes.len() as int;
            assert(fewer[end] == actions[end]);
        } else {
            law_worker_ends_on_unsupported_channels_only(before.worker, before.streams, last);
        }
        assert forall|i: int| 0 <= i < run.outcomes.len() implies #[trigger] leads_to(
            worker,
            streams,
            actions,
            i,
            run.outcomes[i],
        ) by {
            if i < before.outcomes.len() {
                assert(leads_to(worker, streams, fewer, i, before.outcomes[i]));
                assert(fewer.take(i) =~= actions.take(i));
            }
        }
    }
}

/// The length of pieces, one after the other.
pub open spec fn length_of(pieces: Seq<(u64, nat)>) -> nat
    decreases pieces.len(),
{
    if pieces.len() == 0 {
        0
    } else {
        pieces[0].1 + length_of(pieces.drop_first())
    }
}

/// The length of the data of buffers, one after the other.
pub open spec fn data_in(buffers: Seq<BufferView>) -> nat
    decreases buffers.len(),
{
    if buffers.len() == 0 {
        0
    } else {
        buffers[0].message.data_len as nat + data_in(buffers.drop_first())
    }
}

/// What is supplied is as long as was asked for; or there was not enough, and then it is all that
/// there was and nothing is left.
pub proof fn law_drain_supplies_what_there_is(buffers: Seq<BufferView>, count: nat)
    ensures
        ({
            let drain = drained(buffers, count);
            &&& drain.full <==> data_in(buffers) >= count
            &&& drain.full ==> length_of(drain.pieces) == count
            &&& !drain.full ==> length_of(drain.pieces) == data_in(buffers) && drain.rest.len() == 0
        }),
    decreases buffers.len(),
{
    if count > 0 && buffers.len() > 0 {
        let message = buffers[0].message;
        let drain = drained(buffers, count);
        if message.data_len <= count {
            law_drain_supplies_what_there_is(
                buffers.drop_first(),
                (count - message.data_len) as nat,
            );
            let more = drained(buffers.drop_first(), (count - message.data_len) as nat);
            assert(drain.pieces.drop_first() =~= more.pieces);
        } else {
            assert(drain.pieces.drop_first() =~= Seq::<(u64, nat)>::empty());
            assert(length_of(Seq::<(u64, nat)>::empty()) == 0);
        }
    }
}

/// Sound data is supplied in the order in which it came. Every transfer that is taken as a whole
/// is ended, and the rest stays in the queue.
pub proof fn law_drain_keeps_order(buffers: Seq<BufferView>, count: nat)
    ensures
        ({
            let drain = drained(buffers, count);
            &&& messages(buffers) == drain.ended + messages(drain.rest)
            &&& drain.ended.len() <= drain.pieces.len() <= drain.ended.len() + 1
            &&& drain.pieces.len() <= buffers.len()
            &&& forall|i: int|
                0 <= i < drain.pieces.len() ==> (#[trigger] drain.pieces[i]).0
                    == buffers[i].message.data_addr && drain.pieces[i].1
                    <= buffers[i].message.data_len
        }),
    decreases buffers.len(),
{
    let drain = drained(buffers, count);
    if count > 0 && buffers.len() > 0 {
        let message = buffers[0].message;
        if message.data_len <= count {
            let rest = (count - message.data_len) as nat;
            law_drain_keeps_order(buffers.drop_first(), rest);
            let more = drained(buffers.drop_first(), rest);
            assert(messages(buffers) =~= seq![message] + messages(buffers.drop_first()));
            assert(messages(buffers) =~= drain.ended + messages(drain.rest));
            assert forall|i: int| 0 <= i < drain.pieces.len() implies (#[trigger] drain.pieces[i]).0
                == buffers[i].message.data_addr && drain.pieces[i].1
                <= buffers[i].message.data_len by {
                if i > 0 {
                    assert(drain.pieces[i] == more.pieces[i - 1]);
                    assert(buffers[i] == buffers.drop_first()[i - 1]);
                }
            }
        } else {
            assert(messages(buffers) =~= drain.ended + messages(drain.rest));
        }
    } else {
        assert(messages(buffers) =~= drain.ended + messages(drain.rest));
    }
}

/// As many bytes are fetched as the pieces are long.
pub proof fn law_fetched_length(reads: Seq<(u64, Seq<u8>)>, pieces: Seq<(u64, nat)>)
    requires
        fetches(reads, pieces),
    ensures
        fetched(reads).len() == length_of(pieces),
    decreases reads.len(),
{
    if reads.len() > 0 {
        assert(fetches(reads.drop_last(), pieces.drop_last()));
        law_fetched_length(reads.drop_last(), pieces.drop_last());
        lemma_length_of_last(pieces);
    }
}

/// The length of pieces is that of all but the last, and that of the last.
proof fn lemma_length_of_last(pieces: Seq<(u64, nat)>)
    requires
        pieces.len() > 0,
    ensures
        length_of(pieces) == length_of(pieces.drop_last()) + pieces.last().1,
    decreases pieces.len(),
{
    if pieces.len() > 1 {
        lemma_length_of_last(pieces.drop_first());
        assert(pieces.drop_first().drop_last() =~= pieces.drop_last().drop_first());
    } else {
        assert(pieces.drop_first() =~= Seq::<(u64, nat)>::empty());
        assert(pieces.drop_last() =~= Seq::<(u64, nat)>::empty());
    }
}

/// A queue that nothing was played from can supply any number of bytes, and what is left of it is
/// not played yet, but for the first buffer.
pub proof fn law_unplayed_queue_can_be_drained(buffers: Seq<BufferView>, count: nat)
    requires
        unplayed(buffers),
    ensures
        drainable(buffers, count),
        unplayed_but_first(drained(buffers, count).rest),
    decreases buffers.len(),
{
    if count > 0 && buffers.len() > 0 && buffers[0].message.data_len <= count {
        assert(unplayed(buffers.drop_first())) by {
            assert forall|i: int| 0 <= i < buffers.drop_first().len() implies (
            #[trigger] buffers.drop_first()[i]).pos == 0 by {
                assert(buffers.drop_first()[i] == buffers[i + 1]);
            }
        }
        law_unplayed_queue_can_be_drained(
            buffers.drop_first(),
            (count - buffers[0].message.data_len) as nat,
        );
    }
}

/// A consistent worker stays so when a stream plays a period, and every transfer is still in hand
/// or is to be ended.
pub proof fn law_playing_keeps_transfers(
    worker: WorkerView,
    streams: Seq<StreamView>,
    queue: u64,
    count: nat,
)
    requires
        consistent(worker, streams),
        worker.in_use(queue),
        drainable(worker.queues[queue], count),
    ensures
        ({
            let drain = drained(worker.queues[queue], count);
            let played = WorkerView { queues: worker.queues.insert(queue, drain.rest), ..worker };
            &&& consistent(played, streams)
            &&& in_hand(worker, streams) == in_hand(played, streams).add(drain.ended.to_multiset())
        }),
{
    let drain = drained(worker.queues[queue], count);
    let played = WorkerView { queues: worker.queues.insert(queue, drain.rest), ..worker };
    assert(worker.queues.contains_key(queue));
    let buffers = worker.queues[queue];
    assert(unplayed_but_first(buffers));
    if count == 0 || buffers.len() == 0 {
        assert(drain.rest == buffers);
    } else {
        assert(unplayed(buffers));
        law_unplayed_queue_can_be_drained(buffers, count);
    }
    lemma_same_in_use(worker, played);
    law_drain_keeps_order(buffers, count);
    vstd::seq_lib::lemma_multiset_commutative(drain.ended, messages(drain.rest));
    let all = in_hand(played, streams).add(drain.ended.to_multiset());
    assert forall|m: IOMessage| in_hand(worker, streams).count(m) == all.count(m) by {
        lemma_in_queues_insert(
            worker.queues,
            (worker.current + 1) as nat,
            queue,
            drain.rest,
            m,
        );
    }
    assert(in_hand(worker, streams) =~= all);
}

} // verus!
