//! What the worker of the PipeWire backend decides.
//!
//! The worker takes actions from its channel one by one. For each it updates the streams and its
//! own state, and says in a [`PwOutcome`] what is to be done at the audio server. The server in
//! turn asks for sound data period by period, which [`PwWorker::fill_period`] supplies.
//!
//! Sound data waits in ready queues. There is one current queue, which buffers are added to. A
//! stream plays from the queue that was current when it was prepared. When a stream is released
//! an empty queue becomes the current one; the queues that no stream plays from any more are
//! dropped, which ends the transfers in them.
use super::format::{
    connection, describe, described, spec_connection, AudioInfo, AudioInfoView, Connection,
};
use super::laws::{
    in_queues, lemma_empty_bag, lemma_empty_queues, lemma_in_queues_insert,
    lemma_left_keeps_transfers,
};
use super::pipewire::PwAction;
use crate::error::Error;
use crate::guest_memory::{fits, guest, read_mapped};
use crate::message::{ControlMessage, IOMessage};
use crate::stream::{
    self, after, has_bit, step, stream_views, views, Buffer, BufferView, PCMState, PcmParams,
    Stream, StreamView,
};
use crate::virtio_sound::{
    VirtioSndPcmSetParams, VIRTIO_SND_D_INPUT, VIRTIO_SND_D_OUTPUT, VIRTIO_SND_S_BAD_MSG,
    VIRTIO_SND_S_NOT_SUPP, VIRTIO_SND_S_OK,
};
use std::collections::{HashMap, VecDeque};
use vm_memory::GuestMemoryMmap;
use vstd::prelude::*;

verus! {

broadcast use vstd::std_specs::hash::group_hash_axioms;

/// A connection of a stream to the audio server.
#[derive(Clone, Copy, Debug, PartialEq, Eq, Structural)]
pub struct Listener {
    /// The ready queue that the stream plays from.
    pub queue: u64,
    /// The number of channels that the stream was prepared with.
    pub channels: u8,
}

/// What is to be done after an action.
pub enum PwOutcome {
    /// Nothing.
    Idle,
    /// Nothing: the stream refused the command.
    Rejected(stream::Error),
    /// Start or stop the connection of the stream, under the lock of the server loop.
    SetActive {
        /// The stream.
        stream_id: usize,
        /// Start it, or stop it.
        active: bool,
    },
    /// Take the lock of the server loop and leave it at that: the stream has no connection.
    NotConnected,
    /// Connect the stream in place of the connection it may have, under the lock of the server
    /// loop.
    Connect {
        /// The stream.
        stream_id: usize,
        /// Its description.
        info: AudioInfo,
        /// How it is connected.
        connection: Connection,
        /// The transfers to be ended.
        ended: Vec<IOMessage>,
    },
    /// Disconnect the stream, under the lock of the server loop, and answer the request.
    Disconnect {
        /// The stream.
        stream_id: usize,
        /// The request.
        message: ControlMessage,
        /// The transfers to be ended.
        ended: Vec<IOMessage>,
    },
    /// Answer the request: the stream refused to be released.
    ReleaseRejected {
        /// The request.
        message: ControlMessage,
        /// Why.
        error: stream::Error,
    },
    /// Take the lock of the server loop and answer the request: the released stream has no
    /// connection.
    ReleaseNotConnected {
        /// The request.
        message: ControlMessage,
    },
    /// Answer the request to set parameters.
    ParametersSet {
        /// The request.
        message: ControlMessage,
        /// Whether the parameters were taken over.
        code: u32,
    },
}

/// The contents of a [`PwOutcome`].
#[verifier::ext_equal]
pub enum OutcomeView {
    Idle,
    Rejected(stream::Error),
    SetActive { stream_id: usize, active: bool },
    NotConnected,
    Connect {
        stream_id: usize,
        info: AudioInfoView,
        connection: Connection,
        ended: Seq<IOMessage>,
    },
    Disconnect { stream_id: usize, message: ControlMessage, ended: Seq<IOMessage> },
    ReleaseRejected { message: ControlMessage, error: stream::Error },
    ReleaseNotConnected { message: ControlMessage },
    ParametersSet { message: ControlMessage, code: u32 },
}

impl View for PwOutcome {
    type V = OutcomeView;

    open spec fn view(&self) -> OutcomeView {
        match *self {
            PwOutcome::Idle => OutcomeView::Idle,
            PwOutcome::Rejected(error) => OutcomeView::Rejected(error),
            PwOutcome::SetActive { stream_id, active } => OutcomeView::SetActive {
                stream_id,
                active,
            },
            PwOutcome::NotConnected => OutcomeView::NotConnected,
            PwOutcome::Connect { stream_id, info, connection, ended } => OutcomeView::Connect {
                stream_id,
                info: info@,
                connection,
                ended: ended@,
            },
            PwOutcome::Disconnect { stream_id, message, ended } => OutcomeView::Disconnect {
                stream_id,
                message,
                ended: ended@,
            },
            PwOutcome::ReleaseRejected { message, error } => OutcomeView::ReleaseRejected {
                message,
                error,
            },
            PwOutcome::ReleaseNotConnected { message } => OutcomeView::ReleaseNotConnected {
                message,
            },
            PwOutcome::ParametersSet { message, code } => OutcomeView::ParametersSet {
                message,
                code,
            },
        }
    }
}

/// The messages of buffers in a row.
pub open spec fn messages(buffers: Seq<BufferView>) -> Seq<IOMessage> {
    buffers.map_values(|b: BufferView| b.message)
}

/// The state of the worker.
pub struct PwWorker {
    listeners: Vec<Option<Listener>>,
    queues: HashMap<u64, VecDeque<Buffer>>,
    current: u64,
}

/// The contents of a [`PwWorker`].
#[verifier::ext_equal]
pub struct WorkerView {
    /// The connection of each stream.
    pub listeners: Seq<Option<Listener>>,
    /// The ready queues, each under its number.
    pub queues: Map<u64, Seq<BufferView>>,
    /// The number of the current queue.
    pub current: u64,
}

/// The contents of the ready queues.
pub open spec fn queue_views(queues: Map<u64, VecDeque<Buffer>>) -> Map<u64, Seq<BufferView>> {
    queues.map_values(|q: VecDeque<Buffer>| views(q@))
}

impl View for PwWorker {
    type V = WorkerView;

    closed spec fn view(&self) -> WorkerView {
        WorkerView {
            listeners: self.listeners@,
            queues: queue_views(self.queues@),
            current: self.current,
        }
    }
}

/// Does a stream with this connection play from this queue?
pub open spec fn plays(listener: Option<Listener>, queue: u64) -> bool {
    match listener {
        Some(l) => l.queue == queue,
        None => false,
    }
}

impl WorkerView {
    /// Does some stream play from this queue?
    pub open spec fn played(self, queue: u64) -> bool {
        exists|i: int| 0 <= i < self.listeners.len() && plays(#[trigger] self.listeners[i], queue)
    }

    /// Is this queue the current one, or does some stream play from it?
    pub open spec fn in_use(self, queue: u64) -> bool {
        queue == self.current || self.played(queue)
    }

    /// Exactly the queues in use are there, and none has a number greater than the current one.
    pub open spec fn wf(self) -> bool {
        &&& forall|q: u64| #[trigger] self.queues.contains_key(q) <==> self.in_use(q)
        &&& forall|q: u64| #[trigger] self.queues.contains_key(q) ==> q <= self.current
    }

    /// The state after a stream left a queue, and the transfers that this ends.
    pub open spec fn left(self, queue: u64) -> (WorkerView, Seq<IOMessage>) {
        if self.in_use(queue) {
            (self, Seq::empty())
        } else {
            (
                WorkerView { queues: self.queues.remove(queue), ..self },
                messages(self.queues[queue]),
            )
        }
    }
}

/// The messages in queues that are dropped one after the other, each from its front to its back.
pub open spec fn dropped_in_order(
    queues: Map<u64, Seq<BufferView>>,
    order: Seq<u64>,
) -> Seq<IOMessage>
    decreases order.len(),
{
    if order.len() == 0 {
        Seq::empty()
    } else {
        dropped_in_order(queues, order.drop_last()) + messages(queues[order.last()])
    }
}

impl WorkerView {
    /// Is this an order of the ready queues in which each stands once and the current one last?
    pub open spec fn is_order(self, order: Seq<u64>) -> bool {
        &&& order.no_duplicates()
        &&& order.len() > 0
        &&& order.last() == self.current
        &&& forall|q: u64| #[trigger] order.contains(q) <==> self.queues.contains_key(q)
    }

    /// Is `after` what is left of a worker that ended, and were these the transfers in its ready
    /// queues? The queues are dropped one after the other, the current one last.
    pub open spec fn ended_with(before: Self, after: Self, ended: Seq<IOMessage>) -> bool {
        &&& after.listeners == Seq::new(before.listeners.len(), |j: int| None::<Listener>)
        &&& after.current == before.current
        &&& after.queues == map![before.current => Seq::<BufferView>::empty()]
        &&& exists|order: Seq<u64>| #[trigger]
            before.is_order(order) && ended == dropped_in_order(before.queues, order)
        &&& ended.to_multiset() == in_queues(before.queues, (before.current + 1) as nat)
    }
}

/// The request that an action carries.
pub open spec fn carried(action: PwAction) -> Option<ControlMessage> {
    match action {
        PwAction::SetParameters(_, message, _) => Some(message),
        PwAction::Release(_, message) => Some(message),
        _ => None,
    }
}

/// Gives up an action that the worker has not come to. The request that it carries is to be
/// answered with the status that it came with.
pub fn give_up(action: PwAction) -> (message: Option<ControlMessage>)
    ensures
        message == carried(action),
{
    match action {
        PwAction::SetParameters(_, message, _) => Some(message),
        PwAction::Release(_, message) => Some(message),
        _ => None,
    }
}

/// The worker, the streams and what is to be done, after an action.
#[verifier::ext_equal]
pub struct PwStep {
    pub worker: WorkerView,
    pub streams: Seq<StreamView>,
    pub outcome: Result<OutcomeView, Error>,
}

/// The streams after the stream `id` was given the command `next`.
pub open spec fn commanded(streams: Seq<StreamView>, id: int, next: PCMState) -> Seq<StreamView> {
    streams.update(id, StreamView { state: after(streams[id].state, next), ..streams[id] })
}

/// The buffers of the stream move to the end of the current queue.
pub open spec fn written(worker: WorkerView, streams: Seq<StreamView>, id: int) -> PwStep {
    PwStep {
        worker: WorkerView {
            queues: worker.queues.insert(
                worker.current,
                worker.queues[worker.current] + streams[id].buffers,
            ),
            ..worker
        },
        streams: streams.update(id, StreamView { buffers: Seq::empty(), ..streams[id] }),
        outcome: Ok(OutcomeView::Idle),
    }
}

/// The stream takes the command to start or to stop, and its connection follows.
pub open spec fn activated(
    worker: WorkerView,
    streams: Seq<StreamView>,
    id: int,
    active: bool,
) -> PwStep {
    let next = if active {
        PCMState::Start
    } else {
        PCMState::Stop
    };
    PwStep {
        worker,
        streams: commanded(streams, id, next),
        outcome: Ok(
            match step(streams[id].state, next) {
                Err(error) => OutcomeView::Rejected(error),
                Ok(_) => if worker.listeners[id] is Some {
                    OutcomeView::SetActive { stream_id: id as usize, active }
                } else {
                    OutcomeView::NotConnected
                },
            },
        ),
    }
}

/// The stream takes the command to prepare, and is connected to play from the current queue.
/// With a number of channels that is not supported the worker ends.
pub open spec fn prepared(worker: WorkerView, streams: Seq<StreamView>, id: int) -> PwStep {
    let commanded = commanded(streams, id, PCMState::Prepare);
    match step(streams[id].state, PCMState::Prepare) {
        Err(error) => PwStep {
            worker,
            streams: commanded,
            outcome: Ok(OutcomeView::Rejected(error)),
        },
        Ok(_) => match described(streams[id].params) {
            None => PwStep {
                worker,
                streams: commanded,
                outcome: Err(Error::ChannelNotSupported(streams[id].params.channels)),
            },
            Some(info) => {
                let listener = Listener {
                    queue: worker.current,
                    channels: streams[id].params.channels,
                };
                let listening = WorkerView {
                    listeners: worker.listeners.update(id, Some(listener)),
                    ..worker
                };
                let (left, ended) = match worker.listeners[id] {
                    Some(old) => listening.left(old.queue),
                    None => (listening, Seq::empty()),
                };
                PwStep {
                    worker: left,
                    streams: commanded,
                    outcome: Ok(
                        OutcomeView::Connect {
                            stream_id: id as usize,
                            info,
                            connection: spec_connection(info, streams[id].direction),
                            ended,
                        },
                    ),
                }
            },
        },
    }
}

/// The stream takes the command to release. Its buffers and its connection go, and an empty
/// queue becomes the current one. A refusal is answered as a bad message.
pub open spec fn released(
    worker: WorkerView,
    streams: Seq<StreamView>,
    id: int,
    message: ControlMessage,
) -> PwStep {
    let commanded = commanded(streams, id, PCMState::Release);
    match step(streams[id].state, PCMState::Release) {
        Err(error) => PwStep {
            worker,
            streams: commanded,
            outcome: Ok(
                OutcomeView::ReleaseRejected {
                    message: ControlMessage { code: VIRTIO_SND_S_BAD_MSG, ..message },
                    error,
                },
            ),
        },
        Ok(_) => match worker.listeners[id] {
            None => PwStep {
                worker,
                streams: commanded,
                outcome: Ok(OutcomeView::ReleaseNotConnected { message }),
            },
            Some(listener) => {
                let next = (worker.current + 1) as u64;
                let renewed = WorkerView {
                    queues: worker.queues.insert(next, Seq::empty()),
                    current: next,
                    ..worker
                };
                let (replaced, ended1) = renewed.left(worker.current);
                let silent = WorkerView {
                    listeners: replaced.listeners.update(id, None),
                    ..replaced
                };
                let (left, ended2) = silent.left(listener.queue);
                PwStep {
                    worker: left,
                    streams: commanded.update(
                        id,
                        StreamView { buffers: Seq::empty(), ..commanded[id] },
                    ),
                    outcome: Ok(
                        OutcomeView::Disconnect {
                            stream_id: id as usize,
                            message,
                            ended: messages(streams[id].buffers) + ended1 + ended2,
                        },
                    ),
                }
            },
        },
    }
}

/// The parameters that a request asks for.
pub open spec fn requested(request: VirtioSndPcmSetParams) -> PcmParams {
    PcmParams {
        buffer_bytes: request.buffer_bytes,
        period_bytes: request.period_bytes,
        features: request.features,
        channels: request.channels,
        format: request.format,
        rate: request.rate,
    }
}

/// The stream takes the command to set parameters, and takes them over where it supports the
/// format and the rate. The request is answered with the status that it came with.
pub open spec fn configured(
    worker: WorkerView,
    streams: Seq<StreamView>,
    id: int,
    message: ControlMessage,
    request: VirtioSndPcmSetParams,
) -> PwStep {
    let commanded = commanded(streams, id, PCMState::SetParameters);
    let allowed = streams[id].state.allows(PCMState::SetParameters);
    let supported = has_bit(streams[id].formats, request.format) && has_bit(
        streams[id].rates,
        request.rate,
    );
    PwStep {
        worker,
        streams: if allowed && supported {
            commanded.update(id, StreamView { params: requested(request), ..commanded[id] })
        } else {
            commanded
        },
        outcome: Ok(
            OutcomeView::ParametersSet {
                message,
                code: if !allowed {
                    VIRTIO_SND_S_BAD_MSG
                } else if !supported {
                    VIRTIO_SND_S_NOT_SUPP
                } else {
                    VIRTIO_SND_S_OK
                },
            },
        ),
    }
}

/// The stream that an action is about.
pub open spec fn stream_of(action: PwAction) -> int {
    match action {
        PwAction::SetParameters(id, _, _) => id as int,
        PwAction::Prepare(id) => id as int,
        PwAction::Release(id, _) => id as int,
        PwAction::Start(id) => id as int,
        PwAction::Stop(id) => id as int,
        PwAction::Write(id) => id as int,
        PwAction::Read(id) => id as int,
    }
}

/// What an action does.
pub open spec fn handled(
    worker: WorkerView,
    streams: Seq<StreamView>,
    action: PwAction,
) -> PwStep {
    match action {
        PwAction::Read(_) => PwStep { worker, streams, outcome: Ok(OutcomeView::Idle) },
        PwAction::Write(id) => written(worker, streams, id as int),
        PwAction::Start(id) => activated(worker, streams, id as int, true),
        PwAction::Stop(id) => activated(worker, streams, id as int, false),
        PwAction::Prepare(id) => prepared(worker, streams, id as int),
        PwAction::Release(id, message) => released(worker, streams, id as int, message),
        PwAction::SetParameters(id, message, request) => configured(
            worker,
            streams,
            id as int,
            message,
            request,
        ),
    }
}

/// The actions that the worker can carry out: the stream exists, a stream that is prepared has a
/// known direction, and there is a number left for another queue.
pub open spec fn can_handle(
    worker: WorkerView,
    streams: Seq<StreamView>,
    action: PwAction,
) -> bool {
    &&& worker.listeners.len() == streams.len()
    &&& !(action is Read) ==> stream_of(action) < streams.len()
    &&& action matches PwAction::Prepare(id) ==> streams[id as int].state.allows(PCMState::Prepare)
        && described(streams[id as int].params) is Some ==> streams[id as int].direction
        == VIRTIO_SND_D_OUTPUT || streams[id as int].direction == VIRTIO_SND_D_INPUT
    &&& action is Release ==> worker.current < u64::MAX
}

/// Whether a queue is in use depends on the connections and on which queue is current.
pub proof fn lemma_same_in_use(a: WorkerView, b: WorkerView)
    requires
        a.listeners == b.listeners,
        a.current == b.current,
    ensures
        forall|q: u64| a.in_use(q) == b.in_use(q),
{
    assert forall|q: u64| a.in_use(q) == b.in_use(q) by {
        assert(a.played(q) == b.played(q));
    }
}

/// To prepare a stream keeps exactly the queues in use.
pub proof fn lemma_prepared_wf(worker: WorkerView, streams: Seq<StreamView>, id: int)
    requires
        worker.wf(),
        worker.listeners.len() == streams.len(),
        0 <= id < streams.len(),
    ensures
        prepared(worker, streams, id).worker.wf(),
{
    let next = prepared(worker, streams, id).worker;
    assert forall|q: u64| next.queues.contains_key(q) && q != next.current implies next.played(
        q,
    ) by {
        let i = choose|i: int|
            0 <= i < worker.listeners.len() && plays(#[trigger] worker.listeners[i], q);
        if i != id {
            assert(plays(next.listeners[i], q));
        }
    }
    assert forall|q: u64| #[trigger] next.in_use(q) implies worker.in_use(q) by {
        if q != next.current {
            let i = choose|i: int|
                0 <= i < next.listeners.len() && plays(#[trigger] next.listeners[i], q);
            if i != id || next == worker {
                assert(plays(worker.listeners[i], q));
            }
        }
    }
    if let Some(old) = worker.listeners[id] {
        let listener = Listener { queue: worker.current, channels: streams[id].params.channels };
        let listening = WorkerView {
            listeners: worker.listeners.update(id, Some(listener)),
            ..worker
        };
        let left = listening.left(old.queue).0;
        lemma_same_in_use(listening, left);
    }
}

/// To release a stream keeps exactly the queues in use.
pub proof fn lemma_released_wf(
    worker: WorkerView,
    streams: Seq<StreamView>,
    id: int,
    message: ControlMessage,
)
    requires
        worker.wf(),
        worker.listeners.len() == streams.len(),
        0 <= id < streams.len(),
        worker.current < u64::MAX,
    ensures
        released(worker, streams, id, message).worker.wf(),
{
    let last = released(worker, streams, id, message).worker;
    if last != worker {
        let next = (worker.current + 1) as u64;
        let renewed = WorkerView {
            queues: worker.queues.insert(next, Seq::empty()),
            current: next,
            ..worker
        };
        let replaced = renewed.left(worker.current).0;
        lemma_same_in_use(renewed, replaced);
        let silent = WorkerView { listeners: replaced.listeners.update(id, None), ..replaced };
        lemma_same_in_use(silent, last);
        assert forall|q: u64| #[trigger] last.queues.contains_key(q) <==> last.in_use(q) by {
            if last.in_use(q) && q != last.current {
                let i = choose|i: int|
                    0 <= i < last.listeners.len() && plays(#[trigger] last.listeners[i], q);
                assert(plays(worker.listeners[i], q));
                assert(plays(renewed.listeners[i], q));
                assert(worker.in_use(q));
                assert(worker.queues.contains_key(q));
            }
            if last.queues.contains_key(q) && q != last.current {
                assert(worker.queues.contains_key(q));
                assert(renewed.in_use(q));
                let i = choose|i: int|
                    0 <= i < renewed.listeners.len() && plays(#[trigger] renewed.listeners[i], q);
                if i != id {
                    assert(plays(last.listeners[i], q));
                }
            }
        }
    }
}

/// What a sequence holds after one more element was added.
proof fn lemma_push_contains(s: Seq<u64>, added: u64, q: u64)
    ensures
        s.push(added).contains(q) <==> s.contains(q) || q == added,
{
    if s.contains(q) {
        let i = choose|i: int| 0 <= i < s.len() && s[i] == q;
        assert(s.push(added)[i] == q);
    }
    assert(s.push(added)[s.len() as int] == added);
    if s.push(added).contains(q) && q != added {
        let i = choose|i: int| 0 <= i < s.push(added).len() && s.push(added)[i] == q;
        assert(s[i] == q);
    }
}

/// To end the connection of a stream keeps exactly the queues in use.
pub proof fn lemma_silenced_wf(worker: WorkerView, id: int)
    requires
        worker.wf(),
        0 <= id < worker.listeners.len(),
        worker.listeners[id] is Some,
    ensures
        ({
            let silent = WorkerView { listeners: worker.listeners.update(id, None), ..worker };
            silent.left(worker.listeners[id]->0.queue).0.wf()
        }),
{
    let silent = WorkerView { listeners: worker.listeners.update(id, None), ..worker };
    let last = silent.left(worker.listeners[id]->0.queue).0;
    lemma_same_in_use(silent, last);
    assert forall|q: u64| #[trigger] last.queues.contains_key(q) <==> last.in_use(q) by {
        if last.in_use(q) && q != last.current {
            let i = choose|i: int|
                0 <= i < last.listeners.len() && plays(#[trigger] last.listeners[i], q);
            assert(plays(worker.listeners[i], q));
            assert(worker.in_use(q));
        }
        if last.queues.contains_key(q) && q != last.current {
            assert(worker.in_use(q));
            let i = choose|i: int|
                0 <= i < worker.listeners.len() && plays(#[trigger] worker.listeners[i], q);
            if i != id {
                assert(plays(last.listeners[i], q));
            }
        }
    }
}

/// What the server is supplied with when it asks for some bytes of a ready queue.
#[verifier::ext_equal]
pub struct Drain {
    /// Where in guest memory the bytes lie: the address and the length of each piece.
    pub pieces: Seq<(u64, nat)>,
    /// What is left in the queue.
    pub rest: Seq<BufferView>,
    /// The transfers that are played to their end.
    pub ended: Seq<IOMessage>,
    /// Whether there were enough bytes.
    pub full: bool,
}

/// Takes `count` bytes from the front of a queue of buffers that are yet to be played: whole
/// buffers as long as they fit, and then the beginning of the next one.
pub open spec fn drained(buffers: Seq<BufferView>, count: nat) -> Drain
    decreases buffers.len(),
{
    if count == 0 || buffers.len() == 0 {
        Drain { pieces: Seq::empty(), rest: buffers, ended: Seq::empty(), full: count == 0 }
    } else {
        let message = buffers[0].message;
        if message.data_len <= count {
            let more = drained(buffers.drop_first(), (count - message.data_len) as nat);
            Drain {
                pieces: seq![(message.data_addr, message.data_len as nat)] + more.pieces,
                ended: seq![message] + more.ended,
                ..more
            }
        } else {
            Drain {
                pieces: seq![(message.data_addr, count)],
                rest: buffers.update(0, BufferView { pos: count as usize, ..buffers[0] }),
                ended: Seq::empty(),
                full: true,
            }
        }
    }
}

/// Are the buffers that `count` bytes are taken from all yet to be played? A buffer that was
/// taken in part is not taken from again.
pub open spec fn drainable(buffers: Seq<BufferView>, count: nat) -> bool
    decreases buffers.len(),
{
    count == 0 || buffers.len() == 0 || {
        &&& buffers[0].pos == 0
        &&& buffers[0].message.data_len <= count ==> drainable(
            buffers.drop_first(),
            (count - buffers[0].message.data_len) as nat,
        )
    }
}

/// What one period of a connected stream takes from the ready queue that it plays from.
pub open spec fn period(worker: WorkerView, streams: Seq<StreamView>, id: int) -> Drain {
    drained(
        worker.queues[worker.listeners[id]->0.queue],
        streams[id].params.period_bytes as nat,
    )
}

/// The bytes in one frame of a connected stream.
pub open spec fn frame_bytes(worker: WorkerView, id: int) -> int {
    2 * worker.listeners[id]->0.channels
}

/// Do the reads fetch exactly the pieces, in order?
pub open spec fn fetches(reads: Seq<(u64, Seq<u8>)>, pieces: Seq<(u64, nat)>) -> bool {
    &&& reads.len() == pieces.len()
    &&& forall|i: int|
        0 <= i < reads.len() ==> (#[trigger] reads[i]).0 == pieces[i].0 && reads[i].1.len()
            == pieces[i].1
}

/// The bytes of reads, one after the other.
pub open spec fn fetched(reads: Seq<(u64, Seq<u8>)>) -> Seq<u8>
    decreases reads.len(),
{
    if reads.len() == 0 {
        Seq::empty()
    } else {
        fetched(reads.drop_last()) + reads.last().1
    }
}

/// Can every piece be read as a whole?
pub open spec fn all_fit(mapped: Set<u64>, pieces: Seq<(u64, nat)>) -> bool {
    forall|i: int| 0 <= i < pieces.len() ==> fits(mapped, (#[trigger] pieces[i]).0, pieces[i].1)
}

/// Sound data for one period.
#[derive(Debug)]
pub struct PeriodFill {
    /// The data, to be played from its first byte on.
    pub bytes: Vec<u8>,
    /// Whether there was data for the whole period. If not, none of it counts.
    pub full: bool,
    /// Bytes in one frame.
    pub stride: u32,
    /// The transfers to be ended.
    pub ended: Vec<IOMessage>,
}

/// Is this what comes of a period of a connected stream, given the reads that were made for it?
pub open spec fn supplied(
    before: WorkerView,
    after: WorkerView,
    streams: Seq<StreamView>,
    id: int,
    mapped: Set<u64>,
    made: Seq<(u64, Seq<u8>)>,
    res: Result<PeriodFill, Error>,
) -> bool {
    let queue = before.listeners[id]->0.queue;
    let drain = period(before, streams, id);
    match res {
        Ok(fill) => {
            &&& all_fit(mapped, drain.pieces)
            &&& fetches(made, drain.pieces)
            &&& fill.bytes@ == fetched(made)
            &&& fill.full == drain.full
            &&& fill.stride == frame_bytes(before, id)
            &&& fill.ended@ == drain.ended
            &&& after == (WorkerView { queues: before.queues.insert(queue, drain.rest), ..before })
        },
        Err(error) => {
            &&& !all_fit(mapped, drain.pieces)
            &&& error == Error::DescriptorReadFailed
            &&& after == before
        },
    }
}

/// A worker for this many streams that has done nothing yet.
pub open spec fn fresh(streams: nat) -> WorkerView {
    WorkerView {
        listeners: Seq::new(streams, |i: int| None::<Listener>),
        queues: map![0u64 => Seq::<BufferView>::empty()],
        current: 0,
    }
}

/// The contents of what an action led to.
pub open spec fn outcome_view(res: Result<PwOutcome, Error>) -> Result<OutcomeView, Error> {
    match res {
        Ok(outcome) => Ok(outcome@),
        Err(error) => Err(error),
    }
}

impl PwWorker {
    /// The worker for `streams` streams, none of which is connected.
    pub fn new(streams: usize) -> (worker: Self)
        ensures
            worker@.wf(),
            worker@.current == 0,
            worker@.listeners == Seq::new(streams as nat, |i: int| None::<Listener>),
            worker@.queues == map![0u64 => Seq::<BufferView>::empty()],
            worker@ == fresh(streams as nat),
    {
        let mut listeners: Vec<Option<Listener>> = Vec::new();
        let mut i: usize = 0;
        while i < streams
            invariant
                i <= streams,
                listeners@ == Seq::new(i as nat, |j: int| None::<Listener>),
            decreases streams - i,
        {
            listeners.push(None);
            i = i + 1;
        }
        let mut queues: HashMap<u64, VecDeque<Buffer>> = HashMap::new();
        queues.insert(0, VecDeque::new());
        let worker = PwWorker { listeners, queues, current: 0 };
        assert(worker@.queues =~= map![0u64 => Seq::<BufferView>::empty()]) by {
            assert(worker@.queues[0] =~= Seq::<BufferView>::empty());
        }
        worker
    }

    /// Is the queue in use?
    fn in_use(&self, queue: u64) -> (res: bool)
        ensures
            res == self@.in_use(queue),
    {
        if queue == self.current {
            return true;
        }
        let mut i: usize = 0;
        while i < self.listeners.len()
            invariant
                i <= self.listeners.len(),
                forall|j: int| 0 <= j < i ==> !plays(#[trigger] self@.listeners[j], queue),
            decreases self.listeners.len() - i,
        {
            if let Some(listener) = self.listeners[i] {
                if listener.queue == queue {
                    assert(plays(self@.listeners[i as int], queue));
                    return true;
                }
            }
            i = i + 1;
        }
        false
    }

    /// Moves the buffers of the stream to the end of the current queue.
    fn write(&mut self, streams: &mut Vec<Stream>, id: usize)
        requires
            old(self)@.wf(),
            id < old(streams)@.len(),
        ensures
            final(self)@.wf(),
            ({
                let step = written(old(self)@, stream_views(old(streams)@), id as int);
                final(self)@ == step.worker && stream_views(final(streams)@) == step.streams
            }),
    {
        let ghost step = written(self@, stream_views(streams@), id as int);
        assert(self@.queues.contains_key(self.current));
        if let Some(ready) = self.queues.remove(&self.current) {
            let mut ready = ready;
            let ghost before = ready@;
            let stream = &mut streams[id];
            let ghost moved = stream.buffers@;
            ready.append(&mut stream.buffers);
            assert(views(ready@) =~= views(before) + views(moved));
            self.queues.insert(self.current, ready);
        }
        assert(stream_views(streams@) =~= step.streams) by {
            assert(views(Seq::<Buffer>::empty()) =~= Seq::<BufferView>::empty());
        }
        assert(self@.queues =~= step.worker.queues);
        proof {
            lemma_same_in_use(old(self)@, self@);
        }
    }

    /// Starts or stops the stream.
    fn set_active(&mut self, streams: &mut Vec<Stream>, id: usize, active: bool) -> (outcome:
        PwOutcome)
        requires
            id < old(streams)@.len(),
            id < old(self)@.listeners.len(),
        ensures
            ({
                let step = activated(old(self)@, stream_views(old(streams)@), id as int, active);
                &&& final(self)@ == step.worker
                &&& stream_views(final(streams)@) == step.streams
                &&& Ok::<OutcomeView, Error>(outcome@) == step.outcome
            }),
    {
        let next = if active {
            PCMState::Start
        } else {
            PCMState::Stop
        };
        match command(streams, id, next) {
            Err(error) => PwOutcome::Rejected(error),
            Ok(_) => match self.listeners[id] {
                Some(_) => PwOutcome::SetActive { stream_id: id, active },
                None => PwOutcome::NotConnected,
            },
        }
    }

    /// Prepares the stream.
    fn prepare(&mut self, streams: &mut Vec<Stream>, id: usize) -> (res: Result<PwOutcome, Error>)
        requires
            old(self)@.wf(),
            can_handle(old(self)@, stream_views(old(streams)@), PwAction::Prepare(id)),
        ensures
            final(self)@.wf(),
            ({
                let step = prepared(old(self)@, stream_views(old(streams)@), id as int);
                &&& final(self)@ == step.worker
                &&& stream_views(final(streams)@) == step.streams
                &&& outcome_view(res) == step.outcome
            }),
    {
        let ghost before = stream_views(streams@);
        assert(before[id as int] == streams@[id as int]@);
        if let Err(error) = command(streams, id, PCMState::Prepare) {
            return Ok(PwOutcome::Rejected(error));
        }
        assert(stream_views(streams@)[id as int] == streams@[id as int]@);
        let params = streams[id].params;
        let info = match describe(&params) {
            Some(info) => info,
            None => {
                return Err(Error::ChannelNotSupported(params.channels));
            },
        };
        let connection = connection(&info, streams[id].direction);
        let left = self.listeners[id];
        let listener = Listener { queue: self.current, channels: params.channels };
        self.listeners.set(id, Some(listener));
        let ended = match left {
            Some(old_listener) => {
                proof {
                    assert(plays(old(self)@.listeners[id as int], old_listener.queue));
                    assert(old(self)@.queues.contains_key(old_listener.queue));
                }
                self.leave(old_listener.queue)
            },
            None => Vec::new(),
        };
        proof {
            lemma_prepared_wf(old(self)@, before, id as int);
        }
        Ok(PwOutcome::Connect { stream_id: id, info, connection, ended })
    }

    /// Releases the stream.
    fn release(&mut self, streams: &mut Vec<Stream>, id: usize, message: ControlMessage) -> (outcome:
        PwOutcome)
        requires
            old(self)@.wf(),
            can_handle(old(self)@, stream_views(old(streams)@), PwAction::Release(id, message)),
        ensures
            final(self)@.wf(),
            ({
                let step = released(old(self)@, stream_views(old(streams)@), id as int, message);
                &&& final(self)@ == step.worker
                &&& stream_views(final(streams)@) == step.streams
                &&& Ok::<OutcomeView, Error>(outcome@) == step.outcome
            }),
    {
        let ghost first = self@;
        let ghost before = stream_views(streams@);
        assert(before[id as int] == streams@[id as int]@);
        if let Err(error) = command(streams, id, PCMState::Release) {
            let message = ControlMessage { code: VIRTIO_SND_S_BAD_MSG, ..message };
            return PwOutcome::ReleaseRejected { message, error };
        }
        let listener = match self.listeners[id] {
            Some(listener) => listener,
            None => {
                return PwOutcome::ReleaseNotConnected { message };
            },
        };
        let ghost commanded = stream_views(streams@);
        assert(commanded[id as int] == streams@[id as int]@);
        let mut ended: Vec<IOMessage> = Vec::new();
        let stream = &mut streams[id];
        end_all(&mut stream.buffers, &mut ended);
        assert(stream_views(streams@) =~= commanded.update(
            id as int,
            StreamView { buffers: Seq::empty(), ..commanded[id as int] },
        )) by {
            assert(views(Seq::<Buffer>::empty()) =~= Seq::<BufferView>::empty());
        }
        let replaced: u64 = self.current;
        self.current = self.current + 1;
        self.queues.insert(self.current, VecDeque::new());
        let ghost renewed = self@;
        assert(renewed.queues =~= first.queues.insert(renewed.current, Seq::empty())) by {
            assert(views(Seq::<Buffer>::empty()) =~= Seq::<BufferView>::empty());
        }
        assert(first.in_use(replaced));
        let mut ended1 = self.leave(replaced);
        let ghost second = self@;
        proof {
            assert(plays(first.listeners[id as int], listener.queue));
            assert(first.in_use(listener.queue));
            assert(plays(renewed.listeners[id as int], listener.queue));
            assert(renewed.in_use(listener.queue));
            assert(second.queues.contains_key(listener.queue));
        }
        self.listeners.set(id, None);
        let mut ended2 = self.leave(listener.queue);
        proof {
            lemma_released_wf(first, before, id as int, message);
        }
        ended.append(&mut ended1);
        ended.append(&mut ended2);
        PwOutcome::Disconnect { stream_id: id, message, ended }
    }

    /// Sets the parameters of the stream.
    fn set_parameters(
        &mut self,
        streams: &mut Vec<Stream>,
        id: usize,
        message: ControlMessage,
        request: VirtioSndPcmSetParams,
    ) -> (outcome: PwOutcome)
        requires
            id < old(streams)@.len(),
        ensures
            ({
                let step = configured(
                    old(self)@,
                    stream_views(old(streams)@),
                    id as int,
                    message,
                    request,
                );
                &&& final(self)@ == step.worker
                &&& stream_views(final(streams)@) == step.streams
                &&& Ok::<OutcomeView, Error>(outcome@) == step.outcome
            }),
    {
        let ghost before = stream_views(streams@);
        assert(before[id as int] == streams@[id as int]@);
        if command(streams, id, PCMState::SetParameters).is_err() {
            return PwOutcome::ParametersSet { message, code: VIRTIO_SND_S_BAD_MSG };
        }
        let ghost commanded = stream_views(streams@);
        assert(commanded[id as int] == streams@[id as int]@);
        if !streams[id].supports_format(request.format) || !streams[id].supports_rate(request.rate) {
            return PwOutcome::ParametersSet { message, code: VIRTIO_SND_S_NOT_SUPP };
        }
        let stream = &mut streams[id];
        stream.params.features = request.features;
        stream.params.buffer_bytes = request.buffer_bytes;
        stream.params.period_bytes = request.period_bytes;
        stream.params.channels = request.channels;
        stream.params.format = request.format;
        stream.params.rate = request.rate;
        assert(stream_views(streams@) =~= commanded.update(
            id as int,
            StreamView { params: requested(request), ..commanded[id as int] },
        ));
        PwOutcome::ParametersSet { message, code: VIRTIO_SND_S_OK }
    }

    /// Can the worker carry out this action?
    pub fn can_handle(&self, streams: &Vec<Stream>, action: &PwAction) -> (res: bool)
        ensures
            res == can_handle(self@, stream_views(streams@), *action),
    {
        if self.listeners.len() != streams.len() {
            return false;
        }
        let ghost all = stream_views(streams@);
        match *action {
            PwAction::Read(_) => true,
            PwAction::Write(id) | PwAction::Start(id) | PwAction::Stop(id) => id < streams.len(),
            PwAction::SetParameters(id, _, _) => id < streams.len(),
            PwAction::Release(id, _) => id < streams.len() && self.current < u64::MAX,
            PwAction::Prepare(id) => {
                if id >= streams.len() {
                    return false;
                }
                let stream = &streams[id];
                assert(all[id as int] == stream@);
                let allowed = matches!(
                    stream.state,
                    PCMState::SetParameters | PCMState::Prepare | PCMState::Release
                );
                !allowed || describe(&stream.params).is_none() || stream.direction
                    == VIRTIO_SND_D_OUTPUT || stream.direction == VIRTIO_SND_D_INPUT
            },
        }
    }

    /// Carries out an action. An error ends the worker.
    pub fn handle(&mut self, streams: &mut Vec<Stream>, action: PwAction) -> (res: Result<
        PwOutcome,
        Error,
    >)
        requires
            old(self)@.wf(),
            can_handle(old(self)@, stream_views(old(streams)@), action),
        ensures
            final(self)@.wf(),
            ({
                let step = handled(old(self)@, stream_views(old(streams)@), action);
                &&& final(self)@ == step.worker
                &&& stream_views(final(streams)@) == step.streams
                &&& outcome_view(res) == step.outcome
            }),
    {
        match action {
            PwAction::Read(_) => Ok(PwOutcome::Idle),
            PwAction::Write(id) => {
                self.write(streams, id);
                Ok(PwOutcome::Idle)
            },
            PwAction::Start(id) => Ok(self.set_active(streams, id, true)),
            PwAction::Stop(id) => Ok(self.set_active(streams, id, false)),
            PwAction::Prepare(id) => self.prepare(streams, id),
            PwAction::Release(id, message) => Ok(self.release(streams, id, message)),
            PwAction::SetParameters(id, message, request) => Ok(
                self.set_parameters(streams, id, message, request),
            ),
        }
    }

    /// Is the stream connected?
    pub fn is_connected(&self, stream_id: usize) -> (res: bool)
        ensures
            res <==> stream_id < self@.listeners.len() && self@.listeners[stream_id as int] is Some,
    {
        stream_id < self.listeners.len() && self.listeners[stream_id].is_some()
    }

    /// The bytes in one frame of a connected stream: two for each channel it was prepared with.
    pub fn frame_size(&self, stream_id: usize) -> (size: u32)
        requires
            stream_id < self@.listeners.len(),
            self@.listeners[stream_id as int] is Some,
        ensures
            size == 2 * self@.listeners[stream_id as int]->0.channels,
            size == frame_bytes(self@, stream_id as int),
    {
        match self.listeners[stream_id] {
            Some(listener) => listener.channels as u32 * 2,
            None => 0,
        }
    }

    /// Can the next period of the stream be supplied? Not where its data begins with a buffer of
    /// which a part has been played.
    pub fn can_fill(&self, streams: &Vec<Stream>, stream_id: usize) -> (res: bool)
        requires
            self@.wf(),
        ensures
            res <==> {
                &&& stream_id < self@.listeners.len()
                &&& stream_id < streams@.len()
                &&& self@.listeners[stream_id as int] matches Some(listener) && drainable(
                    self@.queues[listener.queue],
                    streams@[stream_id as int].params.period_bytes as nat,
                )
            },
    {
        if stream_id >= self.listeners.len() || stream_id >= streams.len() {
            return false;
        }
        let listener = match self.listeners[stream_id] {
            Some(listener) => listener,
            None => {
                return false;
            },
        };
        assert(plays(self@.listeners[stream_id as int], listener.queue));
        assert(self@.in_use(listener.queue));
        assert(self@.queues.contains_key(listener.queue));
        match self.queues.get(&listener.queue) {
            Some(queue) => is_drainable(queue, streams[stream_id].params.period_bytes),
            None => false,
        }
    }

    /// Supplies one period of a connected stream from the ready queue that it plays from. Each
    /// piece of it is read from guest memory anew. Where a piece cannot be read nothing is taken
    /// from the queue.
    pub fn fill_period(
        &mut self,
        streams: &Vec<Stream>,
        mem: &mut GuestMemoryMmap,
        stream_id: usize,
    ) -> (res: Result<PeriodFill, Error>)
        requires
            old(self)@.wf(),
            stream_id < old(self)@.listeners.len(),
            stream_id < streams@.len(),
            old(self)@.listeners[stream_id as int] is Some,
            drainable(
                old(self)@.queues[old(self)@.listeners[stream_id as int]->0.queue],
                streams@[stream_id as int].params.period_bytes as nat,
            ),
        ensures
            final(self)@.wf(),
            guest(*final(mem)).mapped == guest(*old(mem)).mapped,
            guest(*final(mem)).writes == guest(*old(mem)).writes,
            supplied(
                old(self)@,
                final(self)@,
                stream_views(streams@),
                stream_id as int,
                guest(*old(mem)).mapped,
                guest(*final(mem)).reads.skip(guest(*old(mem)).reads.len() as int),
                res,
            ),
            ({
                let listener = old(self)@.listeners[stream_id as int]->0;
                let drain = drained(
                    old(self)@.queues[listener.queue],
                    streams@[stream_id as int].params.period_bytes as nat,
                );
                let before = guest(*old(mem)).reads;
                let made = guest(*final(mem)).reads.skip(before.len() as int);
                &&& drain == period(old(self)@, stream_views(streams@), stream_id as int)
                &&& guest(*final(mem)).reads == before + made
                &&& res is Ok <==> all_fit(guest(*old(mem)).mapped, drain.pieces)
                &&& match res {
                    Ok(fill) => {
                        &&& fetches(made, drain.pieces)
                        &&& fill.bytes@ == fetched(made)
                        &&& fill.full == drain.full
                        &&& fill.stride == 2 * listener.channels
                        &&& fill.stride == frame_bytes(old(self)@, stream_id as int)
                        &&& fill.ended@ == drain.ended
                        &&& final(self)@ == (WorkerView {
                            queues: old(self)@.queues.insert(listener.queue, drain.rest),
                            ..old(self)@
                        })
                    },
                    Err(error) => error == Error::DescriptorReadFailed && final(self)@
                        == old(self)@,
                }
            }),
    {
        let period: u32 = streams[stream_id].params.period_bytes;
        let listener = match self.listeners[stream_id] {
            Some(listener) => listener,
            None => {
                return Err(Error::DescriptorReadFailed);
            },
        };
        let ghost buffers = self@.queues[listener.queue];
        let ghost first = self@;
        assert(stream_views(streams@)[stream_id as int] == streams@[stream_id as int]@);
        assert(plays(first.listeners[stream_id as int], listener.queue));
        assert(first.in_use(listener.queue));
        assert(first.queues.contains_key(listener.queue));
        let mut queue = match self.queues.remove(&listener.queue) {
            Some(queue) => queue,
            None => VecDeque::new(),
        };
        assert(views(queue@) == buffers);
        let res = fetch(&queue, mem, period);
        let fill = match res {
            Ok((bytes, whole, part, full)) => {
                let ended = take_front(&mut queue, whole, part);
                Ok(PeriodFill { bytes, full, stride: listener.channels as u32 * 2, ended })
            },
            Err(error) => Err(error),
        };
        self.queues.insert(listener.queue, queue);
        proof {
            assert(self@.queues =~= first.queues.insert(listener.queue, views(queue@)));
            if fill is Err {
                assert(self@.queues =~= first.queues);
            }
            lemma_same_in_use(first, self@);
        }
        fill
    }

    /// Ends the worker: no stream is connected any more, the ready queues are dropped, and the
    /// transfers in them are given out, to be ended. The current queue is the last to be dropped;
    /// in which order the others are is left open.
    pub fn shut_down(&mut self) -> (ended: Vec<IOMessage>)
        requires
            old(self)@.wf(),
        ensures
            final(self)@.wf(),
            WorkerView::ended_with(old(self)@, final(self)@, ended@),
    {
        let ghost first = self@;
        let ghost count = (first.current + 1) as nat;
        let ghost mut order: Seq<u64> = Seq::empty();
        let mut ended: Vec<IOMessage> = Vec::new();
        let mut i: usize = 0;
        proof {
            lemma_empty_bag();
        }
        while i < self.listeners.len()
            invariant
                i <= self.listeners.len(),
                self@.wf(),
                order.no_duplicates(),
                forall|q: u64| #[trigger]
                    order.contains(q) <==> first.queues.contains_key(q)
                        && !self@.queues.contains_key(q),
                forall|q: u64| #[trigger]
                    self@.queues.contains_key(q) ==> first.queues.contains_key(q)
                        && self@.queues[q] == first.queues[q],
                ended@ == dropped_in_order(first.queues, order),
                self@.listeners.len() == first.listeners.len(),
                self@.current == first.current,
                count == first.current + 1,
                forall|j: int| 0 <= j < i ==> (#[trigger] self@.listeners[j]) is None,
                forall|m: IOMessage| #[trigger]
                    in_queues(first.queues, count).count(m) == in_queues(self@.queues, count).count(
                        m,
                    ) + ended@.to_multiset().count(m),
            decreases self.listeners.len() - i,
        {
            let ghost now = self@;
            let ghost so_far = ended@;
            if let Some(listener) = self.listeners[i] {
                assert(plays(now.listeners[i as int], listener.queue));
                assert(now.in_use(listener.queue));
                assert(now.queues.contains_key(listener.queue));
                self.listeners.set(i, None);
                let ghost silent = self@;
                let mut more = self.leave(listener.queue);
                let ghost given = more@;
                ended.append(&mut more);
                proof {
                    lemma_silenced_wf(now, i as int);
                    if !silent.in_use(listener.queue) {
                        let next = order.push(listener.queue);
                        assert(next.drop_last() =~= order);
                        assert forall|q: u64| #[trigger] next.contains(q) <==> order.contains(q) || q
                            == listener.queue by {
                            lemma_push_contains(order, listener.queue, q);
                        }
                        assert(!order.contains(listener.queue));
                        order = next;
                    } else {
                        assert(so_far + given =~= so_far);
                    }
                    vstd::seq_lib::lemma_multiset_commutative(so_far, given);
                    assert forall|m: IOMessage| #[trigger]
                        in_queues(first.queues, count).count(m) == in_queues(
                            self@.queues,
                            count,
                        ).count(m) + ended@.to_multiset().count(m) by {
                        lemma_left_keeps_transfers(silent, listener.queue, m);
                        assert(in_queues(first.queues, count).count(m) == in_queues(
                            now.queues,
                            count,
                        ).count(m) + so_far.to_multiset().count(m));
                    }
                }
            }
            i = i + 1;
        }
        let ghost now = self@;
        let ghost so_far = ended@;
        assert(now.in_use(now.current));
        assert(now.queues.contains_key(now.current));
        if let Some(buffers) = self.queues.remove(&self.current) {
            let mut buffers = buffers;
            end_all(&mut buffers, &mut ended);
        }
        self.queues.insert(self.current, VecDeque::new());
        proof {
            let last = self@;
            assert(views(Seq::<Buffer>::empty()) =~= Seq::<BufferView>::empty());
            assert(last.queues =~= now.queues.insert(now.current, Seq::empty()));
            assert forall|q: u64| #[trigger] now.queues.contains_key(q) implies q == now.current by {
                assert(!now.played(q));
            }
            assert(last.queues =~= map![last.current => Seq::<BufferView>::empty()]);
            lemma_same_in_use(now, last);
            let all = order.push(first.current);
            assert(all.drop_last() =~= order);
            assert forall|q: u64| #[trigger] all.contains(q) <==> first.queues.contains_key(q) by {
                lemma_push_contains(order, first.current, q);
            }
            assert(!order.contains(first.current));
            assert(first.is_order(all));
            assert(ended@ =~= dropped_in_order(first.queues, all));
            let given = messages(now.queues[now.current]);
            vstd::seq_lib::lemma_multiset_commutative(so_far, given);
            assert forall|m: IOMessage| ended@.to_multiset().count(m) == in_queues(
                first.queues,
                count,
            ).count(m) by {
                lemma_in_queues_insert(now.queues, count, now.current, Seq::empty(), m);
                lemma_empty_queues(last.current, count);
                assert(in_queues(first.queues, count).count(m) == in_queues(
                    now.queues,
                    count,
                ).count(m) + so_far.to_multiset().count(m));
            }
            assert(ended@.to_multiset() =~= in_queues(first.queues, count));
            assert(last.listeners =~= Seq::new(first.listeners.len(), |j: int| None::<Listener>));
        }
        ended
    }

    /// Drops the queue where it is not in use any more, and gives the transfers that this ends.
    fn leave(&mut self, queue: u64) -> (ended: Vec<IOMessage>)
        requires
            old(self)@.queues.contains_key(queue),
        ensures
            (final(self)@, ended@) == old(self)@.left(queue),
    {
        let mut ended: Vec<IOMessage> = Vec::new();
        if self.in_use(queue) {
            return ended;
        }
        if let Some(buffers) = self.queues.remove(&queue) {
            let mut buffers = buffers;
            end_all(&mut buffers, &mut ended);
        }
        assert(self@.queues =~= old(self)@.queues.remove(queue));
        ended
    }
}

/// Are the buffers that `count` bytes are taken from all yet to be played?
fn is_drainable(queue: &VecDeque<Buffer>, count: u32) -> (res: bool)
    ensures
        res == drainable(views(queue@), count as nat),
{
    let ghost buffers = views(queue@);
    let mut left: u32 = count;
    let mut i: usize = 0;
    assert(buffers.skip(0) =~= buffers);
    while left > 0 && i < queue.len()
        invariant
            i <= queue@.len(),
            buffers == views(queue@),
            drainable(buffers, count as nat) == drainable(buffers.skip(i as int), left as nat),
        decreases queue@.len() - i,
    {
        assert(buffers.skip(i as int)[0] == queue@[i as int]@);
        assert(buffers.skip(i as int).drop_first() =~= buffers.skip(i + 1));
        if queue[i].pos != 0 {
            return false;
        }
        let len: u32 = queue[i].message.data_len;
        if len > left {
            return true;
        }
        left = left - len;
        i = i + 1;
    }
    true
}

/// Reads `count` bytes of the queue from guest memory, and says how many whole buffers they come
/// from, how many bytes of the next buffer, and whether there were enough.
fn fetch(queue: &VecDeque<Buffer>, mem: &mut GuestMemoryMmap, count: u32) -> (res: Result<
    (Vec<u8>, usize, u32, bool),
    Error,
>)
    requires
        drainable(views(queue@), count as nat),
    ensures
        guest(*final(mem)).mapped == guest(*old(mem)).mapped,
        guest(*final(mem)).writes == guest(*old(mem)).writes,
        ({
            let buffers = views(queue@);
            let drain = drained(buffers, count as nat);
            let before = guest(*old(mem)).reads;
            let made = guest(*final(mem)).reads.skip(before.len() as int);
            &&& guest(*final(mem)).reads == before + made
            &&& res is Ok <==> all_fit(guest(*old(mem)).mapped, drain.pieces)
            &&& match res {
                Ok((bytes, whole, part, full)) => {
                    &&& fetches(made, drain.pieces)
                    &&& bytes@ == fetched(made)
                    &&& full == drain.full
                    &&& whole <= buffers.len()
                    &&& part > 0 ==> whole < buffers.len()
                    &&& drain.ended == messages(buffers.take(whole as int))
                    &&& drain.rest == rest_of(buffers, whole as int, part)
                },
                Err(error) => error == Error::DescriptorReadFailed,
            }
        }),
{
    let ghost buffers = views(queue@);
    let ghost drain = drained(buffers, count as nat);
    let ghost before = guest(*mem).reads;
    let ghost mapped = guest(*mem).mapped;
    let ghost mut made: Seq<(u64, Seq<u8>)> = Seq::empty();
    let ghost mut done: Seq<(u64, nat)> = Seq::empty();
    let mut bytes: Vec<u8> = Vec::new();
    let mut left: u32 = count;
    let mut i: usize = 0;
    let mut part: u32 = 0;
    proof {
        assert(buffers.skip(0) =~= buffers);
        assert(before + made =~= before);
        assert(done + drain.pieces =~= drain.pieces);
        assert(messages(buffers.take(0)) + drain.ended =~= drain.ended);
    }
    while left > 0 && part == 0 && i < queue.len()
        invariant
            i <= queue@.len(),
            buffers == views(queue@),
            drain == drained(buffers, count as nat),
            drainable(buffers.skip(i as int), left as nat),
            guest(*mem).mapped == mapped,
            guest(*mem).writes == guest(*old(mem)).writes,
            before == guest(*old(mem)).reads,
            mapped == guest(*old(mem)).mapped,
            guest(*mem).reads == before + made,
            fetches(made, done),
            all_fit(mapped, done),
            bytes@ == fetched(made),
            part > 0 ==> i < queue@.len() && left == 0,
            part == 0 ==> {
                let now = drained(buffers.skip(i as int), left as nat);
                &&& drain.pieces == done + now.pieces
                &&& drain.rest == now.rest
                &&& drain.ended == messages(buffers.take(i as int)) + now.ended
                &&& drain.full == now.full
            },
            part > 0 ==> {
                &&& drain.pieces == done
                &&& drain.rest == rest_of(buffers, i as int, part)
                &&& drain.ended == messages(buffers.take(i as int))
                &&& drain.full
            },
        decreases queue@.len() - i, left,
    {
        let ghost now = buffers.skip(i as int);
        proof {
            assert(now[0] == queue@[i as int]@);
            assert(now.drop_first() =~= buffers.skip(i + 1));
        }
        let len: u32 = queue[i].message.data_len;
        let want: u32 = if len > left {
            left
        } else {
            len
        };
        let addr: u64 = queue[i].message.data_addr;
        let ghost piece = (addr, want as nat);
        assert(drained(now, left as nat).pieces[0] == piece);
        assert(drain.pieces[done.len() as int] == piece);
        match read_mapped(mem, addr, want as usize) {
            Ok(chunk) => {
                let ghost answer = (addr, chunk@);
                proof {
                    assert((before + made).push(answer) =~= before + made.push(answer));
                    let suffix = guest(*mem).reads.skip(before.len() as int);
                    assert(suffix =~= made.push(answer));
                }
                if chunk.len() != want as usize {
                    assert(!fits(mapped, addr, want as nat));
                    return Err(Error::DescriptorReadFailed);
                }
                let mut chunk = chunk;
                proof {
                    assert(made.push(answer).drop_last() =~= made);
                    made = made.push(answer);
                    done = done.push(piece);
                }
                bytes.append(&mut chunk);
            },
            Err(_) => {
                assert(guest(*mem).reads.skip(before.len() as int) =~= made);
                assert(!fits(mapped, addr, want as nat));
                return Err(Error::DescriptorReadFailed);
            },
        }
        if want == len {
            proof {
                let more = drained(now.drop_first(), (left - len) as nat);
                assert(done + more.pieces =~= drain.pieces);
                assert(messages(buffers.take(i + 1)) =~= messages(buffers.take(i as int)).push(
                    now[0].message,
                ));
                assert(drain.ended =~= messages(buffers.take(i + 1)) + more.ended);
            }
            left = left - len;
            i = i + 1;
        } else {
            part = want;
            left = 0;
            proof {
                assert(done =~= drain.pieces);
                assert(drain.ended =~= messages(buffers.take(i as int)));
            }
        }
    }
    proof {
        assert(guest(*mem).reads.skip(before.len() as int) =~= made);
        if part == 0 {
            let now = drained(buffers.skip(i as int), left as nat);
            assert(done + now.pieces =~= done);
            assert(messages(buffers.take(i as int)) + now.ended =~= messages(
                buffers.take(i as int),
            ));
        }
    }
    Ok((bytes, i, part, left == 0))
}

/// What is left of a queue after `whole` buffers and `part` bytes of the next one.
pub open spec fn rest_of(buffers: Seq<BufferView>, whole: int, part: u32) -> Seq<BufferView> {
    let rest = buffers.skip(whole);
    if part == 0 {
        rest
    } else {
        rest.update(0, BufferView { pos: part as usize, ..rest[0] })
    }
}

/// Takes `whole` buffers and `part` bytes of the next one from the queue.
fn take_front(queue: &mut VecDeque<Buffer>, whole: usize, part: u32) -> (ended: Vec<IOMessage>)
    requires
        whole <= old(queue)@.len(),
        part > 0 ==> whole < old(queue)@.len(),
    ensures
        ended@ == messages(views(old(queue)@).take(whole as int)),
        views(final(queue)@) == rest_of(views(old(queue)@), whole as int, part),
{
    let ghost buffers = views(queue@);
    let mut ended: Vec<IOMessage> = Vec::new();
    let mut i: usize = 0;
    assert(buffers.skip(0) =~= buffers);
    assert(messages(buffers.take(0)) =~= Seq::<IOMessage>::empty());
    while i < whole
        invariant
            i <= whole <= buffers.len(),
            views(queue@) == buffers.skip(i as int),
            ended@ == messages(buffers.take(i as int)),
        decreases whole - i,
    {
        let ghost now = queue@;
        assert(views(now).len() == buffers.len() - i);
        if let Some(buffer) = queue.pop_front() {
            proof {
                assert(views(now)[0] == now[0]@);
                assert(views(queue@) =~= views(now).skip(1));
                assert(views(now).skip(1) =~= buffers.skip(i + 1));
                assert(messages(buffers.take(i + 1)) =~= messages(buffers.take(i as int)).push(
                    buffer.message,
                ));
            }
            ended.push(buffer.message);
        }
        i = i + 1;
    }
    if part > 0 {
        let ghost now = queue@;
        assert(views(now).len() == buffers.len() - whole);
        if let Some(buffer) = queue.pop_front() {
            let mut buffer = buffer;
            assert(views(now)[0] == now[0]@);
            buffer.pos = part as usize;
            queue.push_front(buffer);
            assert(views(queue@) =~= rest_of(buffers, whole as int, part));
        }
    }
    ended
}

/// Gives the stream the command `next`.
fn command(streams: &mut Vec<Stream>, id: usize, next: PCMState) -> (res: Result<(), stream::Error>)
    requires
        id < old(streams)@.len(),
    ensures
        res == step(old(streams)@[id as int].state, next),
        final(streams)@.len() == old(streams)@.len(),
        stream_views(final(streams)@) == commanded(stream_views(old(streams)@), id as int, next),
{
    let stream = &mut streams[id];
    let res = match next {
        PCMState::SetParameters => stream.state.set_parameters(),
        PCMState::Prepare => stream.state.prepare(),
        PCMState::Release => stream.state.release(),
        PCMState::Start => stream.state.start(),
        PCMState::Stop => stream.state.stop(),
    };
    assert(stream_views(streams@) =~= commanded(stream_views(old(streams)@), id as int, next));
    res
}

/// Empties a queue and adds its messages to `ended`.
fn end_all(buffers: &mut VecDeque<Buffer>, ended: &mut Vec<IOMessage>)
    ensures
        final(buffers)@ == Seq::<Buffer>::empty(),
        final(ended)@ == old(ended)@ + messages(views(old(buffers)@)),
{
    let ghost all = messages(views(buffers@));
    let ghost before = ended@;
    let ghost mut done: int = 0;
    assert(all.skip(0) =~= all);
    while buffers.len() > 0
        invariant
            0 <= done <= all.len(),
            messages(views(buffers@)) == all.skip(done),
            ended@ == before + all.take(done),
        decreases buffers@.len(),
    {
        let ghost rest = buffers@;
        if let Some(buffer) = buffers.pop_front() {
            proof {
                assert(messages(views(rest))[0] == buffer.message);
                assert(messages(views(buffers@)) =~= messages(views(rest)).skip(1));
                assert(all.take(done + 1) =~= all.take(done).push(buffer.message));
                assert(all.skip(done).skip(1) =~= all.skip(done + 1));
                done = done + 1;
            }
            ended.push(buffer.message);
        }
    }
    assert(messages(views(buffers@)).len() == 0);
    assert(all.take(done) =~= all);
}

} // verus!
