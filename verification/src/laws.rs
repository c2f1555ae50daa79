//! What holds of the device as a whole.
pub mod answers;
pub mod device;
pub mod requests;
pub mod runs;
pub mod texts;
pub mod transfers;
pub mod views;
pub mod wire;

use crate::audio_backends::laws::{consistent, needs_connection, to_be_answered, unplayed};
use crate::audio_backends::pipewire::PwAction;
use crate::audio_backends::worker::{can_handle, carried, handled, stream_of, WorkerView};
use crate::control::{self, stream_info, stream_infos, ControlEnv, ControlTrace};
use crate::defs::{SUPPORTED_FORMATS, SUPPORTED_RATES};
use crate::device::{config, config_bytes, initial_streams, Snd};
use crate::error::Error;
use crate::guest_memory::fits;
use crate::message::{kind_of, ControlMessageKind};
use crate::queue::{ChainView, Descriptor};
use crate::stream::{has_bit, BufferView, PCMState, StreamView};
use crate::transmit::{self, advanced, piece, pieces_of, TransmitEnv, TransmitTrace, TxPhase};
use crate::virtio_sound::{
    VirtioSoundHeader, VirtioSoundPcmHeader, VirtioSoundPcmXfer, CONFIG_SIZE, HEADER_SIZE,
    PCM_INFO_SIZE, STATUS_SIZE, VIRTIO_SND_S_BAD_MSG, VIRTIO_SND_S_NOT_SUPP, VIRTIO_SND_S_OK,
    VIRTIO_SND_PCM_FMT_S16, VIRTIO_SND_PCM_FMT_S24, VIRTIO_SND_PCM_FMT_S32, VIRTIO_SND_PCM_FMT_U8,
    VIRTIO_SND_PCM_RATE_48000, VIRTIO_SND_PCM_RATE_8000, XFER_SIZE,
};
use crate::vring::{used_queue_signal, Vring};
use vstd::prelude::*;

verus! {

/// Does none of these actions carry a request?
pub open spec fn none_carries(actions: Seq<PwAction>) -> bool {
    forall|i: int| 0 <= i < actions.len() ==> carried(#[trigger] actions[i]) is None
}

/// A request is answered once. Either its chain is given back at once, and then no action carries
/// the request on; or nothing is written and one action carries it on, by which the answer goes
/// to the same place and gives the same chain back. A request that fails is not answered.
pub proof fn law_request_is_answered_once(env: ControlEnv, chain: ChainView, trace: ControlTrace)
    requires
        trace.explains(env, chain),
    ensures
        match trace.result {
            Ok(true) => {
                &&& trace.effects.used.len() == 1
                &&& trace.effects.used[0].0 == chain.index
                &&& none_carries(trace.effects.sent)
            },
            Ok(false) => {
                &&& trace.effects.used.len() == 0
                &&& trace.effects.writes.len() == 0
                &&& trace.effects.sent.len() == 1
                &&& carried(trace.effects.sent[0]) matches Some(message)
                &&& message.head_index == chain.index
                &&& message.desc_addr == chain.descriptors[1].addr
                &&& message.code == VIRTIO_SND_S_OK
            },
            Err(_) => trace.effects.used.len() == 0 && none_carries(trace.effects.sent),
        },
{
}

/// Is this the status of a request, as it is written?
pub open spec fn is_status(write: (u64, Seq<u8>), addr: u64, code: u32) -> bool {
    write == (addr, VirtioSoundHeader { code }.bytes())
}

/// The last thing that is written for a request whose chain is given back is its status.
pub proof fn law_status_is_written_last(env: ControlEnv, chain: ChainView, trace: ControlTrace)
    requires
        trace.explains(env, chain),
        trace.result == Ok::<bool, Error>(true),
    ensures
        ({
            let addr = chain.descriptors[1].addr;
            let writes = trace.effects.writes;
            &&& writes.len() >= 1
            &&& {
                ||| is_status(writes.last(), addr, VIRTIO_SND_S_OK)
                ||| is_status(writes.last(), addr, VIRTIO_SND_S_BAD_MSG)
                ||| is_status(writes.last(), addr, VIRTIO_SND_S_NOT_SUPP)
            }
        }),
{
    assert forall|code: u32| #[trigger]
        VirtioSoundHeader { code }.bytes().len() == HEADER_SIZE by {}
    assert forall|code: u32| (#[trigger] VirtioSoundHeader { code }.bytes()).take(HEADER_SIZE as int)
        == VirtioSoundHeader { code }.bytes() by {
        assert(VirtioSoundHeader { code }.bytes().take(HEADER_SIZE as int)
            =~= VirtioSoundHeader { code }.bytes());
    }
}

/// The audio backend is asked for nothing but streams that exist.
pub proof fn law_only_existing_streams_are_asked_for(
    env: ControlEnv,
    chain: ChainView,
    trace: ControlTrace,
)
    requires
        trace.explains(env, chain),
    ensures
        trace.effects.sent.len() <= 1,
        forall|i: int|
            0 <= i < trace.effects.sent.len() ==> 0 <= stream_of(#[trigger] trace.effects.sent[i])
                < env.streams_no,
{
}

/// A request that fails has done nothing: the audio backend was not asked for anything, no chain
/// is given back, and no status is written. At most some of the descriptions are, where they go
/// beyond the memory that the driver made room in. This leaves out that the status cannot be
/// written, or that the worker of the backend is gone, which shows only when the backend is asked.
pub proof fn law_failed_request_does_nothing(
    env: ControlEnv,
    chain: ChainView,
    trace: ControlTrace,
)
    requires
        trace.explains(env, chain),
        trace.result is Err,
        trace.result != Err::<bool, Error>(Error::SendNotificationFailed),
        chain.descriptors.len() >= 2 ==> fits(
            env.mapped,
            chain.descriptors[1].addr,
            HEADER_SIZE as nat,
        ),
    ensures
        trace.effects.sent.len() == 0,
        trace.effects.refused.len() == 0,
        trace.effects.used.len() == 0,
        trace.effects.writes.len() > 0 ==> {
            &&& trace.result == Err::<bool, Error>(Error::DescriptorWriteFailed)
            &&& requested_kind(trace) == Some(ControlMessageKind::PcmInfo)
            &&& trace.effects.writes.len() == 1
            &&& trace.effects.writes[0].0 == chain.descriptors[2].addr
        },
{
}

/// The audio backend is asked for what a request asks for, once at most: an action that it did not
/// take was offered to it.
pub proof fn law_backend_is_asked(env: ControlEnv, chain: ChainView, trace: ControlTrace)
    requires
        trace.explains(env, chain),
    ensures
        trace.effects.sent.len() + trace.effects.refused.len() <= 1,
        trace.result == Err::<bool, Error>(Error::SendNotificationFailed)
            <==> trace.effects.refused.len() == 1,
        trace.effects.refused.len() == 1 ==> {
            &&& 0 <= stream_of(trace.effects.refused[0]) < env.streams_no
            &&& trace.effects.used.len() == 0
        },
{
}

/// The request whose head was read.
pub open spec fn requested_kind(trace: ControlTrace) -> Option<ControlMessageKind> {
    if trace.effects.reads.len() == 0 {
        None
    } else {
        match kind_of(VirtioSoundHeader::parse(trace.effects.reads[0].1).code) {
            Ok(kind) => Some(kind),
            Err(_) => None,
        }
    }
}

/// Requests on jacks and channel maps are answered as not supported, and the audio backend does
/// not hear of them.
pub proof fn law_jacks_and_channel_maps_are_not_supported(
    env: ControlEnv,
    chain: ChainView,
    trace: ControlTrace,
)
    requires
        trace.explains(env, chain),
        requested_kind(trace) == Some(ControlMessageKind::JackInfo) || requested_kind(trace) == Some(
            ControlMessageKind::JackRemap,
        ) || requested_kind(trace) == Some(ControlMessageKind::ChmapInfo),
    ensures
        trace.effects.sent.len() == 0,
        trace.result == Ok::<bool, Error>(true) ==> trace.effects.writes == seq![
            (
                chain.descriptors[1].addr,
                VirtioSoundHeader { code: VIRTIO_SND_S_NOT_SUPP }.bytes(),
            ),
        ],
{
    let status = VirtioSoundHeader { code: VIRTIO_SND_S_NOT_SUPP }.bytes();
    assert(status.take(HEADER_SIZE as int) =~= status);
    if trace.result == Ok::<bool, Error>(true) {
        assert(trace.effects.writes =~= seq![(chain.descriptors[1].addr, status)]);
    }
}

/// A request on a stream that does not exist is answered as a bad message, and the audio backend
/// does not hear of it.
pub proof fn law_missing_stream_is_a_bad_message(
    env: ControlEnv,
    chain: ChainView,
    trace: ControlTrace,
)
    requires
        trace.explains(env, chain),
        requested_kind(trace) matches Some(kind) && (kind is PcmSetParams || kind is PcmPrepare
            || kind is PcmRelease || kind is PcmStart || kind is PcmStop),
        trace.effects.reads.len() == 2,
        VirtioSoundPcmHeader::parse(trace.effects.reads[1].1).stream_id >= env.streams_no,
    ensures
        trace.effects.sent.len() == 0,
        trace.result == Ok::<bool, Error>(true) ==> trace.effects.writes == seq![
            (
                chain.descriptors[1].addr,
                VirtioSoundHeader { code: VIRTIO_SND_S_BAD_MSG }.bytes(),
            ),
        ],
{
    let status = VirtioSoundHeader { code: VIRTIO_SND_S_BAD_MSG }.bytes();
    assert(status.take(HEADER_SIZE as int) =~= status);
    if trace.result == Ok::<bool, Error>(true) {
        assert(trace.effects.writes =~= seq![(chain.descriptors[1].addr, status)]);
    }
}

/// The descriptions of streams all have the same length, and each stands in its place.
pub proof fn law_descriptions_stand_in_a_row(
    streams: Seq<StreamView>,
    start: int,
    count: nat,
    i: int,
)
    requires
        0 <= i < count,
    ensures
        stream_infos(streams, start, count).len() == count * PCM_INFO_SIZE,
        stream_infos(streams, start, count).subrange(i * PCM_INFO_SIZE, (i + 1) * PCM_INFO_SIZE)
            == stream_info(streams[start + i]).bytes(),
    decreases count,
{
    let all = stream_infos(streams, start, count);
    let before = stream_infos(streams, start, (count - 1) as nat);
    let last = stream_info(streams[start + count - 1]).bytes();
    assert(last.len() == PCM_INFO_SIZE);
    if count > 1 {
        law_descriptions_stand_in_a_row(
            streams,
            start,
            (count - 1) as nat,
            if i < count - 1 {
                i
            } else {
                0
            },
        );
    }
    assert(before.len() == (count - 1) * PCM_INFO_SIZE);
    if i < count - 1 {
        assert(all.subrange(i * PCM_INFO_SIZE, (i + 1) * PCM_INFO_SIZE) =~= before.subrange(
            i * PCM_INFO_SIZE,
            (i + 1) * PCM_INFO_SIZE,
        ));
    } else {
        assert(all.subrange(i * PCM_INFO_SIZE, (i + 1) * PCM_INFO_SIZE) =~= last);
    }
}

/// A request that is carried on by an action is answered by the worker of the backend: with
/// success, or as a bad message where the stream refuses to be released. The answer goes where
/// the driver made room for it, and gives the chain of the request back.
pub proof fn law_deferred_request_is_answered(
    env: ControlEnv,
    chain: ChainView,
    trace: ControlTrace,
    worker: WorkerView,
    streams: Seq<StreamView>,
)
    requires
        trace.explains(env, chain),
        trace.result == Ok::<bool, Error>(false),
        worker.wf(),
        can_handle(worker, streams, trace.effects.sent[0]),
    ensures
        ({
            let action = trace.effects.sent[0];
            let outcome = handled(worker, streams, action).outcome;
            let refused = action is Release && !streams[stream_of(action)].state.allows(
                PCMState::Release,
            );
            &&& outcome is Ok
            &&& to_be_answered(outcome->Ok_0) matches Some(message)
            &&& message.desc_addr == chain.descriptors[1].addr
            &&& message.head_index == chain.index
            &&& message.reply() == VirtioSoundHeader {
                code: if refused {
                    VIRTIO_SND_S_BAD_MSG
                } else {
                    VIRTIO_SND_S_OK
                },
            }.bytes()
        }),
{
    law_request_is_answered_once(env, chain, trace);
}

/// How many actions carry a request.
pub open spec fn carrying(actions: Seq<PwAction>) -> nat
    decreases actions.len(),
{
    if actions.len() == 0 {
        0
    } else {
        carrying(actions.drop_last()) + if carried(actions.last()) is Some {
            1nat
        } else {
            0nat
        }
    }
}

/// Every request is accounted for: its chain is given back at once, it is carried on by an action,
/// or it fails.
pub proof fn law_every_request_is_accounted_for(
    steps: Seq<ControlTrace>,
    env: ControlEnv,
    chains: Seq<ChainView>,
)
    requires
        control::explained(steps, env, chains),
    ensures
        control::total(steps).used.len() + carrying(control::total(steps).sent) + control::errors(
            steps,
        ).len() == chains.len(),
        forall|i: int|
            0 <= i < control::total(steps).used.len() ==> exists|j: int|
                0 <= j < chains.len() && (#[trigger] chains[j]).index == (
                #[trigger] control::total(steps).used[i]).0,
    decreases steps.len(),
{
    if steps.len() > 0 {
        let n = steps.len() - 1;
        let fewer = steps.drop_last();
        let others = chains.drop_last();
        assert forall|i: int| 0 <= i < fewer.len() implies #[trigger] fewer[i].explains(
            env,
            others[i],
        ) by {
            assert(steps[i].explains(env, chains[i]));
        }
        law_every_request_is_accounted_for(fewer, env, others);
        let last = steps.last();
        assert(steps[n].explains(env, chains[n]));
        law_request_is_answered_once(env, chains[n], last);
        law_only_existing_streams_are_asked_for(env, chains[n], last);
        let before = control::total(fewer);
        let all = control::total(steps);
        if last.effects.sent.len() == 1 {
            assert(all.sent.drop_last() =~= before.sent);
        } else {
            assert(all.sent =~= before.sent);
        }
        assert forall|i: int| 0 <= i < all.used.len() implies exists|j: int|
            0 <= j < chains.len() && (#[trigger] chains[j]).index == (#[trigger] all.used[i]).0 by {
            if i < before.used.len() {
                assert(all.used[i] == before.used[i]);
                let j = choose|j: int|
                    0 <= j < others.len() && (#[trigger] others[j]).index == before.used[i].0;
                assert(chains[j].index == all.used[i].0);
            } else {
                assert(all.used[i] == last.effects.used[0]);
                assert(chains[n].index == all.used[i].0);
            }
        }
    }
}

/// What holds of a transfer however far it has been read.
pub(crate) proof fn lemma_transfer_so_far(
    env: TransmitEnv,
    chain: ChainView,
    count: nat,
    answers: Seq<(u64, Seq<u8>)>,
)
    ensures
        ({
            let transfer = advanced(env, chain, count, answers);
            &&& pieces_of(transfer.pending, chain)
            &&& pieces_of(transfer.queued, chain)
            &&& transfer.queued.len() > 0 ==> {
                &&& transfer.pending.len() == 0
                &&& transfer.phase is Done
                &&& transfer.stream matches Some(id)
                &&& id < env.streams.len()
            }
            &&& transfer.phase matches TxPhase::WaitingBufferForStreamId(id) ==> transfer.stream
                == Some(id)
            &&& transfer.phase is Ready || transfer.phase is Done ==> transfer.pending.len() == 0
            &&& transfer.error != Some(Error::SendNotificationFailed)
            &&& forall|i: int|
                0 <= i < transfer.pending.len() ==> (#[trigger] transfer.pending[i]).pos == 0
            &&& forall|i: int|
                0 <= i < transfer.queued.len() ==> (#[trigger] transfer.queued[i]).pos == 0
        }),
    decreases count,
{
    if count > 0 {
        lemma_transfer_so_far(env, chain, (count - 1) as nat, answers);
    }
}

/// A transfer is answered once at most: its pieces are all handed to the stream, and the first of
/// them answers for all when it has been played; or they are all dropped, and the chain is given
/// back.
pub proof fn law_transfer_is_answered_once(env: TransmitEnv, chain: ChainView, trace: TransmitTrace)
    requires
        trace.explains(env, chain),
    ensures
        ({
            let transfer = advanced(env, chain, chain.descriptors.len(), trace.effects.reads);
            &&& pieces_of(transfer.queued, chain)
            &&& trace.effects.used.len() <= 1
            &&& trace.effects.used.len() == 1 ==> {
                &&& trace.effects.used[0] == (chain.index, STATUS_SIZE as u32)
                &&& transfer.queued.len() == 0
                &&& trace.answer == Ok::<bool, Error>(true)
            }
            &&& trace.answer == Ok::<bool, Error>(true) ==> trace.effects.used.len() == 1
        }),
{
    lemma_transfer_so_far(env, chain, chain.descriptors.len(), trace.effects.reads);
}

/// A transfer changes nothing of a stream but that pieces of which nothing has been played are
/// added behind those that wait on it, and no stream but the one that it is for.
pub proof fn law_transfer_only_adds_buffers(
    env: TransmitEnv,
    chain: ChainView,
    trace: TransmitTrace,
    i: int,
)
    requires
        trace.explains(env, chain),
        0 <= i < env.streams.len(),
    ensures
        ({
            let transfer = advanced(env, chain, chain.descriptors.len(), trace.effects.reads);
            &&& trace.streams.len() == env.streams.len()
            &&& unplayed(transfer.queued)
            &&& trace.streams[i] == (StreamView {
                buffers: if transfer.stream matches Some(id) && id == i {
                    env.streams[i].buffers + transfer.queued
                } else {
                    env.streams[i].buffers
                },
                ..env.streams[i]
            })
        }),
{
    let transfer = advanced(env, chain, chain.descriptors.len(), trace.effects.reads);
    lemma_transfer_so_far(env, chain, chain.descriptors.len(), trace.effects.reads);
    if transfer.queued.len() == 0 {
        assert(env.streams[i].buffers + transfer.queued =~= env.streams[i].buffers);
    }
}

/// The audio backend is told of nothing but a transfer without errors, and then once.
pub proof fn law_backend_is_told_of_good_transfers(
    env: TransmitEnv,
    chain: ChainView,
    trace: TransmitTrace,
)
    requires
        trace.explains(env, chain),
    ensures
        ({
            let transfer = advanced(env, chain, chain.descriptors.len(), trace.effects.reads);
            &&& trace.effects.sent.len() <= 1
            &&& trace.effects.sent.len() == 1 ==> {
                &&& trace.result == Ok::<bool, Error>(false)
                &&& transfer.error is None
                &&& transfer.stream matches Some(id)
                &&& trace.effects.sent[0] == PwAction::Write(id as usize)
            }
            &&& trace.result == Ok::<bool, Error>(false) && transfer.stream is Some
                ==> trace.effects.sent.len() == 1
            &&& trace.result == Err::<bool, Error>(Error::SendNotificationFailed) ==> {
                &&& transfer.stream matches Some(id)
                &&& trace.effects.refused == seq![PwAction::Write(id as usize)]
            }
            &&& trace.effects.refused.len() > 0 ==> trace.result == Err::<bool, Error>(
                Error::SendNotificationFailed,
            )
        }),
{
    lemma_transfer_so_far(env, chain, chain.descriptors.len(), trace.effects.reads);
}

/// A consistent worker stays so when a transfer is taken from the driver.
pub proof fn law_transfer_keeps_worker_consistent(
    worker: WorkerView,
    env: TransmitEnv,
    chain: ChainView,
    trace: TransmitTrace,
)
    requires
        consistent(worker, env.streams),
        trace.explains(env, chain),
    ensures
        consistent(worker, trace.streams),
{
    let transfer = advanced(env, chain, chain.descriptors.len(), trace.effects.reads);
    lemma_transfer_so_far(env, chain, chain.descriptors.len(), trace.effects.reads);
    assert forall|i: int| 0 <= i < trace.streams.len() implies {
        &&& needs_connection((#[trigger] trace.streams[i]).state) ==> worker.listeners[i] is Some
        &&& unplayed(trace.streams[i].buffers)
    } by {
        law_transfer_only_adds_buffers(env, chain, trace, i);
        assert(unplayed(env.streams[i].buffers));
    }
}

/// Is this a piece of data that can be read?
pub open spec fn is_piece(mapped: Set<u64>, descriptor: Descriptor) -> bool {
    !descriptor.write_only && descriptor.len != XFER_SIZE && mapped.contains(descriptor.addr)
}

/// Is this a transfer as it should be: a head that can be read, pieces of data that can be read,
/// and room for the status?
pub open spec fn well_formed(mapped: Set<u64>, descriptors: Seq<Descriptor>) -> bool {
    let n = descriptors.len();
    &&& n >= 2
    &&& !descriptors[0].write_only
    &&& descriptors[0].len == XFER_SIZE
    &&& fits(mapped, descriptors[0].addr, XFER_SIZE as nat)
    &&& descriptors[n - 1].write_only
    &&& descriptors[n - 1].len == STATUS_SIZE
    &&& forall|i: int| 1 <= i < n - 1 ==> is_piece(mapped, #[trigger] descriptors[i])
}

/// A well-formed transfer of which the head and some pieces have been read.
proof fn lemma_well_formed_so_far(
    env: TransmitEnv,
    chain: ChainView,
    count: nat,
    answers: Seq<(u64, Seq<u8>)>,
)
    requires
        well_formed(env.mapped, chain.descriptors),
        1 <= count < chain.descriptors.len(),
    ensures
        ({
            let transfer = advanced(env, chain, count, answers);
            let id = VirtioSoundPcmXfer::parse(answers[0].1).stream_id;
            &&& transfer.phase == TxPhase::WaitingBufferForStreamId(id)
            &&& transfer.stream == Some(id)
            &&& transfer.error is None
            &&& transfer.reads.len() == count
            &&& transfer.queued.len() == 0
            &&& transfer.pending.len() == count - 1
            &&& forall|i: int|
                0 <= i < count - 1 ==> #[trigger] transfer.pending[i] == piece(
                    chain,
                    chain.descriptors[i + 1],
                    answers[i + 1].1,
                    i == 0,
                )
        }),
    decreases count,
{
    if count > 1 {
        lemma_well_formed_so_far(env, chain, (count - 1) as nat, answers);
        assert(is_piece(env.mapped, chain.descriptors[count - 1]));
    } else {
        assert(advanced(env, chain, 0, answers).error is None);
    }
}

/// A well-formed transfer to a stream that exists succeeds: each piece of it is handed to the
/// stream with the bytes that were read, in order, and the audio backend is told, unless its
/// worker is gone.
pub proof fn law_well_formed_transfer_is_queued(
    env: TransmitEnv,
    chain: ChainView,
    trace: TransmitTrace,
)
    requires
        trace.explains(env, chain),
        well_formed(env.mapped, chain.descriptors),
        VirtioSoundPcmXfer::parse(trace.effects.reads[0].1).stream_id < env.streams.len(),
    ensures
        ({
            let id = VirtioSoundPcmXfer::parse(trace.effects.reads[0].1).stream_id as int;
            let before = env.streams[id].buffers;
            let after = trace.streams[id].buffers;
            let count = chain.descriptors.len() - 2;
            &&& trace.result == Ok::<bool, Error>(false) || trace.result == Err::<bool, Error>(
                Error::SendNotificationFailed,
            )
            &&& trace.effects.used.len() == 0
            &&& after.len() == before.len() + count
            &&& after.take(before.len() as int) == before
            &&& forall|i: int|
                0 <= i < count ==> #[trigger] after[before.len() + i] == piece(
                    chain,
                    chain.descriptors[i + 1],
                    trace.effects.reads[i + 1].1,
                    i == 0,
                )
        }),
{
    let n = chain.descriptors.len();
    let reads = trace.effects.reads;
    lemma_well_formed_so_far(env, chain, (n - 1) as nat, reads);
    let transfer = advanced(env, chain, n, reads);
    let pending = advanced(env, chain, (n - 1) as nat, reads).pending;
    assert(transfer.queued == pending);
    let id = VirtioSoundPcmXfer::parse(reads[0].1).stream_id as int;
    let before = env.streams[id].buffers;
    law_transfer_only_adds_buffers(env, chain, trace, id);
    assert(trace.streams[id].buffers == before + pending);
    assert((before + pending).take(before.len() as int) =~= before);
    assert forall|i: int| 0 <= i < n - 2 implies #[trigger] trace.streams[id].buffers[before.len()
        + i] == piece(chain, chain.descriptors[i + 1], reads[i + 1].1, i == 0) by {
        assert(pending[i] == piece(chain, chain.descriptors[i + 1], reads[i + 1].1, i == 0));
    }
}

/// What waits on a stream when the backend is told of it comes to stand at the end of the current
/// ready queue, in order.
pub proof fn law_told_data_gets_ready(worker: WorkerView, streams: Seq<StreamView>, id: usize)
    requires
        worker.wf(),
        id < streams.len(),
    ensures
        ({
            let step = handled(worker, streams, PwAction::Write(id));
            &&& step.worker.queues[worker.current] == worker.queues[worker.current]
                + streams[id as int].buffers
            &&& step.streams[id as int].buffers.len() == 0
        }),
{
}

/// Over any number of transfers, the driver is interrupted once for every chain that is given
/// back.
pub proof fn law_interrupts_match_chains_given_back(
    steps: Seq<TransmitTrace>,
    env: TransmitEnv,
    chains: Seq<ChainView>,
)
    requires
        transmit::explained(steps, env, chains),
    ensures
        transmit::total(steps).used.len() == transmit::interrupts(steps),
    decreases steps.len(),
{
    if steps.len() > 0 {
        let n = steps.len() - 1;
        let fewer = steps.drop_last();
        assert forall|i: int| 0 <= i < fewer.len() implies #[trigger] transmit::explained_at(
            fewer,
            env,
            chains.drop_last(),
            i,
        ) by {
            assert(fewer.take(i) =~= steps.take(i));
            assert(transmit::explained_at(steps, env, chains, i));
        }
        law_interrupts_match_chains_given_back(fewer, env, chains.drop_last());
        assert(transmit::explained_at(steps, env, chains, n));
        let found = TransmitEnv {
            streams: transmit::streams_at_end(steps.take(n), env.streams),
            ..env
        };
        law_transfer_is_answered_once(found, chains[n], steps.last());
    }
}

/// The configuration space reads the same in two parts as at once.
pub proof fn law_config_reads_in_parts(offset: u64, first: nat, second: nat)
    requires
        offset + first <= u64::MAX,
    ensures
        config_bytes(offset, first + second) == config_bytes(offset, first) + config_bytes(
            (offset + first) as u64,
            second,
        ),
{
    assert(config().bytes().len() == CONFIG_SIZE);
    assert(config_bytes(offset, first + second) =~= config_bytes(offset, first) + config_bytes(
        (offset + first) as u64,
        second,
    ));
}

/// A queue that was put to use interrupts the driver as the device does.
pub proof fn law_queues_signal_as_the_device(device: Snd, vring: Vring, index: int)
    requires
        device.in_use(Some(vring), index),
    ensures
        vring.signal() == used_queue_signal(device.intc, device.irq_line),
{
}

/// A new stream supports unsigned samples of 8 bits and signed ones of 16, 24 and 32 bits, and no
/// others.
pub proof fn law_supported_formats(format: u8)
    ensures
        has_bit(SUPPORTED_FORMATS, format) <==> format == VIRTIO_SND_PCM_FMT_U8 || format
            == VIRTIO_SND_PCM_FMT_S16 || format == VIRTIO_SND_PCM_FMT_S24 || format
            == VIRTIO_SND_PCM_FMT_S32,
{
    let bits = SUPPORTED_FORMATS;
    assert(bits == (1u64 << 4u8 | 1u64 << 5u8 | 1u64 << 15u8 | 1u64 << 17u8));
    assert(format < 64 ==> ((1u64 << 4u8 | 1u64 << 5u8 | 1u64 << 15u8 | 1u64 << 17u8) & (1u64
        << format) != 0 <==> format == 4 || format == 5 || format == 15 || format == 17))
        by (bit_vector);
}

/// A new stream supports the rates from 8000 to 48000 frames a second, and no others.
pub proof fn law_supported_rates(rate: u8)
    ensures
        has_bit(SUPPORTED_RATES, rate) <==> VIRTIO_SND_PCM_RATE_8000 <= rate
            <= VIRTIO_SND_PCM_RATE_48000,
{
    let bits = SUPPORTED_RATES;
    assert(bits == (1u64 << 1u8 | 1u64 << 2u8 | 1u64 << 3u8 | 1u64 << 4u8 | 1u64 << 5u8 | 1u64
        << 6u8 | 1u64 << 7u8));
    assert(rate < 64 ==> ((1u64 << 1u8 | 1u64 << 2u8 | 1u64 << 3u8 | 1u64 << 4u8 | 1u64 << 5u8
        | 1u64 << 6u8 | 1u64 << 7u8) & (1u64 << rate) != 0 <==> 1 <= rate <= 7)) by (bit_vector);
}

/// The streams of a new device fit a new worker.
pub proof fn law_new_device_fits_new_worker(worker: WorkerView)
    requires
        worker.wf(),
        worker.listeners.len() == initial_streams().len(),
        worker.queues == map![0u64 => Seq::<BufferView>::empty()],
    ensures
        consistent(worker, initial_streams()),
{
}

} // verus!
