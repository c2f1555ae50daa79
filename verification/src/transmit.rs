//! Data transfers on the transmit queue.
//!
//! A transfer is a chain of descriptors: a head that names the stream, the data in any number of
//! pieces, and room for the status.
use crate::audio_backends::pipewire::{PwAction, PwBackend};
use crate::audio_backends::AudioBackend;
use crate::error::Error;
use crate::guest_memory::{fits, guest, mapped_len, read_exact, read_mapped};
use crate::message::IOMessage;
use crate::queue::{ChainView, Descriptor, DescriptorChain, QueueView};
use crate::stream::{stream_views, views, Buffer, BufferView, Stream, StreamView};
use crate::trace::{
    effects, lemma_plus_assoc, lemma_plus_none, lemma_plus_since, lemma_stored, stored, Effects,
};
use crate::virtio_sound::{
    VirtioSoundPcmStatus, VirtioSoundPcmXfer, STATUS_SIZE, VIRTIO_SND_S_OK, XFER_SIZE,
};
use crate::vring::{Signal, Vring};
use std::collections::VecDeque;
use vm_memory::GuestMemoryMmap;
use vstd::prelude::*;

verus! {

/// How far a transfer has been read.
#[derive(Clone, Copy, Debug, PartialEq, Eq, Structural)]
pub enum TxPhase {
    /// The head comes next.
    Ready,
    /// A piece of data for this stream comes next, or the room for the status.
    WaitingBufferForStreamId(u32),
    /// Nothing may follow.
    Done,
}

/// What a transfer meets: the mapped memory and the streams.
#[verifier::ext_equal]
pub struct TransmitEnv {
    pub mapped: Set<u64>,
    pub streams: Seq<StreamView>,
}

/// A transfer of which some descriptors have been looked at.
#[verifier::ext_equal]
pub struct Transfer {
    /// How far it has been read.
    pub phase: TxPhase,
    /// The stream it is for, once the head has been read.
    pub stream: Option<u32>,
    /// The pieces read so far that have not been handed to the stream.
    pub pending: Seq<BufferView>,
    /// The pieces that have been handed to the stream.
    pub queued: Seq<BufferView>,
    /// What was read.
    pub reads: Seq<(u64, Seq<u8>)>,
    /// Whether every read gave back as many bytes as the mapping lets it.
    pub sized: bool,
    /// Why the rest is not looked at.
    pub error: Option<Error>,
}

/// A transfer of which nothing has been looked at.
pub open spec fn untouched() -> Transfer {
    Transfer {
        phase: TxPhase::Ready,
        stream: None,
        pending: Seq::empty(),
        queued: Seq::empty(),
        reads: Seq::empty(),
        sized: true,
        error: None,
    }
}

/// The piece of data that a descriptor holds. The first piece of a transfer answers for all.
pub open spec fn piece(
    chain: ChainView,
    descriptor: Descriptor,
    data: Seq<u8>,
    first: bool,
) -> BufferView {
    BufferView {
        data,
        pos: 0,
        message: IOMessage {
            status: VIRTIO_SND_S_OK,
            desc_addr: chain.addr,
            head_index: chain.index,
            data_addr: descriptor.addr,
            data_len: descriptor.len,
            notify: first,
        },
    }
}

/// A transfer after one more descriptor, given what a read at it gives back.
pub open spec fn looked_at(
    env: TransmitEnv,
    chain: ChainView,
    transfer: Transfer,
    descriptor: Descriptor,
    answer: Seq<u8>,
) -> Transfer {
    match transfer.phase {
        TxPhase::Done => Transfer {
            error: Some(Error::UnexpectedDescriptorCount(chain.descriptors.len() as usize)),
            ..transfer
        },
        TxPhase::Ready => if descriptor.write_only {
            if descriptor.len != STATUS_SIZE {
                Transfer {
                    error: Some(Error::UnexpectedDescriptorSize(STATUS_SIZE, descriptor.len)),
                    ..transfer
                }
            } else {
                Transfer { phase: TxPhase::Done, ..transfer }
            }
        } else if descriptor.len != XFER_SIZE {
            Transfer {
                error: Some(Error::UnexpectedDescriptorSize(XFER_SIZE, descriptor.len)),
                ..transfer
            }
        } else if !fits(env.mapped, descriptor.addr, XFER_SIZE as nat) {
            Transfer { error: Some(Error::DescriptorReadFailed), ..transfer }
        } else {
            let id = VirtioSoundPcmXfer::parse(answer).stream_id;
            Transfer {
                phase: TxPhase::WaitingBufferForStreamId(id),
                stream: Some(id),
                reads: transfer.reads.push((descriptor.addr, answer)),
                sized: transfer.sized && answer.len() == XFER_SIZE,
                ..transfer
            }
        },
        TxPhase::WaitingBufferForStreamId(id) => if descriptor.write_only {
            if descriptor.len != STATUS_SIZE {
                Transfer {
                    error: Some(Error::UnexpectedDescriptorSize(STATUS_SIZE, descriptor.len)),
                    ..transfer
                }
            } else if transfer.pending.len() > 0 && id >= env.streams.len() {
                Transfer { error: Some(Error::StreamWithIdNotFound(id)), ..transfer }
            } else {
                Transfer {
                    phase: TxPhase::Done,
                    pending: Seq::empty(),
                    queued: transfer.pending,
                    ..transfer
                }
            }
        } else if descriptor.len == XFER_SIZE {
            Transfer {
                error: Some(
                    if id >= env.streams.len() {
                        Error::StreamWithIdNotFound(id)
                    } else {
                        Error::UnexpectedDescriptorSize(
                            env.streams[id as int].params.buffer_bytes as usize,
                            descriptor.len,
                        )
                    },
                ),
                ..transfer
            }
        } else if !env.mapped.contains(descriptor.addr) {
            Transfer { error: Some(Error::DescriptorReadFailed), ..transfer }
        } else {
            Transfer {
                pending: transfer.pending.push(
                    piece(chain, descriptor, answer, transfer.pending.len() == 0),
                ),
                reads: transfer.reads.push((descriptor.addr, answer)),
                sized: transfer.sized && answer.len() == mapped_len(
                    env.mapped,
                    descriptor.addr as int,
                    descriptor.len as nat,
                ),
                ..transfer
            }
        },
    }
}

/// A transfer after its first `count` descriptors, given what the reads gave back. After an
/// error no more descriptors are looked at.
pub open spec fn advanced(
    env: TransmitEnv,
    chain: ChainView,
    count: nat,
    answers: Seq<(u64, Seq<u8>)>,
) -> Transfer
    decreases count,
{
    if count == 0 {
        untouched()
    } else {
        let before = advanced(env, chain, (count - 1) as nat, answers);
        if before.error is Some {
            before
        } else {
            looked_at(
                env,
                chain,
                before,
                chain.descriptors[count - 1],
                answers[before.reads.len() as int].1,
            )
        }
    }
}

/// The streams after a transfer.
pub open spec fn streams_after(streams: Seq<StreamView>, transfer: Transfer) -> Seq<StreamView> {
    match transfer.stream {
        Some(id) if transfer.queued.len() > 0 => streams.update(
            id as int,
            StreamView {
                buffers: streams[id as int].buffers + transfer.queued,
                ..streams[id as int]
            },
        ),
        _ => streams,
    }
}

/// One transfer from beginning to end.
#[verifier::ext_equal]
pub struct TransmitTrace {
    /// What was done.
    pub effects: Effects,
    /// The streams afterwards.
    pub streams: Seq<StreamView>,
    /// What came of it: whether the chain was given back, or why the transfer failed.
    pub result: Result<bool, Error>,
    /// The answer to a transfer that ended before it was played: whether the driver is to be
    /// interrupted, or that the answer could not be written.
    pub answer: Result<bool, Error>,
}

/// A transfer from beginning to end, given what the reads gave back. Pieces that were not handed
/// to a stream are dropped, which ends the transfer. `delivered` tells whether the worker of the
/// backend was there to be told of the data; that is tried in any case.
pub open spec fn transferred(
    env: TransmitEnv,
    chain: ChainView,
    answers: Seq<(u64, Seq<u8>)>,
    delivered: bool,
) -> TransmitTrace {
    let transfer = advanced(env, chain, chain.descriptors.len(), answers);
    let told = match transfer.stream {
        Some(id) if transfer.error is None => seq![PwAction::Write(id as usize)],
        _ => Seq::empty(),
    };
    let dropped = transfer.pending.len() > 0;
    let answerable = fits(env.mapped, chain.addr, STATUS_SIZE as nat);
    let status = VirtioSoundPcmStatus { status: VIRTIO_SND_S_OK, latency_bytes: 0 };
    TransmitTrace {
        effects: Effects {
            reads: transfer.reads,
            writes: if dropped {
                stored(env.mapped, chain.addr, status.bytes())
            } else {
                Seq::empty()
            },
            sent: if delivered {
                told
            } else {
                Seq::empty()
            },
            refused: if delivered {
                Seq::empty()
            } else {
                told
            },
            used: if dropped && answerable {
                seq![(chain.index, STATUS_SIZE as u32)]
            } else {
                Seq::empty()
            },
        },
        streams: streams_after(env.streams, transfer),
        result: match transfer.error {
            Some(error) => Err(error),
            None => if told.len() > 0 && !delivered {
                Err(Error::SendNotificationFailed)
            } else {
                Ok(false)
            },
        },
        answer: if dropped && !answerable {
            Err(Error::DescriptorWriteFailed)
        } else {
            Ok(dropped)
        },
    }
}

impl TransmitTrace {
    /// Is this what comes of the transfer in `chain`?
    pub open spec fn explains(self, env: TransmitEnv, chain: ChainView) -> bool {
        &&& advanced(env, chain, chain.descriptors.len(), self.effects.reads).sized
        &&& self == transferred(
            env,
            chain,
            self.effects.reads,
            self.result != Err::<bool, Error>(Error::SendNotificationFailed),
        )
    }
}

/// What came of a transfer.
#[derive(Clone, Copy, Debug, PartialEq, Eq)]
pub struct TransmitReport {
    /// Whether the chain was given back, or why the transfer failed.
    pub result: Result<bool, Error>,
    /// The interrupt for a transfer that ended before it was played, or why the answer to it
    /// could not be written.
    pub answer: Result<Option<Signal>, Error>,
}

/// The answer as it stands in a [`TransmitTrace`].
pub open spec fn answered(answer: Result<Option<Signal>, Error>) -> Result<bool, Error> {
    match answer {
        Ok(signal) => Ok(signal is Some),
        Err(error) => Err(error),
    }
}

/// Later answers do not change what was made of the earlier ones.
proof fn lemma_advanced_prefix(
    env: TransmitEnv,
    chain: ChainView,
    count: nat,
    answers: Seq<(u64, Seq<u8>)>,
    more: Seq<(u64, Seq<u8>)>,
)
    requires
        advanced(env, chain, count, answers).reads.len() <= answers.len(),
        answers.len() <= more.len(),
        forall|i: int| 0 <= i < answers.len() ==> answers[i] == more[i],
    ensures
        advanced(env, chain, count, answers) == advanced(env, chain, count, more),
    decreases count,
{
    if count > 0 {
        lemma_advanced_prefix(env, chain, (count - 1) as nat, answers, more);
    }
}

/// After an error no more descriptors are looked at.
pub proof fn lemma_advanced_error(
    env: TransmitEnv,
    chain: ChainView,
    count: nat,
    total: nat,
    answers: Seq<(u64, Seq<u8>)>,
)
    requires
        count <= total,
        advanced(env, chain, count, answers).error is Some,
    ensures
        advanced(env, chain, total, answers) == advanced(env, chain, count, answers),
    decreases total,
{
    if count < total {
        lemma_advanced_error(env, chain, count, (total - 1) as nat, answers);
    }
}

/// Are these pieces of the transfer in `chain`, from the first one on?
pub open spec fn pieces_of(buffers: Seq<BufferView>, chain: ChainView) -> bool {
    forall|i: int|
        0 <= i < buffers.len() ==> {
            let message = (#[trigger] buffers[i]).message;
            &&& message.status == VIRTIO_SND_S_OK
            &&& message.desc_addr == chain.addr
            &&& message.head_index == chain.index
            &&& message.notify == (i == 0)
        }
}

/// Drops the pieces of a transfer, which ends it.
fn drop_pieces(
    buffers: VecDeque<Buffer>,
    mem: &mut GuestMemoryMmap,
    vring: &mut Vring,
    Ghost(chain): Ghost<ChainView>,
) -> (res: Result<Option<Signal>, Error>)
    requires
        pieces_of(views(buffers@), chain),
    ensures
        final(vring).intc == old(vring).intc,
        final(vring).irq_line == old(vring).irq_line,
        guest(*final(mem)).mapped == guest(*old(mem)).mapped,
        guest(*final(mem)).reads == guest(*old(mem)).reads,
        final(vring).queue@ == (QueueView {
            used: final(vring).queue@.used,
            ..old(vring).queue@
        }),
        ({
            let mapped = guest(*old(mem)).mapped;
            let status = VirtioSoundPcmStatus { status: VIRTIO_SND_S_OK, latency_bytes: 0 };
            let dropped = buffers@.len() > 0;
            let answerable = fits(mapped, chain.addr, STATUS_SIZE as nat);
            &&& guest(*final(mem)).writes == guest(*old(mem)).writes + if dropped {
                stored(mapped, chain.addr, status.bytes())
            } else {
                Seq::empty()
            }
            &&& final(vring).queue@.used == old(vring).queue@.used + if dropped && answerable {
                seq![(chain.index, STATUS_SIZE as u32)]
            } else {
                Seq::empty()
            }
            &&& res == if !dropped {
                Ok::<Option<Signal>, Error>(None)
            } else if answerable {
                Ok(Some(old(vring).signal()))
            } else {
                Err(Error::DescriptorWriteFailed)
            }
        }),
{
    let mut buffers = buffers;
    let ghost all = views(buffers@);
    let ghost before = (guest(*mem), vring.queue@);
    let res = match buffers.pop_front() {
        Some(first) => {
            assert(all[0] == first@);
            first.message.complete(mem, vring)
        },
        None => Ok(None),
    };
    let ghost after = (guest(*mem), vring.queue@);
    let ghost signal = (vring.intc, vring.irq_line);
    let ghost mut done: int = 1;
    assert(all.len() > 0 ==> views(buffers@) =~= all.skip(1));
    while buffers.len() > 0
        invariant
            done >= 1,
            buffers@.len() > 0 ==> views(buffers@) == all.skip(done) && done < all.len(),
            pieces_of(all, chain),
            (guest(*mem), vring.queue@) == after,
            (vring.intc, vring.irq_line) == signal,
        decreases buffers@.len(),
    {
        let ghost now = buffers@;
        if let Some(buffer) = buffers.pop_front() {
            assert(views(now)[0] == buffer@);
            assert(all[done] == buffer@);
            assert(views(buffers@) =~= views(now).skip(1));
            assert(all.skip(done).skip(1) =~= all.skip(done + 1));
            let _ = buffer.message.complete(mem, vring);
            proof {
                done = done + 1;
            }
        }
    }
    proof {
        let status = VirtioSoundPcmStatus { status: VIRTIO_SND_S_OK, latency_bytes: 0 };
        assert(status.bytes().len() == STATUS_SIZE);
        if all.len() > 0 {
            assert(all[0].message.notify);
            lemma_stored(before.0.writes, before.0.mapped, chain.addr, status.bytes());
        }
        assert(before.0.writes + Seq::<(u64, Seq<u8>)>::empty() =~= before.0.writes);
        assert(before.1.used + Seq::<(u16, u32)>::empty() =~= before.1.used);
        assert(before.1.used + seq![(chain.index, STATUS_SIZE as u32)] =~= before.1.used.push(
            (chain.index, STATUS_SIZE as u32),
        ));
    }
    res
}

/// Deals with one transfer. Data that comes with a status descriptor is handed to its stream,
/// and the backend is told of it; the transfer is answered once it has been played.
pub fn process_transfer(
    backend: &mut PwBackend,
    streams: &mut Vec<Stream>,
    mem: &mut GuestMemoryMmap,
    vring: &mut Vring,
    head: &DescriptorChain,
) -> (report: TransmitReport)
    requires
        old(backend).wf(),
    ensures
        final(backend).wf(),
        final(backend).feeds_as(*old(backend)),
        guest(*final(mem)).mapped == guest(*old(mem)).mapped,
        final(vring).intc == old(vring).intc,
        final(vring).irq_line == old(vring).irq_line,
        final(vring).queue@ == (QueueView {
            used: final(vring).queue@.used,
            ..old(vring).queue@
        }),
        report.answer matches Ok(Some(signal)) ==> signal == old(vring).signal(),
        report.result != Ok::<bool, Error>(true),
        ({
            let env = TransmitEnv {
                mapped: guest(*old(mem)).mapped,
                streams: stream_views(old(streams)@),
            };
            let before = effects(*old(mem), *old(backend), old(vring).queue);
            let all = effects(*final(mem), *final(backend), final(vring).queue);
            &&& all == before.plus(all.since(before))
            &&& (TransmitTrace {
                effects: all.since(before),
                streams: stream_views(final(streams)@),
                result: report.result,
                answer: answered(report.answer),
            }).explains(env, head@)
        }),
{
    let ghost chain = head@;
    let ghost env = TransmitEnv {
        mapped: guest(*mem).mapped,
        streams: stream_views(streams@),
    };
    let ghost before = effects(*mem, *backend, vring.queue);
    let ghost mut reads: Seq<(u64, Seq<u8>)> = Seq::empty();
    let count: usize = head.descriptors.len();
    let mut phase = TxPhase::Ready;
    let mut stream: Option<u32> = None;
    let mut buffers: VecDeque<Buffer> = VecDeque::new();
    let mut error: Option<Error> = None;
    let mut i: usize = 0;
    assert(views(buffers@) =~= Seq::<BufferView>::empty());
    assert(before.reads + reads =~= before.reads);
    while i < count && error.is_none()
        invariant
            i <= count,
            count == head.descriptors@.len(),
            chain == head@,
            guest(*mem).mapped == env.mapped,
            guest(*mem).writes == before.writes,
            guest(*mem).reads == before.reads + reads,
            ({
                let transfer = advanced(env, chain, i as nat, reads);
                &&& transfer.phase == phase
                &&& transfer.stream == stream
                &&& transfer.pending == views(buffers@)
                &&& transfer.reads == reads
                &&& transfer.sized
                &&& transfer.error == error
                &&& stream_views(streams@) == streams_after(env.streams, transfer)
                &&& !(phase is Done) ==> transfer.queued.len() == 0
            }),
            phase matches TxPhase::WaitingBufferForStreamId(id) ==> stream == Some(id),
            pieces_of(views(buffers@), chain),
        decreases count - i,
    {
        let ghost transfer = advanced(env, chain, i as nat, reads);
        let descriptor = head.descriptors[i];
        let ghost next = advanced(env, chain, (i + 1) as nat, reads);
        match phase {
            TxPhase::Done => {
                error = Some(Error::UnexpectedDescriptorCount(count));
            },
            TxPhase::Ready => {
                if descriptor.is_write_only() {
                    if descriptor.len as usize != STATUS_SIZE {
                        error = Some(Error::UnexpectedDescriptorSize(STATUS_SIZE, descriptor.len));
                    } else {
                        phase = TxPhase::Done;
                    }
                } else if descriptor.len as usize != XFER_SIZE {
                    error = Some(Error::UnexpectedDescriptorSize(XFER_SIZE, descriptor.len));
                } else {
                    match read_exact(mem, descriptor.addr, XFER_SIZE) {
                        Ok(bytes) => {
                            let id: u32 = VirtioSoundPcmXfer::from_slice(bytes.as_slice()).stream_id;
                            stream = Some(id);
                            phase = TxPhase::WaitingBufferForStreamId(id);
                            proof {
                                let more = reads.push((descriptor.addr, bytes@));
                                lemma_advanced_prefix(env, chain, i as nat, reads, more);
                                assert(before.reads + more =~= (before.reads + reads).push(
                                    (descriptor.addr, bytes@),
                                ));
                                reads = more;
                            }
                        },
                        Err(_) => {
                            error = Some(Error::DescriptorReadFailed);
                        },
                    }
                }
            },
            TxPhase::WaitingBufferForStreamId(id) => {
                assert(stream_views(streams@) == env.streams);
                if descriptor.is_write_only() {
                    if descriptor.len as usize != STATUS_SIZE {
                        error = Some(Error::UnexpectedDescriptorSize(STATUS_SIZE, descriptor.len));
                    } else if buffers.len() == 0 {
                        phase = TxPhase::Done;
                        assert(next.queued.len() == 0);
                    } else if id as usize >= streams.len() {
                        error = Some(Error::StreamWithIdNotFound(id));
                    } else {
                        let ghost now = streams@[id as int].buffers@;
                        let ghost added = buffers@;
                        assert(env.streams[id as int] == streams@[id as int]@);
                        let target = &mut streams[id as usize];
                        target.buffers.append(&mut buffers);
                        phase = TxPhase::Done;
                        proof {
                            assert(views(now + added) =~= views(now) + views(added));
                            assert(views(buffers@) =~= Seq::<BufferView>::empty());
                            assert(stream_views(streams@) =~= streams_after(env.streams, next));
                        }
                    }
                } else if descriptor.len as usize == XFER_SIZE {
                    if id as usize >= streams.len() {
                        error = Some(Error::StreamWithIdNotFound(id));
                    } else {
                        assert(env.streams[id as int] == streams@[id as int]@);
                        error = Some(
                            Error::UnexpectedDescriptorSize(
                                streams[id as usize].params.buffer_bytes as usize,
                                descriptor.len,
                            ),
                        );
                    }
                } else {
                    match read_mapped(mem, descriptor.addr, descriptor.len as usize) {
                        Ok(buf) => {
                            let ghost data = buf@;
                            let message = IOMessage {
                                status: VIRTIO_SND_S_OK,
                                desc_addr: head.addr,
                                head_index: head.index,
                                data_addr: descriptor.addr,
                                data_len: descriptor.len,
                                notify: buffers.len() == 0,
                            };
                            let ghost held = buffers@;
                            let buffer = Buffer::new(buf, message);
                            buffers.push_back(buffer);
                            proof {
                                assert(views(buffers@) =~= views(held).push(buffer@));
                                let more = reads.push((descriptor.addr, data));
                                lemma_advanced_prefix(env, chain, i as nat, reads, more);
                                assert(before.reads + more =~= (before.reads + reads).push(
                                    (descriptor.addr, data),
                                ));
                                reads = more;
                            }
                        },
                        Err(_) => {
                            error = Some(Error::DescriptorReadFailed);
                        },
                    }
                }
            },
        }
        i = i + 1;
    }
    let ghost transfer = advanced(env, chain, count as nat, reads);
    proof {
        if error is Some {
            lemma_advanced_error(env, chain, i as nat, count as nat, reads);
        }
    }
    let result = match error {
        Some(error) => Err(error),
        None => match stream {
            Some(id) => match backend.write(id) {
                Ok(_) => Ok(false),
                Err(error) => Err(error),
            },
            None => Ok(false),
        },
    };
    let answer = drop_pieces(buffers, mem, vring, Ghost(chain));
    proof {
        let all = effects(*mem, *backend, vring.queue);
        let trace = transferred(
            env,
            chain,
            reads,
            result != Err::<bool, Error>(Error::SendNotificationFailed),
        );
        assert(all =~= before.plus(trace.effects));
        lemma_plus_since(before, trace.effects);
    }
    TransmitReport { result, answer }
}

/// The effects of transfers, one after the other.
pub open spec fn total(steps: Seq<TransmitTrace>) -> Effects
    decreases steps.len(),
{
    if steps.len() == 0 {
        Effects::none()
    } else {
        total(steps.drop_last()).plus(steps.last().effects)
    }
}

/// The errors of transfers, in order: that of the transfer before that of the answer to it.
pub open spec fn errors(steps: Seq<TransmitTrace>) -> Seq<Error>
    decreases steps.len(),
{
    if steps.len() == 0 {
        Seq::empty()
    } else {
        let before = errors(steps.drop_last());
        let failed = match steps.last().result {
            Ok(_) => before,
            Err(error) => before.push(error),
        };
        match steps.last().answer {
            Ok(_) => failed,
            Err(error) => failed.push(error),
        }
    }
}

/// How many interrupts transfers ask for.
pub open spec fn interrupts(steps: Seq<TransmitTrace>) -> nat
    decreases steps.len(),
{
    if steps.len() == 0 {
        0
    } else {
        interrupts(steps.drop_last()) + if steps.last().answer == Ok::<bool, Error>(true) {
            1nat
        } else {
            0nat
        }
    }
}

/// The streams after transfers.
pub open spec fn streams_at_end(
    steps: Seq<TransmitTrace>,
    streams: Seq<StreamView>,
) -> Seq<StreamView> {
    if steps.len() == 0 {
        streams
    } else {
        steps.last().streams
    }
}

/// Is the step with this position what comes of the transfer in the chain with this position? It
/// finds the streams as the step before has left them.
pub open spec fn explained_at(
    steps: Seq<TransmitTrace>,
    env: TransmitEnv,
    chains: Seq<ChainView>,
    i: int,
) -> bool {
    steps[i].explains(
        TransmitEnv { streams: streams_at_end(steps.take(i), env.streams), ..env },
        chains[i],
    )
}

/// Is each step what comes of the transfer in the chain with the same position?
pub open spec fn explained(
    steps: Seq<TransmitTrace>,
    env: TransmitEnv,
    chains: Seq<ChainView>,
) -> bool {
    &&& steps.len() == chains.len()
    &&& forall|i: int| 0 <= i < steps.len() ==> #[trigger] explained_at(steps, env, chains, i)
}

/// What came of the transfers on the queue.
#[derive(Debug, PartialEq, Eq)]
pub struct TransmitRun {
    /// Whether a chain was given back at once, so that the driver is to be interrupted.
    pub have_used: bool,
    /// The errors, in order.
    pub errors: Vec<Error>,
    /// The interrupts to be raised for transfers that ended before they were played.
    pub signals: Vec<Signal>,
}

/// One more transfer.
proof fn lemma_one_more(
    steps: Seq<TransmitTrace>,
    step: TransmitTrace,
    env: TransmitEnv,
    chains: Seq<ChainView>,
)
    requires
        steps.len() < chains.len(),
        explained(steps, env, chains.take(steps.len() as int)),
        step.explains(
            TransmitEnv { streams: streams_at_end(steps, env.streams), ..env },
            chains[steps.len() as int],
        ),
    ensures
        explained(steps.push(step), env, chains.take(steps.push(step).len() as int)),
        steps.push(step).drop_last() == steps,
{
    let next = steps.push(step);
    assert(next.drop_last() =~= steps);
    assert forall|i: int| 0 <= i < next.len() implies #[trigger] explained_at(
        next,
        env,
        chains.take(next.len() as int),
        i,
    ) by {
        assert(next.take(i) =~= steps.take(i));
        if i < steps.len() {
            assert(explained_at(steps, env, chains.take(steps.len() as int), i));
        } else {
            assert(steps.take(i) =~= steps);
        }
    }
}

/// Deals with one more transfer, and adds what came of it to the run.
fn process_next(
    backend: &mut PwBackend,
    streams: &mut Vec<Stream>,
    mem: &mut GuestMemoryMmap,
    vring: &mut Vring,
    head: &DescriptorChain,
    run: &mut TransmitRun,
    Ghost(steps): Ghost<Seq<TransmitTrace>>,
    Ghost(env): Ghost<TransmitEnv>,
    Ghost(chains): Ghost<Seq<ChainView>>,
    Ghost(before): Ghost<Effects>,
) -> (step: Ghost<TransmitTrace>)
    requires
        old(backend).wf(),
        steps.len() < chains.len(),
        head@ == chains[steps.len() as int],
        guest(*old(mem)).mapped == env.mapped,
        explained(steps, env, chains.take(steps.len() as int)),
        stream_views(old(streams)@) == streams_at_end(steps, env.streams),
        effects(*old(mem), *old(backend), old(vring).queue) == before.plus(total(steps)),
        !old(run).have_used,
        old(run).errors@ == errors(steps),
        old(run).signals@.len() == interrupts(steps),
    ensures
        final(backend).wf(),
        final(backend).feeds_as(*old(backend)),
        guest(*final(mem)).mapped == env.mapped,
        final(vring).intc == old(vring).intc,
        final(vring).irq_line == old(vring).irq_line,
        final(vring).queue@ == (QueueView {
            used: final(vring).queue@.used,
            ..old(vring).queue@
        }),
        explained(steps.push(step@), env, chains.take(steps.push(step@).len() as int)),
        stream_views(final(streams)@) == streams_at_end(steps.push(step@), env.streams),
        effects(*final(mem), *final(backend), final(vring).queue) == before.plus(
            total(steps.push(step@)),
        ),
        !final(run).have_used,
        final(run).errors@ == errors(steps.push(step@)),
        final(run).signals@.len() == interrupts(steps.push(step@)),
        final(run).signals@ == old(run).signals@ || final(run).signals@ == old(run).signals@.push(
            old(vring).signal(),
        ),
{
    let ghost popped = effects(*mem, *backend, vring.queue);
    let report = process_transfer(backend, streams, mem, vring, head);
    let ghost step = TransmitTrace {
        effects: effects(*mem, *backend, vring.queue).since(popped),
        streams: stream_views(streams@),
        result: report.result,
        answer: answered(report.answer),
    };
    proof {
        lemma_plus_assoc(before, total(steps), step.effects);
        lemma_one_more(steps, step, env, chains);
    }
    match report.result {
        Ok(used) => {
            if used {
                run.have_used = true;
            }
        },
        Err(error) => {
            run.errors.push(error);
        },
    }
    match report.answer {
        Ok(Some(signal)) => {
            run.signals.push(signal);
        },
        Ok(None) => {},
        Err(error) => {
            run.errors.push(error);
        },
    }
    Ghost(step)
}

/// Deals with the transfers on the queue, in order, until there are none left.
pub fn process_transfers(
    backend: &mut PwBackend,
    streams: &mut Vec<Stream>,
    mem: &mut GuestMemoryMmap,
    vring: &mut Vring,
) -> (run: TransmitRun)
    requires
        old(backend).wf(),
    ensures
        final(backend).wf(),
        final(backend).feeds_as(*old(backend)),
        guest(*final(mem)).mapped == guest(*old(mem)).mapped,
        final(vring).intc == old(vring).intc,
        final(vring).irq_line == old(vring).irq_line,
        final(vring).queue@.max_size == old(vring).queue@.max_size,
        final(vring).queue@.pending == Seq::<ChainView>::empty(),
        !run.have_used,
        forall|i: int|
            0 <= i < run.signals@.len() ==> #[trigger] run.signals@[i] == old(vring).signal(),
        ({
            let env = TransmitEnv {
                mapped: guest(*old(mem)).mapped,
                streams: stream_views(old(streams)@),
            };
            exists|steps: Seq<TransmitTrace>|
                {
                    &&& #[trigger] explained(steps, env, old(vring).queue@.pending)
                    &&& effects(*final(mem), *final(backend), final(vring).queue) == effects(
                        *old(mem),
                        *old(backend),
                        old(vring).queue,
                    ).plus(total(steps))
                    &&& stream_views(final(streams)@) == streams_at_end(steps, env.streams)
                    &&& run.errors@ == errors(steps)
                    &&& run.signals@.len() == interrupts(steps)
                }
        }),
{
    let ghost env = TransmitEnv {
        mapped: guest(*mem).mapped,
        streams: stream_views(streams@),
    };
    let ghost chains = vring.queue@.pending;
    let ghost before = effects(*mem, *backend, vring.queue);
    let ghost mut steps: Seq<TransmitTrace> = Seq::empty();
    let mut run = TransmitRun { have_used: false, errors: Vec::new(), signals: Vec::new() };
    proof {
        lemma_plus_none(before);
        assert(chains.skip(0) =~= chains);
    }
    while vring.queue.pending.len() > 0
        invariant
            backend.wf(),
            backend.feeds_as(*old(backend)),
            vring.intc == old(vring).intc,
            vring.irq_line == old(vring).irq_line,
            guest(*mem).mapped == env.mapped,
            vring.queue@.max_size == old(vring).queue@.max_size,
            steps.len() <= chains.len(),
            vring.queue@.pending == chains.skip(steps.len() as int),
            explained(steps, env, chains.take(steps.len() as int)),
            effects(*mem, *backend, vring.queue) == before.plus(total(steps)),
            stream_views(streams@) == streams_at_end(steps, env.streams),
            !run.have_used,
            run.errors@ == errors(steps),
            run.signals@.len() == interrupts(steps),
            forall|i: int|
                0 <= i < run.signals@.len() ==> #[trigger] run.signals@[i] == old(vring).signal(),
        decreases vring.queue@.pending.len(),
    {
        if let Some(head) = vring.queue.pop() {
            let Ghost(step) = process_next(
                backend,
                streams,
                mem,
                vring,
                &head,
                &mut run,
                Ghost(steps),
                Ghost(env),
                Ghost(chains),
                Ghost(before),
            );
            proof {
                assert(chains.skip(steps.len() as int).drop_first() =~= chains.skip(
                    steps.push(step).len() as int,
                ));
                steps = steps.push(step);
            }
        }
    }
    assert(chains.take(steps.len() as int) =~= chains);
    assert(vring.queue@.pending =~= Seq::<ChainView>::empty());
    run
}

} // verus!
