//! What comes of each transfer, told by the descriptors of its chain and the bytes that were read.
use super::wire::{law_requests_are_read_by_position, word};
use crate::audio_backends::pipewire::PwAction;
use crate::error::Error;
use crate::guest_memory::{all_mapped, law_fits_where_every_byte_is_mapped, mapped_len};
use crate::queue::{ChainView, Descriptor};
use crate::stream::{BufferView, StreamView};
use crate::transmit::{
    advanced, lemma_advanced_error, untouched, TransmitEnv, TransmitTrace, TxPhase,
};
use crate::virtio_sound::{VirtioSoundPcmStatus, VirtioSoundPcmXfer};
use vstd::prelude::*;

verus! {

/// Does a read of `len` bytes from `addr` on give back `n` of them: all that are mapped before the
/// first that is not?
pub open spec fn reaches(mapped: Set<u64>, addr: int, len: nat, n: nat) -> bool {
    &&& n <= len
    &&& all_mapped(mapped, addr, n)
    &&& n < len ==> addr + n > u64::MAX || !mapped.contains((addr + n) as u64)
}

/// The mapped part of a range ends with the range or before the first byte that is not mapped.
pub proof fn law_mapped_part_of_a_range(mapped: Set<u64>, addr: int, len: nat)
    requires
        0 <= addr <= u64::MAX + 1,
    ensures
        reaches(mapped, addr, len, mapped_len(mapped, addr, len)),
    decreases len,
{
    if len > 0 && addr <= u64::MAX && mapped.contains(addr as u64) {
        law_mapped_part_of_a_range(mapped, addr + 1, (len - 1) as nat);
        let rest = mapped_len(mapped, addr + 1, (len - 1) as nat);
        assert forall|a: u64| addr <= a < addr + 1 + rest implies #[trigger] mapped.contains(a) by {
            if a == addr {
                assert(a == addr as u64);
            } else {
                assert(addr + 1 <= a < addr + 1 + rest);
            }
        }
    }
}

/// Are the first `k` descriptors a head and pieces of data, all of which can be read?
pub open spec fn starts_well(mapped: Set<u64>, d: Seq<Descriptor>, k: int) -> bool {
    &&& 1 <= k <= d.len()
    &&& !d[0].write_only
    &&& d[0].len == 4
    &&& all_mapped(mapped, d[0].addr as int, 4)
    &&& forall|i: int| 1 <= i < k ==> is_data(mapped, #[trigger] d[i])
}

/// Is this a piece of data, and can it be read?
pub open spec fn is_data(mapped: Set<u64>, descriptor: Descriptor) -> bool {
    !descriptor.write_only && descriptor.len != 4 && mapped.contains(descriptor.addr)
}

/// Is this the room for the status?
pub open spec fn is_status(descriptor: Descriptor) -> bool {
    descriptor.write_only && descriptor.len == 8
}

/// Is this what was read at the first `k` descriptors?
pub open spec fn read_in_order(
    mapped: Set<u64>,
    d: Seq<Descriptor>,
    k: int,
    reads: Seq<(u64, Seq<u8>)>,
) -> bool {
    &&& reads.len() == k
    &&& forall|i: int| 0 <= i < k ==> (#[trigger] reads[i]).0 == d[i].addr
    &&& reads[0].1.len() == 4
    &&& forall|i: int|
        1 <= i < k ==> reaches(
            mapped,
            d[i].addr as int,
            d[i].len as nat,
            (#[trigger] reads[i]).1.len(),
        )
}

/// Is this buffer what a descriptor holds: the bytes that were read at it, none of them played
/// yet, and the message with which the transfer of the chain ends? The first one answers.
pub open spec fn holds(
    buffer: BufferView,
    chain: ChainView,
    descriptor: Descriptor,
    read: Seq<u8>,
    first: bool,
) -> bool {
    &&& buffer.data == read
    &&& buffer.pos == 0
    &&& buffer.message.status == 0x8000
    &&& buffer.message.desc_addr == chain.addr
    &&& buffer.message.head_index == chain.index
    &&& buffer.message.data_addr == descriptor.addr
    &&& buffer.message.data_len == descriptor.len
    &&& buffer.message.notify == first
}

/// The number of the stream that a transfer is for, from the head that was read.
pub open spec fn stream_id(trace: TransmitTrace) -> int {
    word(trace.effects.reads[0].1, 0)
}

/// Was the worker of the backend told of data for the stream, and of nothing else?
pub open spec fn told(trace: TransmitTrace, id: int) -> bool {
    if trace.effects.refused.len() > 0 {
        &&& trace.result == Err::<bool, Error>(Error::SendNotificationFailed)
        &&& trace.effects.refused.len() == 1
        &&& trace.effects.refused[0] == PwAction::Write(id as usize)
        &&& trace.effects.sent.len() == 0
    } else {
        &&& trace.result == Ok::<bool, Error>(false)
        &&& trace.effects.sent.len() == 1
        &&& trace.effects.sent[0] == PwAction::Write(id as usize)
    }
}

/// Was the worker of the backend told of nothing, and is this the error?
pub open spec fn untold(trace: TransmitTrace, error: Error) -> bool {
    &&& trace.result == Err::<bool, Error>(error)
    &&& trace.effects.sent.len() == 0
    &&& trace.effects.refused.len() == 0
}

/// Is the transfer still to be answered?
pub open spec fn unanswered(trace: TransmitTrace) -> bool {
    &&& trace.answer == Ok::<bool, Error>(false)
    &&& trace.effects.writes.len() == 0
    &&& trace.effects.used.len() == 0
}

/// Is this the status of a transfer, as it is written: 0x8000 and no latency?
pub open spec fn is_transfer_status(write: (u64, Seq<u8>), addr: u64) -> bool {
    &&& write.0 == addr
    &&& write.1.len() == 8
    &&& write.1[0] == 0
    &&& write.1[1] == 0x80
    &&& forall|i: int| 2 <= i < 8 ==> #[trigger] write.1[i] == 0
}

/// Was the transfer answered at once, where there is room for the answer?
pub open spec fn answered_at_once(
    mapped: Set<u64>,
    chain: ChainView,
    trace: TransmitTrace,
) -> bool {
    if all_mapped(mapped, chain.addr as int, 8) {
        &&& trace.answer == Ok::<bool, Error>(true)
        &&& trace.effects.writes.len() == 1
        &&& is_transfer_status(trace.effects.writes[0], chain.addr)
        &&& trace.effects.used.len() == 1
        &&& trace.effects.used[0] == (chain.index, 8u32)
    } else {
        &&& trace.answer == Err::<bool, Error>(Error::DescriptorWriteFailed)
        &&& trace.effects.used.len() == 0
    }
}

/// A head and pieces of data, after which nothing has been looked at.
proof fn lemma_started(env: TransmitEnv, chain: ChainView, k: nat, answers: Seq<(u64, Seq<u8>)>)
    requires
        starts_well(env.mapped, chain.descriptors, k as int),
    ensures
        ({
            let transfer = advanced(env, chain, k, answers);
            let d = chain.descriptors;
            let id = VirtioSoundPcmXfer::parse(answers[0].1).stream_id;
            &&& transfer.phase == TxPhase::WaitingBufferForStreamId(id)
            &&& transfer.stream == Some(id)
            &&& transfer.error is None
            &&& transfer.queued.len() == 0
            &&& transfer.pending.len() == k - 1
            &&& forall|i: int|
                0 <= i < k - 1 ==> holds(
                    #[trigger] transfer.pending[i],
                    chain,
                    d[i + 1],
                    answers[i + 1].1,
                    i == 0,
                )
            &&& transfer.reads.len() == k
            &&& forall|i: int|
                0 <= i < k ==> #[trigger] transfer.reads[i] == (d[i].addr, answers[i].1)
            &&& transfer.sized ==> read_in_order(env.mapped, d, k as int, transfer.reads)
        }),
    decreases k,
{
    let d = chain.descriptors;
    law_fits_where_every_byte_is_mapped(env.mapped, d[0].addr, 4);
    assert(env.mapped.contains(d[0].addr));
    if k > 1 {
        let last = d[k - 1];
        lemma_started(env, chain, (k - 1) as nat, answers);
        assert(is_data(env.mapped, last));
        law_mapped_part_of_a_range(env.mapped, last.addr as int, last.len as nat);
    } else {
        assert(advanced(env, chain, 0, answers) == untouched());
    }
}

/// The bytes of the status.
proof fn lemma_status_bytes()
    ensures
        ({
            let bytes = (VirtioSoundPcmStatus { status: 0x8000, latency_bytes: 0 }).bytes();
            &&& bytes.len() == 8
            &&& bytes.take(8) == bytes
            &&& is_transfer_status((0, bytes), 0)
        }),
{
    let bytes = (VirtioSoundPcmStatus { status: 0x8000, latency_bytes: 0 }).bytes();
    assert(bytes.take(8) =~= bytes);
    assert(bytes =~= seq![0u8, 0x80, 0, 0, 0, 0, 0, 0]);
}

/// Where the head, the pieces of data and the room for the status are as they should be, every
/// piece of data is handed to the stream that the head names, behind what waits there: each with
/// the bytes that were read at its descriptor, and with the address and length of that descriptor.
/// No other stream changes, and nothing else of this one. The backend is told, and the transfer is
/// answered later. Where descriptors follow the room for the status, the backend is not told and
/// there is an error.
pub proof fn law_pieces_are_handed_to_their_stream(
    env: TransmitEnv,
    chain: ChainView,
    trace: TransmitTrace,
    k: int,
)
    requires
        trace.explains(env, chain),
        chain.descriptors.len() <= usize::MAX,
        starts_well(env.mapped, chain.descriptors, k),
        k < chain.descriptors.len(),
        is_status(chain.descriptors[k]),
        k > 1 ==> stream_id(trace) < env.streams.len(),
    ensures
        ({
            let d = chain.descriptors;
            let reads = trace.effects.reads;
            let id = stream_id(trace);
            &&& read_in_order(env.mapped, d, k, reads)
            &&& unanswered(trace)
            &&& if k + 1 == d.len() {
                told(trace, id)
            } else {
                untold(trace, Error::UnexpectedDescriptorCount(d.len() as usize))
            }
            &&& trace.streams.len() == env.streams.len()
            &&& forall|i: int|
                0 <= i < env.streams.len() && i != id ==> #[trigger] trace.streams[i]
                    == env.streams[i]
            &&& id < env.streams.len() ==> {
                let before = env.streams[id];
                let after = trace.streams[id];
                &&& after.buffers.len() == before.buffers.len() + k - 1
                &&& forall|i: int|
                    0 <= i < before.buffers.len() ==> #[trigger] after.buffers[i]
                        == before.buffers[i]
                &&& forall|i: int|
                    0 <= i < k - 1 ==> holds(
                        #[trigger] after.buffers[before.buffers.len() + i],
                        chain,
                        d[i + 1],
                        reads[i + 1].1,
                        i == 0,
                    )
                &&& after == (StreamView { buffers: after.buffers, ..before })
            }
        }),
{
    let d = chain.descriptors;
    let reads = trace.effects.reads;
    let id = stream_id(trace);
    law_requests_are_read_by_position(reads[0].1);
    lemma_started(env, chain, k as nat, reads);
    let started = advanced(env, chain, k as nat, reads);
    let ended = advanced(env, chain, (k + 1) as nat, reads);
    assert(ended.error is None && ended.phase is Done);
    if k + 1 < d.len() {
        assert(advanced(env, chain, (k + 2) as nat, reads).error is Some);
        lemma_advanced_error(env, chain, (k + 2) as nat, d.len(), reads);
    }
    let whole = advanced(env, chain, d.len(), reads);
    assert(whole.queued == started.pending);
    assert(whole.reads == started.reads);
    if id < env.streams.len() {
        let before = env.streams[id].buffers;
        if k > 1 {
            assert(trace.streams[id].buffers == before + started.pending);
        }
        assert forall|i: int| 0 <= i < k - 1 implies holds(
            #[trigger] trace.streams[id].buffers[before.len() + i],
            chain,
            d[i + 1],
            reads[i + 1].1,
            i == 0,
        ) by {
            assert(holds(started.pending[i], chain, d[i + 1], reads[i + 1].1, i == 0));
        }
    }
}

/// A transfer whose first descriptor is wrong comes to nothing. One that may only be read has to
/// be a head, and one that may only be written has to be room for a status; a status alone is
/// nothing to be done, and nothing may follow it.
pub proof fn law_transfer_without_a_head_comes_to_nothing(
    env: TransmitEnv,
    chain: ChainView,
    trace: TransmitTrace,
)
    requires
        trace.explains(env, chain),
        chain.descriptors.len() <= usize::MAX,
        !starts_well(env.mapped, chain.descriptors, 1),
    ensures
        ({
            let d = chain.descriptors;
            &&& trace.streams == env.streams
            &&& unanswered(trace)
            &&& trace.effects.reads.len() == 0
            &&& trace.effects.sent.len() == 0
            &&& trace.effects.refused.len() == 0
            &&& trace.result == if d.len() == 0 {
                Ok::<bool, Error>(false)
            } else if d[0].write_only && d[0].len != 8 {
                Err(Error::UnexpectedDescriptorSize(8, d[0].len))
            } else if d[0].write_only && d.len() == 1 {
                Ok(false)
            } else if d[0].write_only {
                Err(Error::UnexpectedDescriptorCount(d.len() as usize))
            } else if d[0].len != 4 {
                Err(Error::UnexpectedDescriptorSize(4, d[0].len))
            } else {
                Err(Error::DescriptorReadFailed)
            }
        }),
{
    let d = chain.descriptors;
    let reads = trace.effects.reads;
    assert(advanced(env, chain, 0, reads) == untouched());
    if d.len() > 0 {
        law_fits_where_every_byte_is_mapped(env.mapped, d[0].addr, 4);
        if all_mapped(env.mapped, d[0].addr as int, 4) {
            assert(env.mapped.contains(d[0].addr));
        }
        let first = advanced(env, chain, 1, reads);
        if first.error is Some {
            lemma_advanced_error(env, chain, 1, d.len(), reads);
        } else if d.len() > 1 {
            assert(advanced(env, chain, 2, reads).error is Some);
            lemma_advanced_error(env, chain, 2, d.len(), reads);
        }
    }
}

/// What is wrong with the descriptor that follows a head and pieces of data, if anything is?
pub open spec fn offence(env: TransmitEnv, descriptor: Descriptor, id: int, first: bool) -> Option<
    Error,
> {
    if descriptor.write_only && descriptor.len != 8 {
        Some(Error::UnexpectedDescriptorSize(8, descriptor.len))
    } else if descriptor.write_only {
        if id >= env.streams.len() && !first {
            Some(Error::StreamWithIdNotFound(id as u32))
        } else {
            None
        }
    } else if descriptor.len == 4 {
        if id >= env.streams.len() {
            Some(Error::StreamWithIdNotFound(id as u32))
        } else {
            Some(
                Error::UnexpectedDescriptorSize(
                    env.streams[id].params.buffer_bytes as usize,
                    descriptor.len,
                ),
            )
        }
    } else if !env.mapped.contains(descriptor.addr) {
        Some(Error::DescriptorReadFailed)
    } else {
        None
    }
}

/// A transfer that goes wrong after a head and pieces of data ends with the error. No stream gets
/// any of the pieces and the backend is not told. Where pieces were read, the transfer is answered
/// at once.
pub proof fn law_transfer_that_goes_wrong_is_dropped(
    env: TransmitEnv,
    chain: ChainView,
    trace: TransmitTrace,
    k: int,
)
    requires
        trace.explains(env, chain),
        starts_well(env.mapped, chain.descriptors, k),
        k < chain.descriptors.len(),
        offence(env, chain.descriptors[k], stream_id(trace), k == 1) is Some,
    ensures
        read_in_order(env.mapped, chain.descriptors, k, trace.effects.reads),
        untold(
            trace,
            offence(env, chain.descriptors[k], stream_id(trace), k == 1)->Some_0,
        ),
        trace.streams == env.streams,
        if k == 1 {
            unanswered(trace)
        } else {
            answered_at_once(env.mapped, chain, trace)
        },
{
    let d = chain.descriptors;
    let reads = trace.effects.reads;
    law_requests_are_read_by_position(reads[0].1);
    lemma_started(env, chain, k as nat, reads);
    assert(advanced(env, chain, (k + 1) as nat, reads).error is Some);
    lemma_advanced_error(env, chain, (k + 1) as nat, d.len(), reads);
    lemma_status_bytes();
    law_fits_where_every_byte_is_mapped(env.mapped, chain.addr, 8);
    if all_mapped(env.mapped, chain.addr as int, 8) {
        assert(env.mapped.contains(chain.addr));
    }
}

/// A transfer that ends without room for the status is no error: the backend is told. But no
/// stream gets any of the pieces, and where there are any, the transfer is answered at once.
pub proof fn law_transfer_without_status_is_dropped(
    env: TransmitEnv,
    chain: ChainView,
    trace: TransmitTrace,
)
    requires
        trace.explains(env, chain),
        starts_well(env.mapped, chain.descriptors, chain.descriptors.len() as int),
    ensures
        read_in_order(
            env.mapped,
            chain.descriptors,
            chain.descriptors.len() as int,
            trace.effects.reads,
        ),
        told(trace, stream_id(trace)),
        trace.streams == env.streams,
        if chain.descriptors.len() == 1 {
            unanswered(trace)
        } else {
            answered_at_once(env.mapped, chain, trace)
        },
{
    let d = chain.descriptors;
    let reads = trace.effects.reads;
    law_requests_are_read_by_position(reads[0].1);
    lemma_started(env, chain, d.len(), reads);
    lemma_status_bytes();
    law_fits_where_every_byte_is_mapped(env.mapped, chain.addr, 8);
    if all_mapped(env.mapped, chain.addr as int, 8) {
        assert(env.mapped.contains(chain.addr));
    }
}

} // verus!
