//! What comes of each request, told by the descriptors of its chain and the words that were read.
use super::law_descriptions_stand_in_a_row;
use super::wire::{
    law_descriptions_are_written_by_position, law_requests_are_read_by_position, lemma_word_bound,
    word,
};
use crate::audio_backends::pipewire::PwAction;
use crate::control::{
    decided, performed_after, stream_info, stream_infos, ControlEnv, ControlTrace,
};
use crate::error::Error;
use crate::guest_memory::{all_mapped, law_fits_where_every_byte_is_mapped};
use crate::message::{kind_of, ControlMessageKind, InvalidControlMessage};
use crate::queue::ChainView;
use crate::stream::StreamView;
use crate::virtio_sound::VirtioSoundHeader;
use vstd::prelude::*;

verus! {

/// Did nothing come of the request but this error?
pub open spec fn only_fails(trace: ControlTrace, error: Error) -> bool {
    &&& trace.result == Err::<bool, Error>(error)
    &&& trace.effects.writes.len() == 0
    &&& trace.effects.sent.len() == 0
    &&& trace.effects.refused.len() == 0
    &&& trace.effects.used.len() == 0
}

/// Is this the status, as it is written: 0x8000 and `last` for its last digit?
pub open spec fn is_status_word(write: (u64, Seq<u8>), addr: u64, last: u8) -> bool {
    &&& write.0 == addr
    &&& write.1.len() == 4
    &&& write.1[0] == last
    &&& write.1[1] == 0x80
    &&& write.1[2] == 0
    &&& write.1[3] == 0
}

/// Was the request answered with nothing but this status, and its chain given back?
pub open spec fn only_answered(trace: ControlTrace, chain: ChainView, last: u8) -> bool {
    &&& trace.result == Ok::<bool, Error>(true)
    &&& trace.effects.writes.len() == 1
    &&& is_status_word(trace.effects.writes[0], chain.descriptors[1].addr, last)
    &&& trace.effects.used.len() == 1
    &&& trace.effects.used[0] == (chain.index, 0u32)
}

/// Was the request answered with nothing but this status where there is room for it? Where there is
/// none the chain is not given back, and there is an error.
pub open spec fn answered_where_there_is_room(
    mapped: Set<u64>,
    chain: ChainView,
    trace: ControlTrace,
    last: u8,
) -> bool {
    if has_room(mapped, chain) {
        only_answered(trace, chain, last)
    } else {
        &&& trace.result == Err::<bool, Error>(Error::DescriptorWriteFailed)
        &&& trace.effects.used.len() == 0
    }
}

/// Can the head of the request be read, and is there room for a status?
pub open spec fn is_request(mapped: Set<u64>, chain: ChainView) -> bool {
    &&& chain.descriptors.len() >= 2
    &&& !chain.descriptors[0].write_only
    &&& all_mapped(mapped, chain.descriptors[0].addr as int, 4)
    &&& chain.descriptors[1].write_only
}

/// The code in the head that was read.
pub open spec fn code_of(trace: ControlTrace) -> int {
    word(trace.effects.reads[0].1, 0)
}

/// Can the status be written?
pub open spec fn has_room(mapped: Set<u64>, chain: ChainView) -> bool {
    all_mapped(mapped, chain.descriptors[1].addr as int, 4)
}

/// The conditions on memory in other words.
proof fn lemma_room(mapped: Set<u64>, addr: u64, len: nat)
    requires
        len > 0,
    ensures
        crate::guest_memory::fits(mapped, addr, len) <==> all_mapped(mapped, addr as int, len),
{
    law_fits_where_every_byte_is_mapped(mapped, addr, len);
    if all_mapped(mapped, addr as int, len) {
        assert(mapped.contains(addr));
    }
}

/// The bytes of a status.
spec fn status_bytes(code: u32) -> Seq<u8> {
    (VirtioSoundHeader { code }).bytes()
}

/// A status is four bytes, all of which are written.
proof fn lemma_status_words()
    ensures
        forall|code: u32| (#[trigger] status_bytes(code)).len() == 4,
        forall|code: u32| (#[trigger] status_bytes(code)).take(4) == status_bytes(code),
{
    assert forall|code: u32| (#[trigger] status_bytes(code)).take(4) == status_bytes(code) by {
        assert(status_bytes(code).take(4) =~= status_bytes(code));
    }
}

/// A chain that is no request fails before anything else is done. With fewer than two descriptors
/// it says how many; a first one that may only be written and a second one that may only be read
/// are named; and memory that is not there cannot be read.
pub proof fn law_chain_that_is_no_request_fails(
    env: ControlEnv,
    chain: ChainView,
    trace: ControlTrace,
)
    requires
        trace.explains(env, chain),
        chain.descriptors.len() <= usize::MAX,
    ensures
        ({
            let d = chain.descriptors;
            &&& d.len() < 2 ==> only_fails(
                trace,
                Error::UnexpectedDescriptorCount(d.len() as usize),
            )
            &&& d.len() >= 2 && d[0].write_only ==> only_fails(
                trace,
                Error::UnexpectedWriteOnlyDescriptor(0),
            )
            &&& d.len() >= 2 && !d[0].write_only && !all_mapped(env.mapped, d[0].addr as int, 4)
                ==> only_fails(trace, Error::DescriptorReadFailed)
            &&& d.len() >= 2 && !d[0].write_only && all_mapped(env.mapped, d[0].addr as int, 4)
                && !d[1].write_only ==> only_fails(trace, Error::UnexpectedReadableDescriptor(1))
            &&& !is_request(env.mapped, chain) ==> trace.result is Err
        }),
{
    if chain.descriptors.len() >= 2 {
        lemma_room(env.mapped, chain.descriptors[0].addr, 4);
    }
}

/// The head of a request is read first, and what else is read of it lies at the same address.
pub proof fn law_head_is_read_first(env: ControlEnv, chain: ChainView, trace: ControlTrace)
    requires
        trace.explains(env, chain),
        is_request(env.mapped, chain),
    ensures
        1 <= trace.effects.reads.len() <= 2,
        trace.effects.reads[0].0 == chain.descriptors[0].addr,
        trace.effects.reads[0].1.len() == 4,
        trace.effects.reads.len() == 2 ==> trace.effects.reads[1].0 == chain.descriptors[0].addr,
{
    lemma_room(env.mapped, chain.descriptors[0].addr, 4);
}

/// A code that stands for none of the nine requests fails with the code.
pub proof fn law_unknown_code_fails(env: ControlEnv, chain: ChainView, trace: ControlTrace)
    requires
        trace.explains(env, chain),
        is_request(env.mapped, chain),
        code_of(trace) != 1,
        code_of(trace) != 2,
        code_of(trace) != 0x200,
        !(0x100 <= code_of(trace) <= 0x105),
    ensures
        only_fails(trace, Error::InvalidControlMessage(code_of(trace) as u32)),
{
    lemma_room(env.mapped, chain.descriptors[0].addr, 4);
    law_requests_are_read_by_position(trace.effects.reads[0].1);
}

/// Requests on jacks and channel maps are answered with 0x8002 and read no further.
pub proof fn law_unsupported_request_is_answered(
    env: ControlEnv,
    chain: ChainView,
    trace: ControlTrace,
)
    requires
        trace.explains(env, chain),
        is_request(env.mapped, chain),
        code_of(trace) == 1 || code_of(trace) == 2 || code_of(trace) == 0x200,
    ensures
        trace.effects.reads.len() == 1,
        trace.effects.sent.len() == 0,
        trace.effects.refused.len() == 0,
        answered_where_there_is_room(env.mapped, chain, trace, 2),
{
    lemma_room(env.mapped, chain.descriptors[0].addr, 4);
    lemma_room(env.mapped, chain.descriptors[1].addr, 4);
    law_requests_are_read_by_position(trace.effects.reads[0].1);
    lemma_status_words();
}

/// How long a request is, by its code.
pub open spec fn length_by_code(code: int) -> nat {
    if code == 0x100 {
        16
    } else if code == 0x101 {
        24
    } else {
        8
    }
}

/// A request on streams is read to its end, which depends on its code: 16 bytes for descriptions,
/// 24 for parameters and 8 for commands. Where it is not all there it fails. A request for
/// descriptions needs three descriptors, of which the last may only be written.
pub proof fn law_stream_request_is_read_to_its_end(
    env: ControlEnv,
    chain: ChainView,
    trace: ControlTrace,
)
    requires
        trace.explains(env, chain),
        is_request(env.mapped, chain),
        0x100 <= code_of(trace) <= 0x105,
        chain.descriptors.len() <= usize::MAX,
    ensures
        ({
            let d = chain.descriptors;
            let len = length_by_code(code_of(trace));
            if code_of(trace) == 0x100 && d.len() != 3 {
                only_fails(trace, Error::UnexpectedDescriptorCount(d.len() as usize))
            } else if code_of(trace) == 0x100 && !d[2].write_only {
                only_fails(trace, Error::UnexpectedReadableDescriptor(2))
            } else if !all_mapped(env.mapped, d[0].addr as int, len) {
                only_fails(trace, Error::DescriptorReadFailed)
            } else {
                trace.effects.reads.len() == 2 && trace.effects.reads[1].1.len() == len
            }
        }),
{
    lemma_room(env.mapped, chain.descriptors[0].addr, 4);
    lemma_room(env.mapped, chain.descriptors[0].addr, length_by_code(code_of(trace)));
    law_requests_are_read_by_position(trace.effects.reads[0].1);
}

/// What comes of a request of which all that matters has been read.
proof fn lemma_read_request(
    env: ControlEnv,
    chain: ChainView,
    trace: ControlTrace,
    kind: ControlMessageKind,
)
    requires
        trace.explains(env, chain),
        is_request(env.mapped, chain),
        trace.effects.reads.len() == 2,
        kind_of(VirtioSoundHeader::parse(trace.effects.reads[0].1).code) == Ok::<
            ControlMessageKind,
            InvalidControlMessage,
        >(kind),
    ensures
        trace == performed_after(
            trace.effects.reads,
            env.mapped,
            chain,
            decided(kind, chain, env.streams, env.streams_no, trace.effects.reads[1].1),
            trace.result != Err::<bool, Error>(Error::SendNotificationFailed),
        ),
{
    lemma_room(env.mapped, chain.descriptors[0].addr, 4);
    let reads = trace.effects.reads;
    let addr = chain.descriptors[0].addr;
    assert(reads =~= seq![(addr, reads[0].1)].push((addr, reads[1].1)));
}

/// Is this, in 32 bytes from `at` on, the description of the stream?
pub open spec fn describes(b: Seq<u8>, at: int, stream: StreamView) -> bool {
    &&& word(b, at) == 0
    &&& word(b, at + 4) == stream.params.features
    &&& word(b, at + 8) + 4294967296 * word(b, at + 12) == stream.formats
    &&& word(b, at + 16) + 4294967296 * word(b, at + 20) == stream.rates
    &&& b[at + 24] == stream.direction
    &&& b[at + 25] == stream.channels_min
    &&& b[at + 26] == stream.channels_max
}

/// A word is worth the same in a part of what it lies in.
proof fn lemma_word_in_part(all: Seq<u8>, one: Seq<u8>, at: int, k: int)
    requires
        0 <= at,
        at + 32 <= all.len(),
        one == all.subrange(at, at + 32),
        0 <= k <= 28,
    ensures
        word(all, at + k) == word(one, k),
{
    assert(one[k] == all[at + k]);
    assert(one[k + 1] == all[at + k + 1]);
    assert(one[k + 2] == all[at + k + 2]);
    assert(one[k + 3] == all[at + k + 3]);
}

/// Descriptions one after the other describe one stream after the other.
proof fn lemma_row_describes(streams: Seq<StreamView>, start: int, count: nat, i: int)
    requires
        0 <= i < count,
    ensures
        stream_infos(streams, start, count).len() == 32 * count,
        describes(stream_infos(streams, start, count), 32 * i, streams[start + i]),
{
    let all = stream_infos(streams, start, count);
    law_descriptions_stand_in_a_row(streams, start, count, i);
    let info = stream_info(streams[start + i]);
    law_descriptions_are_written_by_position(info);
    let at = 32 * i;
    let one = all.subrange(at, at + 32);
    assert(i * 32 == at && (i + 1) * 32 == at + 32);
    assert(one == info.bytes());
    lemma_word_in_part(all, one, at, 0);
    lemma_word_in_part(all, one, at, 4);
    lemma_word_in_part(all, one, at, 8);
    lemma_word_in_part(all, one, at, 12);
    lemma_word_in_part(all, one, at, 16);
    lemma_word_in_part(all, one, at, 20);
    assert(one[24] == all[at + 24]);
    assert(one[25] == all[at + 25]);
    assert(one[26] == all[at + 26]);
}

/// A request for descriptions names the first stream in its second word and how many in its third.
/// Where these streams exist, their descriptions are written to the third descriptor, that of
/// stream `first + i` at 32 times `i`, and the length of that descriptor is given back. Where they
/// do not, nothing is described and the answer is 0x8001.
#[verifier::rlimit(30)]
pub proof fn law_requested_streams_are_described(
    env: ControlEnv,
    chain: ChainView,
    trace: ControlTrace,
)
    requires
        trace.explains(env, chain),
        is_request(env.mapped, chain),
        code_of(trace) == 0x100,
        trace.effects.reads.len() == 2,
    ensures
        ({
            let request = trace.effects.reads[1].1;
            let first = word(request, 4);
            let count = word(request, 8);
            let third = chain.descriptors[2];
            let writes = trace.effects.writes;
            &&& trace.effects.sent.len() == 0
            &&& trace.effects.refused.len() == 0
            &&& first >= env.streams.len() || first + count > env.streams.len()
                ==> answered_where_there_is_room(env.mapped, chain, trace, 1)
            &&& first < env.streams.len() && first + count <= env.streams.len() ==> {
                if env.mapped.contains(third.addr) && all_mapped(
                    env.mapped,
                    third.addr as int,
                    (32 * count) as nat,
                ) && has_room(env.mapped, chain) {
                    &&& trace.result == Ok::<bool, Error>(true)
                    &&& trace.effects.used.len() == 1
                    &&& trace.effects.used[0] == (chain.index, third.len)
                    &&& writes.len() == 2
                    &&& writes[0].0 == third.addr
                    &&& writes[0].1.len() == 32 * count
                    &&& forall|i: int|
                        0 <= i < count ==> describes(
                            writes[0].1,
                            32 * i,
                            #[trigger] env.streams[first + i],
                        )
                    &&& is_status_word(writes[1], chain.descriptors[1].addr, 0)
                } else {
                    &&& trace.result == Err::<bool, Error>(Error::DescriptorWriteFailed)
                    &&& trace.effects.used.len() == 0
                }
            }
        }),
{
    let request = trace.effects.reads[1].1;
    law_requests_are_read_by_position(trace.effects.reads[0].1);
    lemma_read_request(env, chain, trace, ControlMessageKind::PcmInfo);
    lemma_room(env.mapped, chain.descriptors[1].addr, 4);
    law_requests_are_read_by_position(request);
    lemma_status_words();
    let first = word(request, 4);
    let count = word(request, 8);
    if first < env.streams.len() && first + count <= env.streams.len() {
        let third = chain.descriptors[2];
        let infos = stream_infos(env.streams, first, count as nat);
        assert(infos.len() == 32 * count) by {
            if count > 0 {
                lemma_row_describes(env.streams, first, count as nat, 0);
            }
        }
        law_fits_where_every_byte_is_mapped(env.mapped, third.addr, infos.len());
        assert(infos.take(infos.len() as int) =~= infos);
        assert forall|i: int| 0 <= i < count implies describes(
            infos,
            32 * i,
            #[trigger] env.streams[first + i],
        ) by {
            lemma_row_describes(env.streams, first, count as nat, i);
        }
    }
}

/// Was the backend asked for this action and nothing else, and the request answered with 0x8000?
/// Where the worker of the backend is gone there is an error instead, and where there is no room
/// for the status there is one afterwards.
pub open spec fn asked_and_answered(
    env: ControlEnv,
    chain: ChainView,
    trace: ControlTrace,
    action: PwAction,
) -> bool {
    if trace.effects.refused.len() > 0 {
        &&& trace.result == Err::<bool, Error>(Error::SendNotificationFailed)
        &&& trace.effects.refused.len() == 1
        &&& trace.effects.refused[0] == action
        &&& trace.effects.sent.len() == 0
        &&& trace.effects.writes.len() == 0
        &&& trace.effects.used.len() == 0
    } else {
        &&& trace.effects.sent.len() == 1
        &&& trace.effects.sent[0] == action
        &&& answered_where_there_is_room(env.mapped, chain, trace, 0)
    }
}

/// Was the backend asked for this action and nothing else, and is the answer left to it?
pub open spec fn asked_and_left(trace: ControlTrace, action: PwAction) -> bool {
    &&& trace.effects.writes.len() == 0
    &&& trace.effects.used.len() == 0
    &&& if trace.effects.refused.len() > 0 {
        &&& trace.result == Err::<bool, Error>(Error::SendNotificationFailed)
        &&& trace.effects.refused.len() == 1
        &&& trace.effects.refused[0] == action
        &&& trace.effects.sent.len() == 0
    } else {
        &&& trace.result == Ok::<bool, Error>(false)
        &&& trace.effects.sent.len() == 1
        &&& trace.effects.sent[0] == action
    }
}

/// A command names its stream in its second word. For a stream that exists, 0x102 asks the backend
/// to prepare it, 0x104 to start it and 0x105 to stop it, and the request is answered. For a stream
/// that does not exist the answer is 0x8001.
#[verifier::rlimit(30)]
pub proof fn law_commands_reach_their_stream(
    env: ControlEnv,
    chain: ChainView,
    trace: ControlTrace,
)
    requires
        trace.explains(env, chain),
        is_request(env.mapped, chain),
        code_of(trace) == 0x102 || code_of(trace) == 0x104 || code_of(trace) == 0x105,
        trace.effects.reads.len() == 2,
    ensures
        ({
            let id = word(trace.effects.reads[1].1, 4);
            if id >= env.streams_no {
                &&& trace.effects.sent.len() == 0
                &&& trace.effects.refused.len() == 0
                &&& answered_where_there_is_room(env.mapped, chain, trace, 1)
            } else {
                asked_and_answered(
                    env,
                    chain,
                    trace,
                    if code_of(trace) == 0x102 {
                        PwAction::Prepare(id as usize)
                    } else if code_of(trace) == 0x104 {
                        PwAction::Start(id as usize)
                    } else {
                        PwAction::Stop(id as usize)
                    },
                )
            }
        }),
{
    let request = trace.effects.reads[1].1;
    law_requests_are_read_by_position(trace.effects.reads[0].1);
    if code_of(trace) == 0x102 {
        lemma_read_request(env, chain, trace, ControlMessageKind::PcmPrepare);
    } else if code_of(trace) == 0x104 {
        lemma_read_request(env, chain, trace, ControlMessageKind::PcmStart);
    } else {
        lemma_read_request(env, chain, trace, ControlMessageKind::PcmStop);
    }
    lemma_room(env.mapped, chain.descriptors[1].addr, 4);
    law_requests_are_read_by_position(request);
    lemma_status_words();
}

/// A request to release a stream names it in its second word. For a stream that exists the
/// backend is asked to release it, and the answer is left to the backend, which gets to know where
/// it goes and which chain it is for. For a stream that does not exist the answer is 0x8001.
#[verifier::rlimit(30)]
pub proof fn law_releases_reach_their_stream(
    env: ControlEnv,
    chain: ChainView,
    trace: ControlTrace,
)
    requires
        trace.explains(env, chain),
        is_request(env.mapped, chain),
        code_of(trace) == 0x103,
        trace.effects.reads.len() == 2,
    ensures
        ({
            let id = word(trace.effects.reads[1].1, 4);
            if id >= env.streams_no {
                &&& trace.effects.sent.len() == 0
                &&& trace.effects.refused.len() == 0
                &&& answered_where_there_is_room(env.mapped, chain, trace, 1)
            } else {
                let asked = if trace.effects.refused.len() > 0 {
                    trace.effects.refused[0]
                } else {
                    trace.effects.sent[0]
                };
                &&& asked_and_left(trace, asked)
                &&& asked matches PwAction::Release(stream, message)
                &&& stream == id
                &&& message.kind is PcmRelease
                &&& message.code == 0x8000
                &&& message.desc_addr == chain.descriptors[1].addr
                &&& message.head_index == chain.index
            }
        }),
{
    let request = trace.effects.reads[1].1;
    law_requests_are_read_by_position(trace.effects.reads[0].1);
    lemma_read_request(env, chain, trace, ControlMessageKind::PcmRelease);
    lemma_room(env.mapped, chain.descriptors[1].addr, 4);
    law_requests_are_read_by_position(request);
    lemma_status_words();
}

/// A request to set parameters names its stream in its second word, and after that the size of
/// the buffer, that of a period and the features in a word each, and the channels, the format and
/// the rate in a byte each. For a stream that exists all of them reach the backend, which also
/// gets to know where the answer goes and which chain it is for. For a stream that does not exist
/// the answer is 0x8001.
#[verifier::rlimit(30)]
pub proof fn law_parameters_reach_their_stream(
    env: ControlEnv,
    chain: ChainView,
    trace: ControlTrace,
)
    requires
        trace.explains(env, chain),
        is_request(env.mapped, chain),
        code_of(trace) == 0x101,
        trace.effects.reads.len() == 2,
    ensures
        ({
            let b = trace.effects.reads[1].1;
            let id = word(b, 4);
            if id >= env.streams_no {
                &&& trace.effects.sent.len() == 0
                &&& trace.effects.refused.len() == 0
                &&& answered_where_there_is_room(env.mapped, chain, trace, 1)
            } else {
                let asked = if trace.effects.refused.len() > 0 {
                    trace.effects.refused[0]
                } else {
                    trace.effects.sent[0]
                };
                &&& asked_and_left(trace, asked)
                &&& asked matches PwAction::SetParameters(stream, message, request)
                &&& stream == id
                &&& message.kind is PcmSetParams
                &&& message.code == 0x8000
                &&& message.desc_addr == chain.descriptors[1].addr
                &&& message.head_index == chain.index
                &&& request.hdr.stream_id == id
                &&& request.buffer_bytes == word(b, 8)
                &&& request.period_bytes == word(b, 12)
                &&& request.features == word(b, 16)
                &&& request.channels == b[20]
                &&& request.format == b[21]
                &&& request.rate == b[22]
            }
        }),
{
    let request = trace.effects.reads[1].1;
    law_requests_are_read_by_position(trace.effects.reads[0].1);
    lemma_read_request(env, chain, trace, ControlMessageKind::PcmSetParams);
    lemma_room(env.mapped, chain.descriptors[1].addr, 4);
    law_requests_are_read_by_position(request);
    lemma_status_words();
    lemma_word_bound(request, 4);
}

} // verus!
