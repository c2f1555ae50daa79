//! Requests on the control queue.
use crate::audio_backends::pipewire::{PwAction, PwBackend};
use crate::audio_backends::worker::stream_of;
use crate::audio_backends::AudioBackend;
use crate::error::Error;
use crate::guest_memory::{fits, guest, read_exact, write_slice};
use crate::message::{kind_of, ControlMessage, ControlMessageKind};
use crate::queue::{ChainView, Descriptor, DescriptorChain, QueueView, VirtQueue};
use crate::stream::{stream_views, Stream, StreamView};
use crate::trace::{
    effects, lemma_plus_assoc, lemma_plus_none, lemma_plus_since, lemma_stored, stored, Effects,
};
use crate::virtio_sound::{
    VirtioSndPcmSetParams, VirtioSoundHeader, VirtioSoundPcmHeader, VirtioSoundPcmInfo,
    VirtioSoundQueryInfo, HEADER_SIZE, PCM_HEADER_SIZE, QUERY_INFO_SIZE, SET_PARAMS_SIZE,
    VIRTIO_SND_S_BAD_MSG, VIRTIO_SND_S_NOT_SUPP, VIRTIO_SND_S_OK,
};
use vm_memory::GuestMemoryMmap;
use vstd::prelude::*;

verus! {

/// The description of a stream.
pub open spec fn stream_info(stream: StreamView) -> VirtioSoundPcmInfo {
    VirtioSoundPcmInfo {
        hda_fn_nid: 0,
        features: stream.params.features,
        formats: stream.formats,
        rates: stream.rates,
        direction: stream.direction,
        channels_min: stream.channels_min,
        channels_max: stream.channels_max,
    }
}

/// The descriptions of `count` streams from `start` on, one after the other.
pub open spec fn stream_infos(streams: Seq<StreamView>, start: int, count: nat) -> Seq<u8>
    decreases count,
{
    if count == 0 {
        Seq::empty()
    } else {
        stream_infos(streams, start, (count - 1) as nat) + stream_info(
            streams[start + count - 1],
        ).bytes()
    }
}

/// How a request is dealt with once it has been read.
pub enum Decision {
    /// It is answered at once.
    Reply {
        /// The status to answer with.
        code: u32,
        /// The data to answer with, for the third descriptor.
        info: Option<Vec<u8>>,
        /// The action to be passed on to the audio backend.
        action: Option<PwAction>,
    },
    /// It is passed on to the audio backend, which answers it.
    Defer(PwAction),
}

/// The contents of a [`Decision`].
#[verifier::ext_equal]
pub enum DecisionView {
    Reply { code: u32, info: Option<Seq<u8>>, action: Option<PwAction> },
    Defer(PwAction),
}

impl View for Decision {
    type V = DecisionView;

    open spec fn view(&self) -> DecisionView {
        match *self {
            Decision::Reply { code, info, action } => DecisionView::Reply {
                code,
                info: match info {
                    Some(bytes) => Some(bytes@),
                    None => None,
                },
                action,
            },
            Decision::Defer(action) => DecisionView::Defer(action),
        }
    }
}

/// An answer with nothing but a status.
pub open spec fn status_only(code: u32) -> DecisionView {
    DecisionView::Reply { code, info: None, action: None }
}

/// The length of a request in bytes, its head counted in, where more than the head is looked at;
/// else zero. A request for stream descriptions is made of three descriptors, the last of which
/// is for the descriptions.
pub open spec fn request_size(kind: ControlMessageKind, descriptors: Seq<Descriptor>) -> Result<
    nat,
    Error,
> {
    match kind {
        ControlMessageKind::ChmapInfo
        | ControlMessageKind::JackInfo
        | ControlMessageKind::JackRemap => Ok(0),
        ControlMessageKind::PcmInfo => if descriptors.len() != 3 {
            Err(Error::UnexpectedDescriptorCount(descriptors.len() as usize))
        } else if !descriptors[2].write_only {
            Err(Error::UnexpectedReadableDescriptor(2))
        } else {
            Ok(QUERY_INFO_SIZE as nat)
        },
        ControlMessageKind::PcmSetParams => Ok(SET_PARAMS_SIZE as nat),
        _ => Ok(PCM_HEADER_SIZE as nat),
    }
}

/// The message with which the audio backend answers a request.
pub open spec fn deferred(kind: ControlMessageKind, chain: ChainView) -> ControlMessage {
    ControlMessage {
        kind,
        code: VIRTIO_SND_S_OK,
        desc_addr: chain.descriptors[1].addr,
        head_index: chain.index,
    }
}

/// How a request is dealt with.
pub open spec fn decided(
    kind: ControlMessageKind,
    chain: ChainView,
    streams: Seq<StreamView>,
    streams_no: usize,
    request: Seq<u8>,
) -> DecisionView {
    match kind {
        ControlMessageKind::ChmapInfo
        | ControlMessageKind::JackInfo
        | ControlMessageKind::JackRemap => status_only(VIRTIO_SND_S_NOT_SUPP),
        ControlMessageKind::PcmInfo => {
            let query = VirtioSoundQueryInfo::parse(request);
            if streams.len() <= query.start_id || streams.len() < query.start_id + query.count {
                status_only(VIRTIO_SND_S_BAD_MSG)
            } else {
                DecisionView::Reply {
                    code: VIRTIO_SND_S_OK,
                    info: Some(stream_infos(streams, query.start_id as int, query.count as nat)),
                    action: None,
                }
            }
        },
        ControlMessageKind::PcmSetParams => {
            let params = VirtioSndPcmSetParams::parse(request);
            if params.hdr.stream_id >= streams_no {
                status_only(VIRTIO_SND_S_BAD_MSG)
            } else {
                DecisionView::Defer(
                    PwAction::SetParameters(
                        params.hdr.stream_id as usize,
                        deferred(kind, chain),
                        params,
                    ),
                )
            }
        },
        ControlMessageKind::PcmRelease => {
            let id = VirtioSoundPcmHeader::parse(request).stream_id;
            if id >= streams_no {
                status_only(VIRTIO_SND_S_BAD_MSG)
            } else {
                DecisionView::Defer(PwAction::Release(id as usize, deferred(kind, chain)))
            }
        },
        ControlMessageKind::PcmPrepare
        | ControlMessageKind::PcmStart
        | ControlMessageKind::PcmStop => {
            let id = VirtioSoundPcmHeader::parse(request).stream_id;
            if id >= streams_no {
                status_only(VIRTIO_SND_S_BAD_MSG)
            } else {
                DecisionView::Reply {
                    code: VIRTIO_SND_S_OK,
                    info: None,
                    action: Some(
                        match kind {
                            ControlMessageKind::PcmPrepare => PwAction::Prepare(id as usize),
                            ControlMessageKind::PcmStart => PwAction::Start(id as usize),
                            _ => PwAction::Stop(id as usize),
                        },
                    ),
                }
            }
        },
    }
}

/// Gives the length of a request, as far as it is looked at.
pub fn needed_size(kind: ControlMessageKind, descriptors: &Vec<Descriptor>) -> (res: Result<
    usize,
    Error,
>)
    ensures
        match res {
            Ok(size) => request_size(kind, descriptors@) == Ok::<nat, Error>(size as nat),
            Err(error) => request_size(kind, descriptors@) == Err::<nat, Error>(error),
        },
{
    match kind {
        ControlMessageKind::ChmapInfo
        | ControlMessageKind::JackInfo
        | ControlMessageKind::JackRemap => Ok(0),
        ControlMessageKind::PcmInfo => {
            if descriptors.len() != 3 {
                Err(Error::UnexpectedDescriptorCount(descriptors.len()))
            } else if !descriptors[2].is_write_only() {
                Err(Error::UnexpectedReadableDescriptor(2))
            } else {
                Ok(QUERY_INFO_SIZE)
            }
        },
        ControlMessageKind::PcmSetParams => Ok(SET_PARAMS_SIZE),
        ControlMessageKind::PcmPrepare
        | ControlMessageKind::PcmRelease
        | ControlMessageKind::PcmStart
        | ControlMessageKind::PcmStop => Ok(PCM_HEADER_SIZE),
    }
}

/// Writes out the descriptions of `count` streams from `start` on.
fn describe_streams(streams: &Vec<Stream>, start: usize, count: usize) -> (out: Vec<u8>)
    requires
        start + count <= streams@.len(),
    ensures
        out@ == stream_infos(stream_views(streams@), start as int, count as nat),
{
    let mut out: Vec<u8> = Vec::new();
    let mut i: usize = 0;
    while i < count
        invariant
            i <= count,
            start + count <= streams.len(),
            out@ == stream_infos(stream_views(streams@), start as int, i as nat),
        decreases count - i,
    {
        let stream = &streams[start + i];
        let info = VirtioSoundPcmInfo {
            hda_fn_nid: 0,
            features: stream.params.features,
            formats: stream.formats,
            rates: stream.rates,
            direction: stream.direction,
            channels_min: stream.channels_min,
            channels_max: stream.channels_max,
        };
        assert(stream_views(streams@)[start + i] == stream@);
        info.append_to(&mut out);
        i = i + 1;
    }
    out
}

/// Decides how a request is dealt with, from its bytes.
pub fn decide(
    kind: ControlMessageKind,
    head: &DescriptorChain,
    streams: &Vec<Stream>,
    streams_no: usize,
    request: &Vec<u8>,
) -> (decision: Decision)
    requires
        head@.descriptors.len() >= 2,
        request_size(kind, head@.descriptors) == Ok::<nat, Error>(request@.len()),
    ensures
        decision@ == decided(kind, head@, stream_views(streams@), streams_no, request@),
{
    let bytes = request.as_slice();
    match kind {
        ControlMessageKind::ChmapInfo
        | ControlMessageKind::JackInfo
        | ControlMessageKind::JackRemap => Decision::Reply {
            code: VIRTIO_SND_S_NOT_SUPP,
            info: None,
            action: None,
        },
        ControlMessageKind::PcmInfo => {
            let query = VirtioSoundQueryInfo::from_slice(bytes);
            let len: u64 = streams.len() as u64;
            let start: u64 = query.start_id as u64;
            let count: u64 = query.count as u64;
            if len <= start || len < start + count {
                Decision::Reply { code: VIRTIO_SND_S_BAD_MSG, info: None, action: None }
            } else {
                let info = describe_streams(
                    streams,
                    query.start_id as usize,
                    query.count as usize,
                );
                Decision::Reply { code: VIRTIO_SND_S_OK, info: Some(info), action: None }
            }
        },
        ControlMessageKind::PcmSetParams => {
            let params = VirtioSndPcmSetParams::from_slice(bytes);
            let stream_id: usize = params.hdr.stream_id as usize;
            if stream_id >= streams_no {
                Decision::Reply { code: VIRTIO_SND_S_BAD_MSG, info: None, action: None }
            } else {
                Decision::Defer(PwAction::SetParameters(stream_id, defer(kind, head), params))
            }
        },
        ControlMessageKind::PcmRelease => {
            let stream_id: usize = VirtioSoundPcmHeader::from_slice(bytes).stream_id as usize;
            if stream_id >= streams_no {
                Decision::Reply { code: VIRTIO_SND_S_BAD_MSG, info: None, action: None }
            } else {
                Decision::Defer(PwAction::Release(stream_id, defer(kind, head)))
            }
        },
        ControlMessageKind::PcmPrepare
        | ControlMessageKind::PcmStart
        | ControlMessageKind::PcmStop => {
            let stream_id: usize = VirtioSoundPcmHeader::from_slice(bytes).stream_id as usize;
            if stream_id >= streams_no {
                Decision::Reply { code: VIRTIO_SND_S_BAD_MSG, info: None, action: None }
            } else {
                let action = match kind {
                    ControlMessageKind::PcmPrepare => PwAction::Prepare(stream_id),
                    ControlMessageKind::PcmStart => PwAction::Start(stream_id),
                    _ => PwAction::Stop(stream_id),
                };
                Decision::Reply { code: VIRTIO_SND_S_OK, info: None, action: Some(action) }
            }
        },
    }
}

/// Makes the message with which the audio backend answers a request.
fn defer(kind: ControlMessageKind, head: &DescriptorChain) -> (message: ControlMessage)
    requires
        head@.descriptors.len() >= 2,
    ensures
        message == deferred(kind, head@),
{
    ControlMessage {
        kind,
        code: VIRTIO_SND_S_OK,
        desc_addr: head.descriptors[1].addr,
        head_index: head.index,
    }
}

/// What a request meets: the mapped memory and the streams.
#[verifier::ext_equal]
pub struct ControlEnv {
    pub mapped: Set<u64>,
    pub streams: Seq<StreamView>,
    pub streams_no: usize,
}

/// One request from beginning to end.
#[verifier::ext_equal]
pub struct ControlTrace {
    /// What was done.
    pub effects: Effects,
    /// What came of it: whether the chain was given back, or why the request failed.
    pub result: Result<bool, Error>,
}

/// A request that failed after the given reads, before anything else was done.
pub open spec fn failed(reads: Seq<(u64, Seq<u8>)>, error: Error) -> ControlTrace {
    ControlTrace { effects: Effects { reads, ..Effects::none() }, result: Err(error) }
}

/// What a decision leads to. The descriptions are written first, next the action is passed on,
/// and last the status is written and the chain is given back. `delivered` tells whether the
/// worker of the backend was there to take the action; the action is offered to it in any case.
pub open spec fn performed(
    mapped: Set<u64>,
    chain: ChainView,
    decision: DecisionView,
    delivered: bool,
) -> ControlTrace {
    match decision {
        DecisionView::Defer(action) => if delivered {
            ControlTrace {
                effects: Effects { sent: seq![action], ..Effects::none() },
                result: Ok(false),
            }
        } else {
            ControlTrace {
                effects: Effects { refused: seq![action], ..Effects::none() },
                result: Err(Error::SendNotificationFailed),
            }
        },
        DecisionView::Reply { code, info, action } => {
            let (described, len, writable) = match info {
                Some(bytes) => (
                    stored(mapped, chain.descriptors[2].addr, bytes),
                    chain.descriptors[2].len,
                    fits(mapped, chain.descriptors[2].addr, bytes.len()),
                ),
                None => (Seq::empty(), 0u32, true),
            };
            let asked = match action {
                Some(action) => seq![action],
                None => Seq::empty(),
            };
            let addr = chain.descriptors[1].addr;
            let answered = described + stored(mapped, addr, VirtioSoundHeader { code }.bytes());
            if !writable {
                ControlTrace {
                    effects: Effects { writes: described, ..Effects::none() },
                    result: Err(Error::DescriptorWriteFailed),
                }
            } else if action is Some && !delivered {
                ControlTrace {
                    effects: Effects { writes: described, refused: asked, ..Effects::none() },
                    result: Err(Error::SendNotificationFailed),
                }
            } else if !fits(mapped, addr, HEADER_SIZE as nat) {
                ControlTrace {
                    effects: Effects { writes: answered, sent: asked, ..Effects::none() },
                    result: Err(Error::DescriptorWriteFailed),
                }
            } else {
                ControlTrace {
                    effects: Effects {
                        writes: answered,
                        sent: asked,
                        used: seq![(chain.index, len)],
                        ..Effects::none()
                    },
                    result: Ok(true),
                }
            }
        },
    }
}

/// What a decision leads to, after the reads that it took.
pub open spec fn performed_after(
    reads: Seq<(u64, Seq<u8>)>,
    mapped: Set<u64>,
    chain: ChainView,
    decision: DecisionView,
    delivered: bool,
) -> ControlTrace {
    let trace = performed(mapped, chain, decision, delivered);
    ControlTrace { effects: Effects { reads, ..trace.effects }, result: trace.result }
}

/// A request from beginning to end, given what the reads gave back.
pub open spec fn processed(
    env: ControlEnv,
    chain: ChainView,
    answers: Seq<(u64, Seq<u8>)>,
    delivered: bool,
) -> ControlTrace {
    let descriptors = chain.descriptors;
    if descriptors.len() < 2 {
        failed(Seq::empty(), Error::UnexpectedDescriptorCount(descriptors.len() as usize))
    } else if descriptors[0].write_only {
        failed(Seq::empty(), Error::UnexpectedWriteOnlyDescriptor(0))
    } else if !fits(env.mapped, descriptors[0].addr, HEADER_SIZE as nat) {
        failed(Seq::empty(), Error::DescriptorReadFailed)
    } else {
        let addr = descriptors[0].addr;
        let head = answers[0].1;
        let reads = seq![(addr, head)];
        if !descriptors[1].write_only {
            failed(reads, Error::UnexpectedReadableDescriptor(1))
        } else {
            match kind_of(VirtioSoundHeader::parse(head).code) {
                Err(invalid) => failed(reads, Error::InvalidControlMessage(invalid.0)),
                Ok(kind) => match request_size(kind, descriptors) {
                    Err(error) => failed(reads, error),
                    Ok(size) => if size == 0 {
                        let decision = decided(
                            kind,
                            chain,
                            env.streams,
                            env.streams_no,
                            Seq::empty(),
                        );
                        performed_after(reads, env.mapped, chain, decision, delivered)
                    } else if !fits(env.mapped, addr, size) {
                        failed(reads, Error::DescriptorReadFailed)
                    } else {
                        let request = answers[1].1;
                        let decision = decided(
                            kind,
                            chain,
                            env.streams,
                            env.streams_no,
                            request,
                        );
                        performed_after(
                            reads.push((addr, request)),
                            env.mapped,
                            chain,
                            decision,
                            delivered,
                        )
                    },
                },
            }
        }
    }
}

/// Did every read give back as many bytes as are needed? The first is that of the head, and the
/// second that of the request that the head announces.
pub open spec fn sized(descriptors: Seq<Descriptor>, reads: Seq<(u64, Seq<u8>)>) -> bool {
    &&& reads.len() >= 1 ==> reads[0].1.len() == HEADER_SIZE
    &&& reads.len() >= 2 ==> match kind_of(VirtioSoundHeader::parse(reads[0].1).code) {
        Ok(kind) => request_size(kind, descriptors) == Ok::<nat, Error>(reads[1].1.len()),
        Err(_) => false,
    }
}

impl ControlTrace {
    /// Is this what comes of the request in `chain`?
    pub open spec fn explains(self, env: ControlEnv, chain: ChainView) -> bool {
        &&& sized(chain.descriptors, self.effects.reads)
        &&& self == processed(
            env,
            chain,
            self.effects.reads,
            self.result != Err::<bool, Error>(Error::SendNotificationFailed),
        )
    }
}

/// The action of a decision is about a stream with a number of the driver.
pub open spec fn addressable(decision: DecisionView) -> bool {
    match decision {
        DecisionView::Defer(action) => stream_of(action) <= u32::MAX,
        DecisionView::Reply { action: Some(action), .. } => stream_of(action) <= u32::MAX,
        _ => true,
    }
}

/// Asks the audio backend for an action. A request that comes with it is left to the backend,
/// which hands none back to be answered at once.
fn hand_over(backend: &mut PwBackend, action: PwAction) -> (res: Result<(), Error>)
    requires
        old(backend).wf(),
        stream_of(action) <= u32::MAX,
    ensures
        PwBackend::passed_on(*old(backend), *final(backend), action, res),
{
    match action {
        PwAction::SetParameters(id, message, request) => match backend.set_parameters(
            id as u32,
            message,
            request,
        ) {
            Ok(left) => {
                assert(left is None);
                Ok(())
            },
            Err(error) => Err(error),
        },
        PwAction::Prepare(id) => backend.prepare(id as u32),
        PwAction::Release(id, message) => match backend.release(id as u32, message) {
            Ok(left) => {
                assert(left is None);
                Ok(())
            },
            Err(error) => Err(error),
        },
        PwAction::Start(id) => backend.start(id as u32),
        PwAction::Stop(id) => backend.stop(id as u32),
        PwAction::Write(id) => backend.write(id as u32),
        PwAction::Read(id) => backend.read(id as u32),
    }
}

/// Does what a decision asks for.
fn perform(
    backend: &mut PwBackend,
    mem: &mut GuestMemoryMmap,
    queue: &mut VirtQueue,
    head: &DescriptorChain,
    decision: Decision,
) -> (res: Result<bool, Error>)
    requires
        old(backend).wf(),
        addressable(decision@),
        head@.descriptors.len() >= 2,
        decision@ matches DecisionView::Reply { info: Some(_), .. } ==> head@.descriptors.len()
            >= 3,
    ensures
        final(backend).wf(),
        final(backend).feeds_as(*old(backend)),
        guest(*final(mem)).mapped == guest(*old(mem)).mapped,
        final(queue)@ == (QueueView { used: final(queue)@.used, ..old(queue)@ }),
        ({
            let trace = performed(
                guest(*old(mem)).mapped,
                head@,
                decision@,
                res != Err::<bool, Error>(Error::SendNotificationFailed),
            );
            &&& effects(*final(mem), *final(backend), *final(queue)) == effects(
                *old(mem),
                *old(backend),
                *old(queue),
            ).plus(trace.effects)
            &&& res == trace.result
        }),
{
    let ghost before = effects(*mem, *backend, *queue);
    match decision {
        Decision::Defer(action) => match hand_over(backend, action) {
            Ok(_) => {
                assert(effects(*mem, *backend, *queue) =~= before.plus(
                    Effects { sent: seq![action], ..Effects::none() },
                ));
                Ok(false)
            },
            Err(error) => {
                assert(effects(*mem, *backend, *queue) =~= before.plus(
                    Effects { refused: seq![action], ..Effects::none() },
                ));
                Err(error)
            },
        },
        Decision::Reply { code, info, action } => {
            let mut used_len: u32 = 0;
            let ghost mut described: Seq<(u64, Seq<u8>)> = Seq::empty();
            if let Some(bytes) = info {
                proof {
                    described =
                    stored(guest(*mem).mapped, head@.descriptors[2].addr, bytes@);
                    lemma_stored(
                        before.writes,
                        guest(*mem).mapped,
                        head@.descriptors[2].addr,
                        bytes@,
                    );
                }
                if write_slice(mem, head.descriptors[2].addr, bytes.as_slice()).is_err() {
                    assert(effects(*mem, *backend, *queue) =~= before.plus(
                        Effects { writes: described, ..Effects::none() },
                    ));
                    return Err(Error::DescriptorWriteFailed);
                }
                used_len = head.descriptors[2].len;
            }
            assert(guest(*mem).writes =~= before.writes + described);
            let ghost mut sent: Seq<PwAction> = Seq::empty();
            if let Some(action) = action {
                if let Err(error) = hand_over(backend, action) {
                    assert(effects(*mem, *backend, *queue) =~= before.plus(
                        Effects {
                            writes: described,
                            refused: seq![action],
                            ..Effects::none()
                        },
                    ));
                    return Err(error);
                }
                proof {
                    sent = seq![action];
                }
            }
            assert(backend.sent() =~= before.sent + sent);
            let status = VirtioSoundHeader { code }.to_vec();
            let addr: u64 = head.descriptors[1].addr;
            proof {
                lemma_stored(guest(*mem).writes, guest(*mem).mapped, addr, status@);
            }
            let ghost answered = described + stored(guest(*mem).mapped, addr, status@);
            if write_slice(mem, addr, status.as_slice()).is_err() {
                assert(effects(*mem, *backend, *queue) =~= before.plus(
                    Effects { writes: answered, sent, ..Effects::none() },
                ));
                return Err(Error::DescriptorWriteFailed);
            }
            queue.add_used(head.index, used_len);
            assert(effects(*mem, *backend, *queue) =~= before.plus(
                Effects {
                    writes: answered,
                    sent,
                    used: seq![(head.index, used_len)],
                    ..Effects::none()
                },
            ));
            Ok(true)
        },
    }
}

/// Deals with one request and tells whether its chain was given back.
pub fn process_request(
    backend: &mut PwBackend,
    streams: &Vec<Stream>,
    streams_no: usize,
    mem: &mut GuestMemoryMmap,
    queue: &mut VirtQueue,
    head: &DescriptorChain,
) -> (res: Result<bool, Error>)
    requires
        old(backend).wf(),
    ensures
        final(backend).wf(),
        final(backend).feeds_as(*old(backend)),
        guest(*final(mem)).mapped == guest(*old(mem)).mapped,
        final(queue)@ == (QueueView { used: final(queue)@.used, ..old(queue)@ }),
        ({
            let env = ControlEnv {
                mapped: guest(*old(mem)).mapped,
                streams: stream_views(streams@),
                streams_no,
            };
            let before = effects(*old(mem), *old(backend), *old(queue));
            let all = effects(*final(mem), *final(backend), *final(queue));
            &&& all == before.plus(all.since(before))
            &&& (ControlTrace { effects: all.since(before), result: res }).explains(env, head@)
        }),
{
    let ghost env = ControlEnv {
        mapped: guest(*mem).mapped,
        streams: stream_views(streams@),
        streams_no,
    };
    let ghost before = effects(*mem, *backend, *queue);
    proof {
        lemma_unchanged(before);
    }
    let count: usize = head.descriptors.len();
    if count < 2 {
        return Err(Error::UnexpectedDescriptorCount(count));
    }
    let first = &head.descriptors[0];
    if first.is_write_only() {
        return Err(Error::UnexpectedWriteOnlyDescriptor(0));
    }
    let header = match read_exact(mem, first.addr, HEADER_SIZE) {
        Ok(bytes) => bytes,
        Err(_) => {
            return Err(Error::DescriptorReadFailed);
        },
    };
    let ghost reads = seq![(first.addr, header@)];
    proof {
        lemma_read_so_far(before, effects(*mem, *backend, *queue), reads);
    }
    if !head.descriptors[1].is_write_only() {
        return Err(Error::UnexpectedReadableDescriptor(1));
    }
    let code: u32 = VirtioSoundHeader::from_slice(header.as_slice()).code;
    let kind = match ControlMessageKind::try_from(code) {
        Ok(kind) => kind,
        Err(invalid) => {
            return Err(Error::from(invalid));
        },
    };
    let size: usize = match needed_size(kind, &head.descriptors) {
        Ok(size) => size,
        Err(error) => {
            return Err(error);
        },
    };
    let ghost mut all_reads = reads;
    let mut request: Vec<u8> = Vec::new();
    if size > 0 {
        match read_exact(mem, first.addr, size) {
            Ok(bytes) => {
                request = bytes;
                proof {
                    all_reads = reads.push((first.addr, request@));
                }
            },
            Err(_) => {
                return Err(Error::DescriptorReadFailed);
            },
        }
    }
    assert(size == 0 ==> request@ =~= Seq::<u8>::empty());
    let ghost ready = effects(*mem, *backend, *queue);
    proof {
        lemma_read_so_far(before, ready, all_reads);
    }
    let decision = decide(kind, head, streams, streams_no, &request);
    let ghost decision_view = decision@;
    let res = perform(backend, mem, queue, head, decision);
    proof {
        let all = effects(*mem, *backend, *queue);
        let trace = performed_after(
            all_reads,
            env.mapped,
            head@,
            decision_view,
            res != Err::<bool, Error>(Error::SendNotificationFailed),
        );
        assert(all =~= before.plus(trace.effects));
        lemma_plus_since(before, trace.effects);
    }
    res
}

/// The effects of requests, one after the other.
pub open spec fn total(steps: Seq<ControlTrace>) -> Effects
    decreases steps.len(),
{
    if steps.len() == 0 {
        Effects::none()
    } else {
        total(steps.drop_last()).plus(steps.last().effects)
    }
}

/// The errors of requests, in order.
pub open spec fn errors(steps: Seq<ControlTrace>) -> Seq<Error>
    decreases steps.len(),
{
    if steps.len() == 0 {
        Seq::empty()
    } else {
        match steps.last().result {
            Ok(_) => errors(steps.drop_last()),
            Err(error) => errors(steps.drop_last()).push(error),
        }
    }
}

/// Was the chain of some request given back?
pub open spec fn any_used(steps: Seq<ControlTrace>) -> bool {
    exists|i: int| 0 <= i < steps.len() && (#[trigger] steps[i]).result == Ok::<bool, Error>(true)
}

/// Is each step what comes of the request in the chain of the same position?
pub open spec fn explained(
    steps: Seq<ControlTrace>,
    env: ControlEnv,
    chains: Seq<ChainView>,
) -> bool {
    &&& steps.len() == chains.len()
    &&& forall|i: int| 0 <= i < steps.len() ==> #[trigger] steps[i].explains(env, chains[i])
}

/// What came of the requests on the queue.
#[derive(Debug, PartialEq, Eq)]
pub struct ControlRun {
    /// Whether a chain was given back, so that the driver is to be interrupted.
    pub have_used: bool,
    /// The errors of the requests that failed, in order.
    pub errors: Vec<Error>,
}

/// Deals with the requests on the queue, in order, until there are none left.
pub fn process_requests(
    backend: &mut PwBackend,
    streams: &Vec<Stream>,
    streams_no: usize,
    mem: &mut GuestMemoryMmap,
    queue: &mut VirtQueue,
) -> (run: ControlRun)
    requires
        old(backend).wf(),
    ensures
        final(backend).wf(),
        final(backend).feeds_as(*old(backend)),
        guest(*final(mem)).mapped == guest(*old(mem)).mapped,
        final(queue)@.max_size == old(queue)@.max_size,
        final(queue)@.pending == Seq::<ChainView>::empty(),
        ({
            let env = ControlEnv {
                mapped: guest(*old(mem)).mapped,
                streams: stream_views(streams@),
                streams_no,
            };
            exists|steps: Seq<ControlTrace>|
                {
                    &&& #[trigger] explained(steps, env, old(queue)@.pending)
                    &&& effects(*final(mem), *final(backend), *final(queue)) == effects(
                        *old(mem),
                        *old(backend),
                        *old(queue),
                    ).plus(total(steps))
                    &&& run.have_used == any_used(steps)
                    &&& run.errors@ == errors(steps)
                }
        }),
{
    let ghost env = ControlEnv {
        mapped: guest(*mem).mapped,
        streams: stream_views(streams@),
        streams_no,
    };
    let ghost chains = queue@.pending;
    let ghost before = effects(*mem, *backend, *queue);
    let ghost mut steps: Seq<ControlTrace> = Seq::empty();
    let mut have_used = false;
    let mut failures: Vec<Error> = Vec::new();
    proof {
        lemma_plus_none(before);
        assert(chains.skip(0) =~= chains);
    }
    while queue.pending.len() > 0
        invariant
            backend.wf(),
            backend.feeds_as(*old(backend)),
            guest(*mem).mapped == env.mapped,
            env.streams == stream_views(streams@),
            env.streams_no == streams_no,
            queue@.max_size == old(queue)@.max_size,
            steps.len() <= chains.len(),
            queue@.pending == chains.skip(steps.len() as int),
            explained(steps, env, chains.take(steps.len() as int)),
            effects(*mem, *backend, *queue) == before.plus(total(steps)),
            have_used == any_used(steps),
            failures@ == errors(steps),
        decreases queue@.pending.len(),
    {
        let ghost now = effects(*mem, *backend, *queue);
        let ghost rest = queue@.pending;
        if let Some(head) = queue.pop() {
            let ghost popped = effects(*mem, *backend, *queue);
            assert(head@ == chains[steps.len() as int]);
            let res = process_request(backend, streams, streams_no, mem, queue, &head);
            proof {
                let all = effects(*mem, *backend, *queue);
                let step = ControlTrace { effects: all.since(popped), result: res };
                let next = steps.push(step);
                assert(next.drop_last() =~= steps);
                lemma_plus_assoc(before, total(steps), step.effects);
                assert(chains.skip(steps.len() as int).drop_first() =~= chains.skip(
                    next.len() as int,
                ));
                assert forall|i: int| 0 <= i < next.len() implies #[trigger] next[i].explains(
                    env,
                    chains.take(next.len() as int)[i],
                ) by {
                    if i < steps.len() {
                        assert(steps[i].explains(env, chains.take(steps.len() as int)[i]));
                    }
                }
                if any_used(steps) {
                    let i = choose|i: int|
                        0 <= i < steps.len() && (#[trigger] steps[i]).result == Ok::<bool, Error>(
                            true,
                        );
                    assert(next[i].result == Ok::<bool, Error>(true));
                }
                if res == Ok::<bool, Error>(true) {
                    assert(next[steps.len() as int].result == Ok::<bool, Error>(true));
                }
                if any_used(next) && !any_used(steps) {
                    let i = choose|i: int|
                        0 <= i < next.len() && (#[trigger] next[i]).result == Ok::<bool, Error>(
                            true,
                        );
                    if i < steps.len() {
                        assert(steps[i].result == Ok::<bool, Error>(true));
                    }
                }
                steps = next;
            }
            match res {
                Ok(used) => {
                    if used {
                        have_used = true;
                    }
                },
                Err(error) => {
                    failures.push(error);
                },
            }
        }
    }
    assert(chains.take(steps.len() as int) =~= chains);
    assert(queue@.pending =~= Seq::<ChainView>::empty());
    ControlRun { have_used, errors: failures }
}

/// Nothing was done.
proof fn lemma_unchanged(before: Effects)
    ensures
        before == before.plus(Effects::none()),
        before.since(before) == Effects::none(),
{
    lemma_plus_none(before);
    lemma_plus_since(before, Effects::none());
}

/// Nothing was done but to read.
proof fn lemma_read_so_far(before: Effects, now: Effects, reads: Seq<(u64, Seq<u8>)>)
    requires
        now == (Effects { reads: before.reads + reads, ..before }),
    ensures
        now == before.plus(Effects { reads, ..Effects::none() }),
        now.since(before) == (Effects { reads, ..Effects::none() }),
{
    assert(now =~= before.plus(Effects { reads, ..Effects::none() }));
    lemma_plus_since(before, Effects { reads, ..Effects::none() });
}

} // verus!
