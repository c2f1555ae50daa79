//! The device.
use crate::audio_backends::pipewire::{PwAction, PwBackend};
use crate::audio_backends::{alloc_audio_backend, BackendType};
use crate::control::{self, process_request, process_requests, ControlEnv, ControlRun, ControlTrace};
use crate::defs::{
    AVAIL_FEATURES, CTL_INDEX, EVT_INDEX, NUM_QUEUES, QUEUE_SIZE, RXQ_INDEX, SND_DEV_ID, TXQ_INDEX,
    VIRTIO_ID_SND,
};
use crate::error::Error;
use crate::guest_memory::guest;
use crate::queue::{ChainView, DescriptorChain, QueueView, VirtQueue};
use crate::stream::{new_stream, stream_views, Stream, StreamView};
use crate::trace::{effects, Effects};
use crate::transmit::{
    self, process_transfer, process_transfers, TransmitEnv, TransmitReport, TransmitRun,
    TransmitTrace,
};
use crate::virtio_sound::{VirtioSoundConfig, CONFIG_SIZE, VIRTIO_SND_D_INPUT, VIRTIO_SND_D_OUTPUT};
use crate::vring::{make_signal, used_queue_signal, Signal, Vring};
use crossbeam_channel::Receiver;
use vm_memory::GuestMemoryMmap;
use vstd::prelude::*;

verus! {

/// The part of the device that has no state.
#[derive(Clone, Copy, Debug, Default)]
pub struct VirtioSnd {}

/// Why the device could not be activated.
#[derive(Clone, Copy, Debug, PartialEq, Eq, Structural)]
pub enum ActivateError {
    /// The device is not in order.
    BadActivate,
}

/// Whether the driver has activated the device.
pub enum DeviceState {
    /// It has not.
    Inactive,
    /// It has, and this is its memory.
    Activated(GuestMemoryMmap),
}

/// The sound device.
pub struct Snd {
    /// The control queue in use.
    pub vring_ctl: Option<Vring>,
    /// The event queue in use.
    pub vring_evt: Option<Vring>,
    /// The transmit queue in use.
    pub vring_txq: Option<Vring>,
    /// The receive queue in use.
    pub vring_rxq: Option<Vring>,
    /// The queues as they were set up.
    pub queues: Vec<VirtQueue>,
    /// The features on offer.
    pub avail_features: u64,
    /// The features that the driver accepted.
    pub acked_features: u64,
    /// Whether the device is activated.
    pub device_state: DeviceState,
    /// Whether there is an interrupt controller.
    pub intc: bool,
    /// The interrupt line.
    pub irq_line: Option<u32>,
    /// The streams.
    pub streams: Vec<Stream>,
    /// Their number.
    pub streams_no: usize,
    /// The audio backend.
    pub audio_backend: Option<PwBackend>,
}

/// The streams of a new device: one that plays and one that records.
pub open spec fn initial_streams() -> Seq<StreamView> {
    seq![new_stream(0, VIRTIO_SND_D_OUTPUT), new_stream(1, VIRTIO_SND_D_INPUT)]
}

/// The configuration space.
pub open spec fn config() -> VirtioSoundConfig {
    VirtioSoundConfig { jacks: 0, streams: 1, chmaps: 0 }
}

/// The first of `len` bytes of the configuration space from `offset` on, as many as there are.
pub open spec fn config_bytes(offset: u64, len: nat) -> Seq<u8> {
    if offset >= CONFIG_SIZE {
        Seq::empty()
    } else if offset + len > CONFIG_SIZE {
        config().bytes().skip(offset as int)
    } else {
        config().bytes().subrange(offset as int, offset + len)
    }
}

/// What `data` holds after the configuration space was read into it from `offset` on.
pub open spec fn config_read(offset: u64, data: Seq<u8>) -> Seq<u8> {
    let bytes = config_bytes(offset, data.len());
    bytes + data.skip(bytes.len() as int)
}

/// As many errors as chains were taken without an audio backend.
pub open spec fn missing_backend(count: nat) -> Seq<Error> {
    Seq::new(count, |i: int| Error::MissingAudioBackend)
}

/// Takes every chain from the queue and fails on it for want of an audio backend.
fn refuse_all(queue: &mut VirtQueue) -> (errors: Vec<Error>)
    ensures
        errors@ == missing_backend(old(queue)@.pending.len()),
        final(queue)@ == (QueueView { pending: Seq::empty(), ..old(queue)@ }),
{
    let mut errors: Vec<Error> = Vec::new();
    while queue.pending.len() > 0
        invariant
            queue@ == (QueueView { pending: queue@.pending, ..old(queue)@ }),
            errors@.len() + queue@.pending.len() == old(queue)@.pending.len(),
            errors@ == missing_backend(errors@.len()),
        decreases queue@.pending.len(),
    {
        let _ = queue.pop();
        errors.push(Error::MissingAudioBackend);
    }
    assert(queue@.pending =~= Seq::<ChainView>::empty());
    errors
}

impl Snd {
    /// A device with the given queues.
    pub fn with_queues(queues: Vec<VirtQueue>) -> (snd: Self)
        ensures
            snd.wf(),
            snd.queues == queues,
            snd.avail_features == AVAIL_FEATURES,
            snd.acked_features == 0,
            snd.device_state is Inactive,
            !snd.intc,
            snd.irq_line is None,
            stream_views(snd.streams@) == initial_streams(),
            snd.streams_no == 2,
            snd.audio_backend is None,
            snd.vring_ctl is None,
            snd.vring_evt is None,
            snd.vring_txq is None,
            snd.vring_rxq is None,
    {
        let mut streams: Vec<Stream> = Vec::new();
        streams.push(Stream::with_direction(0, VIRTIO_SND_D_OUTPUT));
        streams.push(Stream::with_direction(1, VIRTIO_SND_D_INPUT));
        assert(stream_views(streams@) =~= initial_streams());
        let streams_no: usize = streams.len();
        Snd {
            vring_ctl: None,
            vring_evt: None,
            vring_txq: None,
            vring_rxq: None,
            queues,
            avail_features: AVAIL_FEATURES,
            acked_features: 0,
            device_state: DeviceState::Inactive,
            intc: false,
            irq_line: None,
            streams,
            streams_no,
            audio_backend: None,
        }
    }

    /// A device with queues of the usual number and size.
    pub fn new() -> (snd: Self)
        ensures
            snd.wf(),
            snd.queues@.len() == NUM_QUEUES,
            forall|i: int|
                0 <= i < NUM_QUEUES ==> (#[trigger] snd.queues@[i])@ == (QueueView {
                    max_size: QUEUE_SIZE,
                    pending: Seq::empty(),
                    used: Seq::empty(),
                }),
            snd.avail_features == AVAIL_FEATURES,
            snd.acked_features == 0,
            snd.device_state is Inactive,
            !snd.intc,
            snd.irq_line is None,
            stream_views(snd.streams@) == initial_streams(),
            snd.streams_no == 2,
            snd.audio_backend is None,
            snd.vring_ctl is None,
            snd.vring_evt is None,
            snd.vring_txq is None,
            snd.vring_rxq is None,
    {
        let mut queues: Vec<VirtQueue> = Vec::new();
        while queues.len() < NUM_QUEUES
            invariant
                queues@.len() <= NUM_QUEUES,
                forall|i: int|
                    0 <= i < queues@.len() ==> (#[trigger] queues@[i])@ == (QueueView {
                        max_size: QUEUE_SIZE,
                        pending: Seq::empty(),
                        used: Seq::empty(),
                    }),
            decreases NUM_QUEUES - queues@.len(),
        {
            queues.push(VirtQueue::new(QUEUE_SIZE));
        }
        Snd::with_queues(queues)
    }

    /// The audio backend can take requests.
    pub open spec fn wf(self) -> bool {
        self.audio_backend matches Some(backend) ==> backend.wf()
    }

    /// Name of the device.
    pub fn id(&self) -> (id: &'static str)
        ensures
            id@ == SND_DEV_ID@,
    {
        SND_DEV_ID
    }

    /// Says that there is an interrupt controller.
    pub fn set_intc(&mut self)
        ensures
            *final(self) == (Snd { intc: true, ..*old(self) }),
    {
        self.intc = true;
    }

    /// Sets the interrupt line.
    pub fn set_irq_line(&mut self, irq: u32)
        ensures
            *final(self) == (Snd { irq_line: Some(irq), ..*old(self) }),
    {
        self.irq_line = Some(irq);
    }

    /// Makes the interrupt that says that a queue has used buffers.
    pub fn signal_used_queue(&self) -> (signal: Signal)
        ensures
            signal == used_queue_signal(self.intc, self.irq_line),
    {
        make_signal(self.intc, self.irq_line)
    }

    /// The features on offer.
    pub fn avail_features(&self) -> (features: u64)
        ensures
            features == self.avail_features,
    {
        self.avail_features
    }

    /// The features that the driver accepted.
    pub fn acked_features(&self) -> (features: u64)
        ensures
            features == self.acked_features,
    {
        self.acked_features
    }

    /// Takes note of the features that the driver accepted.
    pub fn set_acked_features(&mut self, acked_features: u64)
        ensures
            *final(self) == (Snd { acked_features, ..*old(self) }),
    {
        self.acked_features = acked_features;
    }

    /// The virtio device type.
    pub fn device_type(&self) -> (device_type: u32)
        ensures
            device_type == VIRTIO_ID_SND,
    {
        VIRTIO_ID_SND
    }

    /// The queues as they were set up.
    pub fn queues(&self) -> (queues: &Vec<VirtQueue>)
        ensures
            *queues == self.queues,
    {
        &self.queues
    }

    /// The queues as they were set up, to be changed.
    pub fn queues_mut(&mut self) -> (queues: &mut Vec<VirtQueue>)
        ensures
            *queues == old(self).queues,
            *final(self) == (Snd { queues: *final(queues), ..*old(self) }),
    {
        &mut self.queues
    }

    /// Is the device activated?
    pub fn is_activated(&self) -> (res: bool)
        ensures
            res == (self.device_state is Activated),
    {
        match &self.device_state {
            DeviceState::Inactive => false,
            DeviceState::Activated(_) => true,
        }
    }

    /// Reads the configuration space from `offset` on into `data`, as far as both reach. The rest
    /// of `data` stays as it is.
    pub fn read_config(&self, offset: u64, data: &mut [u8])
        ensures
            final(data)@.len() == old(data)@.len(),
            ({
                let bytes = config_bytes(offset, old(data)@.len());
                final(data)@ == bytes + old(data)@.skip(bytes.len() as int)
            }),
            final(data)@ == config_read(offset, old(data)@),
    {
        let config = VirtioSoundConfig { jacks: 0, streams: 1, chmaps: 0 }.to_vec();
        if offset >= config.len() as u64 {
            assert(data@ =~= config_bytes(offset, data@.len()) + data@.skip(0));
            return;
        }
        let start: usize = offset as usize;
        let room: usize = data.len();
        let left: usize = config.len() - start;
        let count: usize = if room < left {
            room
        } else {
            left
        };
        let mut i: usize = 0;
        let ghost before = data@;
        assert(config@.subrange(start as int, start as int) + before.skip(0) =~= before);
        while i < count
            invariant
                i <= count <= before.len(),
                start + count <= config.len(),
                data@.len() == before.len(),
                data@ == config@.subrange(start as int, start + i) + before.skip(i as int),
            decreases count - i,
        {
            data[i] = config[start + i];
            assert(data@ =~= config@.subrange(start as int, start + i + 1) + before.skip(i + 1));
            i = i + 1;
        }
        assert(config@.subrange(start as int, start + count) =~= config_bytes(
            offset,
            before.len(),
        ));
    }

    /// The configuration space cannot be written.
    pub fn write_config(&mut self, _offset: u64, _data: &[u8])
        ensures
            *final(self) == *old(self),
    {
    }

    /// Is this the queue with this number, put to use?
    pub open spec fn in_use(self, vring: Option<Vring>, index: int) -> bool {
        match vring {
            Some(vring) => {
                &&& vring.queue@ == self.queues@[index]@
                &&& vring.intc == self.intc
                &&& vring.irq_line == self.irq_line
            },
            None => false,
        }
    }

    /// Were the queues put to use and an audio backend made, that nothing has been passed on to?
    pub open spec fn put_to_use(before: Snd, after: Snd) -> bool {
        &&& before.in_use(after.vring_ctl, CTL_INDEX as int)
        &&& before.in_use(after.vring_evt, EVT_INDEX as int)
        &&& before.in_use(after.vring_txq, TXQ_INDEX as int)
        &&& before.in_use(after.vring_rxq, RXQ_INDEX as int)
        &&& after.audio_backend matches Some(backend)
        &&& backend.wf()
        &&& backend.sent() == Seq::<PwAction>::empty()
        &&& backend.refused() == Seq::<PwAction>::empty()
        &&& after == (Snd {
            vring_ctl: after.vring_ctl,
            vring_evt: after.vring_evt,
            vring_txq: after.vring_txq,
            vring_rxq: after.vring_rxq,
            audio_backend: after.audio_backend,
            ..before
        })
    }

    /// Puts the queue with this number to use.
    fn make_vring(&self, index: usize) -> (vring: Vring)
        requires
            index < self.queues@.len(),
        ensures
            self.in_use(Some(vring), index as int),
    {
        Vring {
            queue: self.queues[index].duplicate(),
            intc: self.intc,
            irq_line: self.irq_line,
        }
    }

    /// Puts the queues to use and makes the audio backend; the worker of the backend is to take
    /// its actions from the channel that is given back. The device is activated only by
    /// [`Snd::finish_activation`].
    pub fn activate(&mut self) -> (res: Result<Receiver<PwAction>, ActivateError>)
        ensures
            res is Ok <==> old(self).queues@.len() == NUM_QUEUES,
            res matches Err(error) ==> error == ActivateError::BadActivate && *final(self)
                == *old(self),
            res is Ok ==> Snd::put_to_use(*old(self), *final(self)),
            res is Ok ==> {
                &&& final(self).wf()
                &&& old(self).in_use(final(self).vring_ctl, CTL_INDEX as int)
                &&& old(self).in_use(final(self).vring_evt, EVT_INDEX as int)
                &&& old(self).in_use(final(self).vring_txq, TXQ_INDEX as int)
                &&& old(self).in_use(final(self).vring_rxq, RXQ_INDEX as int)
                &&& final(self).audio_backend matches Some(backend)
                &&& backend.feeds(res->Ok_0)
                &&& backend.sent() == Seq::<PwAction>::empty()
                &&& backend.refused() == Seq::<PwAction>::empty()
                &&& *final(self) == (Snd {
                    vring_ctl: final(self).vring_ctl,
                    vring_evt: final(self).vring_evt,
                    vring_txq: final(self).vring_txq,
                    vring_rxq: final(self).vring_rxq,
                    audio_backend: final(self).audio_backend,
                    ..*old(self)
                })
            },
    {
        if self.queues.len() != NUM_QUEUES {
            return Err(ActivateError::BadActivate);
        }
        let vring_ctl = self.make_vring(CTL_INDEX);
        let vring_evt = self.make_vring(EVT_INDEX);
        let vring_txq = self.make_vring(TXQ_INDEX);
        let vring_rxq = self.make_vring(RXQ_INDEX);
        self.vring_ctl = Some(vring_ctl);
        self.vring_evt = Some(vring_evt);
        self.vring_txq = Some(vring_txq);
        self.vring_rxq = Some(vring_rxq);
        match alloc_audio_backend(BackendType::Pipewire) {
            Ok((backend, receiver)) => {
                self.audio_backend = Some(backend);
                Ok(receiver)
            },
            Err(_) => Err(ActivateError::BadActivate),
        }
    }

    /// Activates the device with the memory of the driver, provided that the activation event
    /// could be written.
    pub fn finish_activation(&mut self, mem: GuestMemoryMmap, event_written: bool) -> (res: Result<
        (),
        ActivateError,
    >)
        ensures
            res == if event_written {
                Ok::<(), ActivateError>(())
            } else {
                Err(ActivateError::BadActivate)
            },
            *final(self) == if event_written {
                Snd { device_state: DeviceState::Activated(mem), ..*old(self) }
            } else {
                *old(self)
            },
    {
        if !event_written {
            return Err(ActivateError::BadActivate);
        }
        self.device_state = DeviceState::Activated(mem);
        Ok(())
    }

    /// The memory of an activated device.
    pub open spec fn mem(self) -> GuestMemoryMmap {
        self.device_state->Activated_0
    }

    /// What a request meets.
    pub open spec fn control_env(self) -> ControlEnv {
        ControlEnv {
            mapped: guest(self.mem()).mapped,
            streams: stream_views(self.streams@),
            streams_no: self.streams_no,
        }
    }

    /// What has been done for requests.
    pub open spec fn control_effects(self) -> Effects {
        effects(self.mem(), self.audio_backend->0, self.vring_ctl->0.queue)
    }

    /// Can requests be dealt with?
    pub open spec fn takes_requests(self) -> bool {
        self.wf() && self.device_state is Activated && self.vring_ctl is Some
    }

    /// What dealing with requests leaves as it is.
    pub open spec fn same_but_for_requests(self, before: Snd) -> bool {
        &&& self.takes_requests()
        &&& guest(self.mem()).mapped == guest(before.mem()).mapped
        &&& self.vring_ctl->0.intc == before.vring_ctl->0.intc
        &&& self.vring_ctl->0.irq_line == before.vring_ctl->0.irq_line
        &&& self.vring_ctl->0.queue@.max_size == before.vring_ctl->0.queue@.max_size
        &&& self.audio_backend is Some <==> before.audio_backend is Some
        &&& self.audio_backend matches Some(backend) ==> backend.feeds_as(before.audio_backend->0)
        &&& self == (Snd {
            device_state: self.device_state,
            vring_ctl: self.vring_ctl,
            audio_backend: self.audio_backend,
            ..before
        })
    }

    /// Deals with one request.
    pub fn process_ctl_message(&mut self, head: &DescriptorChain) -> (res: Result<bool, Error>)
        requires
            old(self).takes_requests(),
        ensures
            final(self).same_but_for_requests(*old(self)),
            final(self).vring_ctl->0.queue@.pending == old(self).vring_ctl->0.queue@.pending,
            old(self).audio_backend is None ==> res == Err::<bool, Error>(
                Error::MissingAudioBackend,
            ) && *final(self) == *old(self),
            old(self).audio_backend is Some ==> {
                let before = old(self).control_effects();
                let all = final(self).control_effects();
                &&& all == before.plus(all.since(before))
                &&& (ControlTrace { effects: all.since(before), result: res }).explains(
                    old(self).control_env(),
                    head@,
                )
            },
    {
        match (&mut self.device_state, &mut self.vring_ctl, &mut self.audio_backend) {
            (DeviceState::Activated(mem), Some(vring), Some(backend)) => process_request(
                backend,
                &self.streams,
                self.streams_no,
                mem,
                &mut vring.queue,
                head,
            ),
            _ => Err(Error::MissingAudioBackend),
        }
    }

    /// Is this what comes of the requests on the control queue: that they were dealt with in
    /// order until there were none left, whether the chain of one was given back at once, and the
    /// errors of those that failed? Without an audio backend each of them fails.
    pub open spec fn requests_processed(
        before: Snd,
        after: Snd,
        have_used: bool,
        errors: Seq<Error>,
    ) -> bool {
        let chains = before.vring_ctl->0.queue@.pending;
        &&& after.same_but_for_requests(before)
        &&& after.vring_ctl->0.queue@.pending == Seq::<ChainView>::empty()
        &&& before.audio_backend is None ==> {
            &&& !have_used
            &&& errors == missing_backend(chains.len())
            &&& after.device_state == before.device_state
            &&& after.vring_ctl->0.queue@.used == before.vring_ctl->0.queue@.used
        }
        &&& before.audio_backend is Some ==> exists|steps: Seq<ControlTrace>|
            {
                &&& #[trigger] control::explained(steps, before.control_env(), chains)
                &&& after.control_effects() == before.control_effects().plus(control::total(steps))
                &&& have_used == control::any_used(steps)
                &&& errors == control::errors(steps)
            }
    }

    /// Deals with the requests on the control queue, in order, until there are none left.
    pub fn process_ctl_queue(&mut self) -> (run: ControlRun)
        requires
            old(self).takes_requests(),
        ensures
            Snd::requests_processed(*old(self), *final(self), run.have_used, run.errors@),
    {
        let run = match (&mut self.device_state, &mut self.vring_ctl, &mut self.audio_backend) {
            (DeviceState::Activated(mem), Some(vring), Some(backend)) => process_requests(
                backend,
                &self.streams,
                self.streams_no,
                mem,
                &mut vring.queue,
            ),
            (_, Some(vring), _) => ControlRun {
                have_used: false,
                errors: refuse_all(&mut vring.queue),
            },
            _ => ControlRun { have_used: false, errors: Vec::new() },
        };
        assert(old(self).control_env().mapped == guest(old(self).mem()).mapped);
        run
    }

    /// What a transfer meets.
    pub open spec fn transmit_env(self) -> TransmitEnv {
        TransmitEnv {
            mapped: guest(self.mem()).mapped,
            streams: stream_views(self.streams@),
        }
    }

    /// What has been done for transfers.
    pub open spec fn transmit_effects(self) -> Effects {
        effects(self.mem(), self.audio_backend->0, self.vring_txq->0.queue)
    }

    /// Can transfers be dealt with?
    pub open spec fn takes_transfers(self) -> bool {
        self.wf() && self.device_state is Activated && self.vring_txq is Some
    }

    /// What dealing with transfers leaves as it is.
    pub open spec fn same_but_for_transfers(self, before: Snd) -> bool {
        &&& self.takes_transfers()
        &&& guest(self.mem()).mapped == guest(before.mem()).mapped
        &&& self.vring_txq->0.intc == before.vring_txq->0.intc
        &&& self.vring_txq->0.irq_line == before.vring_txq->0.irq_line
        &&& self.vring_txq->0.queue@.max_size == before.vring_txq->0.queue@.max_size
        &&& self.audio_backend is Some <==> before.audio_backend is Some
        &&& self.audio_backend matches Some(backend) ==> backend.feeds_as(before.audio_backend->0)
        &&& self == (Snd {
            device_state: self.device_state,
            vring_txq: self.vring_txq,
            audio_backend: self.audio_backend,
            streams: self.streams,
            ..before
        })
    }

    /// Deals with one transfer.
    pub fn process_txq_message(&mut self, head: &DescriptorChain) -> (report: TransmitReport)
        requires
            old(self).takes_transfers(),
        ensures
            final(self).same_but_for_transfers(*old(self)),
            final(self).vring_txq->0.queue@.pending == old(self).vring_txq->0.queue@.pending,
            report.result != Ok::<bool, Error>(true),
            report.answer matches Ok(Some(signal)) ==> signal == old(self).vring_txq->0.signal(),
            old(self).audio_backend is None ==> {
                &&& report.result == Err::<bool, Error>(Error::MissingAudioBackend)
                &&& report.answer == Ok::<Option<Signal>, Error>(None)
                &&& *final(self) == *old(self)
            },
            old(self).audio_backend is Some ==> {
                let before = old(self).transmit_effects();
                let all = final(self).transmit_effects();
                &&& all == before.plus(all.since(before))
                &&& (TransmitTrace {
                    effects: all.since(before),
                    streams: stream_views(final(self).streams@),
                    result: report.result,
                    answer: transmit::answered(report.answer),
                }).explains(old(self).transmit_env(), head@)
            },
    {
        match (&mut self.device_state, &mut self.vring_txq, &mut self.audio_backend) {
            (DeviceState::Activated(mem), Some(vring), Some(backend)) => process_transfer(
                backend,
                &mut self.streams,
                mem,
                vring,
                head,
            ),
            _ => TransmitReport { result: Err(Error::MissingAudioBackend), answer: Ok(None) },
        }
    }

    /// Is this what comes of the transfers on the transmit queue: that they were dealt with in
    /// order until there were none left, the errors of those that failed, and the interrupts for
    /// those that ended before they were played? Without an audio backend each of them fails.
    pub open spec fn transfers_processed(
        before: Snd,
        after: Snd,
        errors: Seq<Error>,
        signals: Seq<Signal>,
    ) -> bool {
        let chains = before.vring_txq->0.queue@.pending;
        &&& after.same_but_for_transfers(before)
        &&& after.vring_txq->0.queue@.pending == Seq::<ChainView>::empty()
        &&& forall|i: int|
            0 <= i < signals.len() ==> #[trigger] signals[i] == before.vring_txq->0.signal()
        &&& before.audio_backend is None ==> {
            &&& errors == missing_backend(chains.len())
            &&& signals.len() == 0
            &&& after.device_state == before.device_state
            &&& after.streams == before.streams
            &&& after.vring_txq->0.queue@.used == before.vring_txq->0.queue@.used
        }
        &&& before.audio_backend is Some ==> exists|steps: Seq<TransmitTrace>|
            {
                &&& #[trigger] transmit::explained(steps, before.transmit_env(), chains)
                &&& after.transmit_effects() == before.transmit_effects().plus(
                    transmit::total(steps),
                )
                &&& stream_views(after.streams@) == transmit::streams_at_end(
                    steps,
                    stream_views(before.streams@),
                )
                &&& errors == transmit::errors(steps)
                &&& signals.len() == transmit::interrupts(steps)
            }
    }

    /// Deals with the transfers on the transmit queue, in order, until there are none left. No
    /// chain is given back at once.
    pub fn process_txq_queue(&mut self) -> (run: TransmitRun)
        requires
            old(self).takes_transfers(),
        ensures
            !run.have_used,
            Snd::transfers_processed(*old(self), *final(self), run.errors@, run.signals@),
    {
        let run = match (&mut self.device_state, &mut self.vring_txq, &mut self.audio_backend) {
            (DeviceState::Activated(mem), Some(vring), Some(backend)) => process_transfers(
                backend,
                &mut self.streams,
                mem,
                vring,
            ),
            (_, Some(vring), _) => TransmitRun {
                have_used: false,
                errors: refuse_all(&mut vring.queue),
                signals: Vec::new(),
            },
            _ => TransmitRun { have_used: false, errors: Vec::new(), signals: Vec::new() },
        };
        assert(old(self).transmit_env().mapped == guest(old(self).mem()).mapped);
        run
    }

    /// Nothing is done with the event queue.
    pub fn process_evt(&mut self) -> (have_used: bool)
        ensures
            !have_used,
            *final(self) == *old(self),
    {
        false
    }

    /// Nothing is done with the transmit queue but to deal with its transfers.
    pub fn process_txq(&mut self) -> (have_used: bool)
        ensures
            !have_used,
            *final(self) == *old(self),
    {
        false
    }

    /// Nothing is done with the receive queue.
    pub fn process_rxq(&mut self) -> (have_used: bool)
        ensures
            !have_used,
            *final(self) == *old(self),
    {
        false
    }
}

} // verus!
