//! What the device is like when it is new, and what it tells the driver and the rest of the
//! machine.
use super::runs::{law_control_queue_is_emptied, law_transmit_queue_is_emptied};
use crate::defs::{
    AVAIL_FEATURES, CTL_INDEX, EVT_INDEX, NUM_QUEUES, QUEUE_SIZE, RXQ_INDEX, SND_DEV_ID,
    SUPPORTED_FORMATS, SUPPORTED_RATES, TXQ_INDEX, VIRTIO_ID_SND, VIRTIO_MMIO_INT_VRING,
};
use crate::device::{config_bytes, config_read, initial_streams, missing_backend, Snd};
use crate::error::Error;
use crate::event_handler::{
    activation_calls, control_event, idle_event, source_of, spec_input_event, transmit_event,
    EventFiles, ManagerCall, QueueEvent, EVENT_IN,
};
use crate::guest_memory::guest;
use crate::queue::{DescriptorChain, VirtQueue};
use crate::stream::{
    self, after, default_params, has_bit, new_stream, step, stream_views, PCMState, Stream,
};
use crate::vring::{used_queue_signal, Interrupt, Vring};
use vstd::prelude::*;

verus! {

/// The configuration space is three words: no jacks, one stream and no channel maps. What is read
/// of it is what lies there, up to its end.
pub proof fn law_config_says_one_stream(offset: u64, len: nat)
    ensures
        ({
            let bytes = config_bytes(offset, len);
            &&& bytes.len() == if offset >= 12 {
                0
            } else if offset + len > 12 {
                12 - offset
            } else {
                len as int
            }
            &&& forall|i: int|
                0 <= i < bytes.len() ==> #[trigger] bytes[i] == if offset + i == 4 {
                    1u8
                } else {
                    0u8
                }
        }),
{
    assert(crate::device::config().bytes() =~= seq![0u8, 0, 0, 0, 1, 0, 0, 0, 0, 0, 0, 0]);
}

/// What was asked for holds what lies in the configuration space, and what is beyond its end stays
/// as it was.
pub proof fn law_config_is_read_up_to_its_end(offset: u64, data: Seq<u8>, i: int)
    requires
        0 <= i < data.len(),
    ensures
        config_read(offset, data).len() == data.len(),
        config_read(offset, data)[i] == if offset + i == 4 {
            1
        } else if offset + i < 12 {
            0
        } else {
            data[i]
        },
{
    law_config_says_one_stream(offset, data.len());
    let bytes = config_bytes(offset, data.len());
    if i < bytes.len() {
        assert(config_read(offset, data)[i] == bytes[i]);
    }
}

/// An activation puts the queues to use in the order in which they were set up, for requests,
/// events, sound to be played and sound that was recorded, and makes an audio backend that nothing
/// was passed on to. The rest of the device stays as it is.
pub proof fn law_activation_puts_the_queues_to_use(before: Snd, after: Snd)
    requires
        Snd::put_to_use(before, after),
    ensures
        is_set_up_as(before, after.vring_ctl, 0),
        is_set_up_as(before, after.vring_evt, 1),
        is_set_up_as(before, after.vring_txq, 2),
        is_set_up_as(before, after.vring_rxq, 3),
        after.audio_backend is Some,
        after.audio_backend->Some_0.sent().len() == 0,
        after.audio_backend->Some_0.refused().len() == 0,
        after.queues == before.queues,
        after.streams == before.streams,
        after.streams_no == before.streams_no,
        after.avail_features == before.avail_features,
        after.acked_features == before.acked_features,
        after.device_state == before.device_state,
        after.intc == before.intc,
        after.irq_line == before.irq_line,
{
}

/// Is this queue in use, and does it hold what the queue with this number was set up with?
pub open spec fn is_set_up_as(device: Snd, vring: Option<Vring>, number: int) -> bool {
    &&& vring matches Some(found)
    &&& found.queue@.max_size == device.queues@[number]@.max_size
    &&& found.queue@.pending == device.queues@[number]@.pending
    &&& found.queue@.used == device.queues@[number]@.used
    &&& found.intc == device.intc
    &&& found.irq_line == device.irq_line
}

/// An activation leads to five calls: the files of the four queues are waited for, in their order,
/// and that of the activation no longer is.
pub proof fn law_activation_waits_for_the_queues(files: EventFiles)
    ensures
        ({
            let calls = activation_calls(files);
            &&& calls.len() == 5
            &&& calls[0] matches ManagerCall::Register(event) && event.fd == files.ctl
                && event.event_set == 1
            &&& calls[1] matches ManagerCall::Register(event) && event.fd == files.evt
                && event.event_set == 1
            &&& calls[2] matches ManagerCall::Register(event) && event.fd == files.txq
                && event.event_set == 1
            &&& calls[3] matches ManagerCall::Register(event) && event.fd == files.rxq
                && event.event_set == 1
            &&& calls[4] == ManagerCall::Unregister(files.activate)
        }),
{
}

/// An event on the file of a queue is dealt with only where the file is ready to be read, and
/// nothing else, and could be read. Otherwise the device stays as it is. For requests the driver is
/// interrupted once, exactly where chains were given back; for transfers once for each chain.
pub proof fn law_events_on_queues(
    before: Snd,
    after: Snd,
    event_set: u32,
    read: bool,
    res: QueueEvent,
)
    ensures
        control_event(before, after, event_set, read, res) ==> {
            &&& event_set != 1 ==> res is Unexpected && after == before
            &&& event_set == 1 && !read ==> res is ReadFailed && after == before
            &&& event_set == 1 && read ==> {
                let added = after.vring_ctl->Some_0.queue@.used.len()
                    - before.vring_ctl->Some_0.queue@.used.len();
                &&& res matches QueueEvent::Processed { errors, signals }
                &&& added > 0 ==> signals@.len() == 1 && signals@[0] == used_queue_signal(
                    before.intc,
                    before.irq_line,
                )
                &&& added == 0 ==> signals@.len() == 0
                &&& added >= 0
            }
        },
        transmit_event(before, after, event_set, read, res) ==> {
            &&& event_set != 1 ==> res is Unexpected && after == before
            &&& event_set == 1 && !read ==> res is ReadFailed && after == before
            &&& event_set == 1 && read ==> {
                &&& res matches QueueEvent::Processed { errors, signals }
                &&& after.vring_txq->Some_0.queue@.used.len()
                    == before.vring_txq->Some_0.queue@.used.len() + signals@.len()
                &&& forall|i: int|
                    0 <= i < signals@.len() ==> #[trigger] signals@[i]
                        == before.vring_txq->Some_0.signal()
            }
        },
        idle_event(event_set, read, res) ==> {
            &&& event_set != 1 ==> res is Unexpected
            &&& event_set == 1 && !read ==> res is ReadFailed
            &&& event_set == 1 && read ==> {
                &&& res matches QueueEvent::Processed { errors, signals }
                &&& errors@.len() == 0
                &&& signals@.len() == 0
            }
        },
{
    if let QueueEvent::Processed { errors, signals } = res {
        if control_event(before, after, event_set, read, res) {
            law_control_queue_is_emptied(before, after, signals@.len() > 0, errors@);
        }
        if transmit_event(before, after, event_set, read, res) {
            law_transmit_queue_is_emptied(before, after, errors@, signals@);
        }
    }
}

/// The formats that every stream supports are those with the numbers 4, 5, 15 and 17, and the rates
/// those with the numbers 1 to 7.
pub proof fn law_supported_formats_and_rates(n: u8)
    ensures
        has_bit(SUPPORTED_FORMATS, n) <==> n == 4 || n == 5 || n == 15 || n == 17,
        has_bit(SUPPORTED_RATES, n) <==> 1 <= n <= 7,
{
    assert(n < 64 ==> ((1u64 << 4u8 | 1u64 << 5u8 | 1u64 << 15u8 | 1u64 << 17u8) & (1u64 << n) != 0
        <==> n == 4 || n == 5 || n == 15 || n == 17)) by (bit_vector);
    assert(n < 64 ==> ((1u64 << 1u8 | 1u64 << 2u8 | 1u64 << 3u8 | 1u64 << 4u8 | 1u64 << 5u8
        | 1u64 << 6u8 | 1u64 << 7u8) & (1u64 << n) != 0 <==> 1 <= n <= 7)) by (bit_vector);
}

/// A new stream has the number and the direction that it is given, and is otherwise like every
/// other: one channel at least and six at most, what every stream supports, nothing that waits on
/// it, and buffers of 8192 bytes, periods of 4096, no features, one channel, and the format and
/// rate with the numbers 5 and 6.
pub proof fn law_new_streams_are_alike(id: usize, direction: u8, n: u8)
    ensures
        ({
            let stream = new_stream(id, direction);
            &&& stream.id == id
            &&& stream.direction == direction
            &&& stream.channels_min == 1
            &&& stream.channels_max == 6
            &&& stream.state is SetParameters
            &&& stream.buffers.len() == 0
            &&& has_bit(stream.formats, n) <==> n == 4 || n == 5 || n == 15 || n == 17
            &&& has_bit(stream.rates, n) <==> 1 <= n <= 7
            &&& stream.params == default_params()
            &&& stream.params.buffer_bytes == 8192
            &&& stream.params.period_bytes == 4096
            &&& stream.params.features == 0
            &&& stream.params.channels == 1
            &&& stream.params.format == 5
            &&& stream.params.rate == 6
        }),
{
    law_supported_formats_and_rates(n);
}

/// A new device has two streams, numbered from zero: the first plays and the second records.
pub proof fn law_new_device_plays_and_records(i: int)
    requires
        0 <= i < 2,
    ensures
        initial_streams().len() == 2,
        initial_streams()[i].id == i,
        initial_streams()[i].direction == i,
        initial_streams()[i] == new_stream(i as usize, i as u8),
{
}

/// The device has four queues of 256 entries, for requests, events, sound to be played and sound
/// that was recorded, in this order. It offers the feature with the number 32 and no other, is of
/// type 25, and an interrupt for used buffers is told by the lowest bit.
pub proof fn law_fixed_properties()
    ensures
        NUM_QUEUES == 4,
        QUEUE_SIZE == 256,
        CTL_INDEX == 0,
        EVT_INDEX == 1,
        TXQ_INDEX == 2,
        RXQ_INDEX == 3,
        AVAIL_FEATURES == 0x1_0000_0000,
        VIRTIO_ID_SND == 25,
        VIRTIO_MMIO_INT_VRING == 1,
        EVENT_IN == 1,
        SND_DEV_ID@ == "virtio_snd"@,
{
    assert(1u64 << 32u32 == 0x1_0000_0000) by (bit_vector);
}

/// A device without an interrupt controller interrupts the driver by an event, whether or not it
/// has a line. One with an interrupt controller raises its line, and cannot where it has none. The
/// status is the same in every case.
pub proof fn law_interrupts_go_by_line_or_event(intc: bool, irq_line: Option<u32>)
    ensures
        ({
            let signal = used_queue_signal(intc, irq_line);
            &&& signal.status == 1
            &&& !intc ==> signal.interrupt is Event
            &&& intc && irq_line is None ==> signal.interrupt is NoLine
            &&& intc ==> (irq_line matches Some(line) ==> signal.interrupt == Interrupt::Line(line))
        }),
{
}

/// An event on a file is about what the file is for. Where two files have the same number, the
/// event is about the first of them, in the order of the queues, with the activation last. Before
/// the activation nothing is expected.
pub proof fn law_events_are_told_apart(activated: bool, files: EventFiles, fd: i32)
    ensures
        ({
            let source = source_of(activated, files, fd);
            let first = |is: bool, earlier: bool| activated && is && !earlier;
            let ctl = fd == files.ctl;
            let evt = fd == files.evt;
            let txq = fd == files.txq;
            let rxq = fd == files.rxq;
            let activate = fd == files.activate;
            &&& source is Spurious <==> !activated
            &&& source is Control <==> activated && ctl
            &&& source is Event <==> first(evt, ctl)
            &&& source is Transmit <==> first(txq, ctl || evt)
            &&& source is Receive <==> first(rxq, ctl || evt || txq)
            &&& source is Activate <==> first(activate, ctl || evt || txq || rxq)
        }),
{
}

/// A file is waited for to be ready to be read, and the event is known by the number of the file.
pub proof fn law_events_are_known_by_their_file(fd: i32)
    requires
        fd >= 0,
    ensures
        spec_input_event(fd).fd == fd,
        spec_input_event(fd).event_set == 1,
        spec_input_event(fd).data == fd,
{
}

/// A queue that was put to use holds what it held when it was set up, and interrupts the driver as
/// the device does.
pub proof fn law_queue_in_use_holds_what_was_set_up(device: Snd, vring: Option<Vring>, index: int)
    requires
        device.in_use(vring, index),
    ensures
        vring matches Some(found) && {
            &&& found.queue@.max_size == device.queues@[index]@.max_size
            &&& found.queue@.pending == device.queues@[index]@.pending
            &&& found.queue@.used == device.queues@[index]@.used
            &&& found.intc == device.intc
            &&& found.irq_line == device.irq_line
        },
{
}

/// Without an audio backend there is one error for each chain, and it says so.
pub proof fn law_missing_backend_fails_each_chain(count: nat, i: int)
    requires
        0 <= i < count,
    ensures
        missing_backend(count).len() == count,
        missing_backend(count)[i] == Error::MissingAudioBackend,
{
}

/// The commands that a stream takes in each state: a stream takes parameters and is prepared unless
/// it was started; it is started and released after it was prepared or stopped; and it is stopped
/// after it was started. A command that it takes is its next state. One that it refuses leaves the
/// state, and the error names both.
pub proof fn law_commands_in_each_state(state: PCMState, next: PCMState)
    ensures
        ({
            let taken = match next {
                PCMState::SetParameters => !(state is Start) && !(state is Stop),
                PCMState::Prepare => !(state is Start) && !(state is Stop),
                PCMState::Start => state is Prepare || state is Stop,
                PCMState::Stop => state is Start,
                PCMState::Release => state is Prepare || state is Stop,
            };
            &&& state.allows(next) == taken
            &&& taken ==> step(state, next) is Ok && after(state, next) == next
            &&& !taken ==> after(state, next) == state && step(state, next) == Err::<
                (),
                stream::Error,
            >(stream::Error::InvalidStateTransition(state, next))
        }),
{
}

/// What a stream holds is told field by field, and its buffers one by one.
pub proof fn law_view_of_a_stream(stream: Stream, streams: Seq<Stream>, i: int, j: int)
    ensures
        stream@.id == stream.id,
        stream@.params == stream.params,
        stream@.formats == stream.formats,
        stream@.rates == stream.rates,
        stream@.direction == stream.direction,
        stream@.channels_min == stream.channels_min,
        stream@.channels_max == stream.channels_max,
        stream@.state == stream.state,
        stream@.buffers.len() == stream.buffers@.len(),
        0 <= i < stream.buffers@.len() ==> {
            &&& stream@.buffers[i].data == stream.buffers@[i].data@
            &&& stream@.buffers[i].pos == stream.buffers@[i].pos
            &&& stream@.buffers[i].message == stream.buffers@[i].message
        },
        stream_views(streams).len() == streams.len(),
        0 <= j < streams.len() ==> stream_views(streams)[j] == streams[j]@,
{
}

/// What a queue holds is told field by field, and its chains one by one.
pub proof fn law_view_of_a_queue(queue: VirtQueue, chain: DescriptorChain, i: int)
    ensures
        chain@.index == chain.index,
        chain@.addr == chain.addr,
        chain@.descriptors == chain.descriptors@,
        queue@.max_size == queue.max_size,
        queue@.used == queue.used@,
        queue@.pending.len() == queue.pending@.len(),
        0 <= i < queue.pending@.len() ==> queue@.pending[i] == queue.pending@[i]@,
{
}

/// Requests and transfers meet the memory, the streams and the number of streams of the device, and
/// what is done for them is done to its memory, its backend and their own queue.
pub proof fn law_what_requests_and_transfers_meet(device: Snd)
    ensures
        device.control_env().mapped == guest(device.device_state->Activated_0).mapped,
        device.control_env().streams == stream_views(device.streams@),
        device.control_env().streams_no == device.streams_no,
        device.transmit_env().mapped == guest(device.device_state->Activated_0).mapped,
        device.transmit_env().streams == stream_views(device.streams@),
        device.control_effects().reads == guest(device.device_state->Activated_0).reads,
        device.control_effects().writes == guest(device.device_state->Activated_0).writes,
        device.control_effects().sent == device.audio_backend->Some_0.sent(),
        device.control_effects().refused == device.audio_backend->Some_0.refused(),
        device.control_effects().used == device.vring_ctl->Some_0.queue@.used,
        device.transmit_effects().reads == guest(device.device_state->Activated_0).reads,
        device.transmit_effects().writes == guest(device.device_state->Activated_0).writes,
        device.transmit_effects().sent == device.audio_backend->Some_0.sent(),
        device.transmit_effects().refused == device.audio_backend->Some_0.refused(),
        device.transmit_effects().used == device.vring_txq->Some_0.queue@.used,
{
}

} // verus!
