//! The device and its events.
use virtio_snd::defs::{AVAIL_FEATURES, SUPPORTED_FORMATS, SUPPORTED_RATES};
use virtio_snd::device::ActivateError;
use virtio_snd::event_handler::{
    is_input, EpollEvent, EventFiles, EventSource, ManagerCall, QueueEvent, EVENT_IN,
};
use virtio_snd::queue::{Descriptor, DescriptorChain, VirtQueue};
use virtio_snd::virtio_sound::VIRTIO_SND_R_PCM_START;
use virtio_snd::vring::{Interrupt, Signal};
use virtio_snd::{Error, Snd, TYPE_SND};
use vm_memory::{Bytes, GuestAddress, GuestMemoryMmap};

const FILES: EventFiles = EventFiles { ctl: 10, evt: 11, txq: 12, rxq: 13, activate: 14 };

fn guest() -> GuestMemoryMmap {
    GuestMemoryMmap::from_ranges(&[(GuestAddress(0), 0x1000)]).unwrap()
}

fn descriptor(addr: u64, len: u32, write_only: bool) -> Descriptor {
    Descriptor { addr, len, index: 0, write_only }
}

fn start_request(mem: &GuestMemoryMmap, index: u16) -> DescriptorChain {
    mem.write_slice(&VIRTIO_SND_R_PCM_START.to_le_bytes(), GuestAddress(0x100)).unwrap();
    DescriptorChain {
        index,
        addr: 0x100,
        descriptors: vec![descriptor(0x100, 8, false), descriptor(0x200, 4, true)],
    }
}

#[test]
fn new_device_offers_its_features() {
    let mut snd = Snd::new();
    assert_eq!(snd.id(), "virtio_snd");
    assert_eq!(snd.device_type(), 25);
    assert_eq!(TYPE_SND, 25);
    assert_eq!(snd.avail_features(), 1 << 32);
    assert_eq!(AVAIL_FEATURES, 1 << 32);
    assert_eq!(snd.acked_features(), 0);
    snd.set_acked_features(5);
    assert_eq!(snd.acked_features(), 5);
    assert!(!snd.is_activated());
    assert_eq!(snd.queues().len(), 4);
    assert!(snd.queues().iter().all(|q| q.max_size == 256));
    snd.queues_mut()[0].max_size = 128;
    assert_eq!(snd.queues()[0].max_size, 128);
}

#[test]
fn new_device_has_two_streams() {
    let snd = Snd::new();
    assert_eq!(snd.streams_no, 2);
    let streams: Vec<(usize, u8)> = snd.streams.iter().map(|s| (s.id, s.direction)).collect();
    assert_eq!(streams, vec![(0, 0), (1, 1)]);
    assert_eq!(snd.streams[0].formats, SUPPORTED_FORMATS);
    assert_eq!(snd.streams[1].rates, SUPPORTED_RATES);
    assert_eq!(SUPPORTED_FORMATS, 0x28030);
    assert_eq!(SUPPORTED_RATES, 0xfe);
}

#[test]
fn configuration_space_is_read() {
    let snd = Snd::new();
    let mut data = [0xffu8; 12];
    snd.read_config(0, &mut data);
    assert_eq!(data, [0, 0, 0, 0, 1, 0, 0, 0, 0, 0, 0, 0]);
    let mut data = [0xffu8; 4];
    snd.read_config(4, &mut data);
    assert_eq!(data, [1, 0, 0, 0]);
}

#[test]
fn configuration_space_ends() {
    let snd = Snd::new();
    let mut data = [0xffu8; 6];
    snd.read_config(8, &mut data);
    assert_eq!(data, [0, 0, 0, 0, 0xff, 0xff]);
    for offset in [12, 13, u64::MAX] {
        let mut data = [0xffu8; 2];
        snd.read_config(offset, &mut data);
        assert_eq!(data, [0xff, 0xff]);
    }
}

#[test]
fn configuration_space_reads_in_parts() {
    let snd = Snd::new();
    let mut whole = [0u8; 12];
    snd.read_config(0, &mut whole);
    for middle in 0..=12 {
        let mut parts = [0xffu8; 12];
        let (first, second) = parts.split_at_mut(middle);
        snd.read_config(0, first);
        snd.read_config(middle as u64, second);
        assert_eq!(parts, whole);
    }
}

#[test]
fn configuration_space_is_not_written() {
    let mut snd = Snd::new();
    snd.write_config(0, &[9; 12]);
    let mut data = [0u8; 12];
    snd.read_config(0, &mut data);
    assert_eq!(data[0], 0);
}

#[test]
fn device_without_its_queues_is_not_activated() {
    let mut snd = Snd::with_queues(vec![VirtQueue::new(16)]);
    assert!(matches!(snd.activate(), Err(ActivateError::BadActivate)));
    assert!(snd.vring_ctl.is_none());
    assert!(snd.audio_backend.is_none());
}

#[test]
fn device_is_activated_in_two_steps() {
    let mut snd = Snd::new();
    snd.queues_mut()[2].max_size = 64;
    let _receiver = snd.activate().unwrap();
    assert!(!snd.is_activated());
    assert!(snd.audio_backend.is_some());
    assert_eq!(snd.vring_txq.as_ref().unwrap().queue.max_size, 64);
    assert_eq!(snd.vring_evt.as_ref().unwrap().queue.max_size, 256);
    assert!(snd.vring_rxq.is_some());
    assert_eq!(snd.finish_activation(guest(), false), Err(ActivateError::BadActivate));
    assert!(!snd.is_activated());
    assert_eq!(snd.finish_activation(guest(), true), Ok(()));
    assert!(snd.is_activated());
}

#[test]
fn driver_is_interrupted_by_event_or_line() {
    let mut snd = Snd::new();
    let event = Signal { status: 1, interrupt: Interrupt::Event };
    assert_eq!(snd.signal_used_queue(), event);
    snd.set_irq_line(5);
    assert_eq!(snd.signal_used_queue(), event);
    snd.set_intc();
    let line = Signal { status: 1, interrupt: Interrupt::Line(5) };
    assert_eq!(snd.signal_used_queue(), line);
    let _receiver = snd.activate().unwrap();
    assert_eq!(snd.vring_ctl.as_ref().unwrap().signal_used_queue(), line);
    assert_eq!(snd.vring_txq.as_ref().unwrap().signal_used_queue(), line);
    let mut lineless = Snd::new();
    lineless.set_intc();
    assert_eq!(lineless.signal_used_queue().interrupt, Interrupt::NoLine);
}

#[test]
fn other_queues_are_left_alone() {
    let mut snd = Snd::new();
    assert!(!snd.process_evt());
    assert!(!snd.process_txq());
    assert!(!snd.process_rxq());
}

#[test]
fn events_are_told_apart_by_their_file() {
    let mut snd = Snd::new();
    assert_eq!(snd.process(10, &FILES), EventSource::Spurious);
    let _receiver = snd.activate().unwrap();
    assert_eq!(snd.process(14, &FILES), EventSource::Spurious);
    snd.finish_activation(guest(), true).unwrap();
    assert_eq!(snd.process(10, &FILES), EventSource::Control);
    assert_eq!(snd.process(11, &FILES), EventSource::Event);
    assert_eq!(snd.process(12, &FILES), EventSource::Transmit);
    assert_eq!(snd.process(13, &FILES), EventSource::Receive);
    assert_eq!(snd.process(14, &FILES), EventSource::Activate);
    assert_eq!(snd.process(15, &FILES), EventSource::Unexpected);
}

#[test]
fn activation_registers_the_queues() {
    let snd = Snd::new();
    assert_eq!(
        snd.interest_list(&FILES),
        vec![EpollEvent { fd: 14, event_set: EVENT_IN, data: 14 }]
    );
    let register = |fd: i32| {
        ManagerCall::Register(EpollEvent { fd, event_set: EVENT_IN, data: fd as u64 })
    };
    assert_eq!(
        snd.handle_activate_event(&FILES),
        vec![register(10), register(11), register(12), register(13), ManagerCall::Unregister(14)]
    );
}

#[test]
fn control_event_deals_with_the_queue() {
    let mem = guest();
    let mut snd = Snd::new();
    let _receiver = snd.activate().unwrap();
    snd.finish_activation(mem.clone(), true).unwrap();
    let chain = start_request(&mem, 3);
    snd.vring_ctl.as_mut().unwrap().queue.make_available(chain);
    assert_eq!(snd.handle_ctl_event(EVENT_IN | 4, false), QueueEvent::Unexpected);
    assert_eq!(snd.handle_ctl_event(EVENT_IN, false), QueueEvent::ReadFailed);
    assert_eq!(snd.vring_ctl.as_ref().unwrap().queue.pending.len(), 1);
    assert_eq!(
        snd.handle_ctl_event(EVENT_IN, true),
        QueueEvent::Processed {
            errors: vec![],
            signals: vec![Signal { status: 1, interrupt: Interrupt::Event }],
        }
    );
    assert_eq!(snd.vring_ctl.as_mut().unwrap().queue.take_used(), vec![(3, 0)]);
    assert_eq!(
        snd.handle_ctl_event(EVENT_IN, true),
        QueueEvent::Processed { errors: vec![], signals: vec![] }
    );
}

#[test]
fn transmit_event_deals_with_the_queue() {
    let mem = guest();
    let mut snd = Snd::new();
    let _receiver = snd.activate().unwrap();
    snd.finish_activation(mem.clone(), true).unwrap();
    let chain = DescriptorChain {
        index: 1,
        addr: 0x100,
        descriptors: vec![descriptor(0x100, 5, false)],
    };
    snd.vring_txq.as_mut().unwrap().queue.make_available(chain);
    assert_eq!(snd.handle_txq_event(0, false), QueueEvent::Unexpected);
    assert_eq!(snd.handle_txq_event(EVENT_IN, false), QueueEvent::ReadFailed);
    assert_eq!(
        snd.handle_txq_event(EVENT_IN, true),
        QueueEvent::Processed {
            errors: vec![Error::UnexpectedDescriptorSize(4, 5)],
            signals: vec![],
        }
    );
}

#[test]
fn events_on_the_other_queues_do_nothing() {
    let mut snd = Snd::new();
    let nothing = QueueEvent::Processed { errors: vec![], signals: vec![] };
    assert_eq!(snd.handle_evt_event(EVENT_IN, true), nothing);
    assert_eq!(snd.handle_rxq_event(EVENT_IN, true), nothing);
    assert_eq!(snd.handle_evt_event(8, false), QueueEvent::Unexpected);
    assert_eq!(snd.handle_rxq_event(EVENT_IN, false), QueueEvent::ReadFailed);
    assert!(is_input(1));
    assert!(!is_input(5));
}

#[test]
fn queue_hands_out_what_it_was_given() {
    let mut queue = VirtQueue::new(16);
    let chain = DescriptorChain {
        index: 2,
        addr: 0x10,
        descriptors: vec![descriptor(0x10, 4, false)],
    };
    queue.make_available(chain.duplicate());
    queue.add_used(9, 1);
    let mut second = queue.duplicate();
    assert_eq!(queue.pop(), Some(chain.duplicate()));
    assert_eq!(queue.pop(), None);
    assert_eq!(second.pop(), Some(chain));
    assert_eq!(second.take_used(), vec![(9, 1)]);
    assert_eq!(second.take_used(), vec![]);
    assert_eq!(queue.take_used(), vec![(9, 1)]);
}
