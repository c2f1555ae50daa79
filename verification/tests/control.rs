//! Requests on the control queue, from the bytes in guest memory to the answer.
use crossbeam_channel::Receiver;
use virtio_snd::audio_backends::pipewire::PwAction;
use virtio_snd::control::{needed_size, ControlRun};
use virtio_snd::queue::{Descriptor, DescriptorChain};
use virtio_snd::stream;
use virtio_snd::virtio_sound::{
    VIRTIO_SND_R_CHMAP_INFO, VIRTIO_SND_R_JACK_INFO, VIRTIO_SND_R_JACK_REMAP, VIRTIO_SND_R_PCM_INFO,
    VIRTIO_SND_R_PCM_PREPARE, VIRTIO_SND_R_PCM_RELEASE, VIRTIO_SND_R_PCM_SET_PARAMS,
    VIRTIO_SND_R_PCM_START, VIRTIO_SND_R_PCM_STOP, VIRTIO_SND_S_BAD_MSG, VIRTIO_SND_S_NOT_SUPP,
    VIRTIO_SND_S_OK,
};
use virtio_snd::vring::{Interrupt, Signal};
use virtio_snd::{ControlMessage, ControlMessageKind, Error, InvalidControlMessage, Snd};
use vm_memory::{Bytes, GuestAddress, GuestMemoryMmap};

const REQUEST: u64 = 0x100;
const REPLY: u64 = 0x200;
const INFO: u64 = 0x300;
const UNMAPPED: u64 = 0x9000;

fn guest() -> GuestMemoryMmap {
    GuestMemoryMmap::from_ranges(&[(GuestAddress(0), 0x1000)]).unwrap()
}

fn device(mem: &GuestMemoryMmap) -> (Snd, Receiver<PwAction>) {
    let mut snd = Snd::new();
    let receiver = snd.activate().unwrap();
    snd.finish_activation(mem.clone(), true).unwrap();
    (snd, receiver)
}

fn readable(addr: u64, len: u32) -> Descriptor {
    Descriptor { addr, len, index: 0, write_only: false }
}

fn writable(addr: u64, len: u32) -> Descriptor {
    Descriptor { addr, len, index: 0, write_only: true }
}

fn chain(index: u16, descriptors: Vec<Descriptor>) -> DescriptorChain {
    DescriptorChain { index, addr: REQUEST, descriptors }
}

fn simple_chain(index: u16) -> DescriptorChain {
    chain(index, vec![readable(REQUEST, 64), writable(REPLY, 4)])
}

fn put(mem: &GuestMemoryMmap, words: &[u32]) {
    for (i, word) in words.iter().enumerate() {
        mem.write_slice(&word.to_le_bytes(), GuestAddress(REQUEST + 4 * i as u64)).unwrap();
    }
}

fn reply(mem: &GuestMemoryMmap) -> u32 {
    let mut bytes = [0u8; 4];
    mem.read_slice(&mut bytes, GuestAddress(REPLY)).unwrap();
    u32::from_le_bytes(bytes)
}

fn used(snd: &mut Snd) -> Vec<(u16, u32)> {
    snd.vring_ctl.as_mut().unwrap().queue.take_used()
}

#[test]
fn jacks_and_channel_maps_are_not_supported() {
    for code in [VIRTIO_SND_R_JACK_INFO, VIRTIO_SND_R_JACK_REMAP, VIRTIO_SND_R_CHMAP_INFO] {
        let mem = guest();
        let (mut snd, receiver) = device(&mem);
        put(&mem, &[code]);
        assert_eq!(snd.process_ctl_message(&simple_chain(7)), Ok(true));
        assert_eq!(reply(&mem), VIRTIO_SND_S_NOT_SUPP);
        assert_eq!(used(&mut snd), vec![(7, 0)]);
        assert!(receiver.try_recv().is_err());
    }
}

#[test]
fn streams_are_described_to_the_driver() {
    let mem = guest();
    let (mut snd, receiver) = device(&mem);
    put(&mem, &[VIRTIO_SND_R_PCM_INFO, 0, 2, 32]);
    let head = chain(3, vec![readable(REQUEST, 16), writable(REPLY, 4), writable(INFO, 64)]);
    assert_eq!(snd.process_ctl_message(&head), Ok(true));
    assert_eq!(reply(&mem), VIRTIO_SND_S_OK);
    assert_eq!(used(&mut snd), vec![(3, 64)]);
    assert!(receiver.try_recv().is_err());
    let mut info = [0u8; 64];
    mem.read_slice(&mut info, GuestAddress(INFO)).unwrap();
    let formats: u64 = 1 << 4 | 1 << 5 | 1 << 15 | 1 << 17;
    let rates: u64 = 0xfe;
    for (i, one) in info.chunks(32).enumerate() {
        assert_eq!(&one[..8], &[0; 8]);
        assert_eq!(&one[8..16], &formats.to_le_bytes());
        assert_eq!(&one[16..24], &rates.to_le_bytes());
        assert_eq!(&one[24..], &[i as u8, 1, 6, 0, 0, 0, 0, 0]);
    }
}

#[test]
fn one_stream_is_described_to_the_driver() {
    let mem = guest();
    let (mut snd, _receiver) = device(&mem);
    put(&mem, &[VIRTIO_SND_R_PCM_INFO, 1, 1, 32]);
    let head = chain(0, vec![readable(REQUEST, 16), writable(REPLY, 4), writable(INFO, 64)]);
    assert_eq!(snd.process_ctl_message(&head), Ok(true));
    let mut info = [0u8; 64];
    mem.read_slice(&mut info, GuestAddress(INFO)).unwrap();
    assert_eq!(info[24], 1);
    assert_eq!(&info[32..], &[0; 32]);
}

#[test]
fn description_of_missing_streams_is_a_bad_message() {
    for (start, count) in [(2, 0), (0, 3), (1, 2), (u32::MAX, u32::MAX)] {
        let mem = guest();
        let (mut snd, _receiver) = device(&mem);
        put(&mem, &[VIRTIO_SND_R_PCM_INFO, start, count, 32]);
        let head = chain(0, vec![readable(REQUEST, 16), writable(REPLY, 4), writable(INFO, 64)]);
        assert_eq!(snd.process_ctl_message(&head), Ok(true));
        assert_eq!(reply(&mem), VIRTIO_SND_S_BAD_MSG);
        assert_eq!(used(&mut snd), vec![(0, 0)]);
    }
}

#[test]
fn description_needs_three_descriptors() {
    let mem = guest();
    let (mut snd, _receiver) = device(&mem);
    put(&mem, &[VIRTIO_SND_R_PCM_INFO, 0, 2, 32]);
    assert_eq!(
        snd.process_ctl_message(&simple_chain(0)),
        Err(Error::UnexpectedDescriptorCount(2))
    );
    let head = chain(0, vec![readable(REQUEST, 16), writable(REPLY, 4), readable(INFO, 64)]);
    assert_eq!(snd.process_ctl_message(&head), Err(Error::UnexpectedReadableDescriptor(2)));
    let head = chain(0, vec![readable(REQUEST, 16), writable(REPLY, 4), writable(UNMAPPED, 64)]);
    assert_eq!(snd.process_ctl_message(&head), Err(Error::DescriptorWriteFailed));
    assert_eq!(used(&mut snd), vec![]);
}

#[test]
fn commands_are_answered_and_passed_on() {
    let commands = [
        (VIRTIO_SND_R_PCM_PREPARE, PwAction::Prepare(1)),
        (VIRTIO_SND_R_PCM_START, PwAction::Start(1)),
        (VIRTIO_SND_R_PCM_STOP, PwAction::Stop(1)),
    ];
    for (code, action) in commands {
        let mem = guest();
        let (mut snd, receiver) = device(&mem);
        put(&mem, &[code, 1]);
        assert_eq!(snd.process_ctl_message(&simple_chain(9)), Ok(true));
        assert_eq!(reply(&mem), VIRTIO_SND_S_OK);
        assert_eq!(used(&mut snd), vec![(9, 0)]);
        assert!(receiver.try_recv().unwrap() == action);
        assert!(receiver.try_recv().is_err());
    }
}

#[test]
fn release_is_left_to_the_backend() {
    let mem = guest();
    let (mut snd, receiver) = device(&mem);
    put(&mem, &[VIRTIO_SND_R_PCM_RELEASE, 0]);
    assert_eq!(snd.process_ctl_message(&simple_chain(11)), Ok(false));
    assert_eq!(used(&mut snd), vec![]);
    assert_eq!(reply(&mem), 0);
    let message = ControlMessage {
        kind: ControlMessageKind::PcmRelease,
        code: VIRTIO_SND_S_OK,
        desc_addr: REPLY,
        head_index: 11,
    };
    assert_eq!(message.debug_text(), "ControlMessage { kind: PcmRelease, code: 32768 }");
    assert!(receiver.try_recv().unwrap() == PwAction::Release(0, message));
}

#[test]
fn parameters_are_left_to_the_backend() {
    let mem = guest();
    let (mut snd, receiver) = device(&mem);
    put(&mem, &[VIRTIO_SND_R_PCM_SET_PARAMS, 1, 0x4000, 0x800, 0, 0x0007_0502]);
    assert_eq!(snd.process_ctl_message(&simple_chain(12)), Ok(false));
    assert_eq!(used(&mut snd), vec![]);
    match receiver.try_recv().unwrap() {
        PwAction::SetParameters(id, message, request) => {
            assert_eq!(id, 1);
            assert_eq!(message.kind, ControlMessageKind::PcmSetParams);
            assert_eq!(message.head_index, 12);
            assert_eq!((request.buffer_bytes, request.period_bytes), (0x4000, 0x800));
            assert_eq!((request.channels, request.format, request.rate), (2, 5, 7));
        }
        _ => panic!("another outcome"),
    }
}

#[test]
fn missing_stream_is_a_bad_message() {
    let codes = [
        VIRTIO_SND_R_PCM_SET_PARAMS,
        VIRTIO_SND_R_PCM_PREPARE,
        VIRTIO_SND_R_PCM_RELEASE,
        VIRTIO_SND_R_PCM_START,
        VIRTIO_SND_R_PCM_STOP,
    ];
    for code in codes {
        for id in [2, u32::MAX] {
            let mem = guest();
            let (mut snd, receiver) = device(&mem);
            put(&mem, &[code, id, 0, 0, 0, 0]);
            assert_eq!(snd.process_ctl_message(&simple_chain(1)), Ok(true));
            assert_eq!(reply(&mem), VIRTIO_SND_S_BAD_MSG);
            assert_eq!(used(&mut snd), vec![(1, 0)]);
            assert!(receiver.try_recv().is_err());
        }
    }
}

#[test]
fn malformed_chains_are_refused() {
    let mem = guest();
    let (mut snd, _receiver) = device(&mem);
    put(&mem, &[VIRTIO_SND_R_PCM_START, 0]);
    assert_eq!(
        snd.process_ctl_message(&chain(0, vec![readable(REQUEST, 8)])),
        Err(Error::UnexpectedDescriptorCount(1))
    );
    assert_eq!(
        snd.process_ctl_message(&chain(0, vec![writable(REQUEST, 8), writable(REPLY, 4)])),
        Err(Error::UnexpectedWriteOnlyDescriptor(0))
    );
    assert_eq!(
        snd.process_ctl_message(&chain(0, vec![readable(REQUEST, 8), readable(REPLY, 4)])),
        Err(Error::UnexpectedReadableDescriptor(1))
    );
    assert_eq!(
        snd.process_ctl_message(&chain(0, vec![readable(UNMAPPED, 8), writable(REPLY, 4)])),
        Err(Error::DescriptorReadFailed)
    );
    assert_eq!(
        snd.process_ctl_message(&chain(0, vec![readable(REQUEST, 8), writable(UNMAPPED, 4)])),
        Err(Error::DescriptorWriteFailed)
    );
    assert_eq!(used(&mut snd), vec![]);
}

#[test]
fn request_at_the_end_of_memory_is_read_as_far_as_needed() {
    let mem = guest();
    let (mut snd, _receiver) = device(&mem);
    mem.write_slice(&VIRTIO_SND_R_JACK_INFO.to_le_bytes(), GuestAddress(0xffc)).unwrap();
    let head = chain(0, vec![readable(0xffc, 4), writable(REPLY, 4)]);
    assert_eq!(snd.process_ctl_message(&head), Ok(true));
    mem.write_slice(&VIRTIO_SND_R_PCM_START.to_le_bytes(), GuestAddress(0xffc)).unwrap();
    assert_eq!(snd.process_ctl_message(&head), Err(Error::DescriptorReadFailed));
}

#[test]
fn unknown_request_is_an_error() {
    let mem = guest();
    let (mut snd, _receiver) = device(&mem);
    put(&mem, &[0x106]);
    assert_eq!(
        snd.process_ctl_message(&simple_chain(0)),
        Err(Error::InvalidControlMessage(0x106))
    );
    assert_eq!(used(&mut snd), vec![]);
}

#[test]
fn backend_without_worker_is_an_error() {
    let mem = guest();
    let (mut snd, receiver) = device(&mem);
    drop(receiver);
    put(&mem, &[VIRTIO_SND_R_PCM_START, 0]);
    assert_eq!(
        snd.process_ctl_message(&simple_chain(0)),
        Err(Error::SendNotificationFailed)
    );
    put(&mem, &[VIRTIO_SND_R_PCM_RELEASE, 0]);
    assert_eq!(
        snd.process_ctl_message(&simple_chain(0)),
        Err(Error::SendNotificationFailed)
    );
    assert_eq!(used(&mut snd), vec![]);
}

#[test]
fn missing_backend_is_an_error() {
    let mem = guest();
    let (mut snd, _receiver) = device(&mem);
    snd.audio_backend = None;
    put(&mem, &[VIRTIO_SND_R_JACK_INFO]);
    assert_eq!(snd.process_ctl_message(&simple_chain(0)), Err(Error::MissingAudioBackend));
    snd.vring_ctl.as_mut().unwrap().queue.make_available(simple_chain(0));
    snd.vring_ctl.as_mut().unwrap().queue.make_available(simple_chain(1));
    assert_eq!(
        snd.process_ctl_queue(),
        ControlRun {
            have_used: false,
            errors: vec![Error::MissingAudioBackend, Error::MissingAudioBackend],
        }
    );
}

#[test]
fn control_queue_is_emptied_in_order() {
    let mem = guest();
    let (mut snd, receiver) = device(&mem);
    put(&mem, &[VIRTIO_SND_R_PCM_PREPARE, 0]);
    let queue = &mut snd.vring_ctl.as_mut().unwrap().queue;
    queue.make_available(simple_chain(4));
    queue.make_available(chain(5, vec![readable(REQUEST, 8)]));
    queue.make_available(simple_chain(6));
    let run = snd.process_ctl_queue();
    assert_eq!(
        run,
        ControlRun { have_used: true, errors: vec![Error::UnexpectedDescriptorCount(1)] }
    );
    assert_eq!(used(&mut snd), vec![(4, 0), (6, 0)]);
    assert_eq!(receiver.try_iter().count(), 2);
    assert_eq!(
        snd.process_ctl_queue(),
        ControlRun { have_used: false, errors: vec![] }
    );
}

#[test]
fn deferred_requests_do_not_interrupt_at_once() {
    let mem = guest();
    let (mut snd, _receiver) = device(&mem);
    put(&mem, &[VIRTIO_SND_R_PCM_RELEASE, 0]);
    snd.vring_ctl.as_mut().unwrap().queue.make_available(simple_chain(4));
    assert_eq!(snd.process_ctl_queue(), ControlRun { have_used: false, errors: vec![] });
}

#[test]
fn answer_is_written_when_a_request_completes() {
    let mut mem = guest();
    let (mut snd, _receiver) = device(&mem);
    let vring = snd.vring_ctl.as_mut().unwrap();
    let message = ControlMessage {
        kind: ControlMessageKind::PcmRelease,
        code: VIRTIO_SND_S_BAD_MSG,
        desc_addr: REPLY,
        head_index: 21,
    };
    let signal = message.complete(&mut mem, vring).unwrap();
    assert_eq!(signal, Signal { status: 1, interrupt: Interrupt::Event });
    assert_eq!(vring.queue.take_used(), vec![(21, 4)]);
    assert_eq!(reply(&mem), VIRTIO_SND_S_BAD_MSG);
}

#[test]
fn answer_that_cannot_be_written_gives_nothing_back() {
    let mut mem = guest();
    let (mut snd, _receiver) = device(&mem);
    let vring = snd.vring_ctl.as_mut().unwrap();
    let message = ControlMessage {
        kind: ControlMessageKind::PcmRelease,
        code: VIRTIO_SND_S_OK,
        desc_addr: 0xffe,
        head_index: 21,
    };
    assert_eq!(message.complete(&mut mem, vring), Err(Error::DescriptorWriteFailed));
    assert_eq!(vring.queue.take_used(), vec![]);
}

#[test]
fn request_codes_are_recognised() {
    let kinds = [
        (1, ControlMessageKind::JackInfo),
        (2, ControlMessageKind::JackRemap),
        (0x100, ControlMessageKind::PcmInfo),
        (0x101, ControlMessageKind::PcmSetParams),
        (0x102, ControlMessageKind::PcmPrepare),
        (0x103, ControlMessageKind::PcmRelease),
        (0x104, ControlMessageKind::PcmStart),
        (0x105, ControlMessageKind::PcmStop),
        (0x200, ControlMessageKind::ChmapInfo),
    ];
    for (code, kind) in kinds {
        assert_eq!(ControlMessageKind::try_from(code), Ok(kind));
        assert_eq!(kind.code(), code);
        assert_eq!(kind.name(), format!("{:?}", kind));
    }
    assert_eq!(ControlMessageKind::try_from(3), Err(InvalidControlMessage(3)));
    assert_eq!(Error::from(InvalidControlMessage(3)), Error::InvalidControlMessage(3));
    assert_eq!(
        Error::from(stream::Error::InvalidStreamId(5)),
        Error::Stream(stream::Error::InvalidStreamId(5))
    );
}

#[test]
fn failed_request_writes_nothing_where_the_status_goes() {
    let mem = guest();
    let (mut snd, receiver) = device(&mem);
    put(&mem, &[VIRTIO_SND_R_PCM_INFO, 0, 2, 32]);
    let head = chain(0, vec![readable(REQUEST, 16), writable(REPLY, 4), writable(0xff0, 64)]);
    assert_eq!(snd.process_ctl_message(&head), Err(Error::DescriptorWriteFailed));
    assert_eq!(reply(&mem), 0);
    assert_eq!(used(&mut snd), vec![]);
    assert!(receiver.try_recv().is_err());
}

#[test]
fn request_sizes_are_known() {
    let two = vec![readable(REQUEST, 8), writable(REPLY, 4)];
    let three = vec![readable(REQUEST, 8), writable(REPLY, 4), writable(INFO, 4)];
    assert_eq!(needed_size(ControlMessageKind::JackInfo, &two), Ok(0));
    assert_eq!(needed_size(ControlMessageKind::PcmInfo, &three), Ok(16));
    assert_eq!(needed_size(ControlMessageKind::PcmSetParams, &two), Ok(24));
    assert_eq!(needed_size(ControlMessageKind::PcmStop, &two), Ok(8));
}
