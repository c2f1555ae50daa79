//! Transfers on the transmit queue.
use crossbeam_channel::Receiver;
use virtio_snd::audio_backends::pipewire::PwAction;
use virtio_snd::queue::{Descriptor, DescriptorChain};
use virtio_snd::transmit::{TransmitReport, TransmitRun};
use virtio_snd::virtio_sound::VIRTIO_SND_S_OK;
use virtio_snd::vring::{Interrupt, Signal};
use virtio_snd::{Error, IOMessage, Snd};
use vm_memory::{Bytes, GuestAddress, GuestMemoryMmap};

const HEAD: u64 = 0x100;
const DATA: u64 = 0x200;
const STATUS: u64 = 0x800;
const UNMAPPED: u64 = 0x9000;

fn guest() -> GuestMemoryMmap {
    let mem = GuestMemoryMmap::from_ranges(&[(GuestAddress(0), 0x1000)]).unwrap();
    for i in 0..0x100u64 {
        mem.write_slice(&[i as u8], GuestAddress(DATA + i)).unwrap();
    }
    mem
}

fn device(mem: &GuestMemoryMmap) -> (Snd, Receiver<PwAction>) {
    let mut snd = Snd::new();
    let receiver = snd.activate().unwrap();
    snd.finish_activation(mem.clone(), true).unwrap();
    (snd, receiver)
}

fn to_stream(mem: &GuestMemoryMmap, id: u32) {
    mem.write_slice(&id.to_le_bytes(), GuestAddress(HEAD)).unwrap();
}

fn head() -> Descriptor {
    Descriptor { addr: HEAD, len: 4, index: 0, write_only: false }
}

fn data(addr: u64, len: u32) -> Descriptor {
    Descriptor { addr, len, index: 1, write_only: false }
}

fn status() -> Descriptor {
    Descriptor { addr: STATUS, len: 8, index: 2, write_only: true }
}

fn chain(index: u16, descriptors: Vec<Descriptor>) -> DescriptorChain {
    DescriptorChain { index, addr: HEAD, descriptors }
}

fn used(snd: &mut Snd) -> Vec<(u16, u32)> {
    snd.vring_txq.as_mut().unwrap().queue.take_used()
}

fn event() -> Signal {
    Signal { status: 1, interrupt: Interrupt::Event }
}

fn report(result: Result<bool, Error>) -> TransmitReport {
    TransmitReport { result, answer: Ok(None) }
}

#[test]
fn transfer_waits_on_its_stream() {
    let mem = guest();
    let (mut snd, receiver) = device(&mem);
    to_stream(&mem, 0);
    let transfer = chain(5, vec![head(), data(DATA, 16), data(DATA + 32, 6), status()]);
    assert_eq!(snd.process_txq_message(&transfer), report(Ok(false)));
    assert!(receiver.try_recv().unwrap() == PwAction::Write(0));
    assert!(receiver.try_recv().is_err());
    assert_eq!(used(&mut snd), vec![]);
    let buffers = &snd.streams[0].buffers;
    assert_eq!(buffers.len(), 2);
    assert_eq!(buffers[0].data, (0..16).collect::<Vec<u8>>());
    assert_eq!(buffers[1].data, (32..38).collect::<Vec<u8>>());
    assert_eq!(buffers[0].pos, 0);
    assert_eq!(
        buffers[0].message,
        IOMessage {
            status: VIRTIO_SND_S_OK,
            desc_addr: HEAD,
            head_index: 5,
            data_addr: DATA,
            data_len: 16,
            notify: true,
        }
    );
    assert!(!buffers[1].message.notify);
    assert_eq!(buffers[1].message.data_addr, DATA + 32);
    assert_eq!(snd.streams[1].buffers.len(), 0);
}

#[test]
fn later_transfer_waits_behind_the_earlier() {
    let mem = guest();
    let (mut snd, _receiver) = device(&mem);
    to_stream(&mem, 1);
    for index in [1, 2] {
        let transfer = chain(index, vec![head(), data(DATA, 16), status()]);
        assert_eq!(snd.process_txq_message(&transfer).result, Ok(false));
    }
    let order: Vec<u16> = snd.streams[1].buffers.iter().map(|b| b.message.head_index).collect();
    assert_eq!(order, vec![1, 2]);
}

#[test]
fn transfer_without_data_is_only_told() {
    let mem = guest();
    let (mut snd, receiver) = device(&mem);
    to_stream(&mem, 1);
    assert_eq!(snd.process_txq_message(&chain(0, vec![head(), status()])), report(Ok(false)));
    assert!(receiver.try_recv().unwrap() == PwAction::Write(1));
    assert_eq!(snd.streams[1].buffers.len(), 0);
}

#[test]
fn status_alone_does_nothing() {
    let mem = guest();
    let (mut snd, receiver) = device(&mem);
    assert_eq!(snd.process_txq_message(&chain(0, vec![status()])), report(Ok(false)));
    assert_eq!(snd.process_txq_message(&chain(0, vec![])), report(Ok(false)));
    assert!(receiver.try_recv().is_err());
}

#[test]
fn nothing_may_follow_the_status() {
    let mem = guest();
    let (mut snd, receiver) = device(&mem);
    to_stream(&mem, 0);
    let transfer = chain(0, vec![head(), data(DATA, 16), status(), status()]);
    assert_eq!(
        snd.process_txq_message(&transfer),
        report(Err(Error::UnexpectedDescriptorCount(4)))
    );
    assert!(receiver.try_recv().is_err());
    assert_eq!(snd.streams[0].buffers.len(), 1);
}

#[test]
fn sizes_of_descriptors_are_checked() {
    let mem = guest();
    let (mut snd, _receiver) = device(&mem);
    to_stream(&mem, 0);
    let short = Descriptor { len: 7, ..status() };
    assert_eq!(
        snd.process_txq_message(&chain(0, vec![short])),
        report(Err(Error::UnexpectedDescriptorSize(8, 7)))
    );
    assert_eq!(
        snd.process_txq_message(&chain(0, vec![head(), short])),
        report(Err(Error::UnexpectedDescriptorSize(8, 7)))
    );
    assert_eq!(
        snd.process_txq_message(&chain(0, vec![data(DATA, 16)])),
        report(Err(Error::UnexpectedDescriptorSize(4, 16)))
    );
    assert_eq!(
        snd.process_txq_message(&chain(0, vec![head(), head()])),
        report(Err(Error::UnexpectedDescriptorSize(8192, 4)))
    );
}

#[test]
fn unmapped_memory_is_not_read() {
    let mem = guest();
    let (mut snd, _receiver) = device(&mem);
    to_stream(&mem, 0);
    let far = Descriptor { addr: UNMAPPED, ..head() };
    assert_eq!(
        snd.process_txq_message(&chain(0, vec![far, status()])),
        report(Err(Error::DescriptorReadFailed))
    );
    assert_eq!(
        snd.process_txq_message(&chain(0, vec![head(), data(UNMAPPED, 16), status()])),
        report(Err(Error::DescriptorReadFailed))
    );
}

#[test]
fn data_is_read_up_to_the_end_of_memory() {
    let mem = guest();
    let (mut snd, _receiver) = device(&mem);
    to_stream(&mem, 0);
    mem.write_slice(&[1, 2, 3], GuestAddress(0xffd)).unwrap();
    let transfer = chain(0, vec![head(), data(0xffd, 16), status()]);
    assert_eq!(snd.process_txq_message(&transfer), report(Ok(false)));
    assert_eq!(snd.streams[0].buffers[0].data, vec![1, 2, 3]);
    assert_eq!(snd.streams[0].buffers[0].message.data_len, 16);
}

#[test]
fn data_for_a_missing_stream_is_dropped() {
    let mem = guest();
    let (mut snd, receiver) = device(&mem);
    to_stream(&mem, 2);
    let transfer = chain(6, vec![head(), data(DATA, 16), status()]);
    assert_eq!(
        snd.process_txq_message(&transfer),
        TransmitReport {
            result: Err(Error::StreamWithIdNotFound(2)),
            answer: Ok(Some(event())),
        }
    );
    to_stream(&mem, 2);
    assert_eq!(
        snd.process_txq_message(&chain(6, vec![head(), head()])),
        report(Err(Error::StreamWithIdNotFound(2)))
    );
    assert_eq!(used(&mut snd), vec![(6, 8)]);
    assert!(receiver.try_recv().is_err());
}

#[test]
fn dropped_transfer_is_answered_once() {
    let mem = guest();
    let (mut snd, receiver) = device(&mem);
    to_stream(&mem, 0);
    let transfer = chain(7, vec![head(), data(DATA, 16), data(DATA, 32)]);
    assert_eq!(
        snd.process_txq_message(&transfer),
        TransmitReport { result: Ok(false), answer: Ok(Some(event())) }
    );
    assert_eq!(used(&mut snd), vec![(7, 8)]);
    assert!(receiver.try_recv().unwrap() == PwAction::Write(0));
    let mut bytes = [0xffu8; 8];
    mem.read_slice(&mut bytes, GuestAddress(HEAD)).unwrap();
    assert_eq!(bytes, [0, 0x80, 0, 0, 0, 0, 0, 0]);
    assert_eq!(snd.streams[0].buffers.len(), 0);
}

#[test]
fn dropped_transfer_may_be_unanswerable() {
    let mem = guest();
    let (mut snd, _receiver) = device(&mem);
    to_stream(&mem, 0);
    let transfer = DescriptorChain {
        index: 7,
        addr: UNMAPPED,
        descriptors: vec![head(), data(DATA, 16)],
    };
    assert_eq!(
        snd.process_txq_message(&transfer),
        TransmitReport { result: Ok(false), answer: Err(Error::DescriptorWriteFailed) }
    );
    assert_eq!(used(&mut snd), vec![]);
}

#[test]
fn transfer_without_worker_is_an_error() {
    let mem = guest();
    let (mut snd, receiver) = device(&mem);
    drop(receiver);
    to_stream(&mem, 0);
    let transfer = chain(5, vec![head(), data(DATA, 16), status()]);
    assert_eq!(
        snd.process_txq_message(&transfer),
        report(Err(Error::SendNotificationFailed))
    );
    assert_eq!(snd.streams[0].buffers.len(), 1);
}

#[test]
fn transfer_without_backend_is_an_error() {
    let mem = guest();
    let (mut snd, _receiver) = device(&mem);
    snd.audio_backend = None;
    let transfer = chain(5, vec![head(), data(DATA, 16), status()]);
    assert_eq!(
        snd.process_txq_message(&transfer),
        report(Err(Error::MissingAudioBackend))
    );
    snd.vring_txq.as_mut().unwrap().queue.make_available(transfer);
    assert_eq!(
        snd.process_txq_queue(),
        TransmitRun {
            have_used: false,
            errors: vec![Error::MissingAudioBackend],
            signals: vec![],
        }
    );
}

#[test]
fn transmit_queue_is_emptied_in_order() {
    let mem = guest();
    let (mut snd, receiver) = device(&mem);
    to_stream(&mem, 1);
    let queue = &mut snd.vring_txq.as_mut().unwrap().queue;
    queue.make_available(chain(1, vec![head(), data(DATA, 16), status()]));
    queue.make_available(chain(2, vec![data(DATA, 5)]));
    queue.make_available(chain(3, vec![head(), data(DATA, 16)]));
    let run = snd.process_txq_queue();
    assert_eq!(
        run,
        TransmitRun {
            have_used: false,
            errors: vec![Error::UnexpectedDescriptorSize(4, 5)],
            signals: vec![event()],
        }
    );
    assert_eq!(used(&mut snd), vec![(3, 8)]);
    assert_eq!(receiver.try_iter().count(), 2);
    assert_eq!(snd.streams[1].buffers.len(), 1);
    assert_eq!(snd.vring_txq.as_ref().unwrap().queue.pending.len(), 0);
}

#[test]
fn piece_that_notifies_answers_for_the_transfer() {
    let mut mem = guest();
    let (mut snd, _receiver) = device(&mem);
    let vring = snd.vring_txq.as_mut().unwrap();
    let piece = |notify| IOMessage {
        status: 0x8003,
        desc_addr: STATUS,
        head_index: 31,
        data_addr: DATA,
        data_len: 4,
        notify,
    };
    assert_eq!(piece(false).complete(&mut mem, vring), Ok(None));
    assert_eq!(vring.queue.take_used(), vec![]);
    assert_eq!(piece(true).complete(&mut mem, vring), Ok(Some(event())));
    assert_eq!(vring.queue.take_used(), vec![(31, 8)]);
    let mut bytes = [0xffu8; 8];
    mem.read_slice(&mut bytes, GuestAddress(STATUS)).unwrap();
    assert_eq!(bytes, [3, 0x80, 0, 0, 0, 0, 0, 0]);
}
