//! A driver, the device and the worker of its audio backend together.
use crossbeam_channel::Receiver;
use virtio_snd::audio_backends::pipewire::PwAction;
use virtio_snd::audio_backends::worker::{PwOutcome, PwWorker};
use virtio_snd::device::DeviceState;
use virtio_snd::queue::{Descriptor, DescriptorChain};
use virtio_snd::virtio_sound::{VIRTIO_SND_S_BAD_MSG, VIRTIO_SND_S_OK};
use virtio_snd::{ControlMessage, IOMessage, Snd};
use vm_memory::{Bytes, GuestAddress, GuestMemoryMmap};

const REQUEST: u64 = 0x100;
const REPLY: u64 = 0x200;
const HEAD: u64 = 0x300;
const DATA: u64 = 0x400;

struct Machine {
    mem: GuestMemoryMmap,
    snd: Snd,
    worker: PwWorker,
    receiver: Receiver<PwAction>,
}

impl Machine {
    fn new() -> Self {
        let mem = GuestMemoryMmap::from_ranges(&[(GuestAddress(0), 0x1000)]).unwrap();
        let mut snd = Snd::new();
        let receiver = snd.activate().unwrap();
        snd.finish_activation(mem.clone(), true).unwrap();
        let worker = PwWorker::new(snd.streams_no);
        Machine { mem, snd, worker, receiver }
    }

    fn answer(&mut self, message: ControlMessage) {
        if let (DeviceState::Activated(mem), Some(vring)) =
            (&mut self.snd.device_state, &mut self.snd.vring_ctl)
        {
            message.complete(mem, vring).unwrap();
        }
    }

    fn end(&mut self, ended: Vec<IOMessage>) {
        for message in ended {
            if let (DeviceState::Activated(mem), Some(vring)) =
                (&mut self.snd.device_state, &mut self.snd.vring_txq)
            {
                message.complete(mem, vring).unwrap();
            }
        }
    }

    /// Lets the worker carry out what has been passed on to it.
    fn work(&mut self) {
        while let Ok(action) = self.receiver.try_recv() {
            assert!(self.worker.can_handle(&self.snd.streams, &action));
            match self.worker.handle(&mut self.snd.streams, action).unwrap() {
                PwOutcome::Connect { ended, .. } => self.end(ended),
                PwOutcome::Disconnect { message, ended, .. } => {
                    self.end(ended);
                    self.answer(message);
                }
                PwOutcome::ReleaseRejected { message, .. } => self.answer(message),
                PwOutcome::ReleaseNotConnected { message } => self.answer(message),
                PwOutcome::ParametersSet { message, .. } => self.answer(message),
                _ => {}
            }
        }
    }

    /// Makes a request, waits for the answer and gives its status.
    fn request(&mut self, words: &[u32]) -> u32 {
        self.mem.write_slice(&[0; 4], GuestAddress(REPLY)).unwrap();
        for (i, word) in words.iter().enumerate() {
            let addr = GuestAddress(REQUEST + 4 * i as u64);
            self.mem.write_slice(&word.to_le_bytes(), addr).unwrap();
        }
        let descriptors = vec![
            Descriptor { addr: REQUEST, len: 24, index: 0, write_only: false },
            Descriptor { addr: REPLY, len: 4, index: 1, write_only: true },
        ];
        let queue = &mut self.snd.vring_ctl.as_mut().unwrap().queue;
        queue.make_available(DescriptorChain { index: 42, addr: REQUEST, descriptors });
        assert_eq!(self.snd.process_ctl_queue().errors, vec![]);
        self.work();
        let used = self.snd.vring_ctl.as_mut().unwrap().queue.take_used();
        assert_eq!(used.len(), 1);
        assert_eq!(used[0].0, 42);
        let mut reply = [0u8; 4];
        self.mem.read_slice(&mut reply, GuestAddress(REPLY)).unwrap();
        u32::from_le_bytes(reply)
    }

    /// Makes a transfer of `len` bytes to stream 0.
    fn transfer(&mut self, index: u16, len: u32) {
        self.mem.write_slice(&[0; 4], GuestAddress(HEAD)).unwrap();
        let descriptors = vec![
            Descriptor { addr: HEAD, len: 4, index: 0, write_only: false },
            Descriptor { addr: DATA, len, index: 1, write_only: false },
            Descriptor { addr: 0x900, len: 8, index: 2, write_only: true },
        ];
        let queue = &mut self.snd.vring_txq.as_mut().unwrap().queue;
        queue.make_available(DescriptorChain { index, addr: HEAD, descriptors });
        assert_eq!(self.snd.process_txq_queue().errors, vec![]);
        self.work();
    }

    /// Plays a period of stream 0.
    fn play(&mut self) -> Option<Vec<u8>> {
        let Machine { snd, worker, .. } = self;
        assert!(worker.can_fill(&snd.streams, 0));
        let DeviceState::Activated(mem) = &mut snd.device_state else {
            panic!("not activated");
        };
        let fill = worker.fill_period(&snd.streams, mem, 0).unwrap();
        self.end(fill.ended);
        if fill.full {
            Some(fill.bytes)
        } else {
            None
        }
    }

    fn transfers_done(&mut self) -> Vec<(u16, u32)> {
        self.snd.vring_txq.as_mut().unwrap().queue.take_used()
    }
}

#[test]
fn sound_is_played_and_answered() {
    let mut machine = Machine::new();
    let set = [0x101, 0, 0x40, 8, 0, 0x0007_0502];
    assert_eq!(machine.request(&set), VIRTIO_SND_S_OK);
    assert_eq!(machine.request(&[0x102, 0]), VIRTIO_SND_S_OK);
    assert_eq!(machine.request(&[0x104, 0]), VIRTIO_SND_S_OK);
    machine.mem.write_slice(&[1, 2, 3, 4, 5, 6, 7, 8], GuestAddress(DATA)).unwrap();
    machine.transfer(1, 8);
    machine.transfer(2, 8);
    assert_eq!(machine.transfers_done(), vec![]);
    assert_eq!(machine.play(), Some(vec![1, 2, 3, 4, 5, 6, 7, 8]));
    assert_eq!(machine.transfers_done(), vec![(1, 8)]);
    assert_eq!(machine.request(&[0x105, 0]), VIRTIO_SND_S_OK);
    assert_eq!(machine.request(&[0x103, 0]), VIRTIO_SND_S_OK);
    assert_eq!(machine.transfers_done(), vec![(2, 8)]);
}

#[test]
fn release_of_a_running_stream_is_refused() {
    let mut machine = Machine::new();
    assert_eq!(machine.request(&[0x103, 0]), VIRTIO_SND_S_BAD_MSG);
    assert_eq!(machine.request(&[0x102, 0]), VIRTIO_SND_S_OK);
    assert_eq!(machine.request(&[0x104, 0]), VIRTIO_SND_S_OK);
    assert_eq!(machine.request(&[0x103, 0]), VIRTIO_SND_S_BAD_MSG);
    assert_eq!(machine.request(&[0x105, 0]), VIRTIO_SND_S_OK);
    assert_eq!(machine.request(&[0x103, 0]), VIRTIO_SND_S_OK);
}

#[test]
fn every_transfer_is_answered_once() {
    let mut machine = Machine::new();
    machine.request(&[0x101, 0, 0x40, 24, 0, 0x0007_0501]);
    machine.request(&[0x102, 0]);
    for index in 0..6 {
        machine.transfer(index, 8);
    }
    assert!(machine.play().is_some());
    machine.request(&[0x103, 0]);
    let mut done: Vec<u16> = machine.transfers_done().iter().map(|u| u.0).collect();
    done.sort();
    assert_eq!(done, vec![0, 1, 2, 3, 4, 5]);
}
