//! The end of transfers, of releases, and the texts of errors.
use virtio_snd::completion::{end_transfers, finish_release, Ending};
use virtio_snd::queue::VirtQueue;
use virtio_snd::stream::{self, PCMState};
use virtio_snd::virtio_sound::{VIRTIO_SND_S_BAD_MSG, VIRTIO_SND_S_OK};
use virtio_snd::vring::{Interrupt, Signal};
use virtio_snd::{
    ControlMessage, ControlMessageKind, Error, IOMessage, InvalidControlMessage, Vring,
};
use vm_memory::{Bytes, GuestAddress, GuestMemoryMmap};

fn guest() -> GuestMemoryMmap {
    GuestMemoryMmap::from_ranges(&[(GuestAddress(0), 0x1000)]).unwrap()
}

fn vring(irq_line: u32) -> Vring {
    Vring { queue: VirtQueue::new(16), intc: true, irq_line: Some(irq_line) }
}

fn line(irq_line: u32) -> Signal {
    Signal { status: 1, interrupt: Interrupt::Line(irq_line) }
}

fn piece(head_index: u16, desc_addr: u64, notify: bool) -> IOMessage {
    IOMessage {
        status: VIRTIO_SND_S_OK,
        desc_addr,
        head_index,
        data_addr: 0,
        data_len: 0,
        notify,
    }
}

fn release(desc_addr: u64) -> ControlMessage {
    ControlMessage {
        kind: ControlMessageKind::PcmRelease,
        code: VIRTIO_SND_S_BAD_MSG,
        desc_addr,
        head_index: 9,
    }
}

fn word(mem: &GuestMemoryMmap, addr: u64) -> u32 {
    let mut bytes = [0u8; 4];
    mem.read_slice(&mut bytes, GuestAddress(addr)).unwrap();
    u32::from_le_bytes(bytes)
}

#[test]
fn transfers_end_in_order() {
    let mut mem = guest();
    let mut txq = vring(2);
    let ended = vec![
        piece(1, 0x100, true),
        piece(1, 0x100, false),
        piece(2, 0xffc, true),
        piece(3, 0x200, true),
    ];
    assert_eq!(
        end_transfers(ended, &mut mem, &mut txq),
        Ending { signals: vec![line(2), line(2)], errors: vec![Error::DescriptorWriteFailed] }
    );
    assert_eq!(txq.queue.take_used(), vec![(1, 8), (3, 8)]);
    assert_eq!(word(&mem, 0x100), VIRTIO_SND_S_OK);
    assert_eq!(word(&mem, 0x200), VIRTIO_SND_S_OK);
}

#[test]
fn release_is_answered_after_its_transfers() {
    let mut mem = guest();
    let (mut txq, mut ctl) = (vring(2), vring(1));
    let ended = vec![piece(5, 0x100, true), piece(6, 0x100, true)];
    assert_eq!(
        finish_release(release(0x100), ended, &mut mem, &mut txq, &mut ctl),
        Ending { signals: vec![line(2), line(2), line(1)], errors: vec![] }
    );
    assert_eq!(txq.queue.take_used(), vec![(5, 8), (6, 8)]);
    assert_eq!(ctl.queue.take_used(), vec![(9, 4)]);
    assert_eq!(word(&mem, 0x100), VIRTIO_SND_S_BAD_MSG);
}

#[test]
fn release_that_cannot_be_answered_ends_its_transfers() {
    let mut mem = guest();
    let (mut txq, mut ctl) = (vring(2), vring(1));
    let ended = vec![piece(5, 0x100, true)];
    assert_eq!(
        finish_release(release(0x9000), ended, &mut mem, &mut txq, &mut ctl),
        Ending { signals: vec![line(2)], errors: vec![Error::DescriptorWriteFailed] }
    );
    assert_eq!(txq.queue.take_used(), vec![(5, 8)]);
    assert_eq!(ctl.queue.take_used(), vec![]);
}

#[test]
fn errors_have_their_texts() {
    let texts = [
        (Error::SendNotificationFailed, "Notification send failed"),
        (Error::DescriptorNotFound, "Descriptor not found"),
        (Error::DescriptorReadFailed, "Descriptor read failed"),
        (Error::DescriptorWriteFailed, "Descriptor write failed"),
        (Error::HandleEventNotEpollIn, "Failed to handle event other than EPOLLIN event"),
        (Error::HandleUnknownEvent, "Failed to handle unknown event"),
        (Error::InvalidControlMessage(10), "Invalid control message code 10"),
        (Error::EventFdCreate(5), "Failed to create a new EventFd"),
        (Error::SoundReqMissingData, "Request missing data buffer"),
        (Error::AudioBackendNotSupported, "Audio backend not supported"),
        (
            Error::UnexpectedSoundHeaderSize(4, 9),
            "Invalid virtio_snd_hdr size, expected: 4, found: 9",
        ),
        (
            Error::UnexpectedWriteOnlyDescriptor(0),
            "Received unexpected write only descriptor at index 0",
        ),
        (
            Error::UnexpectedReadableDescriptor(2),
            "Received unexpected readable descriptor at index 2",
        ),
        (Error::UnexpectedDescriptorCount(123), "Invalid descriptor count 123"),
        (
            Error::UnexpectedDescriptorSize(8, 4294967295),
            "Invalid descriptor size, expected: 8, found: 4294967295",
        ),
        (Error::StreamWithIdNotFound(7), "Stream with id 7 not found"),
        (Error::ChannelNotSupported(255), "Channel number not supported: 255"),
        (Error::MissingAudioBackend, "No audio backend is present"),
        (
            Error::Stream(stream::Error::InvalidStreamId(30)),
            "Protocol or device error: Invalid stream id 30",
        ),
    ];
    for (error, text) in texts {
        assert_eq!(error.text(), text);
    }
    let refused = stream::Error::InvalidStateTransition(PCMState::Start, PCMState::Prepare);
    assert_eq!(refused.text(), "Invalid state transition from Start to Prepare");
}

#[test]
fn texts_of_an_unknown_code_agree() {
    for code in [0, 3, 9, 10, 99, 100, 0x106, 1234567890, u32::MAX] {
        let invalid = ControlMessageKind::try_from(code).unwrap_err();
        assert_eq!(invalid, InvalidControlMessage(code));
        assert_eq!(invalid.text(), format!("Invalid control message code {}", code));
        assert_eq!(Error::from(invalid).text(), invalid.text());
    }
}
