//! What the worker of the audio backend decides.
use virtio_snd::audio_backends::format::{connection, describe, Connection, Direction, SampleFormat};
use virtio_snd::audio_backends::pipewire::{PwAction, PwBackend};
use virtio_snd::audio_backends::worker::{give_up, PwOutcome, PwWorker};
use virtio_snd::audio_backends::{alloc_audio_backend, AudioBackend, BackendType};
use virtio_snd::stream::{Buffer, Error as StreamError, PCMState, PcmParams, Stream};
use virtio_snd::virtio_sound::{
    VirtioSndPcmSetParams, VirtioSoundHeader, VirtioSoundPcmHeader, VIRTIO_SND_S_BAD_MSG,
    VIRTIO_SND_S_NOT_SUPP, VIRTIO_SND_S_OK,
};
use virtio_snd::{ControlMessage, ControlMessageKind, Error, IOMessage};
use vm_memory::{Bytes, GuestAddress, GuestMemoryMmap};

fn streams() -> Vec<Stream> {
    vec![Stream::with_direction(0, 0), Stream::with_direction(1, 1)]
}

fn guest() -> GuestMemoryMmap {
    let mem = GuestMemoryMmap::from_ranges(&[(GuestAddress(0), 0x1000)]).unwrap();
    for i in 0..0x1000u64 {
        mem.write_slice(&[i as u8], GuestAddress(i)).unwrap();
    }
    mem
}

fn request(kind: ControlMessageKind, head_index: u16) -> ControlMessage {
    ControlMessage { kind, code: VIRTIO_SND_S_OK, desc_addr: 0x20, head_index }
}

fn release(id: usize) -> PwAction {
    PwAction::Release(id, request(ControlMessageKind::PcmRelease, 8))
}

fn piece(head_index: u16, data_addr: u64, data_len: u32) -> IOMessage {
    IOMessage {
        status: VIRTIO_SND_S_OK,
        desc_addr: 0x40,
        head_index,
        data_addr,
        data_len,
        notify: true,
    }
}

fn add(stream: &mut Stream, head_index: u16, data_addr: u64, data_len: u32) {
    stream.buffers.push_back(Buffer::new(vec![], piece(head_index, data_addr, data_len)));
}

fn parameters(channels: u8, format: u8, rate: u8) -> VirtioSndPcmSetParams {
    VirtioSndPcmSetParams {
        hdr: VirtioSoundPcmHeader { hdr: VirtioSoundHeader { code: 0x101 }, stream_id: 0 },
        buffer_bytes: 0x4000,
        period_bytes: 0x40,
        features: 3,
        channels,
        format,
        rate,
        padding: 0,
    }
}

fn set(channels: u8, format: u8, rate: u8) -> PwAction {
    PwAction::SetParameters(
        0,
        request(ControlMessageKind::PcmSetParams, 9),
        parameters(channels, format, rate),
    )
}

fn indexes(messages: &[IOMessage]) -> Vec<u16> {
    messages.iter().map(|m| m.head_index).collect()
}

#[test]
fn parameters_are_taken_over() {
    let mut streams = streams();
    let mut worker = PwWorker::new(2);
    let outcome = worker.handle(&mut streams, set(2, 17, 7)).unwrap();
    match outcome {
        PwOutcome::ParametersSet { message, code } => {
            assert_eq!(code, VIRTIO_SND_S_OK);
            assert_eq!((message.code, message.head_index), (VIRTIO_SND_S_OK, 9));
        }
        _ => panic!("another outcome"),
    }
    assert_eq!(
        streams[0].params,
        PcmParams {
            buffer_bytes: 0x4000,
            period_bytes: 0x40,
            features: 3,
            channels: 2,
            format: 17,
            rate: 7,
        }
    );
    assert_eq!(streams[1].params, PcmParams::default());
}

#[test]
fn unsupported_parameters_are_left_out() {
    for (format, rate) in [(1, 7), (5, 0), (5, 8), (255, 7)] {
        let mut streams = streams();
        let mut worker = PwWorker::new(2);
        let outcome = worker.handle(&mut streams, set(2, format, rate)).unwrap();
        match outcome {
            PwOutcome::ParametersSet { message, code } => {
                assert_eq!(code, VIRTIO_SND_S_NOT_SUPP);
                assert_eq!(message.code, VIRTIO_SND_S_OK);
            }
            _ => panic!("another outcome"),
        }
        assert_eq!(streams[0].params, PcmParams::default());
    }
}

#[test]
fn running_stream_keeps_its_parameters() {
    let mut streams = streams();
    let mut worker = PwWorker::new(2);
    streams[0].state = PCMState::Start;
    match worker.handle(&mut streams, set(2, 5, 7)).unwrap() {
        PwOutcome::ParametersSet { code, .. } => assert_eq!(code, VIRTIO_SND_S_BAD_MSG),
        _ => panic!("another outcome"),
    }
    assert_eq!(streams[0].params, PcmParams::default());
    assert_eq!(streams[0].state, PCMState::Start);
}

#[test]
fn prepared_stream_is_connected() {
    let mut streams = streams();
    let mut worker = PwWorker::new(2);
    match worker.handle(&mut streams, PwAction::Prepare(1)).unwrap() {
        PwOutcome::Connect { stream_id, info, connection, ended } => {
            assert_eq!(stream_id, 1);
            assert_eq!(
                connection,
                Connection {
                    format: SampleFormat::S16Le,
                    rate: 44100,
                    channels: 1,
                    direction: Direction::Input,
                    inactive: true,
                    autoconnect: true,
                    realtime: true,
                    map_buffers: true,
                }
            );
            assert_eq!((info.format, info.rate, info.channels), (SampleFormat::S16, 44100, 1));
            assert_eq!(ended, vec![]);
        }
        _ => panic!("another outcome"),
    }
    assert_eq!(streams[1].state, PCMState::Prepare);
    assert_eq!(worker.frame_size(1), 2);
    assert!(matches!(
        worker.handle(&mut streams, PwAction::Prepare(0)),
        Ok(PwOutcome::Connect {
            connection: Connection { direction: Direction::Output, .. },
            ..
        })
    ));
}

#[test]
fn connection_follows_the_commands() {
    let mut streams = streams();
    let mut worker = PwWorker::new(2);
    worker.handle(&mut streams, PwAction::Prepare(0)).unwrap();
    assert!(matches!(
        worker.handle(&mut streams, PwAction::Start(0)),
        Ok(PwOutcome::SetActive { stream_id: 0, active: true })
    ));
    assert!(matches!(
        worker.handle(&mut streams, PwAction::Stop(0)),
        Ok(PwOutcome::SetActive { stream_id: 0, active: false })
    ));
    match worker.handle(&mut streams, release(0)).unwrap() {
        PwOutcome::Disconnect { stream_id, message, ended } => {
            assert_eq!(stream_id, 0);
            assert_eq!((message.code, message.head_index), (VIRTIO_SND_S_OK, 8));
            assert_eq!(ended, vec![]);
        }
        _ => panic!("another outcome"),
    }
    assert_eq!(streams[0].state, PCMState::Release);
}

#[test]
fn refused_commands_change_nothing() {
    let mut streams = streams();
    let mut worker = PwWorker::new(2);
    assert!(matches!(
        worker.handle(&mut streams, PwAction::Start(0)),
        Ok(PwOutcome::Rejected(StreamError::InvalidStateTransition(
            PCMState::SetParameters,
            PCMState::Start
        )))
    ));
    assert!(matches!(
        worker.handle(&mut streams, PwAction::Stop(0)),
        Ok(PwOutcome::Rejected(_))
    ));
    streams[0].state = PCMState::Start;
    assert!(matches!(
        worker.handle(&mut streams, PwAction::Prepare(0)),
        Ok(PwOutcome::Rejected(_))
    ));
    assert_eq!(streams[0].state, PCMState::Start);
}

#[test]
fn refused_release_is_a_bad_message() {
    let mut streams = streams();
    let mut worker = PwWorker::new(2);
    match worker.handle(&mut streams, release(0)).unwrap() {
        PwOutcome::ReleaseRejected { message, error } => {
            assert_eq!((message.code, message.head_index), (VIRTIO_SND_S_BAD_MSG, 8));
            assert_eq!(
                error,
                StreamError::InvalidStateTransition(PCMState::SetParameters, PCMState::Release)
            );
        }
        _ => panic!("another outcome"),
    }
}

#[test]
fn stream_without_connection_is_noticed() {
    let mut streams = streams();
    let mut worker = PwWorker::new(2);
    streams[0].state = PCMState::Prepare;
    assert!(matches!(
        worker.handle(&mut streams, PwAction::Start(0)),
        Ok(PwOutcome::NotConnected)
    ));
    streams[0].state = PCMState::Prepare;
    assert!(matches!(
        worker.handle(&mut streams, release(0)),
        Ok(PwOutcome::ReleaseNotConnected { .. })
    ));
}

#[test]
fn too_many_channels_end_the_worker() {
    let mut streams = streams();
    let mut worker = PwWorker::new(2);
    worker.handle(&mut streams, set(7, 5, 7)).unwrap();
    assert!(matches!(
        worker.handle(&mut streams, PwAction::Prepare(0)),
        Err(Error::ChannelNotSupported(7))
    ));
}

#[test]
fn actions_that_cannot_be_carried_out_are_recognised() {
    let mut streams = streams();
    let worker = PwWorker::new(2);
    assert!(worker.can_handle(&streams, &PwAction::Read(9)));
    assert!(worker.can_handle(&streams, &PwAction::Write(1)));
    assert!(!worker.can_handle(&streams, &PwAction::Write(2)));
    assert!(!worker.can_handle(&streams, &PwAction::Start(2)));
    assert!(!worker.can_handle(&streams, &release(2)));
    assert!(worker.can_handle(&streams, &release(1)));
    assert!(worker.can_handle(&streams, &PwAction::Prepare(1)));
    assert!(!worker.can_handle(&streams, &PwAction::Prepare(2)));
    streams[1].direction = 2;
    assert!(!worker.can_handle(&streams, &PwAction::Prepare(1)));
    streams.pop();
    assert!(!worker.can_handle(&streams, &PwAction::Write(0)));
}

#[test]
fn written_data_is_played_in_order() {
    let mut mem = guest();
    let mut streams = streams();
    streams[0].params.period_bytes = 24;
    let mut worker = PwWorker::new(2);
    worker.handle(&mut streams, PwAction::Prepare(0)).unwrap();
    add(&mut streams[0], 1, 0x100, 16);
    add(&mut streams[0], 2, 0x200, 8);
    add(&mut streams[0], 3, 0x300, 24);
    assert!(matches!(worker.handle(&mut streams, PwAction::Write(0)), Ok(PwOutcome::Idle)));
    assert_eq!(streams[0].buffers.len(), 0);
    assert!(worker.can_fill(&streams, 0));
    let fill = worker.fill_period(&streams, &mut mem, 0).unwrap();
    let expected: Vec<u8> = (0..16).chain(0..8).collect();
    assert_eq!(fill.bytes, expected);
    assert!(fill.full);
    assert_eq!(fill.stride, 2);
    assert_eq!(indexes(&fill.ended), vec![1, 2]);
    let fill = worker.fill_period(&streams, &mut mem, 0).unwrap();
    assert_eq!(fill.bytes, (0..24).collect::<Vec<u8>>());
    assert_eq!(indexes(&fill.ended), vec![3]);
    let fill = worker.fill_period(&streams, &mut mem, 0).unwrap();
    assert!(!fill.full);
    assert_eq!(fill.bytes, vec![]);
}

#[test]
fn data_is_read_when_it_is_played() {
    let mut mem = guest();
    let mut streams = streams();
    streams[0].params.period_bytes = 4;
    let mut worker = PwWorker::new(2);
    worker.handle(&mut streams, PwAction::Prepare(0)).unwrap();
    add(&mut streams[0], 1, 0x100, 4);
    worker.handle(&mut streams, PwAction::Write(0)).unwrap();
    mem.write_slice(&[9, 8, 7, 6], GuestAddress(0x100)).unwrap();
    let fill = worker.fill_period(&streams, &mut mem, 0).unwrap();
    assert_eq!(fill.bytes, vec![9, 8, 7, 6]);
}

#[test]
fn too_little_data_is_taken_all_the_same() {
    let mut mem = guest();
    let mut streams = streams();
    streams[0].params.period_bytes = 100;
    let mut worker = PwWorker::new(2);
    worker.handle(&mut streams, PwAction::Prepare(0)).unwrap();
    add(&mut streams[0], 1, 0x100, 16);
    worker.handle(&mut streams, PwAction::Write(0)).unwrap();
    let fill = worker.fill_period(&streams, &mut mem, 0).unwrap();
    assert!(!fill.full);
    assert_eq!(fill.bytes.len(), 16);
    assert_eq!(indexes(&fill.ended), vec![1]);
}

#[test]
fn part_of_a_buffer_is_taken_once() {
    let mut mem = guest();
    let mut streams = streams();
    streams[0].params.period_bytes = 10;
    let mut worker = PwWorker::new(2);
    worker.handle(&mut streams, PwAction::Prepare(0)).unwrap();
    add(&mut streams[0], 1, 0x100, 16);
    worker.handle(&mut streams, PwAction::Write(0)).unwrap();
    let fill = worker.fill_period(&streams, &mut mem, 0).unwrap();
    assert!(fill.full);
    assert_eq!(fill.bytes, (0..10).collect::<Vec<u8>>());
    assert_eq!(fill.ended, vec![]);
    assert!(!worker.can_fill(&streams, 0));
}

#[test]
fn data_that_cannot_be_read_stays() {
    let mut mem = guest();
    let mut streams = streams();
    streams[0].params.period_bytes = 16;
    let mut worker = PwWorker::new(2);
    worker.handle(&mut streams, PwAction::Prepare(0)).unwrap();
    add(&mut streams[0], 1, 0xff8, 16);
    worker.handle(&mut streams, PwAction::Write(0)).unwrap();
    assert!(matches!(
        worker.fill_period(&streams, &mut mem, 0),
        Err(Error::DescriptorReadFailed)
    ));
    match worker.handle(&mut streams, release(0)).unwrap() {
        PwOutcome::Disconnect { ended, .. } => assert_eq!(indexes(&ended), vec![1]),
        _ => panic!("another outcome"),
    }
}

#[test]
fn stream_that_is_not_connected_cannot_be_filled() {
    let streams = streams();
    let worker = PwWorker::new(2);
    assert!(!worker.can_fill(&streams, 0));
    assert!(!worker.can_fill(&streams, 2));
}

#[test]
fn release_ends_what_waits() {
    let mut streams = streams();
    let mut worker = PwWorker::new(2);
    worker.handle(&mut streams, PwAction::Prepare(0)).unwrap();
    add(&mut streams[0], 1, 0x100, 16);
    worker.handle(&mut streams, PwAction::Write(0)).unwrap();
    add(&mut streams[0], 2, 0x100, 16);
    match worker.handle(&mut streams, release(0)).unwrap() {
        PwOutcome::Disconnect { ended, .. } => assert_eq!(indexes(&ended), vec![2, 1]),
        _ => panic!("another outcome"),
    }
    assert_eq!(streams[0].buffers.len(), 0);
}

#[test]
fn release_leaves_what_another_stream_plays() {
    let mut mem = guest();
    let mut streams = streams();
    streams[1].params.period_bytes = 16;
    let mut worker = PwWorker::new(2);
    worker.handle(&mut streams, PwAction::Prepare(0)).unwrap();
    worker.handle(&mut streams, PwAction::Prepare(1)).unwrap();
    add(&mut streams[0], 1, 0x100, 16);
    worker.handle(&mut streams, PwAction::Write(0)).unwrap();
    match worker.handle(&mut streams, release(0)).unwrap() {
        PwOutcome::Disconnect { ended, .. } => assert_eq!(ended, vec![]),
        _ => panic!("another outcome"),
    }
    let fill = worker.fill_period(&streams, &mut mem, 1).unwrap();
    assert_eq!(indexes(&fill.ended), vec![1]);
    add(&mut streams[0], 2, 0x100, 16);
    worker.handle(&mut streams, PwAction::Write(0)).unwrap();
    assert!(!worker.fill_period(&streams, &mut mem, 1).unwrap().full);
    match worker.handle(&mut streams, PwAction::Prepare(1)).unwrap() {
        PwOutcome::Connect { ended, .. } => assert_eq!(ended, vec![]),
        _ => panic!("another outcome"),
    }
    let fill = worker.fill_period(&streams, &mut mem, 1).unwrap();
    assert_eq!(indexes(&fill.ended), vec![2]);
}

#[test]
fn new_connection_ends_what_the_old_one_left() {
    let mut streams = streams();
    let mut worker = PwWorker::new(2);
    worker.handle(&mut streams, PwAction::Prepare(0)).unwrap();
    worker.handle(&mut streams, PwAction::Prepare(1)).unwrap();
    add(&mut streams[0], 1, 0x100, 16);
    worker.handle(&mut streams, PwAction::Write(0)).unwrap();
    worker.handle(&mut streams, release(0)).unwrap();
    match worker.handle(&mut streams, PwAction::Prepare(1)).unwrap() {
        PwOutcome::Connect { ended, .. } => assert_eq!(indexes(&ended), vec![1]),
        _ => panic!("another outcome"),
    }
}

#[test]
fn backend_passes_every_request_on() {
    let (mut backend, receiver) = alloc_audio_backend(BackendType::default()).unwrap();
    backend.write(1).unwrap();
    backend.read(2).unwrap();
    backend.prepare(3).unwrap();
    backend.start(4).unwrap();
    backend.stop(5).unwrap();
    backend.release(6, request(ControlMessageKind::PcmRelease, 1)).unwrap();
    backend
        .set_parameters(7, request(ControlMessageKind::PcmSetParams, 2), parameters(1, 5, 6))
        .unwrap();
    let actions: Vec<PwAction> = receiver.try_iter().collect();
    let expected = vec![
        PwAction::Write(1),
        PwAction::Read(2),
        PwAction::Prepare(3),
        PwAction::Start(4),
        PwAction::Stop(5),
        PwAction::Release(6, request(ControlMessageKind::PcmRelease, 1)),
        PwAction::SetParameters(
            7,
            request(ControlMessageKind::PcmSetParams, 2),
            parameters(1, 5, 6),
        ),
    ];
    assert!(actions == expected);
}

#[test]
fn backend_notices_that_its_worker_is_gone() {
    let (mut backend, receiver) = PwBackend::new();
    drop(receiver);
    assert_eq!(backend.write(0), Err(Error::SendNotificationFailed));
    assert_eq!(backend.pass_on(PwAction::Read(0)), Err(Error::SendNotificationFailed));
}

/// A backend with nothing but what it has to have.
struct Silent;

impl AudioBackend for Silent {
    fn ready(&self) -> bool {
        true
    }

    fn write(&mut self, _stream_id: u32) -> Result<(), Error> {
        Err(Error::AudioBackendNotSupported)
    }

    fn read(&mut self, _stream_id: u32) -> Result<(), Error> {
        Err(Error::AudioBackendNotSupported)
    }
}

#[test]
fn backend_need_not_prepare_start_or_stop() {
    let mut backend = Silent;
    assert_eq!(backend.prepare(0), Ok(()));
    assert_eq!(backend.start(0), Ok(()));
    assert_eq!(backend.stop(0), Ok(()));
    assert_eq!(backend.write(0), Err(Error::AudioBackendNotSupported));
}

#[test]
fn backend_that_does_nothing_hands_requests_back() {
    let mut backend = Silent;
    assert!(
        backend.release(0, request(ControlMessageKind::PcmRelease, 1))
            == Ok(Some(request(ControlMessageKind::PcmRelease, 1)))
    );
    let set = request(ControlMessageKind::PcmSetParams, 2);
    assert!(
        backend.set_parameters(0, set, parameters(1, 5, 6))
            == Ok(Some(request(ControlMessageKind::PcmSetParams, 2)))
    );
}

#[test]
fn server_is_always_offered_the_same_format() {
    for format in [4, 5, 15, 17] {
        let info = describe(&PcmParams { format, channels: 2, ..PcmParams::default() }).unwrap();
        let connection = connection(&info, 0);
        assert_eq!(connection.format, SampleFormat::S16Le);
        assert_eq!((connection.rate, connection.channels), (44100, 2));
        assert_eq!(connection.direction, Direction::Output);
        assert!(connection.inactive);
    }
}

#[test]
fn end_of_the_worker_ends_what_is_ready() {
    let mut streams = streams();
    let mut worker = PwWorker::new(2);
    worker.handle(&mut streams, PwAction::Prepare(0)).unwrap();
    worker.handle(&mut streams, PwAction::Prepare(1)).unwrap();
    add(&mut streams[0], 1, 0x100, 16);
    worker.handle(&mut streams, PwAction::Write(0)).unwrap();
    worker.handle(&mut streams, release(0)).unwrap();
    add(&mut streams[0], 2, 0x100, 16);
    worker.handle(&mut streams, PwAction::Write(0)).unwrap();
    add(&mut streams[0], 3, 0x100, 16);
    worker.handle(&mut streams, set(9, 5, 7)).unwrap();
    assert!(worker.handle(&mut streams, PwAction::Prepare(0)).is_err());
    assert_eq!(indexes(&worker.shut_down()), vec![1, 2]);
    assert_eq!(streams[0].buffers.len(), 1);
    assert!(!worker.is_connected(1));
    assert_eq!(worker.shut_down(), vec![]);
}

#[test]
fn current_queue_is_the_last_to_be_dropped() {
    let mut streams = streams();
    let mut worker = PwWorker::new(2);
    worker.handle(&mut streams, PwAction::Prepare(0)).unwrap();
    worker.handle(&mut streams, PwAction::Prepare(1)).unwrap();
    for index in [1, 2] {
        add(&mut streams[0], index, 0x100, 16);
    }
    worker.handle(&mut streams, PwAction::Write(0)).unwrap();
    worker.handle(&mut streams, release(0)).unwrap();
    worker.handle(&mut streams, PwAction::Prepare(0)).unwrap();
    for index in [3, 4] {
        add(&mut streams[0], index, 0x100, 16);
    }
    worker.handle(&mut streams, PwAction::Write(0)).unwrap();
    assert_eq!(indexes(&worker.shut_down()), vec![1, 2, 3, 4]);
}

#[test]
fn action_that_is_given_up_leaves_its_request() {
    assert!(give_up(release(0)) == Some(request(ControlMessageKind::PcmRelease, 8)));
    assert!(give_up(set(1, 5, 7)) == Some(request(ControlMessageKind::PcmSetParams, 9)));
    assert!(give_up(PwAction::Start(0)).is_none());
}

#[test]
fn refusals_do_not_end_the_worker() {
    let mut streams = streams();
    let mut worker = PwWorker::new(2);
    let actions = vec![
        PwAction::Start(0),
        PwAction::Stop(1),
        release(0),
        PwAction::Prepare(0),
        PwAction::Start(0),
        PwAction::Prepare(0),
        PwAction::Stop(0),
    ];
    let mut taken = Vec::new();
    for action in actions {
        let outcome = worker.handle(&mut streams, action).unwrap();
        taken.push(!matches!(
            outcome,
            PwOutcome::Rejected(_) | PwOutcome::ReleaseRejected { .. }
        ));
    }
    assert_eq!(taken, vec![false, false, false, true, true, false, true]);
}
