//! Streams, their life cycle and how they are described to the audio server.
use virtio_snd::audio_backends::format::{
    channel_positions, describe, frame_rate, sample_format, Channel, SampleFormat, MAX_CHANNELS,
};
use virtio_snd::stream::{Error, PCMState, PcmParams, Stream};
use virtio_snd::virtio_sound::{
    VIRTIO_SND_D_INPUT, VIRTIO_SND_D_OUTPUT, VIRTIO_SND_PCM_FMT_A_LAW, VIRTIO_SND_PCM_FMT_FLOAT,
    VIRTIO_SND_PCM_FMT_FLOAT64, VIRTIO_SND_PCM_FMT_MU_LAW, VIRTIO_SND_PCM_FMT_S16,
    VIRTIO_SND_PCM_FMT_S18_3, VIRTIO_SND_PCM_FMT_S24, VIRTIO_SND_PCM_FMT_S24_3,
    VIRTIO_SND_PCM_FMT_S32, VIRTIO_SND_PCM_FMT_U8, VIRTIO_SND_PCM_RATE_192000,
    VIRTIO_SND_PCM_RATE_384000, VIRTIO_SND_PCM_RATE_44100, VIRTIO_SND_PCM_RATE_48000,
    VIRTIO_SND_PCM_RATE_5512, VIRTIO_SND_PCM_RATE_64000, VIRTIO_SND_PCM_RATE_8000,
};

#[test]
fn stream_goes_through_its_life() {
    let mut state = PCMState::new();
    assert_eq!(state, PCMState::SetParameters);
    assert_eq!(state.set_parameters(), Ok(()));
    assert_eq!(state.prepare(), Ok(()));
    assert_eq!(state.start(), Ok(()));
    assert_eq!(state.stop(), Ok(()));
    assert_eq!(state.start(), Ok(()));
    assert_eq!(state.stop(), Ok(()));
    assert_eq!(state.release(), Ok(()));
    assert_eq!(state.prepare(), Ok(()));
    assert_eq!(state.release(), Ok(()));
    assert_eq!(state, PCMState::Release);
}

#[test]
fn refused_command_leaves_the_state() {
    let mut state = PCMState::new();
    assert_eq!(
        state.start(),
        Err(Error::InvalidStateTransition(PCMState::SetParameters, PCMState::Start))
    );
    assert_eq!(
        state.stop(),
        Err(Error::InvalidStateTransition(PCMState::SetParameters, PCMState::Stop))
    );
    assert_eq!(
        state.release(),
        Err(Error::InvalidStateTransition(PCMState::SetParameters, PCMState::Release))
    );
    assert_eq!(state, PCMState::SetParameters);
}

#[test]
fn running_stream_can_only_be_stopped() {
    let mut state = PCMState::Start;
    assert!(state.set_parameters().is_err());
    assert!(state.prepare().is_err());
    assert!(state.release().is_err());
    assert!(state.start().is_err());
    assert_eq!(state, PCMState::Start);
    assert_eq!(state.stop(), Ok(()));
}

#[test]
fn released_stream_has_to_be_prepared() {
    let mut state = PCMState::Release;
    assert!(state.start().is_err());
    assert_eq!(state.set_parameters(), Ok(()));
    assert!(state.start().is_err());
    assert_eq!(state.prepare(), Ok(()));
    assert_eq!(state.start(), Ok(()));
}

#[test]
fn new_stream_has_the_default_parameters() {
    let stream = Stream::default();
    assert_eq!(stream.id, 0);
    assert_eq!(stream.direction, VIRTIO_SND_D_OUTPUT);
    assert_eq!(stream.params, PcmParams::default());
    assert_eq!(stream.params.buffer_bytes, 8192);
    assert_eq!(stream.params.period_bytes, 4096);
    assert_eq!(stream.params.channels, 1);
    assert_eq!(stream.params.format, VIRTIO_SND_PCM_FMT_S16);
    assert_eq!(stream.params.rate, VIRTIO_SND_PCM_RATE_44100);
    assert_eq!((stream.channels_min, stream.channels_max), (1, 6));
    assert_eq!(stream.buffers.len(), 0);
    let input = Stream::with_direction(1, VIRTIO_SND_D_INPUT);
    assert_eq!((input.id, input.direction), (1, VIRTIO_SND_D_INPUT));
}

#[test]
fn supported_formats_are_these_four() {
    let stream = Stream::default();
    let supported: Vec<u8> = (0..=255).filter(|f| stream.supports_format(*f)).collect();
    assert_eq!(
        supported,
        vec![
            VIRTIO_SND_PCM_FMT_U8,
            VIRTIO_SND_PCM_FMT_S16,
            VIRTIO_SND_PCM_FMT_S24,
            VIRTIO_SND_PCM_FMT_S32
        ]
    );
}

#[test]
fn supported_rates_are_these_seven() {
    let stream = Stream::default();
    let supported: Vec<u8> = (0..=255).filter(|r| stream.supports_rate(*r)).collect();
    let expected: Vec<u8> = (VIRTIO_SND_PCM_RATE_8000..=VIRTIO_SND_PCM_RATE_48000).collect();
    assert_eq!(supported, expected);
    assert_eq!(supported.len(), 7);
}

#[test]
fn formats_have_their_counterparts() {
    assert_eq!(sample_format(VIRTIO_SND_PCM_FMT_MU_LAW), SampleFormat::Ulaw);
    assert_eq!(sample_format(VIRTIO_SND_PCM_FMT_A_LAW), SampleFormat::Alaw);
    assert_eq!(sample_format(VIRTIO_SND_PCM_FMT_U8), SampleFormat::U8);
    assert_eq!(sample_format(VIRTIO_SND_PCM_FMT_S16), SampleFormat::S16);
    assert_eq!(sample_format(VIRTIO_SND_PCM_FMT_S18_3), SampleFormat::S18Le);
    assert_eq!(sample_format(VIRTIO_SND_PCM_FMT_S24_3), SampleFormat::S24Le);
    assert_eq!(sample_format(VIRTIO_SND_PCM_FMT_S24), SampleFormat::S24);
    assert_eq!(sample_format(VIRTIO_SND_PCM_FMT_FLOAT), SampleFormat::F32);
    assert_eq!(sample_format(VIRTIO_SND_PCM_FMT_FLOAT64), SampleFormat::F64);
    assert_eq!(sample_format(0), SampleFormat::Unknown);
    assert_eq!(sample_format(21), SampleFormat::Unknown);
}

#[test]
fn rates_have_their_frames_per_second() {
    assert_eq!(frame_rate(VIRTIO_SND_PCM_RATE_5512), 5512);
    assert_eq!(frame_rate(VIRTIO_SND_PCM_RATE_44100), 44100);
    assert_eq!(frame_rate(VIRTIO_SND_PCM_RATE_64000), 64000);
    assert_eq!(frame_rate(VIRTIO_SND_PCM_RATE_192000), 192000);
    assert_eq!(frame_rate(VIRTIO_SND_PCM_RATE_384000), 384000);
    assert_eq!(frame_rate(14), 44100);
}

#[test]
fn channels_have_their_positions() {
    let three = channel_positions(3).unwrap();
    assert_eq!(
        &three[..4],
        &[Channel::FrontLeft, Channel::FrontRight, Channel::LowFrequency, Channel::Unknown]
    );
    let six = channel_positions(6).unwrap();
    assert_eq!(six[4], Channel::RearLeft);
    assert_eq!(six[5], Channel::RearRight);
    assert_eq!(channel_positions(4).unwrap()[3], Channel::RearCenter);
    assert_eq!(channel_positions(5).unwrap()[4], Channel::RearCenter);
    assert_eq!(channel_positions(1).unwrap()[0], Channel::Mono);
    for channels in 1..=6u8 {
        let positions = channel_positions(channels).unwrap();
        assert_eq!(positions.len(), MAX_CHANNELS);
        let known = positions.iter().filter(|p| **p != Channel::Unknown).count();
        assert_eq!(known, channels as usize);
    }
    assert!(channel_positions(0).is_none());
    assert!(channel_positions(7).is_none());
}

#[test]
fn stream_is_described() {
    let params = PcmParams { channels: 2, rate: VIRTIO_SND_PCM_RATE_48000, ..PcmParams::default() };
    let info = describe(&params).unwrap();
    assert_eq!(info.format, SampleFormat::S16);
    assert_eq!((info.rate, info.flags, info.channels), (48000, 0, 2));
    assert_eq!(info.position[1], Channel::FrontRight);
    assert!(describe(&PcmParams { channels: 9, ..params }).is_none());
}
