//! How the parameters of a stream are put to the audio server.
use crate::stream::PcmParams;
use crate::virtio_sound::{
    VIRTIO_SND_D_INPUT, VIRTIO_SND_D_OUTPUT, VIRTIO_SND_PCM_FMT_A_LAW, VIRTIO_SND_PCM_FMT_FLOAT,
    VIRTIO_SND_PCM_FMT_FLOAT64, VIRTIO_SND_PCM_FMT_MU_LAW, VIRTIO_SND_PCM_FMT_S16,
    VIRTIO_SND_PCM_FMT_S18_3, VIRTIO_SND_PCM_FMT_S20, VIRTIO_SND_PCM_FMT_S20_3,
    VIRTIO_SND_PCM_FMT_S24, VIRTIO_SND_PCM_FMT_S24_3, VIRTIO_SND_PCM_FMT_S32, VIRTIO_SND_PCM_FMT_S8,
    VIRTIO_SND_PCM_FMT_U16, VIRTIO_SND_PCM_FMT_U18_3, VIRTIO_SND_PCM_FMT_U20,
    VIRTIO_SND_PCM_FMT_U20_3, VIRTIO_SND_PCM_FMT_U24, VIRTIO_SND_PCM_FMT_U24_3,
    VIRTIO_SND_PCM_FMT_U32, VIRTIO_SND_PCM_FMT_U8, VIRTIO_SND_PCM_RATE_11025,
    VIRTIO_SND_PCM_RATE_16000, VIRTIO_SND_PCM_RATE_176400, VIRTIO_SND_PCM_RATE_192000,
    VIRTIO_SND_PCM_RATE_22050, VIRTIO_SND_PCM_RATE_32000, VIRTIO_SND_PCM_RATE_384000,
    VIRTIO_SND_PCM_RATE_44100, VIRTIO_SND_PCM_RATE_48000, VIRTIO_SND_PCM_RATE_5512,
    VIRTIO_SND_PCM_RATE_64000, VIRTIO_SND_PCM_RATE_8000, VIRTIO_SND_PCM_RATE_88200,
    VIRTIO_SND_PCM_RATE_96000,
};
use vstd::prelude::*;

verus! {

/// The sample formats of the audio server.
#[derive(Clone, Copy, Debug, PartialEq, Eq, Structural)]
pub enum SampleFormat {
    /// mu-law.
    Ulaw,
    /// A-law.
    Alaw,
    /// Signed, 8 bits.
    S8,
    /// Unsigned, 8 bits.
    U8,
    /// Signed, 16 bits.
    S16,
    /// Signed, 16 bits, little endian.
    S16Le,
    /// Unsigned, 16 bits.
    U16,
    /// Signed, 18 bits, in three bytes.
    S18Le,
    /// Unsigned, 18 bits, in three bytes.
    U18Le,
    /// Signed, 20 bits, in three bytes.
    S20Le,
    /// Unsigned, 20 bits, in three bytes.
    U20Le,
    /// Signed, 24 bits, in three bytes.
    S24Le,
    /// Unsigned, 24 bits, in three bytes.
    U24Le,
    /// Signed, 20 bits.
    S20,
    /// Unsigned, 20 bits.
    U20,
    /// Signed, 24 bits.
    S24,
    /// Unsigned, 24 bits.
    U24,
    /// Signed, 32 bits.
    S32,
    /// Unsigned, 32 bits.
    U32,
    /// Floating point, 32 bits.
    F32,
    /// Floating point, 64 bits.
    F64,
    /// No format that the server knows.
    Unknown,
}

/// The server's format for a format number of the driver.
pub open spec fn spec_sample_format(format: u8) -> SampleFormat {
    match format {
        VIRTIO_SND_PCM_FMT_MU_LAW => SampleFormat::Ulaw,
        VIRTIO_SND_PCM_FMT_A_LAW => SampleFormat::Alaw,
        VIRTIO_SND_PCM_FMT_S8 => SampleFormat::S8,
        VIRTIO_SND_PCM_FMT_U8 => SampleFormat::U8,
        VIRTIO_SND_PCM_FMT_S16 => SampleFormat::S16,
        VIRTIO_SND_PCM_FMT_U16 => SampleFormat::U16,
        VIRTIO_SND_PCM_FMT_S18_3 => SampleFormat::S18Le,
        VIRTIO_SND_PCM_FMT_U18_3 => SampleFormat::U18Le,
        VIRTIO_SND_PCM_FMT_S20_3 => SampleFormat::S20Le,
        VIRTIO_SND_PCM_FMT_U20_3 => SampleFormat::U20Le,
        VIRTIO_SND_PCM_FMT_S24_3 => SampleFormat::S24Le,
        VIRTIO_SND_PCM_FMT_U24_3 => SampleFormat::U24Le,
        VIRTIO_SND_PCM_FMT_S20 => SampleFormat::S20,
        VIRTIO_SND_PCM_FMT_U20 => SampleFormat::U20,
        VIRTIO_SND_PCM_FMT_S24 => SampleFormat::S24,
        VIRTIO_SND_PCM_FMT_U24 => SampleFormat::U24,
        VIRTIO_SND_PCM_FMT_S32 => SampleFormat::S32,
        VIRTIO_SND_PCM_FMT_U32 => SampleFormat::U32,
        VIRTIO_SND_PCM_FMT_FLOAT => SampleFormat::F32,
        VIRTIO_SND_PCM_FMT_FLOAT64 => SampleFormat::F64,
        _ => SampleFormat::Unknown,
    }
}

/// Gives the server's format for a format number of the driver.
pub fn sample_format(format: u8) -> (res: SampleFormat)
    ensures
        res == spec_sample_format(format),
{
    match format {
        VIRTIO_SND_PCM_FMT_MU_LAW => SampleFormat::Ulaw,
        VIRTIO_SND_PCM_FMT_A_LAW => SampleFormat::Alaw,
        VIRTIO_SND_PCM_FMT_S8 => SampleFormat::S8,
        VIRTIO_SND_PCM_FMT_U8 => SampleFormat::U8,
        VIRTIO_SND_PCM_FMT_S16 => SampleFormat::S16,
        VIRTIO_SND_PCM_FMT_U16 => SampleFormat::U16,
        VIRTIO_SND_PCM_FMT_S18_3 => SampleFormat::S18Le,
        VIRTIO_SND_PCM_FMT_U18_3 => SampleFormat::U18Le,
        VIRTIO_SND_PCM_FMT_S20_3 => SampleFormat::S20Le,
        VIRTIO_SND_PCM_FMT_U20_3 => SampleFormat::U20Le,
        VIRTIO_SND_PCM_FMT_S24_3 => SampleFormat::S24Le,
        VIRTIO_SND_PCM_FMT_U24_3 => SampleFormat::U24Le,
        VIRTIO_SND_PCM_FMT_S20 => SampleFormat::S20,
        VIRTIO_SND_PCM_FMT_U20 => SampleFormat::U20,
        VIRTIO_SND_PCM_FMT_S24 => SampleFormat::S24,
        VIRTIO_SND_PCM_FMT_U24 => SampleFormat::U24,
        VIRTIO_SND_PCM_FMT_S32 => SampleFormat::S32,
        VIRTIO_SND_PCM_FMT_U32 => SampleFormat::U32,
        VIRTIO_SND_PCM_FMT_FLOAT => SampleFormat::F32,
        VIRTIO_SND_PCM_FMT_FLOAT64 => SampleFormat::F64,
        _ => SampleFormat::Unknown,
    }
}

/// Frames per second for a rate number of the driver; 44100 for a number without a rate.
pub open spec fn spec_frame_rate(rate: u8) -> u32 {
    match rate {
        VIRTIO_SND_PCM_RATE_5512 => 5512,
        VIRTIO_SND_PCM_RATE_8000 => 8000,
        VIRTIO_SND_PCM_RATE_11025 => 11025,
        VIRTIO_SND_PCM_RATE_16000 => 16000,
        VIRTIO_SND_PCM_RATE_22050 => 22050,
        VIRTIO_SND_PCM_RATE_32000 => 32000,
        VIRTIO_SND_PCM_RATE_44100 => 44100,
        VIRTIO_SND_PCM_RATE_48000 => 48000,
        VIRTIO_SND_PCM_RATE_64000 => 64000,
        VIRTIO_SND_PCM_RATE_88200 => 88200,
        VIRTIO_SND_PCM_RATE_96000 => 96000,
        VIRTIO_SND_PCM_RATE_176400 => 176400,
        VIRTIO_SND_PCM_RATE_192000 => 192000,
        VIRTIO_SND_PCM_RATE_384000 => 384000,
        _ => 44100,
    }
}

/// Gives the frames per second for a rate number of the driver.
pub fn frame_rate(rate: u8) -> (res: u32)
    ensures
        res == spec_frame_rate(rate),
{
    match rate {
        VIRTIO_SND_PCM_RATE_5512 => 5512,
        VIRTIO_SND_PCM_RATE_8000 => 8000,
        VIRTIO_SND_PCM_RATE_11025 => 11025,
        VIRTIO_SND_PCM_RATE_16000 => 16000,
        VIRTIO_SND_PCM_RATE_22050 => 22050,
        VIRTIO_SND_PCM_RATE_32000 => 32000,
        VIRTIO_SND_PCM_RATE_44100 => 44100,
        VIRTIO_SND_PCM_RATE_48000 => 48000,
        VIRTIO_SND_PCM_RATE_64000 => 64000,
        VIRTIO_SND_PCM_RATE_88200 => 88200,
        VIRTIO_SND_PCM_RATE_96000 => 96000,
        VIRTIO_SND_PCM_RATE_176400 => 176400,
        VIRTIO_SND_PCM_RATE_192000 => 192000,
        VIRTIO_SND_PCM_RATE_384000 => 384000,
        _ => 44100,
    }
}

/// Where the sound of a channel comes from.
#[derive(Clone, Copy, Debug, PartialEq, Eq, Structural)]
pub enum Channel {
    /// Nowhere in particular.
    Unknown,
    /// The only speaker.
    Mono,
    /// Front left.
    FrontLeft,
    /// Front right.
    FrontRight,
    /// Front center.
    FrontCenter,
    /// The low frequency effects.
    LowFrequency,
    /// Rear left.
    RearLeft,
    /// Rear right.
    RearRight,
    /// Rear center.
    RearCenter,
}

/// Number of channel positions that the server takes.
pub const MAX_CHANNELS: usize = 64;

/// The positions of the channels of a stream with `channels` of them; `None` where the backend
/// does not support so many.
pub open spec fn layout(channels: u8) -> Option<Seq<Channel>> {
    match channels {
        1 => Some(seq![Channel::Mono]),
        2 => Some(seq![Channel::FrontLeft, Channel::FrontRight]),
        3 => Some(seq![Channel::FrontLeft, Channel::FrontRight, Channel::LowFrequency]),
        4 => Some(
            seq![
                Channel::FrontLeft,
                Channel::FrontRight,
                Channel::FrontCenter,
                Channel::RearCenter,
            ],
        ),
        5 => Some(
            seq![
                Channel::FrontLeft,
                Channel::FrontRight,
                Channel::FrontCenter,
                Channel::LowFrequency,
                Channel::RearCenter,
            ],
        ),
        6 => Some(
            seq![
                Channel::FrontLeft,
                Channel::FrontRight,
                Channel::FrontCenter,
                Channel::LowFrequency,
                Channel::RearLeft,
                Channel::RearRight,
            ],
        ),
        _ => None,
    }
}

/// The positions filled up to the number that the server takes.
pub open spec fn padded(positions: Seq<Channel>) -> Seq<Channel> {
    Seq::new(
        MAX_CHANNELS as nat,
        |i: int|
            if i < positions.len() {
                positions[i]
            } else {
                Channel::Unknown
            },
    )
}

/// Gives the positions of `channels` channels, filled up to the number that the server takes.
pub fn channel_positions(channels: u8) -> (res: Option<[Channel; MAX_CHANNELS]>)
    ensures
        match res {
            Some(pos) => layout(channels) is Some && pos@ == padded(layout(channels)->0),
            None => layout(channels) is None,
        },
{
    let mut pos: [Channel; MAX_CHANNELS] = [Channel::Unknown; 64];
    match channels {
        6 => {
            pos[0] = Channel::FrontLeft;
            pos[1] = Channel::FrontRight;
            pos[2] = Channel::FrontCenter;
            pos[3] = Channel::LowFrequency;
            pos[4] = Channel::RearLeft;
            pos[5] = Channel::RearRight;
        },
        5 => {
            pos[0] = Channel::FrontLeft;
            pos[1] = Channel::FrontRight;
            pos[2] = Channel::FrontCenter;
            pos[3] = Channel::LowFrequency;
            pos[4] = Channel::RearCenter;
        },
        4 => {
            pos[0] = Channel::FrontLeft;
            pos[1] = Channel::FrontRight;
            pos[2] = Channel::FrontCenter;
            pos[3] = Channel::RearCenter;
        },
        3 => {
            pos[0] = Channel::FrontLeft;
            pos[1] = Channel::FrontRight;
            pos[2] = Channel::LowFrequency;
        },
        2 => {
            pos[0] = Channel::FrontLeft;
            pos[1] = Channel::FrontRight;
        },
        1 => {
            pos[0] = Channel::Mono;
        },
        _ => {
            return None;
        },
    }
    assert(pos@ == padded(layout(channels)->0));
    Some(pos)
}

/// A stream as it is described to the audio server.
#[derive(Clone, Copy, Debug, PartialEq, Eq)]
pub struct AudioInfo {
    /// Format of the samples.
    pub format: SampleFormat,
    /// Frames per second.
    pub rate: u32,
    /// Flags.
    pub flags: u32,
    /// Number of channels.
    pub channels: u32,
    /// Positions of the channels.
    pub position: [Channel; MAX_CHANNELS],
}

/// The contents of an [`AudioInfo`].
#[verifier::ext_equal]
pub struct AudioInfoView {
    pub format: SampleFormat,
    pub rate: u32,
    pub flags: u32,
    pub channels: u32,
    pub position: Seq<Channel>,
}

impl View for AudioInfo {
    type V = AudioInfoView;

    open spec fn view(&self) -> AudioInfoView {
        AudioInfoView {
            format: self.format,
            rate: self.rate,
            flags: self.flags,
            channels: self.channels,
            position: self.position@,
        }
    }
}

/// The description of a stream with the given parameters; `None` where the backend does not
/// support so many channels.
pub open spec fn described(params: PcmParams) -> Option<AudioInfoView> {
    match layout(params.channels) {
        Some(positions) => Some(
            AudioInfoView {
                format: spec_sample_format(params.format),
                rate: spec_frame_rate(params.rate),
                flags: 0,
                channels: params.channels as u32,
                position: padded(positions),
            },
        ),
        None => None,
    }
}

/// Describes a stream with the given parameters.
pub fn describe(params: &PcmParams) -> (res: Option<AudioInfo>)
    ensures
        match res {
            Some(info) => described(*params) == Some(info@),
            None => described(*params) is None,
        },
{
    match channel_positions(params.channels) {
        Some(position) => Some(
            AudioInfo {
                format: sample_format(params.format),
                rate: frame_rate(params.rate),
                flags: 0,
                channels: params.channels as u32,
                position,
            },
        ),
        None => None,
    }
}

/// The direction of a stream at the audio server.
#[derive(Clone, Copy, Debug, PartialEq, Eq, Structural)]
pub enum Direction {
    /// The stream plays.
    Output,
    /// The stream records.
    Input,
}

/// The direction that a direction number stands for.
pub open spec fn spec_direction(direction: u8) -> Direction {
    if direction == VIRTIO_SND_D_OUTPUT {
        Direction::Output
    } else {
        Direction::Input
    }
}

/// A stream as it is connected to the audio server.
#[derive(Clone, Copy, Debug, PartialEq, Eq, Structural)]
pub struct Connection {
    /// Format of the samples that the server is offered.
    pub format: SampleFormat,
    /// Frames per second.
    pub rate: u32,
    /// Number of channels.
    pub channels: u32,
    /// The direction.
    pub direction: Direction,
    /// Whether the stream waits to be started.
    pub inactive: bool,
    /// Whether the server picks what the stream is connected to.
    pub autoconnect: bool,
    /// Whether sound data is asked for from the thread that plays it.
    pub realtime: bool,
    /// Whether the buffers for sound data are mapped.
    pub map_buffers: bool,
}

/// How a stream with this description is connected: with the rate and the channels of its
/// description, but always with signed samples of 16 bits; and it waits to be started.
pub open spec fn spec_connection(info: AudioInfoView, direction: u8) -> Connection {
    Connection {
        format: SampleFormat::S16Le,
        rate: info.rate,
        channels: info.channels,
        direction: spec_direction(direction),
        inactive: true,
        autoconnect: true,
        realtime: true,
        map_buffers: true,
    }
}

/// Says how a stream with this description is connected.
pub fn connection(info: &AudioInfo, direction: u8) -> (res: Connection)
    requires
        direction == VIRTIO_SND_D_OUTPUT || direction == VIRTIO_SND_D_INPUT,
    ensures
        res == spec_connection(info@, direction),
{
    Connection {
        format: SampleFormat::S16Le,
        rate: info.rate,
        channels: info.channels,
        direction: match direction {
            VIRTIO_SND_D_OUTPUT => Direction::Output,
            _ => Direction::Input,
        },
        inactive: true,
        autoconnect: true,
        realtime: true,
        map_buffers: true,
    }
}

/// A stream can be described exactly where it has one to six channels, and then every channel
/// has a position and no other position is taken.
pub proof fn law_every_channel_has_a_position(params: PcmParams)
    ensures
        described(params) is Some <==> 1 <= params.channels <= 6,
        described(params) matches Some(info) ==> forall|i: int|
            #![trigger info.position[i]]
            0 <= i < MAX_CHANNELS ==> (info.position[i] is Unknown <==> i >= params.channels),
{
}

} // verus!
