//! What the numbers of the driver for formats, rates and channels stand for.
use crate::audio_backends::format::{
    described, layout, spec_connection, spec_frame_rate, spec_sample_format, AudioInfoView, Channel,
    SampleFormat,
};
use crate::stream::PcmParams;
use vstd::prelude::*;

verus! {

/// The frames per second that a number stands for.
pub open spec fn rate_by_number(number: u8) -> int {
    let rates = seq![
        5512int,
        8000,
        11025,
        16000,
        22050,
        32000,
        44100,
        48000,
        64000,
        88200,
        96000,
        176400,
        192000,
        384000,
    ];
    if number < 14 {
        rates[number as int]
    } else {
        44100
    }
}

/// The rates are numbered from the lowest to the highest. A number without a rate stands for
/// 44100.
pub proof fn law_rates_by_number(number: u8)
    ensures
        spec_frame_rate(number) == rate_by_number(number),
        number < 13 ==> spec_frame_rate(number) < spec_frame_rate((number + 1) as u8),
{
}

/// The format that a number stands for.
pub open spec fn format_by_number(number: u8) -> SampleFormat {
    let formats = seq![
        SampleFormat::Unknown,
        SampleFormat::Ulaw,
        SampleFormat::Alaw,
        SampleFormat::S8,
        SampleFormat::U8,
        SampleFormat::S16,
        SampleFormat::U16,
        SampleFormat::S18Le,
        SampleFormat::U18Le,
        SampleFormat::S20Le,
        SampleFormat::U20Le,
        SampleFormat::S24Le,
        SampleFormat::U24Le,
        SampleFormat::S20,
        SampleFormat::U20,
        SampleFormat::S24,
        SampleFormat::U24,
        SampleFormat::S32,
        SampleFormat::U32,
        SampleFormat::F32,
        SampleFormat::F64,
    ];
    if number < 21 {
        formats[number as int]
    } else {
        SampleFormat::Unknown
    }
}

/// The formats are numbered in a row. A number without one stands for no known format.
pub proof fn law_formats_by_number(number: u8)
    ensures
        spec_sample_format(number) == format_by_number(number),
{
}

/// The position of a channel where there are `channels` of them.
pub open spec fn position_of(channels: int, i: int) -> Channel {
    if i >= channels {
        Channel::Unknown
    } else if channels == 1 {
        Channel::Mono
    } else if i == 0 {
        Channel::FrontLeft
    } else if i == 1 {
        Channel::FrontRight
    } else if channels == 3 {
        Channel::LowFrequency
    } else if i == 2 {
        Channel::FrontCenter
    } else if channels == 4 {
        Channel::RearCenter
    } else if i == 3 {
        Channel::LowFrequency
    } else if channels == 5 {
        Channel::RearCenter
    } else if i == 4 {
        Channel::RearLeft
    } else {
        Channel::RearRight
    }
}

/// A stream can be described exactly where it has one to six channels. It is then described by
/// what its parameters stand for, and by 64 positions, the first of which are those of its
/// channels.
pub proof fn law_descriptions_by_number(params: PcmParams)
    ensures
        described(params) is Some <==> 1 <= params.channels <= 6,
        described(params) matches Some(info) ==> {
            &&& info.format == format_by_number(params.format)
            &&& info.rate == rate_by_number(params.rate)
            &&& info.channels == params.channels
            &&& info.flags == 0
            &&& info.position.len() == 64
            &&& forall|i: int|
                0 <= i < 64 ==> #[trigger] info.position[i] == position_of(
                    params.channels as int,
                    i,
                )
        },
{
    law_rates_by_number(params.rate);
    law_formats_by_number(params.format);
    assert(layout(params.channels) is Some <==> 1 <= params.channels <= 6);
    if let Some(info) = described(params) {
        assert forall|i: int| 0 <= i < 64 implies #[trigger] info.position[i] == position_of(
            params.channels as int,
            i,
        ) by {
            let positions = layout(params.channels)->0;
            assert(positions.len() == params.channels);
        }
    }
}

/// A stream is connected with the rate and the channels of its description, always with samples of
/// 16 bits, and in its direction, where number zero stands for playing. It waits to be started, and
/// the server picks what it is connected to.
pub proof fn law_connections_by_description(info: AudioInfoView, direction: u8)
    ensures
        ({
            let connection = spec_connection(info, direction);
            &&& connection.format == SampleFormat::S16Le
            &&& connection.rate == info.rate
            &&& connection.channels == info.channels
            &&& connection.direction is Output <==> direction == 0
            &&& connection.inactive && connection.autoconnect && connection.realtime
                && connection.map_buffers
        }),
{
}

} // verus!
