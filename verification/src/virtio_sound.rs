//! The messages that the driver and the device exchange, as they lie in guest memory.
//!
//! Every multi-byte field is little endian and no message has gaps between its fields.
use vstd::prelude::*;

verus! {

/// Request for the jack descriptions.
pub const VIRTIO_SND_R_JACK_INFO: u32 = 1;

/// Request to remap a jack.
pub const VIRTIO_SND_R_JACK_REMAP: u32 = 2;

/// Request for the stream descriptions.
pub const VIRTIO_SND_R_PCM_INFO: u32 = 0x0100;

/// Request to set the parameters of a stream.
pub const VIRTIO_SND_R_PCM_SET_PARAMS: u32 = 0x0101;

/// Request to prepare a stream.
pub const VIRTIO_SND_R_PCM_PREPARE: u32 = 0x0102;

/// Request to release a stream.
pub const VIRTIO_SND_R_PCM_RELEASE: u32 = 0x0103;

/// Request to start a stream.
pub const VIRTIO_SND_R_PCM_START: u32 = 0x0104;

/// Request to stop a stream.
pub const VIRTIO_SND_R_PCM_STOP: u32 = 0x0105;

/// Request for the channel map descriptions.
pub const VIRTIO_SND_R_CHMAP_INFO: u32 = 0x0200;

/// Status of a request that was carried out.
pub const VIRTIO_SND_S_OK: u32 = 0x8000;

/// Status of a malformed request.
pub const VIRTIO_SND_S_BAD_MSG: u32 = 0x8001;

/// Status of a request that the device does not support.
pub const VIRTIO_SND_S_NOT_SUPP: u32 = 0x8002;

/// Status of a request that failed on an I/O error.
pub const VIRTIO_SND_S_IO_ERR: u32 = 0x8003;

/// Direction of a stream that plays sound.
pub const VIRTIO_SND_D_OUTPUT: u8 = 0;

/// Direction of a stream that records sound.
pub const VIRTIO_SND_D_INPUT: u8 = 1;

/// Number of the sample format MU_LAW.
pub const VIRTIO_SND_PCM_FMT_MU_LAW: u8 = 1;

/// Number of the sample format A_LAW.
pub const VIRTIO_SND_PCM_FMT_A_LAW: u8 = 2;

/// Number of the sample format S8.
pub const VIRTIO_SND_PCM_FMT_S8: u8 = 3;

/// Number of the sample format U8.
pub const VIRTIO_SND_PCM_FMT_U8: u8 = 4;

/// Number of the sample format S16.
pub const VIRTIO_SND_PCM_FMT_S16: u8 = 5;

/// Number of the sample format U16.
pub const VIRTIO_SND_PCM_FMT_U16: u8 = 6;

/// Number of the sample format S18_3.
pub const VIRTIO_SND_PCM_FMT_S18_3: u8 = 7;

/// Number of the sample format U18_3.
pub const VIRTIO_SND_PCM_FMT_U18_3: u8 = 8;

/// Number of the sample format S20_3.
pub const VIRTIO_SND_PCM_FMT_S20_3: u8 = 9;

/// Number of the sample format U20_3.
pub const VIRTIO_SND_PCM_FMT_U20_3: u8 = 10;

/// Number of the sample format S24_3.
pub const VIRTIO_SND_PCM_FMT_S24_3: u8 = 11;

/// Number of the sample format U24_3.
pub const VIRTIO_SND_PCM_FMT_U24_3: u8 = 12;

/// Number of the sample format S20.
pub const VIRTIO_SND_PCM_FMT_S20: u8 = 13;

/// Number of the sample format U20.
pub const VIRTIO_SND_PCM_FMT_U20: u8 = 14;

/// Number of the sample format S24.
pub const VIRTIO_SND_PCM_FMT_S24: u8 = 15;

/// Number of the sample format U24.
pub const VIRTIO_SND_PCM_FMT_U24: u8 = 16;

/// Number of the sample format S32.
pub const VIRTIO_SND_PCM_FMT_S32: u8 = 17;

/// Number of the sample format U32.
pub const VIRTIO_SND_PCM_FMT_U32: u8 = 18;

/// Number of the sample format FLOAT.
pub const VIRTIO_SND_PCM_FMT_FLOAT: u8 = 19;

/// Number of the sample format FLOAT64.
pub const VIRTIO_SND_PCM_FMT_FLOAT64: u8 = 20;

/// Number of the frame rate 5512 Hz.
pub const VIRTIO_SND_PCM_RATE_5512: u8 = 0;

/// Number of the frame rate 8000 Hz.
pub const VIRTIO_SND_PCM_RATE_8000: u8 = 1;

/// Number of the frame rate 11025 Hz.
pub const VIRTIO_SND_PCM_RATE_11025: u8 = 2;

/// Number of the frame rate 16000 Hz.
pub const VIRTIO_SND_PCM_RATE_16000: u8 = 3;

/// Number of the frame rate 22050 Hz.
pub const VIRTIO_SND_PCM_RATE_22050: u8 = 4;

/// Number of the frame rate 32000 Hz.
pub const VIRTIO_SND_PCM_RATE_32000: u8 = 5;

/// Number of the frame rate 44100 Hz.
pub const VIRTIO_SND_PCM_RATE_44100: u8 = 6;

/// Number of the frame rate 48000 Hz.
pub const VIRTIO_SND_PCM_RATE_48000: u8 = 7;

/// Number of the frame rate 64000 Hz.
pub const VIRTIO_SND_PCM_RATE_64000: u8 = 8;

/// Number of the frame rate 88200 Hz.
pub const VIRTIO_SND_PCM_RATE_88200: u8 = 9;

/// Number of the frame rate 96000 Hz.
pub const VIRTIO_SND_PCM_RATE_96000: u8 = 10;

/// Number of the frame rate 176400 Hz.
pub const VIRTIO_SND_PCM_RATE_176400: u8 = 11;

/// Number of the frame rate 192000 Hz.
pub const VIRTIO_SND_PCM_RATE_192000: u8 = 12;

/// Number of the frame rate 384000 Hz.
pub const VIRTIO_SND_PCM_RATE_384000: u8 = 13;

/// The 32-bit number in the bytes `b[at..at + 4]`.
pub open spec fn le_u32(b: Seq<u8>, at: int) -> u32 {
    (b[at] + 0x100 * b[at + 1] + 0x1_0000 * b[at + 2] + 0x100_0000 * b[at + 3]) as u32
}

/// The four bytes of a 32-bit number.
pub open spec fn u32_le(x: u32) -> Seq<u8> {
    seq![
        (x % 0x100) as u8,
        (x / 0x100 % 0x100) as u8,
        (x / 0x1_0000 % 0x100) as u8,
        (x / 0x100_0000) as u8,
    ]
}

/// The eight bytes of a 64-bit number.
pub open spec fn u64_le(x: u64) -> Seq<u8> {
    u32_le((x % 0x1_0000_0000) as u32) + u32_le((x / 0x1_0000_0000) as u32)
}

/// Reads the 32-bit number at `at`.
fn get_u32(b: &[u8], at: usize) -> (x: u32)
    requires
        at + 4 <= b@.len(),
    ensures
        x == le_u32(b@, at as int),
{
    b[at] as u32 + 0x100 * (b[at + 1] as u32) + 0x1_0000 * (b[at + 2] as u32) + 0x100_0000 * (
    b[at + 3] as u32)
}

/// Appends a 32-bit number.
fn put_u32(out: &mut Vec<u8>, x: u32)
    ensures
        final(out)@ == old(out)@ + u32_le(x),
{
    out.push((x % 0x100) as u8);
    out.push((x / 0x100 % 0x100) as u8);
    out.push((x / 0x1_0000 % 0x100) as u8);
    out.push((x / 0x100_0000) as u8);
}

/// Appends a 64-bit number.
fn put_u64(out: &mut Vec<u8>, x: u64)
    ensures
        final(out)@ == old(out)@ + u64_le(x),
{
    put_u32(out, (x % 0x1_0000_0000) as u32);
    put_u32(out, (x / 0x1_0000_0000) as u32);
}

/// A number is read back from its four bytes, wherever they stand.
pub proof fn law_u32_round_trip(before: Seq<u8>, x: u32, after: Seq<u8>)
    ensures
        le_u32(before + u32_le(x) + after, before.len() as int) == x,
{
    let b = before + u32_le(x) + after;
    let n = before.len() as int;
    assert(b[n] == u32_le(x)[0]);
    assert(b[n + 1] == u32_le(x)[1]);
    assert(b[n + 2] == u32_le(x)[2]);
    assert(b[n + 3] == u32_le(x)[3]);
    assert(x / 0x100 / 0x100 == x / 0x1_0000);
    assert(x / 0x1_0000 / 0x100 == x / 0x100_0000);
}

/// Head of every control message: a request code, or the status in the reply.
#[derive(Clone, Copy, Debug, PartialEq, Eq, Structural)]
pub struct VirtioSoundHeader {
    /// Request code or status.
    pub code: u32,
}

/// Length of a [`VirtioSoundHeader`] in bytes.
pub const HEADER_SIZE: usize = 4;

impl VirtioSoundHeader {
    /// The header that the bytes hold.
    pub open spec fn parse(b: Seq<u8>) -> Self {
        VirtioSoundHeader { code: le_u32(b, 0) }
    }

    /// The bytes of the header.
    pub open spec fn bytes(self) -> Seq<u8> {
        u32_le(self.code)
    }

    /// Reads a header.
    pub fn from_slice(b: &[u8]) -> (header: Self)
        requires
            b@.len() == HEADER_SIZE,
        ensures
            header == Self::parse(b@),
    {
        VirtioSoundHeader { code: get_u32(b, 0) }
    }

    /// Writes the header out.
    pub fn to_vec(&self) -> (out: Vec<u8>)
        ensures
            out@ == self.bytes(),
            out@.len() == HEADER_SIZE,
    {
        let mut out: Vec<u8> = Vec::new();
        put_u32(&mut out, self.code);
        out
    }
}

/// A header is read back as it was written.
pub proof fn law_header_round_trip(header: VirtioSoundHeader)
    ensures
        VirtioSoundHeader::parse(header.bytes()) == header,
        header.bytes().len() == HEADER_SIZE,
{
    law_u32_round_trip(Seq::empty(), header.code, Seq::empty());
    assert(Seq::<u8>::empty() + u32_le(header.code) + Seq::<u8>::empty() == header.bytes());
}

/// Request for the descriptions of `count` items from `start_id` on.
#[derive(Clone, Copy, Debug, PartialEq, Eq, Structural)]
pub struct VirtioSoundQueryInfo {
    /// Head of the request.
    pub hdr: VirtioSoundHeader,
    /// First item asked for.
    pub start_id: u32,
    /// Number of items asked for.
    pub count: u32,
    /// Length of one description in bytes.
    pub size: u32,
}

/// Length of a [`VirtioSoundQueryInfo`] in bytes.
pub const QUERY_INFO_SIZE: usize = 16;

impl VirtioSoundQueryInfo {
    /// The request that the bytes hold.
    pub open spec fn parse(b: Seq<u8>) -> Self {
        VirtioSoundQueryInfo {
            hdr: VirtioSoundHeader { code: le_u32(b, 0) },
            start_id: le_u32(b, 4),
            count: le_u32(b, 8),
            size: le_u32(b, 12),
        }
    }

    /// Reads a request.
    pub fn from_slice(b: &[u8]) -> (request: Self)
        requires
            b@.len() == QUERY_INFO_SIZE,
        ensures
            request == Self::parse(b@),
    {
        VirtioSoundQueryInfo {
            hdr: VirtioSoundHeader { code: get_u32(b, 0) },
            start_id: get_u32(b, 4),
            count: get_u32(b, 8),
            size: get_u32(b, 12),
        }
    }
}

/// Request on one stream.
#[derive(Clone, Copy, Debug, PartialEq, Eq, Structural)]
pub struct VirtioSoundPcmHeader {
    /// Head of the request.
    pub hdr: VirtioSoundHeader,
    /// The stream it is about.
    pub stream_id: u32,
}

/// Length of a [`VirtioSoundPcmHeader`] in bytes.
pub const PCM_HEADER_SIZE: usize = 8;

impl VirtioSoundPcmHeader {
    /// The request that the bytes hold.
    pub open spec fn parse(b: Seq<u8>) -> Self {
        VirtioSoundPcmHeader {
            hdr: VirtioSoundHeader { code: le_u32(b, 0) },
            stream_id: le_u32(b, 4),
        }
    }

    /// Reads a request.
    pub fn from_slice(b: &[u8]) -> (request: Self)
        requires
            b@.len() == PCM_HEADER_SIZE,
        ensures
            request == Self::parse(b@),
    {
        VirtioSoundPcmHeader {
            hdr: VirtioSoundHeader { code: get_u32(b, 0) },
            stream_id: get_u32(b, 4),
        }
    }
}

/// Request to set the parameters of a stream.
#[derive(Clone, Copy, Debug, PartialEq, Eq, Structural)]
pub struct VirtioSndPcmSetParams {
    /// Head of the request, with the stream it is about.
    pub hdr: VirtioSoundPcmHeader,
    /// Size of the hardware buffer in bytes.
    pub buffer_bytes: u32,
    /// Size of a period in bytes.
    pub period_bytes: u32,
    /// Selected features.
    pub features: u32,
    /// Number of channels.
    pub channels: u8,
    /// Number of the sample format.
    pub format: u8,
    /// Number of the frame rate.
    pub rate: u8,
    /// Unused.
    pub padding: u8,
}

/// Length of a [`VirtioSndPcmSetParams`] in bytes.
pub const SET_PARAMS_SIZE: usize = 24;

impl VirtioSndPcmSetParams {
    /// The request that the bytes hold.
    pub open spec fn parse(b: Seq<u8>) -> Self {
        VirtioSndPcmSetParams {
            hdr: VirtioSoundPcmHeader {
                hdr: VirtioSoundHeader { code: le_u32(b, 0) },
                stream_id: le_u32(b, 4),
            },
            buffer_bytes: le_u32(b, 8),
            period_bytes: le_u32(b, 12),
            features: le_u32(b, 16),
            channels: b[20],
            format: b[21],
            rate: b[22],
            padding: b[23],
        }
    }

    /// Reads a request.
    pub fn from_slice(b: &[u8]) -> (request: Self)
        requires
            b@.len() == SET_PARAMS_SIZE,
        ensures
            request == Self::parse(b@),
    {
        VirtioSndPcmSetParams {
            hdr: VirtioSoundPcmHeader {
                hdr: VirtioSoundHeader { code: get_u32(b, 0) },
                stream_id: get_u32(b, 4),
            },
            buffer_bytes: get_u32(b, 8),
            period_bytes: get_u32(b, 12),
            features: get_u32(b, 16),
            channels: b[20],
            format: b[21],
            rate: b[22],
            padding: b[23],
        }
    }
}

/// Head of a data transfer.
#[derive(Clone, Copy, Debug, PartialEq, Eq, Structural)]
pub struct VirtioSoundPcmXfer {
    /// The stream that the data belongs to.
    pub stream_id: u32,
}

/// Length of a [`VirtioSoundPcmXfer`] in bytes.
pub const XFER_SIZE: usize = 4;

impl VirtioSoundPcmXfer {
    /// The head that the bytes hold.
    pub open spec fn parse(b: Seq<u8>) -> Self {
        VirtioSoundPcmXfer { stream_id: le_u32(b, 0) }
    }

    /// Reads a head.
    pub fn from_slice(b: &[u8]) -> (xfer: Self)
        requires
            b@.len() == XFER_SIZE,
        ensures
            xfer == Self::parse(b@),
    {
        VirtioSoundPcmXfer { stream_id: get_u32(b, 0) }
    }
}

/// Status at the end of a data transfer.
#[derive(Clone, Copy, Debug, PartialEq, Eq, Structural)]
pub struct VirtioSoundPcmStatus {
    /// How the transfer ended.
    pub status: u32,
    /// Latency in bytes.
    pub latency_bytes: u32,
}

/// Length of a [`VirtioSoundPcmStatus`] in bytes.
pub const STATUS_SIZE: usize = 8;

impl VirtioSoundPcmStatus {
    /// The bytes of the status.
    pub open spec fn bytes(self) -> Seq<u8> {
        u32_le(self.status) + u32_le(self.latency_bytes)
    }

    /// Writes the status out.
    pub fn to_vec(&self) -> (out: Vec<u8>)
        ensures
            out@ == self.bytes(),
            out@.len() == STATUS_SIZE,
    {
        let mut out: Vec<u8> = Vec::new();
        put_u32(&mut out, self.status);
        put_u32(&mut out, self.latency_bytes);
        out
    }
}

/// Description of one stream.
#[derive(Clone, Copy, Debug, PartialEq, Eq, Structural)]
pub struct VirtioSoundPcmInfo {
    /// Function group of the stream.
    pub hda_fn_nid: u32,
    /// Features, one bit each.
    pub features: u32,
    /// Sample formats, one bit each.
    pub formats: u64,
    /// Frame rates, one bit each.
    pub rates: u64,
    /// Direction.
    pub direction: u8,
    /// Least number of channels.
    pub channels_min: u8,
    /// Greatest number of channels.
    pub channels_max: u8,
}

/// Length of a [`VirtioSoundPcmInfo`] in bytes, five unused ones at its end counted in.
pub const PCM_INFO_SIZE: usize = 32;

impl VirtioSoundPcmInfo {
    /// The bytes of the description.
    pub open spec fn bytes(self) -> Seq<u8> {
        u32_le(self.hda_fn_nid) + u32_le(self.features) + u64_le(self.formats) + u64_le(self.rates)
            + seq![self.direction, self.channels_min, self.channels_max, 0, 0, 0, 0, 0]
    }

    /// Appends the description to `out`.
    pub fn append_to(&self, out: &mut Vec<u8>)
        ensures
            final(out)@ == old(out)@ + self.bytes(),
            self.bytes().len() == PCM_INFO_SIZE,
    {
        put_u32(out, self.hda_fn_nid);
        put_u32(out, self.features);
        put_u64(out, self.formats);
        put_u64(out, self.rates);
        out.push(self.direction);
        out.push(self.channels_min);
        out.push(self.channels_max);
        out.push(0);
        out.push(0);
        out.push(0);
        out.push(0);
        out.push(0);
        assert(out@ == old(out)@ + self.bytes());
    }
}

/// The configuration space of the device.
#[derive(Clone, Copy, Debug, PartialEq, Eq, Structural)]
pub struct VirtioSoundConfig {
    /// Number of jacks.
    pub jacks: u32,
    /// Number of streams.
    pub streams: u32,
    /// Number of channel maps.
    pub chmaps: u32,
}

/// Length of a [`VirtioSoundConfig`] in bytes.
pub const CONFIG_SIZE: usize = 12;

impl VirtioSoundConfig {
    /// The bytes of the configuration space.
    pub open spec fn bytes(self) -> Seq<u8> {
        u32_le(self.jacks) + u32_le(self.streams) + u32_le(self.chmaps)
    }

    /// Writes the configuration space out.
    pub fn to_vec(&self) -> (out: Vec<u8>)
        ensures
            out@ == self.bytes(),
            out@.len() == CONFIG_SIZE,
    {
        let mut out: Vec<u8> = Vec::new();
        put_u32(&mut out, self.jacks);
        put_u32(&mut out, self.streams);
        put_u32(&mut out, self.chmaps);
        out
    }
}

} // verus!
