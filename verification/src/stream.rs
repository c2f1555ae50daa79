//! PCM streams: their parameters, their life cycle and the buffers that wait on them.
use crate::defs::{SUPPORTED_FORMATS, SUPPORTED_RATES};
use crate::message::IOMessage;
use crate::text::{decimal, numbered};
use crate::virtio_sound::{VIRTIO_SND_D_OUTPUT, VIRTIO_SND_PCM_FMT_S16, VIRTIO_SND_PCM_RATE_44100};
use std::collections::VecDeque;
use vstd::prelude::*;

verus! {

/// What can go wrong with a stream.
#[derive(Clone, Copy, Debug, PartialEq, Eq, Structural)]
pub enum Error {
    /// The driver asked for a command that may not follow the one before it.
    InvalidStateTransition(PCMState, PCMState),
    /// The driver named a stream that does not exist.
    InvalidStreamId(u32),
}

impl Error {
    /// The text that the error is reported with.
    pub open spec fn spec_text(self) -> Seq<char> {
        match self {
            Error::InvalidStateTransition(from, to) => "Invalid state transition from "@
                + from.spec_name() + " to "@ + to.spec_name(),
            Error::InvalidStreamId(id) => "Invalid stream id "@ + decimal(id as nat),
        }
    }

    /// Gives the text that the error is reported with.
    pub fn text(&self) -> (text: String)
        ensures
            text@ == self.spec_text(),
    {
        match *self {
            Error::InvalidStateTransition(from, to) => {
                let mut text = String::new();
                text.append("Invalid state transition from ");
                text.append(from.name());
                text.append(" to ");
                text.append(to.name());
                assert(text@ =~= self.spec_text());
                text
            },
            Error::InvalidStreamId(id) => numbered("Invalid stream id ", id as u64),
        }
    }
}

/// The last command that a stream took.
///
/// A stream is prepared before it is started, started before it is stopped, and takes new
/// parameters only while it is neither running nor stopped.
#[derive(Clone, Copy, Debug, PartialEq, Eq, Structural)]
pub enum PCMState {
    /// Its parameters were set. A new stream is in this state.
    SetParameters,
    /// It was prepared.
    Prepare,
    /// It was released.
    Release,
    /// It was started.
    Start,
    /// It was stopped.
    Stop,
}

impl PCMState {
    /// May the command `next` follow the command `self`?
    pub open spec fn allows(self, next: PCMState) -> bool {
        match next {
            PCMState::SetParameters | PCMState::Prepare => {
                self is SetParameters || self is Prepare || self is Release
            },
            PCMState::Start | PCMState::Release => self is Prepare || self is Stop,
            PCMState::Stop => self is Start,
        }
    }

    /// The name of the command.
    pub open spec fn spec_name(self) -> Seq<char> {
        match self {
            PCMState::SetParameters => "SetParameters"@,
            PCMState::Prepare => "Prepare"@,
            PCMState::Release => "Release"@,
            PCMState::Start => "Start"@,
            PCMState::Stop => "Stop"@,
        }
    }

    /// Gives the name of the command.
    pub fn name(self) -> (name: &'static str)
        ensures
            name@ == self.spec_name(),
    {
        match self {
            PCMState::SetParameters => "SetParameters",
            PCMState::Prepare => "Prepare",
            PCMState::Release => "Release",
            PCMState::Start => "Start",
            PCMState::Stop => "Stop",
        }
    }

    /// The state of a new stream.
    pub fn new() -> (state: Self)
        ensures
            state is SetParameters,
    {
        PCMState::SetParameters
    }

    /// Takes the command `next`, or refuses it and stays as it is.
    fn advance(&mut self, next: PCMState, allowed: bool) -> (res: Result<(), Error>)
        requires
            allowed == old(self).allows(next),
        ensures
            res == step(*old(self), next),
            *final(self) == after(*old(self), next),
    {
        if !allowed {
            return Err(Error::InvalidStateTransition(*self, next));
        }
        *self = next;
        Ok(())
    }

    /// Takes the command to set parameters.
    pub fn set_parameters(&mut self) -> (res: Result<(), Error>)
        ensures
            res == step(*old(self), PCMState::SetParameters),
            *final(self) == after(*old(self), PCMState::SetParameters),
    {
        let allowed = matches!(*self, PCMState::SetParameters | PCMState::Prepare | PCMState::Release);
        self.advance(PCMState::SetParameters, allowed)
    }

    /// Takes the command to prepare.
    pub fn prepare(&mut self) -> (res: Result<(), Error>)
        ensures
            res == step(*old(self), PCMState::Prepare),
            *final(self) == after(*old(self), PCMState::Prepare),
    {
        let allowed = matches!(*self, PCMState::SetParameters | PCMState::Prepare | PCMState::Release);
        self.advance(PCMState::Prepare, allowed)
    }

    /// Takes the command to start.
    pub fn start(&mut self) -> (res: Result<(), Error>)
        ensures
            res == step(*old(self), PCMState::Start),
            *final(self) == after(*old(self), PCMState::Start),
    {
        let allowed = matches!(*self, PCMState::Prepare | PCMState::Stop);
        self.advance(PCMState::Start, allowed)
    }

    /// Takes the command to stop.
    pub fn stop(&mut self) -> (res: Result<(), Error>)
        ensures
            res == step(*old(self), PCMState::Stop),
            *final(self) == after(*old(self), PCMState::Stop),
    {
        let allowed = matches!(*self, PCMState::Start);
        self.advance(PCMState::Stop, allowed)
    }

    /// Takes the command to release.
    pub fn release(&mut self) -> (res: Result<(), Error>)
        ensures
            res == step(*old(self), PCMState::Release),
            *final(self) == after(*old(self), PCMState::Release),
    {
        let allowed = matches!(*self, PCMState::Prepare | PCMState::Stop);
        self.advance(PCMState::Release, allowed)
    }
}

/// What the command `next` returns in `state`.
pub open spec fn step(state: PCMState, next: PCMState) -> Result<(), Error> {
    if state.allows(next) {
        Ok(())
    } else {
        Err(Error::InvalidStateTransition(state, next))
    }
}

/// The state after the command `next` in `state`: `next` where it is allowed, else unchanged.
pub open spec fn after(state: PCMState, next: PCMState) -> PCMState {
    if state.allows(next) {
        next
    } else {
        state
    }
}

/// The parameters of a stream.
#[derive(Clone, Copy, Debug, PartialEq, Eq, Structural)]
pub struct PcmParams {
    /// Size of the hardware buffer in bytes.
    pub buffer_bytes: u32,
    /// Size of a period in bytes.
    pub period_bytes: u32,
    /// Selected features.
    pub features: u32,
    /// Number of channels.
    pub channels: u8,
    /// Number of the sample format.
    pub format: u8,
    /// Number of the frame rate.
    pub rate: u8,
}

/// The parameters of a stream that the driver has set none of.
pub open spec fn default_params() -> PcmParams {
    PcmParams {
        buffer_bytes: 8192,
        period_bytes: 4096,
        features: 0,
        channels: 1,
        format: VIRTIO_SND_PCM_FMT_S16,
        rate: VIRTIO_SND_PCM_RATE_44100,
    }
}

impl Default for PcmParams {
    fn default() -> (params: Self)
        ensures
            params == default_params(),
    {
        PcmParams {
            buffer_bytes: 8192,
            period_bytes: 4096,
            features: 0,
            channels: 1,
            format: VIRTIO_SND_PCM_FMT_S16,
            rate: VIRTIO_SND_PCM_RATE_44100,
        }
    }
}

/// Sound data on its way to the audio server, with the message to answer once it has been played.
#[derive(Debug)]
pub struct Buffer {
    /// The data as it was when the driver handed it over.
    pub data: Vec<u8>,
    /// How much of it has been played.
    pub pos: usize,
    /// The message to answer.
    pub message: IOMessage,
}

/// The contents of a [`Buffer`].
#[verifier::ext_equal]
pub struct BufferView {
    pub data: Seq<u8>,
    pub pos: usize,
    pub message: IOMessage,
}

impl View for Buffer {
    type V = BufferView;

    open spec fn view(&self) -> BufferView {
        BufferView { data: self.data@, pos: self.pos, message: self.message }
    }
}

impl Buffer {
    /// A buffer of which nothing has been played.
    pub fn new(data: Vec<u8>, message: IOMessage) -> (buffer: Self)
        ensures
            buffer@ == (BufferView { data: data@, pos: 0, message }),
    {
        Buffer { data, pos: 0, message }
    }
}

/// The contents of buffers in a row.
pub open spec fn views(buffers: Seq<Buffer>) -> Seq<BufferView> {
    buffers.map_values(|b: Buffer| b@)
}

/// One PCM stream.
#[derive(Debug)]
pub struct Stream {
    /// Its number.
    pub id: usize,
    /// Its parameters.
    pub params: PcmParams,
    /// The formats it supports, one bit each.
    pub formats: u64,
    /// The rates it supports, one bit each.
    pub rates: u64,
    /// Its direction.
    pub direction: u8,
    /// Least number of channels.
    pub channels_min: u8,
    /// Greatest number of channels.
    pub channels_max: u8,
    /// The last command it took.
    pub state: PCMState,
    /// Buffers that the audio backend has not yet taken over, oldest first.
    pub buffers: VecDeque<Buffer>,
}

/// The contents of a [`Stream`].
#[verifier::ext_equal]
pub struct StreamView {
    pub id: usize,
    pub params: PcmParams,
    pub formats: u64,
    pub rates: u64,
    pub direction: u8,
    pub channels_min: u8,
    pub channels_max: u8,
    pub state: PCMState,
    pub buffers: Seq<BufferView>,
}

impl View for Stream {
    type V = StreamView;

    open spec fn view(&self) -> StreamView {
        StreamView {
            id: self.id,
            params: self.params,
            formats: self.formats,
            rates: self.rates,
            direction: self.direction,
            channels_min: self.channels_min,
            channels_max: self.channels_max,
            state: self.state,
            buffers: views(self.buffers@),
        }
    }
}

/// The contents of streams in a row.
pub open spec fn stream_views(streams: Seq<Stream>) -> Seq<StreamView> {
    streams.map_values(|s: Stream| s@)
}

/// Is bit number `n` set in `bits`? Numbers past the last bit are not.
pub open spec fn has_bit(bits: u64, n: u8) -> bool {
    n < 64 && bits & (1u64 << n) != 0
}

/// A stream with nothing but a number and a direction.
pub open spec fn new_stream(id: usize, direction: u8) -> StreamView {
    StreamView {
        id,
        params: default_params(),
        formats: SUPPORTED_FORMATS,
        rates: SUPPORTED_RATES,
        direction,
        channels_min: 1,
        channels_max: 6,
        state: PCMState::SetParameters,
        buffers: Seq::empty(),
    }
}

impl Default for Stream {
    fn default() -> (stream: Self)
        ensures
            stream@ == new_stream(0, VIRTIO_SND_D_OUTPUT),
    {
        Stream::with_direction(0, VIRTIO_SND_D_OUTPUT)
    }
}

impl Stream {
    /// A stream with the given number and direction, and otherwise like every new stream.
    pub fn with_direction(id: usize, direction: u8) -> (stream: Self)
        ensures
            stream@ == new_stream(id, direction),
    {
        let stream = Stream {
            id,
            params: PcmParams::default(),
            formats: SUPPORTED_FORMATS,
            rates: SUPPORTED_RATES,
            direction,
            channels_min: 1,
            channels_max: 6,
            state: PCMState::new(),
            buffers: VecDeque::new(),
        };
        assert(views(stream.buffers@) == Seq::<BufferView>::empty());
        stream
    }

    /// Does the stream support the format with this number?
    pub fn supports_format(&self, format: u8) -> (res: bool)
        ensures
            res == has_bit(self.formats, format),
    {
        format < 64 && self.formats & (1u64 << format) != 0
    }

    /// Does the stream support the rate with this number?
    pub fn supports_rate(&self, rate: u8) -> (res: bool)
        ensures
            res == has_bit(self.rates, rate),
    {
        rate < 64 && self.rates & (1u64 << rate) != 0
    }
}

} // verus!
