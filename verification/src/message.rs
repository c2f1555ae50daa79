//! Requests that are answered later: control messages and data transfers.
use crate::error::Error;
use crate::guest_memory::{fits, guest, write_slice, written, GuestView};
use crate::queue::QueueView;
use crate::text::{append_decimal, decimal, numbered};
use crate::virtio_sound::{
    VirtioSoundHeader, VirtioSoundPcmStatus, HEADER_SIZE, STATUS_SIZE, VIRTIO_SND_R_CHMAP_INFO,
    VIRTIO_SND_R_JACK_INFO, VIRTIO_SND_R_JACK_REMAP, VIRTIO_SND_R_PCM_INFO,
    VIRTIO_SND_R_PCM_PREPARE, VIRTIO_SND_R_PCM_RELEASE, VIRTIO_SND_R_PCM_SET_PARAMS,
    VIRTIO_SND_R_PCM_START, VIRTIO_SND_R_PCM_STOP,
};
use crate::vring::{Signal, Vring};
use vm_memory::GuestMemoryMmap;
use vstd::prelude::*;

verus! {

/// A code that stands for no request.
#[derive(Clone, Copy, Debug, PartialEq, Eq, Structural)]
pub struct InvalidControlMessage(pub u32);

impl InvalidControlMessage {
    /// The text that the code is reported with.
    pub open spec fn spec_text(self) -> Seq<char> {
        "Invalid control message code "@ + decimal(self.0 as nat)
    }

    /// Gives the text that the code is reported with.
    pub fn text(&self) -> (text: String)
        ensures
            text@ == self.spec_text(),
    {
        numbered("Invalid control message code ", self.0 as u64)
    }
}

/// The requests on the control queue.
#[derive(Clone, Copy, Debug, PartialEq, Eq, Structural)]
pub enum ControlMessageKind {
    /// Describe the jacks.
    JackInfo,
    /// Remap a jack.
    JackRemap,
    /// Describe the streams.
    PcmInfo,
    /// Set the parameters of a stream.
    PcmSetParams,
    /// Prepare a stream.
    PcmPrepare,
    /// Release a stream.
    PcmRelease,
    /// Start a stream.
    PcmStart,
    /// Stop a stream.
    PcmStop,
    /// Describe the channel maps.
    ChmapInfo,
}

impl ControlMessageKind {
    /// The code that stands for the request.
    pub open spec fn spec_code(self) -> u32 {
        match self {
            ControlMessageKind::JackInfo => VIRTIO_SND_R_JACK_INFO,
            ControlMessageKind::JackRemap => VIRTIO_SND_R_JACK_REMAP,
            ControlMessageKind::PcmInfo => VIRTIO_SND_R_PCM_INFO,
            ControlMessageKind::PcmSetParams => VIRTIO_SND_R_PCM_SET_PARAMS,
            ControlMessageKind::PcmPrepare => VIRTIO_SND_R_PCM_PREPARE,
            ControlMessageKind::PcmRelease => VIRTIO_SND_R_PCM_RELEASE,
            ControlMessageKind::PcmStart => VIRTIO_SND_R_PCM_START,
            ControlMessageKind::PcmStop => VIRTIO_SND_R_PCM_STOP,
            ControlMessageKind::ChmapInfo => VIRTIO_SND_R_CHMAP_INFO,
        }
    }

    /// The name of the request.
    pub open spec fn spec_name(self) -> Seq<char> {
        match self {
            ControlMessageKind::JackInfo => "JackInfo"@,
            ControlMessageKind::JackRemap => "JackRemap"@,
            ControlMessageKind::PcmInfo => "PcmInfo"@,
            ControlMessageKind::PcmSetParams => "PcmSetParams"@,
            ControlMessageKind::PcmPrepare => "PcmPrepare"@,
            ControlMessageKind::PcmRelease => "PcmRelease"@,
            ControlMessageKind::PcmStart => "PcmStart"@,
            ControlMessageKind::PcmStop => "PcmStop"@,
            ControlMessageKind::ChmapInfo => "ChmapInfo"@,
        }
    }

    /// Gives the name of the request.
    pub fn name(self) -> (name: &'static str)
        ensures
            name@ == self.spec_name(),
    {
        match self {
            ControlMessageKind::JackInfo => "JackInfo",
            ControlMessageKind::JackRemap => "JackRemap",
            ControlMessageKind::PcmInfo => "PcmInfo",
            ControlMessageKind::PcmSetParams => "PcmSetParams",
            ControlMessageKind::PcmPrepare => "PcmPrepare",
            ControlMessageKind::PcmRelease => "PcmRelease",
            ControlMessageKind::PcmStart => "PcmStart",
            ControlMessageKind::PcmStop => "PcmStop",
            ControlMessageKind::ChmapInfo => "ChmapInfo",
        }
    }

    /// Gives the code that stands for the request.
    #[verifier::when_used_as_spec(spec_code)]
    pub fn code(self) -> (code: u32)
        ensures
            code == self.code(),
    {
        match self {
            ControlMessageKind::JackInfo => VIRTIO_SND_R_JACK_INFO,
            ControlMessageKind::JackRemap => VIRTIO_SND_R_JACK_REMAP,
            ControlMessageKind::PcmInfo => VIRTIO_SND_R_PCM_INFO,
            ControlMessageKind::PcmSetParams => VIRTIO_SND_R_PCM_SET_PARAMS,
            ControlMessageKind::PcmPrepare => VIRTIO_SND_R_PCM_PREPARE,
            ControlMessageKind::PcmRelease => VIRTIO_SND_R_PCM_RELEASE,
            ControlMessageKind::PcmStart => VIRTIO_SND_R_PCM_START,
            ControlMessageKind::PcmStop => VIRTIO_SND_R_PCM_STOP,
            ControlMessageKind::ChmapInfo => VIRTIO_SND_R_CHMAP_INFO,
        }
    }
}

/// The request that a code stands for.
pub open spec fn kind_of(code: u32) -> Result<ControlMessageKind, InvalidControlMessage> {
    if code == VIRTIO_SND_R_JACK_INFO {
        Ok(ControlMessageKind::JackInfo)
    } else if code == VIRTIO_SND_R_JACK_REMAP {
        Ok(ControlMessageKind::JackRemap)
    } else if code == VIRTIO_SND_R_PCM_INFO {
        Ok(ControlMessageKind::PcmInfo)
    } else if code == VIRTIO_SND_R_PCM_SET_PARAMS {
        Ok(ControlMessageKind::PcmSetParams)
    } else if code == VIRTIO_SND_R_PCM_PREPARE {
        Ok(ControlMessageKind::PcmPrepare)
    } else if code == VIRTIO_SND_R_PCM_RELEASE {
        Ok(ControlMessageKind::PcmRelease)
    } else if code == VIRTIO_SND_R_PCM_START {
        Ok(ControlMessageKind::PcmStart)
    } else if code == VIRTIO_SND_R_PCM_STOP {
        Ok(ControlMessageKind::PcmStop)
    } else if code == VIRTIO_SND_R_CHMAP_INFO {
        Ok(ControlMessageKind::ChmapInfo)
    } else {
        Err(InvalidControlMessage(code))
    }
}

impl TryFrom<u32> for ControlMessageKind {
    type Error = InvalidControlMessage;

    fn try_from(val: u32) -> (res: Result<Self, InvalidControlMessage>) {
        match val {
            VIRTIO_SND_R_JACK_INFO => Ok(ControlMessageKind::JackInfo),
            VIRTIO_SND_R_JACK_REMAP => Ok(ControlMessageKind::JackRemap),
            VIRTIO_SND_R_PCM_INFO => Ok(ControlMessageKind::PcmInfo),
            VIRTIO_SND_R_PCM_SET_PARAMS => Ok(ControlMessageKind::PcmSetParams),
            VIRTIO_SND_R_PCM_PREPARE => Ok(ControlMessageKind::PcmPrepare),
            VIRTIO_SND_R_PCM_RELEASE => Ok(ControlMessageKind::PcmRelease),
            VIRTIO_SND_R_PCM_START => Ok(ControlMessageKind::PcmStart),
            VIRTIO_SND_R_PCM_STOP => Ok(ControlMessageKind::PcmStop),
            VIRTIO_SND_R_CHMAP_INFO => Ok(ControlMessageKind::ChmapInfo),
            other => Err(InvalidControlMessage(other)),
        }
    }
}

impl vstd::std_specs::convert::TryFromSpecImpl<u32> for ControlMessageKind {
    open spec fn obeys_try_from_spec() -> bool {
        true
    }

    open spec fn try_from_spec(val: u32) -> Result<Self, InvalidControlMessage> {
        kind_of(val)
    }
}

/// Every request has one code, and no other code stands for a request.
pub proof fn law_codes_stand_for_requests(kind: ControlMessageKind, code: u32)
    ensures
        kind_of(kind.code()) == Ok::<ControlMessageKind, InvalidControlMessage>(kind),
        kind_of(code) matches Ok(k) ==> k.code() == code,
        kind_of(code) matches Err(e) ==> e.0 == code && kind.code() != code,
{
}

/// A request on the control queue that the audio backend answers.
#[derive(PartialEq, Eq, Structural)]
pub struct ControlMessage {
    /// The request.
    pub kind: ControlMessageKind,
    /// The status to answer with.
    pub code: u32,
    /// Where the answer goes.
    pub desc_addr: u64,
    /// The index that stands for the chain of the request.
    pub head_index: u16,
}

/// The answer to a request: `bytes` at `addr`, and then the chain `index` is given back.
pub open spec fn answered(
    before: (GuestView, QueueView),
    addr: u64,
    bytes: Seq<u8>,
    index: u16,
) -> (GuestView, QueueView) {
    let (mem, queue) = before;
    (
        GuestView { writes: written(mem.writes, mem.mapped, addr, bytes), ..mem },
        if fits(mem.mapped, addr, bytes.len()) {
            QueueView { used: queue.used.push((index, bytes.len() as u32)), ..queue }
        } else {
            queue
        },
    )
}

/// Writes an answer, gives the chain back and makes the interrupt. Where the answer cannot be
/// written the chain is not given back.
fn answer(mem: &mut GuestMemoryMmap, vring: &mut Vring, addr: u64, bytes: &Vec<u8>, index: u16) -> (res:
    Result<Signal, Error>)
    requires
        bytes@.len() <= u32::MAX,
    ensures
        (guest(*final(mem)), final(vring).queue@) == answered(
            (guest(*old(mem)), old(vring).queue@),
            addr,
            bytes@,
            index,
        ),
        final(vring).intc == old(vring).intc,
        final(vring).irq_line == old(vring).irq_line,
        res == if fits(guest(*old(mem)).mapped, addr, bytes@.len()) {
            Ok::<Signal, Error>(old(vring).signal())
        } else {
            Err(Error::DescriptorWriteFailed)
        },
{
    match write_slice(mem, addr, bytes.as_slice()) {
        Ok(_) => {
            vring.queue.add_used(index, bytes.len() as u32);
            Ok(vring.signal_used_queue())
        },
        Err(_) => Err(Error::DescriptorWriteFailed),
    }
}

impl ControlMessage {
    /// The answer: a header with the status.
    pub open spec fn reply(self) -> Seq<u8> {
        VirtioSoundHeader { code: self.code }.bytes()
    }

    /// The text that the request is logged with: what it is and its status.
    pub open spec fn spec_debug_text(self) -> Seq<char> {
        "ControlMessage { kind: "@ + self.kind.spec_name() + ", code: "@ + decimal(
            self.code as nat,
        ) + " }"@
    }

    /// Gives the text that the request is logged with.
    pub fn debug_text(&self) -> (text: String)
        ensures
            text@ == self.spec_debug_text(),
    {
        let mut text = String::new();
        text.append("ControlMessage { kind: ");
        text.append(self.kind.name());
        text.append(", code: ");
        append_decimal(&mut text, self.code as u64);
        text.append(" }");
        assert(text@ =~= self.spec_debug_text());
        text
    }

    /// Answers the request with its status. This ends it, so it is answered once.
    pub fn complete(self, mem: &mut GuestMemoryMmap, vring: &mut Vring) -> (res: Result<
        Signal,
        Error,
    >)
        ensures
            (guest(*final(mem)), final(vring).queue@) == answered(
                (guest(*old(mem)), old(vring).queue@),
                self.desc_addr,
                self.reply(),
                self.head_index,
            ),
            final(vring).intc == old(vring).intc,
            final(vring).irq_line == old(vring).irq_line,
            res == if fits(guest(*old(mem)).mapped, self.desc_addr, HEADER_SIZE as nat) {
                Ok::<Signal, Error>(old(vring).signal())
            } else {
                Err(Error::DescriptorWriteFailed)
            },
    {
        let reply = VirtioSoundHeader { code: self.code }.to_vec();
        answer(mem, vring, self.desc_addr, &reply, self.head_index)
    }
}

/// A piece of a data transfer.
#[derive(Debug, PartialEq, Eq, Structural)]
pub struct IOMessage {
    /// The status to answer with.
    pub status: u32,
    /// Where the answer goes.
    pub desc_addr: u64,
    /// The index that stands for the chain of the transfer.
    pub head_index: u16,
    /// Where the data begins.
    pub data_addr: u64,
    /// How long the data is.
    pub data_len: u32,
    /// Whether the end of this piece is to be answered.
    pub notify: bool,
}

impl IOMessage {
    /// The answer: the status, with no latency.
    pub open spec fn reply(self) -> Seq<u8> {
        VirtioSoundPcmStatus { status: self.status, latency_bytes: 0 }.bytes()
    }

    /// Memory and queue after the end of the piece.
    pub open spec fn ended(self, before: (GuestView, QueueView)) -> (GuestView, QueueView) {
        if self.notify {
            answered(before, self.desc_addr, self.reply(), self.head_index)
        } else {
            before
        }
    }

    /// Ends the piece and answers the transfer where that is asked for.
    pub fn complete(self, mem: &mut GuestMemoryMmap, vring: &mut Vring) -> (res: Result<
        Option<Signal>,
        Error,
    >)
        ensures
            (guest(*final(mem)), final(vring).queue@) == self.ended(
                (guest(*old(mem)), old(vring).queue@),
            ),
            final(vring).intc == old(vring).intc,
            final(vring).irq_line == old(vring).irq_line,
            res == if !self.notify {
                Ok::<Option<Signal>, Error>(None)
            } else if fits(guest(*old(mem)).mapped, self.desc_addr, STATUS_SIZE as nat) {
                Ok(Some(old(vring).signal()))
            } else {
                Err(Error::DescriptorWriteFailed)
            },
    {
        if self.notify {
            let reply = VirtioSoundPcmStatus { status: self.status, latency_bytes: 0 }.to_vec();
            match answer(mem, vring, self.desc_addr, &reply, self.head_index) {
                Ok(signal) => Ok(Some(signal)),
                Err(error) => Err(error),
            }
        } else {
            Ok(None)
        }
    }
}

} // verus!
