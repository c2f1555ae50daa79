//! The errors of the device.
use crate::message::{kind_of, InvalidControlMessage};
use crate::stream;
use crate::text::{decimal, numbered, numbered_twice};
use vstd::prelude::*;
use vstd::std_specs::convert::FromSpec;

verus! {

/// What can go wrong in the device.
#[derive(Clone, Copy, Debug, PartialEq, Eq, Structural)]
pub enum Error {
    /// A request could not be handed to the audio backend.
    SendNotificationFailed,
    /// Descriptor not found.
    DescriptorNotFound,
    /// The memory that a descriptor points to could not be read.
    DescriptorReadFailed,
    /// The memory that a descriptor points to could not be written.
    DescriptorWriteFailed,
    /// An event other than readiness to read.
    HandleEventNotEpollIn,
    /// An event from an unknown source.
    HandleUnknownEvent,
    /// A control message with a code that stands for no request.
    InvalidControlMessage(u32),
    /// An event file descriptor could not be made: the error number of the system.
    EventFdCreate(i32),
    /// A request without its data buffer.
    SoundReqMissingData,
    /// The audio backend is not supported.
    AudioBackendNotSupported,
    /// A head of the wrong size: the size expected and the size found.
    UnexpectedSoundHeaderSize(usize, u32),
    /// The descriptor with this index may only be written.
    UnexpectedWriteOnlyDescriptor(usize),
    /// The descriptor with this index may only be read.
    UnexpectedReadableDescriptor(usize),
    /// A chain with this many descriptors, which is the wrong number.
    UnexpectedDescriptorCount(usize),
    /// A descriptor of the wrong size: the size expected and the size found.
    UnexpectedDescriptorSize(usize, u32),
    /// An error of a stream.
    Stream(stream::Error),
    /// There is no stream with this number.
    StreamWithIdNotFound(u32),
    /// This number of channels is not supported.
    ChannelNotSupported(u8),
    /// There is no audio backend.
    MissingAudioBackend,
}

impl From<stream::Error> for Error {
    fn from(val: stream::Error) -> (error: Self) {
        Error::Stream(val)
    }
}

impl vstd::std_specs::convert::FromSpecImpl<stream::Error> for Error {
    open spec fn obeys_from_spec() -> bool {
        true
    }

    open spec fn from_spec(val: stream::Error) -> Self {
        Error::Stream(val)
    }
}

impl From<InvalidControlMessage> for Error {
    fn from(val: InvalidControlMessage) -> (error: Self) {
        Error::InvalidControlMessage(val.0)
    }
}

impl vstd::std_specs::convert::FromSpecImpl<InvalidControlMessage> for Error {
    open spec fn obeys_from_spec() -> bool {
        true
    }

    open spec fn from_spec(val: InvalidControlMessage) -> Self {
        Error::InvalidControlMessage(val.0)
    }
}

impl Error {
    /// The text that the error is reported with.
    pub open spec fn spec_text(self) -> Seq<char> {
        match self {
            Error::SendNotificationFailed => "Notification send failed"@,
            Error::DescriptorNotFound => "Descriptor not found"@,
            Error::DescriptorReadFailed => "Descriptor read failed"@,
            Error::DescriptorWriteFailed => "Descriptor write failed"@,
            Error::HandleEventNotEpollIn => "Failed to handle event other than EPOLLIN event"@,
            Error::HandleUnknownEvent => "Failed to handle unknown event"@,
            Error::InvalidControlMessage(code) => "Invalid control message code "@
                + decimal(code as nat),
            Error::EventFdCreate(_) => "Failed to create a new EventFd"@,
            Error::SoundReqMissingData => "Request missing data buffer"@,
            Error::AudioBackendNotSupported => "Audio backend not supported"@,
            Error::UnexpectedSoundHeaderSize(expected, found) => "Invalid virtio_snd_hdr size, expected: "@
                + decimal(expected as nat) + ", found: "@ + decimal(found as nat),
            Error::UnexpectedWriteOnlyDescriptor(index) => "Received unexpected write only descriptor at index "@
                + decimal(index as nat),
            Error::UnexpectedReadableDescriptor(index) => "Received unexpected readable descriptor at index "@
                + decimal(index as nat),
            Error::UnexpectedDescriptorCount(count) => "Invalid descriptor count "@
                + decimal(count as nat),
            Error::UnexpectedDescriptorSize(expected, found) => "Invalid descriptor size, expected: "@
                + decimal(expected as nat) + ", found: "@ + decimal(found as nat),
            Error::Stream(error) => "Protocol or device error: "@ + error.spec_text(),
            Error::StreamWithIdNotFound(id) => "Stream with id "@
                + decimal(id as nat) + " not found"@,
            Error::ChannelNotSupported(channels) => "Channel number not supported: "@
                + decimal(channels as nat),
            Error::MissingAudioBackend => "No audio backend is present"@,
        }
    }

    /// Gives the text that the error is reported with.
    pub fn text(&self) -> (text: String)
        ensures
            text@ == self.spec_text(),
    {
        match *self {
            Error::SendNotificationFailed => "Notification send failed".to_owned(),
            Error::DescriptorNotFound => "Descriptor not found".to_owned(),
            Error::DescriptorReadFailed => "Descriptor read failed".to_owned(),
            Error::DescriptorWriteFailed => "Descriptor write failed".to_owned(),
            Error::HandleEventNotEpollIn => {
                "Failed to handle event other than EPOLLIN event".to_owned()
            },
            Error::HandleUnknownEvent => "Failed to handle unknown event".to_owned(),
            Error::InvalidControlMessage(code) => numbered(
                "Invalid control message code ",
                code as u64,
            ),
            Error::EventFdCreate(_) => "Failed to create a new EventFd".to_owned(),
            Error::SoundReqMissingData => "Request missing data buffer".to_owned(),
            Error::AudioBackendNotSupported => "Audio backend not supported".to_owned(),
            Error::UnexpectedSoundHeaderSize(expected, found) => numbered_twice(
                "Invalid virtio_snd_hdr size, expected: ",
                expected as u64,
                ", found: ",
                found as u64,
            ),
            Error::UnexpectedWriteOnlyDescriptor(index) => numbered(
                "Received unexpected write only descriptor at index ",
                index as u64,
            ),
            Error::UnexpectedReadableDescriptor(index) => numbered(
                "Received unexpected readable descriptor at index ",
                index as u64,
            ),
            Error::UnexpectedDescriptorCount(count) => numbered(
                "Invalid descriptor count ",
                count as u64,
            ),
            Error::UnexpectedDescriptorSize(expected, found) => numbered_twice(
                "Invalid descriptor size, expected: ",
                expected as u64,
                ", found: ",
                found as u64,
            ),
            Error::Stream(error) => {
                let mut text = String::new();
                text.append("Protocol or device error: ");
                text.append(error.text().as_str());
                assert(text@ =~= self.spec_text());
                text
            },
            Error::StreamWithIdNotFound(id) => {
                let mut text = numbered("Stream with id ", id as u64);
                text.append(" not found");
                text
            },
            Error::ChannelNotSupported(channels) => numbered(
                "Channel number not supported: ",
                channels as u64,
            ),
            Error::MissingAudioBackend => "No audio backend is present".to_owned(),
        }
    }
}

/// A code that stands for no request is reported in the same words, whether by itself or as an
/// error of the device: the words with the code in decimal behind them.
pub proof fn law_error_texts_agree(code: u32)
    requires
        kind_of(code) is Err,
    ensures
        ({
            let invalid = kind_of(code)->Err_0;
            let error = <Error as FromSpec<InvalidControlMessage>>::from_spec(invalid);
            &&& error == Error::InvalidControlMessage(code)
            &&& error.spec_text() == invalid.spec_text()
            &&& invalid.spec_text() == "Invalid control message code "@ + decimal(code as nat)
        }),
{
}

} // verus!
