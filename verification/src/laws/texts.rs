//! The texts that errors and requests are reported with.
use crate::error::Error;
use crate::message::{ControlMessage, ControlMessageKind, InvalidControlMessage};
use crate::stream::{self, PCMState};
use crate::text::decimal;
use vstd::prelude::*;
use vstd::std_specs::convert::FromSpec;

verus! {

/// A number in decimal begins with a zero only where it is zero, is made of digits, and has one
/// digit more than a tenth of it.
pub proof fn law_decimal_has_no_leading_zero(n: nat)
    ensures
        decimal(n).len() >= 1,
        decimal(n)[0] == '0' ==> n == 0,
        n < 10 ==> decimal(n).len() == 1,
        n >= 10 ==> decimal(n).len() == decimal(n / 10).len() + 1,
        forall|i: int| 0 <= i < decimal(n).len() ==> '0' <= #[trigger] decimal(n)[i] <= '9',
    decreases n,
{
    if n >= 10 {
        law_decimal_has_no_leading_zero(n / 10);
        let front = decimal(n / 10);
        assert forall|i: int| 0 <= i < decimal(n).len() implies '0' <= #[trigger] decimal(n)[i]
            <= '9' by {
            if i < front.len() {
                assert(decimal(n)[i] == front[i]);
            }
        }
        assert(decimal(n)[0] == front[0]);
    }
}

/// The states of a stream go by the names of the commands that lead to them.
pub proof fn law_names_of_states(state: PCMState)
    ensures
        state.spec_name() == match state {
            PCMState::SetParameters => "SetParameters"@,
            PCMState::Prepare => "Prepare"@,
            PCMState::Release => "Release"@,
            PCMState::Start => "Start"@,
            PCMState::Stop => "Stop"@,
        },
{
}

/// A request is logged by its name and its status in decimal.
pub proof fn law_text_of_a_request(request: ControlMessage)
    ensures
        request.spec_debug_text() == "ControlMessage { kind: "@ + match request.kind {
            ControlMessageKind::JackInfo => "JackInfo"@,
            ControlMessageKind::JackRemap => "JackRemap"@,
            ControlMessageKind::PcmInfo => "PcmInfo"@,
            ControlMessageKind::PcmSetParams => "PcmSetParams"@,
            ControlMessageKind::PcmPrepare => "PcmPrepare"@,
            ControlMessageKind::PcmRelease => "PcmRelease"@,
            ControlMessageKind::PcmStart => "PcmStart"@,
            ControlMessageKind::PcmStop => "PcmStop"@,
            ControlMessageKind::ChmapInfo => "ChmapInfo"@,
        } + ", code: "@ + decimal(request.code as nat) + " }"@,
{
}

/// A refused command is reported by the state that the stream was in and the command that it
/// refused, in this order, and so it is as an error of the device, behind a few words.
pub proof fn law_text_of_a_refusal(from: PCMState, to: PCMState)
    ensures
        ({
            let error = stream::Error::InvalidStateTransition(from, to);
            &&& error.spec_text() == "Invalid state transition from "@ + from.spec_name() + " to "@
                + to.spec_name()
            &&& Error::Stream(error).spec_text() == "Protocol or device error: "@
                + error.spec_text()
        }),
{
}

/// An error of a stream, and a code that stands for no request, are the same error in the device.
pub proof fn law_errors_are_taken_over(error: stream::Error, code: u32)
    ensures
        <Error as FromSpec<stream::Error>>::from_spec(error) == Error::Stream(error),
        <Error as FromSpec<InvalidControlMessage>>::from_spec(InvalidControlMessage(code))
            == Error::InvalidControlMessage(code),
{
}

/// An error that comes with numbers is reported with these numbers in decimal: the size that was
/// expected before the one that was found.
pub proof fn law_texts_with_numbers(a: usize, b: u32, c: u8)
    ensures
        Error::InvalidControlMessage(b).spec_text() == "Invalid control message code "@ + decimal(
            b as nat,
        ),
        InvalidControlMessage(b).spec_text() == "Invalid control message code "@ + decimal(
            b as nat,
        ),
        Error::UnexpectedSoundHeaderSize(a, b).spec_text()
            == "Invalid virtio_snd_hdr size, expected: "@ + decimal(a as nat) + ", found: "@
            + decimal(b as nat),
        Error::UnexpectedDescriptorSize(a, b).spec_text() == "Invalid descriptor size, expected: "@
            + decimal(a as nat) + ", found: "@ + decimal(b as nat),
        Error::UnexpectedWriteOnlyDescriptor(a).spec_text()
            == "Received unexpected write only descriptor at index "@ + decimal(a as nat),
        Error::UnexpectedReadableDescriptor(a).spec_text()
            == "Received unexpected readable descriptor at index "@ + decimal(a as nat),
        Error::UnexpectedDescriptorCount(a).spec_text() == "Invalid descriptor count "@ + decimal(
            a as nat,
        ),
        Error::StreamWithIdNotFound(b).spec_text() == "Stream with id "@ + decimal(b as nat)
            + " not found"@,
        Error::ChannelNotSupported(c).spec_text() == "Channel number not supported: "@ + decimal(
            c as nat,
        ),
        stream::Error::InvalidStreamId(b).spec_text() == "Invalid stream id "@ + decimal(b as nat),
{
}

} // verus!
