//! Where each field of a message lies, and what a number in it is worth.
use crate::message::{kind_of, ControlMessageKind};
use crate::stream::has_bit;
use crate::virtio_sound::{
    u32_le, VirtioSndPcmSetParams, VirtioSoundConfig, VirtioSoundHeader, VirtioSoundPcmHeader,
    VirtioSoundPcmInfo, VirtioSoundPcmStatus, VirtioSoundPcmXfer, VirtioSoundQueryInfo,
};
use vstd::prelude::*;

verus! {

/// The number in the four bytes from `at` on, the least significant one first.
pub open spec fn word(b: Seq<u8>, at: int) -> int {
    b[at] + 256 * b[at + 1] + 65536 * b[at + 2] + 16777216 * b[at + 3]
}

/// A number that four bytes hold fits in 32 bits.
pub proof fn lemma_word_bound(b: Seq<u8>, at: int)
    ensures
        0 <= word(b, at) <= u32::MAX,
{
}

/// The requests of the driver lie in memory as words in a row, and the parameters of a stream end
/// with four single bytes.
pub proof fn law_requests_are_read_by_position(b: Seq<u8>)
    ensures
        VirtioSoundHeader::parse(b).code == word(b, 0),
        VirtioSoundPcmXfer::parse(b).stream_id == word(b, 0),
        ({
            let query = VirtioSoundQueryInfo::parse(b);
            &&& query.hdr.code == word(b, 0)
            &&& query.start_id == word(b, 4)
            &&& query.count == word(b, 8)
            &&& query.size == word(b, 12)
        }),
        ({
            let request = VirtioSoundPcmHeader::parse(b);
            &&& request.hdr.code == word(b, 0)
            &&& request.stream_id == word(b, 4)
        }),
        ({
            let request = VirtioSndPcmSetParams::parse(b);
            &&& request.hdr.hdr.code == word(b, 0)
            &&& request.hdr.stream_id == word(b, 4)
            &&& request.buffer_bytes == word(b, 8)
            &&& request.period_bytes == word(b, 12)
            &&& request.features == word(b, 16)
            &&& request.channels == b[20]
            &&& request.format == b[21]
            &&& request.rate == b[22]
            &&& request.padding == b[23]
        }),
{
}

/// The answers of the device lie in memory as words in a row.
pub proof fn law_answers_are_written_by_position(
    header: VirtioSoundHeader,
    status: VirtioSoundPcmStatus,
    config: VirtioSoundConfig,
)
    ensures
        header.bytes().len() == 4,
        word(header.bytes(), 0) == header.code,
        status.bytes().len() == 8,
        word(status.bytes(), 0) == status.status,
        word(status.bytes(), 4) == status.latency_bytes,
        config.bytes().len() == 12,
        word(config.bytes(), 0) == config.jacks,
        word(config.bytes(), 4) == config.streams,
        word(config.bytes(), 8) == config.chmaps,
{
    lemma_four_bytes(header.code);
    lemma_four_bytes(status.status);
    lemma_four_bytes(status.latency_bytes);
    lemma_four_bytes(config.jacks);
    lemma_four_bytes(config.streams);
    lemma_four_bytes(config.chmaps);
}

/// The four bytes of a number are worth the number.
proof fn lemma_four_bytes(x: u32)
    ensures
        u32_le(x).len() == 4,
        word(u32_le(x), 0) == x,
{
    assert(x / 0x100 / 0x100 == x / 0x1_0000);
    assert(x / 0x1_0000 / 0x100 == x / 0x100_0000);
}

/// The description of a stream lies in 32 bytes: two words, two double words, three single bytes
/// and nothing in the rest.
pub proof fn law_descriptions_are_written_by_position(info: VirtioSoundPcmInfo)
    ensures
        ({
            let b = info.bytes();
            &&& b.len() == 32
            &&& word(b, 0) == info.hda_fn_nid
            &&& word(b, 4) == info.features
            &&& word(b, 8) + 4294967296 * word(b, 12) == info.formats
            &&& word(b, 16) + 4294967296 * word(b, 20) == info.rates
            &&& b[24] == info.direction
            &&& b[25] == info.channels_min
            &&& b[26] == info.channels_max
            &&& forall|i: int| 27 <= i < 32 ==> #[trigger] b[i] == 0
        }),
{
    let b = info.bytes();
    let tail = seq![info.direction, info.channels_min, info.channels_max, 0u8, 0, 0, 0, 0];
    let nid = u32_le(info.hda_fn_nid);
    let features = u32_le(info.features);
    let low_formats = u32_le((info.formats % 0x1_0000_0000) as u32);
    let high_formats = u32_le((info.formats / 0x1_0000_0000) as u32);
    let low_rates = u32_le((info.rates % 0x1_0000_0000) as u32);
    let high_rates = u32_le((info.rates / 0x1_0000_0000) as u32);
    lemma_four_bytes(info.hda_fn_nid);
    lemma_four_bytes(info.features);
    lemma_four_bytes((info.formats % 0x1_0000_0000) as u32);
    lemma_four_bytes((info.formats / 0x1_0000_0000) as u32);
    lemma_four_bytes((info.rates % 0x1_0000_0000) as u32);
    lemma_four_bytes((info.rates / 0x1_0000_0000) as u32);
    lemma_word_within(b, 0, nid);
    lemma_word_within(b, 4, features);
    lemma_word_within(b, 8, low_formats);
    lemma_word_within(b, 12, high_formats);
    lemma_word_within(b, 16, low_rates);
    lemma_word_within(b, 20, high_rates);
    assert(b.subrange(24, 32) =~= tail);
    assert forall|i: int| 24 <= i < 32 implies b[i] == #[trigger] tail[i - 24] by {
        assert(b.subrange(24, 32)[i - 24] == b[i]);
    }
    assert(b[24] == tail[0] && b[25] == tail[1] && b[26] == tail[2]);
    assert forall|i: int| 27 <= i < 32 implies #[trigger] b[i] == 0 by {
        assert(tail[i - 24] == 0);
    }
}

/// A word is worth the same wherever its four bytes lie.
proof fn lemma_word_within(b: Seq<u8>, at: int, four: Seq<u8>)
    requires
        four.len() == 4,
        0 <= at,
        at + 4 <= b.len(),
        b.subrange(at, at + 4) =~= four,
    ensures
        word(b, at) == word(four, 0),
{
    assert(four[0] == b[at] && four[1] == b[at + 1] && four[2] == b[at + 2] && four[3] == b[at
        + 3]);
}

/// The codes of the requests: those on jacks from 1 on, those on streams from 0x100 on, and that on
/// channel maps 0x200.
pub proof fn law_requests_by_code(code: u32)
    ensures
        match kind_of(code) {
            Ok(kind) => match kind {
                ControlMessageKind::JackInfo => code == 1,
                ControlMessageKind::JackRemap => code == 2,
                ControlMessageKind::PcmInfo => code == 0x100,
                ControlMessageKind::PcmSetParams => code == 0x101,
                ControlMessageKind::PcmPrepare => code == 0x102,
                ControlMessageKind::PcmRelease => code == 0x103,
                ControlMessageKind::PcmStart => code == 0x104,
                ControlMessageKind::PcmStop => code == 0x105,
                ControlMessageKind::ChmapInfo => code == 0x200,
            },
            Err(invalid) => invalid.0 == code,
        },
        kind_of(code) is Ok <==> code == 1 || code == 2 || 0x100 <= code <= 0x105 || code == 0x200,
{
}

/// A set of bits has the bits that were put into it, and no bit past the last one.
pub proof fn law_bits_of_a_set(a: u64, b: u64, k: u8, n: u8)
    ensures
        k < 64 ==> (has_bit(1u64 << k, n) <==> n == k),
        has_bit(a | b, n) <==> has_bit(a, n) || has_bit(b, n),
        !has_bit(0, n),
        n >= 64 ==> !has_bit(a, n),
{
    assert(k < 64 && n < 64 ==> ((1u64 << k) & (1u64 << n) != 0 <==> n == k)) by (bit_vector);
    assert(n < 64 ==> ((a | b) & (1u64 << n) != 0 <==> a & (1u64 << n) != 0 || b & (1u64 << n)
        != 0)) by (bit_vector);
    assert(0u64 & (1u64 << n) == 0) by (bit_vector);
}

} // verus!
