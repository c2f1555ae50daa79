//! How requests and transfers are answered when the audio backend is done with them.
use super::wire::{law_answers_are_written_by_position, word};
use crate::completion::{
    end_errors, end_signals, end_used, end_writes, release_finished, release_writes, Ending,
};
use crate::error::Error;
use crate::guest_memory::{all_mapped, law_fits_where_every_byte_is_mapped, GuestView};
use crate::message::{self, ControlMessage, IOMessage};
use crate::queue::QueueView;
use crate::virtio_sound::{VirtioSoundConfig, VirtioSoundHeader, VirtioSoundPcmStatus};
use crate::vring::Signal;
use vstd::prelude::*;

verus! {

/// Is `bytes` a word with this status?
pub open spec fn is_word(bytes: Seq<u8>, status: u32) -> bool {
    bytes.len() == 4 && word(bytes, 0) == status
}

/// Is `bytes` a word with this status, and a word that says that there is no latency?
pub open spec fn is_word_and_zero(bytes: Seq<u8>, status: u32) -> bool {
    bytes.len() == 8 && word(bytes, 0) == status && word(bytes, 4) == 0
}

/// A request is answered with a word, its status. A transfer is answered with its status and with
/// no latency.
pub proof fn law_replies_hold_the_status(request: ControlMessage, transfer: IOMessage)
    ensures
        is_word(request.reply(), request.code),
        is_word_and_zero(transfer.reply(), transfer.status),
{
    law_answers_are_written_by_position(
        VirtioSoundHeader { code: request.code },
        VirtioSoundPcmStatus { status: transfer.status, latency_bytes: 0 },
        VirtioSoundConfig { jacks: 0, streams: 0, chmaps: 0 },
    );
}

/// Was this written at `addr` and nothing else, and was the chain given back with as many bytes?
pub open spec fn replied(
    before: (GuestView, QueueView),
    after: (GuestView, QueueView),
    addr: u64,
    bytes: Seq<u8>,
    index: u16,
) -> bool {
    let writes = before.0.writes;
    let used = before.1.used;
    &&& after.0.mapped == before.0.mapped
    &&& after.0.reads == before.0.reads
    &&& after.1.max_size == before.1.max_size
    &&& after.1.pending == before.1.pending
    &&& after.0.writes.len() == writes.len() + 1
    &&& forall|i: int| 0 <= i < writes.len() ==> #[trigger] after.0.writes[i] == writes[i]
    &&& after.0.writes.last().0 == addr
    &&& after.0.writes.last().1 == bytes
    &&& after.1.used.len() == used.len() + 1
    &&& forall|i: int| 0 <= i < used.len() ==> #[trigger] after.1.used[i] == used[i]
    &&& after.1.used.last().0 == index
    &&& after.1.used.last().1 == bytes.len()
}

/// An answer is written where there is room for it, and the chain is given back with the length
/// of the answer. Where there is none the chain is not given back.
pub proof fn law_answer_gives_the_chain_back(
    before: (GuestView, QueueView),
    addr: u64,
    bytes: Seq<u8>,
    index: u16,
)
    requires
        0 < bytes.len() <= u32::MAX,
    ensures
        ({
            let after = message::answered(before, addr, bytes, index);
            if all_mapped(before.0.mapped, addr as int, bytes.len()) {
                replied(before, after, addr, bytes, index)
            } else {
                after.1 == before.1
            }
        }),
{
    let mapped = before.0.mapped;
    law_fits_where_every_byte_is_mapped(mapped, addr, bytes.len());
    if all_mapped(mapped, addr as int, bytes.len()) {
        assert(mapped.contains(addr));
        assert(bytes.take(bytes.len() as int) =~= bytes);
    }
}

/// The end of a piece of a transfer is answered where that is asked for: eight bytes go where the
/// transfer made room for its status, and its chain is given back. Otherwise nothing happens.
pub proof fn law_end_of_a_piece(piece: IOMessage, before: (GuestView, QueueView))
    ensures
        ({
            let after = piece.ended(before);
            let room = all_mapped(before.0.mapped, piece.desc_addr as int, 8);
            &&& !piece.notify ==> after == before
            &&& piece.notify && !room ==> after.1 == before.1
            &&& piece.notify && room ==> replied(
                before,
                after,
                piece.desc_addr,
                piece.reply(),
                piece.head_index,
            )
        }),
{
    law_replies_hold_the_status(
        ControlMessage {
            kind: message::ControlMessageKind::PcmRelease,
            code: 0,
            desc_addr: 0,
            head_index: 0,
        },
        piece,
    );
    law_answer_gives_the_chain_back(before, piece.desc_addr, piece.reply(), piece.head_index);
}

/// What the end of one piece leads to: where it is to be answered and there is room, one answer of
/// eight bytes, one chain given back and one interrupt; where there is no room, an error; and else
/// nothing.
pub proof fn law_one_end(piece: IOMessage, mapped: Set<u64>, signal: Signal)
    ensures
        ({
            let ended = seq![piece];
            let room = all_mapped(mapped, piece.desc_addr as int, 8);
            let writes = end_writes(ended, mapped);
            let used = end_used(ended, mapped);
            let errors = end_errors(ended, mapped);
            let signals = end_signals(ended, mapped, signal);
            &&& !piece.notify ==> writes.len() == 0 && used.len() == 0 && errors.len() == 0
                && signals.len() == 0
            &&& piece.notify && room ==> {
                &&& writes.len() == 1
                &&& writes[0].0 == piece.desc_addr
                &&& is_word_and_zero(writes[0].1, piece.status)
                &&& used.len() == 1
                &&& used[0].0 == piece.head_index
                &&& used[0].1 == 8
                &&& errors.len() == 0
                &&& signals.len() == 1
                &&& signals[0] == signal
            }
            &&& piece.notify && !room ==> {
                &&& used.len() == 0
                &&& signals.len() == 0
                &&& errors.len() == 1
                &&& errors[0] == Error::DescriptorWriteFailed
            }
        }),
{
    let ended = seq![piece];
    assert(ended.drop_last() =~= Seq::<IOMessage>::empty());
    assert(end_writes(ended.drop_last(), mapped).len() == 0);
    assert(end_used(ended.drop_last(), mapped).len() == 0);
    assert(end_errors(ended.drop_last(), mapped).len() == 0);
    law_replies_hold_the_status(
        ControlMessage {
            kind: message::ControlMessageKind::PcmRelease,
            code: 0,
            desc_addr: 0,
            head_index: 0,
        },
        piece,
    );
    law_fits_where_every_byte_is_mapped(mapped, piece.desc_addr, 8);
    if all_mapped(mapped, piece.desc_addr as int, 8) {
        assert(mapped.contains(piece.desc_addr));
        assert(piece.reply().take(8) =~= piece.reply());
    }
}

/// Pieces end one after the other: what some of them lead to and what the rest leads to, put
/// together, is what all of them lead to.
pub proof fn law_ends_follow_each_other(
    first: Seq<IOMessage>,
    second: Seq<IOMessage>,
    mapped: Set<u64>,
    signal: Signal,
)
    ensures
        end_writes(first + second, mapped) == end_writes(first, mapped) + end_writes(
            second,
            mapped,
        ),
        end_used(first + second, mapped) == end_used(first, mapped) + end_used(second, mapped),
        end_errors(first + second, mapped) == end_errors(first, mapped) + end_errors(
            second,
            mapped,
        ),
        end_signals(first + second, mapped, signal) == end_signals(first, mapped, signal)
            + end_signals(second, mapped, signal),
    decreases second.len(),
{
    let all = first + second;
    if second.len() == 0 {
        assert(all =~= first);
        assert(end_writes(first, mapped) + end_writes(second, mapped) =~= end_writes(
            first,
            mapped,
        ));
        assert(end_used(first, mapped) + end_used(second, mapped) =~= end_used(first, mapped));
        assert(end_errors(first, mapped) + end_errors(second, mapped) =~= end_errors(
            first,
            mapped,
        ));
    } else {
        assert(all.drop_last() =~= first + second.drop_last());
        law_ends_follow_each_other(first, second.drop_last(), mapped, signal);
        assert(end_writes(all, mapped) =~= end_writes(first, mapped) + end_writes(second, mapped));
        assert(end_used(all, mapped) =~= end_used(first, mapped) + end_used(second, mapped));
        assert(end_errors(all, mapped) =~= end_errors(first, mapped) + end_errors(second, mapped));
    }
    assert(end_signals(all, mapped, signal) =~= end_signals(first, mapped, signal) + end_signals(
        second,
        mapped,
        signal,
    ));
}

/// The answer to a release comes after those to the transfers that it ends: a word with its status,
/// where the request made room for it.
pub proof fn law_release_is_answered_last(
    ended: Seq<IOMessage>,
    request: ControlMessage,
    mapped: Set<u64>,
)
    requires
        all_mapped(mapped, request.desc_addr as int, 4),
    ensures
        ({
            let writes = release_writes(ended, request, mapped);
            &&& writes.len() == end_writes(ended, mapped).len() + 1
            &&& writes.drop_last() == end_writes(ended, mapped)
            &&& writes.last().0 == request.desc_addr
            &&& is_word(writes.last().1, request.code)
        }),
{
    law_replies_hold_the_status(
        request,
        IOMessage {
            status: 0,
            desc_addr: 0,
            head_index: 0,
            data_addr: 0,
            data_len: 0,
            notify: false,
        },
    );
    law_fits_where_every_byte_is_mapped(mapped, request.desc_addr, 4);
    assert(mapped.contains(request.desc_addr));
    assert(request.reply().take(4) =~= request.reply());
    assert(release_writes(ended, request, mapped).drop_last() =~= end_writes(ended, mapped));
}

/// When a stream was released, its request is given back with four bytes where there is room for
/// the answer, and the driver is interrupted for it after all transfers; where there is none, an
/// error comes last. For the transfers that end, one interrupt comes for each chain that is given
/// back. Nothing else changes on either queue.
pub proof fn law_finished_release(
    message: ControlMessage,
    ended: Seq<IOMessage>,
    mapped: Set<u64>,
    before: (QueueView, QueueView),
    after: (QueueView, QueueView),
    by: (Signal, Signal),
    ending: Ending,
)
    requires
        release_finished(message, ended, mapped, before, after, by, ending),
    ensures
        ({
            let room = all_mapped(mapped, message.desc_addr as int, 4);
            let given_back = after.0.used.len() - before.0.used.len();
            let signals = ending.signals@;
            let errors = ending.errors@;
            &&& after.0.max_size == before.0.max_size
            &&& after.0.pending == before.0.pending
            &&& after.1.max_size == before.1.max_size
            &&& after.1.pending == before.1.pending
            &&& given_back == end_used(ended, mapped).len()
            &&& after.0.used.take(before.0.used.len() as int) == before.0.used
            &&& forall|i: int| 0 <= i < given_back ==> #[trigger] signals[i] == by.0
            &&& room ==> {
                &&& after.1.used.drop_last() == before.1.used
                &&& after.1.used.len() == before.1.used.len() + 1
                &&& after.1.used.last().0 == message.head_index
                &&& after.1.used.last().1 == 4
                &&& signals.len() == given_back + 1
                &&& signals.last() == by.1
                &&& errors == end_errors(ended, mapped)
            }
            &&& !room ==> {
                &&& after.1.used == before.1.used
                &&& signals.len() == given_back
                &&& errors.len() == end_errors(ended, mapped).len() + 1
                &&& errors.last() == Error::DescriptorWriteFailed
            }
        }),
{
    law_fits_where_every_byte_is_mapped(mapped, message.desc_addr, 4);
    if all_mapped(mapped, message.desc_addr as int, 4) {
        assert(mapped.contains(message.desc_addr));
        assert(after.1.used.drop_last() =~= before.1.used);
    }
    assert(after.0.used.take(before.0.used.len() as int) =~= before.0.used);
}

} // verus!
