//! The end of transfers and of the release of a stream.
use crate::error::Error;
use crate::guest_memory::{fits, guest};
use crate::message::{ControlMessage, IOMessage};
use crate::queue::QueueView;
use crate::trace::{lemma_stored, stored};
use crate::virtio_sound::{HEADER_SIZE, STATUS_SIZE};
use crate::vring::{Signal, Vring};
use vm_memory::GuestMemoryMmap;
use vstd::prelude::*;

verus! {

/// Is the end of this piece to be answered, and can it be?
pub open spec fn is_answered(message: IOMessage, mapped: Set<u64>) -> bool {
    message.notify && fits(mapped, message.desc_addr, STATUS_SIZE as nat)
}

/// What is written when pieces of transfers end, in order.
pub open spec fn end_writes(ended: Seq<IOMessage>, mapped: Set<u64>) -> Seq<(u64, Seq<u8>)>
    decreases ended.len(),
{
    if ended.len() == 0 {
        Seq::empty()
    } else {
        end_writes(ended.drop_last(), mapped) + if ended.last().notify {
            stored(mapped, ended.last().desc_addr, ended.last().reply())
        } else {
            Seq::empty()
        }
    }
}

/// The chains that are given back when pieces of transfers end, in order.
pub open spec fn end_used(ended: Seq<IOMessage>, mapped: Set<u64>) -> Seq<(u16, u32)>
    decreases ended.len(),
{
    if ended.len() == 0 {
        Seq::empty()
    } else if is_answered(ended.last(), mapped) {
        end_used(ended.drop_last(), mapped).push((ended.last().head_index, STATUS_SIZE as u32))
    } else {
        end_used(ended.drop_last(), mapped)
    }
}

/// The errors when pieces of transfers end: one for each answer that cannot be written.
pub open spec fn end_errors(ended: Seq<IOMessage>, mapped: Set<u64>) -> Seq<Error>
    decreases ended.len(),
{
    if ended.len() == 0 {
        Seq::empty()
    } else if ended.last().notify && !is_answered(ended.last(), mapped) {
        end_errors(ended.drop_last(), mapped).push(Error::DescriptorWriteFailed)
    } else {
        end_errors(ended.drop_last(), mapped)
    }
}

/// As many interrupts as chains are given back.
pub open spec fn end_signals(ended: Seq<IOMessage>, mapped: Set<u64>, signal: Signal) -> Seq<
    Signal,
> {
    Seq::new(end_used(ended, mapped).len(), |i: int| signal)
}

/// What came of the end of transfers.
#[derive(Debug, PartialEq, Eq)]
pub struct Ending {
    /// The interrupts to be raised, in order.
    pub signals: Vec<Signal>,
    /// The errors, in order.
    pub errors: Vec<Error>,
}

/// Ends pieces of transfers, in order, and answers those that are to be answered.
pub fn end_transfers(ended: Vec<IOMessage>, mem: &mut GuestMemoryMmap, vring: &mut Vring) -> (ending:
    Ending)
    ensures
        guest(*final(mem)).mapped == guest(*old(mem)).mapped,
        guest(*final(mem)).reads == guest(*old(mem)).reads,
        guest(*final(mem)).writes == guest(*old(mem)).writes + end_writes(
            ended@,
            guest(*old(mem)).mapped,
        ),
        final(vring).intc == old(vring).intc,
        final(vring).irq_line == old(vring).irq_line,
        final(vring).queue@ == (QueueView {
            used: old(vring).queue@.used + end_used(ended@, guest(*old(mem)).mapped),
            ..old(vring).queue@
        }),
        ending.signals@ == end_signals(ended@, guest(*old(mem)).mapped, old(vring).signal()),
        ending.errors@ == end_errors(ended@, guest(*old(mem)).mapped),
{
    let ghost all = ended@;
    let ghost mapped = guest(*mem).mapped;
    let ghost writes = guest(*mem).writes;
    let ghost queue = vring.queue@;
    let mut signals: Vec<Signal> = Vec::new();
    let mut errors: Vec<Error> = Vec::new();
    proof {
        assert(writes + end_writes(all.take(0), mapped) =~= writes);
        assert(queue.used + end_used(all.take(0), mapped) =~= queue.used);
    }
    for message in iter: ended
        invariant
            iter.seq() == all,
            guest(*mem).mapped == mapped,
            guest(*mem).reads == guest(*old(mem)).reads,
            guest(*mem).writes == writes + end_writes(all.take(iter.index()), mapped),
            vring.intc == old(vring).intc,
            vring.irq_line == old(vring).irq_line,
            vring.queue@ == (QueueView {
                used: queue.used + end_used(all.take(iter.index()), mapped),
                ..queue
            }),
            signals@ == end_signals(all.take(iter.index()), mapped, old(vring).signal()),
            errors@ == end_errors(all.take(iter.index()), mapped),
    {
        let ghost i = iter.index();
        proof {
            assert(all.take(i + 1).drop_last() =~= all.take(i));
            assert(all.take(i + 1).last() == message);
            lemma_stored(guest(*mem).writes, mapped, message.desc_addr, message.reply());
            assert(message.reply().len() == STATUS_SIZE);
        }
        match message.complete(mem, vring) {
            Ok(Some(signal)) => {
                signals.push(signal);
            },
            Ok(None) => {},
            Err(error) => {
                errors.push(error);
            },
        }
        proof {
            assert(guest(*mem).writes =~= writes + end_writes(all.take(i + 1), mapped));
            assert(vring.queue@.used =~= queue.used + end_used(all.take(i + 1), mapped));
            assert(signals@ =~= end_signals(all.take(i + 1), mapped, old(vring).signal()));
        }
    }
    assert(all.take(all.len() as int) =~= all);
    Ending { signals, errors }
}

/// What is written when a stream is released: the answers to the transfers that this ends come
/// first, and the answer to the release comes last.
pub open spec fn release_writes(
    ended: Seq<IOMessage>,
    message: ControlMessage,
    mapped: Set<u64>,
) -> Seq<(u64, Seq<u8>)> {
    end_writes(ended, mapped) + stored(mapped, message.desc_addr, message.reply())
}

/// Is this what comes of the release of a stream: on the queues of the transfers and of the
/// request, which interrupt the driver by the given signals, and in interrupts and errors?
pub open spec fn release_finished(
    message: ControlMessage,
    ended: Seq<IOMessage>,
    mapped: Set<u64>,
    before: (QueueView, QueueView),
    after: (QueueView, QueueView),
    by: (Signal, Signal),
    ending: Ending,
) -> bool {
    let answered = fits(mapped, message.desc_addr, HEADER_SIZE as nat);
    let signals = end_signals(ended, mapped, by.0);
    let errors = end_errors(ended, mapped);
    &&& after.0 == (QueueView { used: before.0.used + end_used(ended, mapped), ..before.0 })
    &&& after.1 == if answered {
        QueueView {
            used: before.1.used.push((message.head_index, HEADER_SIZE as u32)),
            ..before.1
        }
    } else {
        before.1
    }
    &&& ending.signals@ == if answered {
        signals.push(by.1)
    } else {
        signals
    }
    &&& ending.errors@ == if answered {
        errors
    } else {
        errors.push(Error::DescriptorWriteFailed)
    }
}

/// Ends the transfers that the release of a stream ends, in order, and answers the release after
/// them.
pub fn finish_release(
    message: ControlMessage,
    ended: Vec<IOMessage>,
    mem: &mut GuestMemoryMmap,
    vring_txq: &mut Vring,
    vring_ctl: &mut Vring,
) -> (ending: Ending)
    ensures
        guest(*final(mem)).mapped == guest(*old(mem)).mapped,
        guest(*final(mem)).reads == guest(*old(mem)).reads,
        guest(*final(mem)).writes == guest(*old(mem)).writes + release_writes(
            ended@,
            message,
            guest(*old(mem)).mapped,
        ),
        final(vring_txq).intc == old(vring_txq).intc,
        final(vring_txq).irq_line == old(vring_txq).irq_line,
        final(vring_txq).queue@ == (QueueView {
            used: old(vring_txq).queue@.used + end_used(ended@, guest(*old(mem)).mapped),
            ..old(vring_txq).queue@
        }),
        final(vring_ctl).intc == old(vring_ctl).intc,
        final(vring_ctl).irq_line == old(vring_ctl).irq_line,
        release_finished(
            message,
            ended@,
            guest(*old(mem)).mapped,
            (old(vring_txq).queue@, old(vring_ctl).queue@),
            (final(vring_txq).queue@, final(vring_ctl).queue@),
            (old(vring_txq).signal(), old(vring_ctl).signal()),
            ending,
        ),
        ({
            let mapped = guest(*old(mem)).mapped;
            let signals = end_signals(ended@, mapped, old(vring_txq).signal());
            let errors = end_errors(ended@, mapped);
            if fits(mapped, message.desc_addr, HEADER_SIZE as nat) {
                &&& final(vring_ctl).queue@ == (QueueView {
                    used: old(vring_ctl).queue@.used.push(
                        (message.head_index, HEADER_SIZE as u32),
                    ),
                    ..old(vring_ctl).queue@
                })
                &&& ending.signals@ == signals.push(old(vring_ctl).signal())
                &&& ending.errors@ == errors
            } else {
                &&& final(vring_ctl).queue@ == old(vring_ctl).queue@
                &&& ending.signals@ == signals
                &&& ending.errors@ == errors.push(Error::DescriptorWriteFailed)
            }
        }),
{
    let ghost mapped = guest(*mem).mapped;
    let ghost writes = guest(*mem).writes;
    let ghost all = ended@;
    let Ending { signals, errors } = end_transfers(ended, mem, vring_txq);
    let mut signals = signals;
    let mut errors = errors;
    proof {
        lemma_stored(guest(*mem).writes, mapped, message.desc_addr, message.reply());
        assert(message.reply().len() == HEADER_SIZE);
        assert(writes + end_writes(all, mapped) + stored(
            mapped,
            message.desc_addr,
            message.reply(),
        ) =~= writes + release_writes(all, message, mapped));
    }
    match message.complete(mem, vring_ctl) {
        Ok(signal) => {
            signals.push(signal);
        },
        Err(error) => {
            errors.push(error);
        },
    }
    Ending { signals, errors }
}

} // verus!
