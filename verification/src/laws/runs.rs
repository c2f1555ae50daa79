//! How what comes of single requests and transfers adds up over a queue.
use crate::control::{self, ControlEnv, ControlTrace};
use crate::device::Snd;
use crate::error::Error;
use crate::guest_memory::guest;
use crate::laws::{
    carrying, law_every_request_is_accounted_for, law_interrupts_match_chains_given_back,
    law_request_is_answered_once, law_transfer_only_adds_buffers, lemma_transfer_so_far,
};
use crate::queue::ChainView;
use crate::stream::{stream_views, StreamView};
use crate::trace::{lemma_plus_assoc, lemma_plus_none, Effects};
use crate::transmit::{self, TransmitEnv, TransmitTrace};
use vstd::prelude::*;

verus! {

/// Effects of each kind come behind those of the same kind, and are found again there.
pub proof fn law_effects_follow_each_other(a: Effects, b: Effects)
    ensures
        a.plus(b).reads == a.reads + b.reads,
        a.plus(b).writes == a.writes + b.writes,
        a.plus(b).sent == a.sent + b.sent,
        a.plus(b).refused == a.refused + b.refused,
        a.plus(b).used == a.used + b.used,
        a.plus(b).since(a) == b,
        Effects::none().reads.len() == 0,
        Effects::none().writes.len() == 0,
        Effects::none().sent.len() == 0,
        Effects::none().refused.len() == 0,
        Effects::none().used.len() == 0,
{
    crate::trace::lemma_plus_since(a, b);
}

/// One request has its own effects and its own error, and the driver is to be interrupted exactly
/// where its chain was given back.
pub proof fn law_one_request(step: ControlTrace)
    ensures
        control::total(seq![step]) == step.effects,
        control::any_used(seq![step]) <==> step.result == Ok::<bool, Error>(true),
        step.result is Ok ==> control::errors(seq![step]).len() == 0,
        step.result matches Err(error) ==> control::errors(seq![step]) == seq![error],
{
    let steps = seq![step];
    assert(steps.drop_last() =~= Seq::<ControlTrace>::empty());
    assert(control::total(steps.drop_last()) == Effects::none());
    assert(control::errors(steps.drop_last()) == Seq::<Error>::empty());
    lemma_plus_none(step.effects);
    assert(steps[0] == step);
    if let Err(error) = step.result {
        assert(control::errors(steps) =~= seq![error]);
    }
}

/// Requests are dealt with one after the other: the effects and the errors of some of them, and
/// those of the rest, put together, are those of all of them.
pub proof fn law_requests_add_up(first: Seq<ControlTrace>, second: Seq<ControlTrace>)
    ensures
        control::total(first + second) == control::total(first).plus(control::total(second)),
        control::errors(first + second) == control::errors(first) + control::errors(second),
        control::any_used(first + second) <==> control::any_used(first) || control::any_used(
            second,
        ),
    decreases second.len(),
{
    let all = first + second;
    if second.len() == 0 {
        assert(all =~= first);
        lemma_plus_none(control::total(first));
        assert(control::errors(first) + control::errors(second) =~= control::errors(first));
    } else {
        assert(all.drop_last() =~= first + second.drop_last());
        law_requests_add_up(first, second.drop_last());
        lemma_plus_assoc(
            control::total(first),
            control::total(second.drop_last()),
            second.last().effects,
        );
        assert(control::errors(all) =~= control::errors(first) + control::errors(second));
    }
    if control::any_used(first) {
        let i = choose|i: int|
            0 <= i < first.len() && (#[trigger] first[i]).result == Ok::<bool, Error>(true);
        assert(all[i].result == Ok::<bool, Error>(true));
    }
    if control::any_used(second) {
        let i = choose|i: int|
            0 <= i < second.len() && (#[trigger] second[i]).result == Ok::<bool, Error>(true);
        assert(all[first.len() + i].result == Ok::<bool, Error>(true));
    }
    if control::any_used(all) {
        let i = choose|i: int|
            0 <= i < all.len() && (#[trigger] all[i]).result == Ok::<bool, Error>(true);
        if i < first.len() {
            assert(first[i].result == Ok::<bool, Error>(true));
        } else {
            assert(second[i - first.len()].result == Ok::<bool, Error>(true));
        }
    }
}

/// Over any number of requests, the driver is to be interrupted exactly where a chain was given
/// back.
pub proof fn law_interrupt_where_a_chain_was_given_back(
    steps: Seq<ControlTrace>,
    env: ControlEnv,
    chains: Seq<ChainView>,
)
    requires
        control::explained(steps, env, chains),
    ensures
        control::any_used(steps) <==> control::total(steps).used.len() > 0,
    decreases steps.len(),
{
    if steps.len() > 0 {
        let n = steps.len() - 1;
        let fewer = steps.drop_last();
        let others = chains.drop_last();
        assert forall|i: int| 0 <= i < fewer.len() implies #[trigger] fewer[i].explains(
            env,
            others[i],
        ) by {
            assert(steps[i].explains(env, chains[i]));
        }
        law_interrupt_where_a_chain_was_given_back(fewer, env, others);
        assert(steps[n].explains(env, chains[n]));
        law_request_is_answered_once(env, chains[n], steps[n]);
        assert(steps =~= fewer + seq![steps[n]]);
        law_requests_add_up(fewer, seq![steps[n]]);
        law_one_request(steps[n]);
    }
}

/// Each request meets the device as the first one did: nothing that a request does changes what
/// the next one meets.
pub proof fn law_requests_are_explained_one_by_one(
    steps: Seq<ControlTrace>,
    env: ControlEnv,
    chains: Seq<ChainView>,
    i: int,
)
    requires
        control::explained(steps, env, chains),
        0 <= i < chains.len(),
    ensures
        steps.len() == chains.len(),
        steps[i].explains(env, chains[i]),
{
}

/// One transfer has its own effects, its own errors, and asks for one interrupt or none.
pub proof fn law_one_transfer(step: TransmitTrace, streams: Seq<StreamView>)
    ensures
        transmit::total(seq![step]) == step.effects,
        transmit::streams_at_end(seq![step], streams) == step.streams,
        transmit::streams_at_end(Seq::empty(), streams) == streams,
        transmit::interrupts(seq![step]) == if step.answer == Ok::<bool, Error>(true) {
            1nat
        } else {
            0nat
        },
        ({
            let errors = transmit::errors(seq![step]);
            match (step.result, step.answer) {
                (Ok(_), Ok(_)) => errors.len() == 0,
                (Err(error), Ok(_)) => errors == seq![error],
                (Ok(_), Err(error)) => errors == seq![error],
                (Err(error), Err(unanswered)) => errors == seq![error, unanswered],
            }
        }),
{
    let steps = seq![step];
    assert(steps.drop_last() =~= Seq::<TransmitTrace>::empty());
    assert(transmit::total(steps.drop_last()) == Effects::none());
    assert(transmit::errors(steps.drop_last()) == Seq::<Error>::empty());
    assert(transmit::interrupts(steps.drop_last()) == 0);
    lemma_plus_none(step.effects);
    match (step.result, step.answer) {
        (Ok(_), Ok(_)) => {},
        (Err(error), Ok(_)) => {
            assert(transmit::errors(steps) =~= seq![error]);
        },
        (Ok(_), Err(error)) => {
            assert(transmit::errors(steps) =~= seq![error]);
        },
        (Err(error), Err(unanswered)) => {
            assert(transmit::errors(steps) =~= seq![error, unanswered]);
        },
    }
}

/// Transfers are dealt with one after the other: the effects, the errors and the interrupts of some
/// of them, and those of the rest, put together, are those of all of them.
pub proof fn law_transfers_add_up(
    first: Seq<TransmitTrace>,
    second: Seq<TransmitTrace>,
    streams: Seq<StreamView>,
)
    ensures
        transmit::total(first + second) == transmit::total(first).plus(transmit::total(second)),
        transmit::errors(first + second) == transmit::errors(first) + transmit::errors(second),
        transmit::interrupts(first + second) == transmit::interrupts(first)
            + transmit::interrupts(second),
        transmit::streams_at_end(first + second, streams) == transmit::streams_at_end(
            second,
            transmit::streams_at_end(first, streams),
        ),
    decreases second.len(),
{
    let all = first + second;
    if second.len() == 0 {
        assert(all =~= first);
        lemma_plus_none(transmit::total(first));
        assert(transmit::errors(first) + transmit::errors(second) =~= transmit::errors(first));
    } else {
        assert(all.drop_last() =~= first + second.drop_last());
        law_transfers_add_up(first, second.drop_last(), streams);
        lemma_plus_assoc(
            transmit::total(first),
            transmit::total(second.drop_last()),
            second.last().effects,
        );
        assert(transmit::errors(all) =~= transmit::errors(first) + transmit::errors(second));
    }
}

/// Each transfer meets the streams as the one before it has left them, and the memory as the first
/// one met it.
pub proof fn law_transfers_are_explained_one_by_one(
    steps: Seq<TransmitTrace>,
    env: TransmitEnv,
    chains: Seq<ChainView>,
    i: int,
)
    requires
        transmit::explained(steps, env, chains),
        0 <= i < chains.len(),
    ensures
        steps.len() == chains.len(),
        steps[i].explains(
            TransmitEnv {
                mapped: env.mapped,
                streams: if i == 0 {
                    env.streams
                } else {
                    steps[i - 1].streams
                },
            },
            chains[i],
        ),
{
    assert(transmit::explained_at(steps, env, chains, i));
}

/// When the control queue has been dealt with it is empty. Without an audio backend every request
/// failed for want of it and none was given back. With one, the driver is to be interrupted exactly
/// where chains were given back, which stand behind those that had been; and every request was
/// given back, is carried on by an action that was passed on, or failed. The rest of the device
/// stays as it is.
pub proof fn law_control_queue_is_emptied(
    before: Snd,
    after: Snd,
    have_used: bool,
    errors: Seq<Error>,
)
    requires
        Snd::requests_processed(before, after, have_used, errors),
    ensures
        ({
            let queue = before.vring_ctl->Some_0.queue@;
            let left = after.vring_ctl->Some_0.queue@;
            let added = left.used.len() - queue.used.len();
            &&& left.pending.len() == 0
            &&& left.max_size == queue.max_size
            &&& added >= 0
            &&& left.used.take(queue.used.len() as int) == queue.used
            &&& have_used <==> added > 0
            &&& added + errors.len() <= queue.pending.len()
            &&& before.audio_backend is Some ==> {
                let passed = before.audio_backend->Some_0.sent();
                let all = after.audio_backend->Some_0.sent();
                &&& all.len() >= passed.len()
                &&& all.take(passed.len() as int) == passed
                &&& added + carrying(all.skip(passed.len() as int)) + errors.len()
                    == queue.pending.len()
            }
            &&& before.audio_backend is None ==> {
                &&& added == 0
                &&& errors.len() == queue.pending.len()
                &&& forall|i: int|
                    0 <= i < errors.len() ==> #[trigger] errors[i] == Error::MissingAudioBackend
            }
            &&& after.streams == before.streams
            &&& after.vring_txq == before.vring_txq
            &&& after.vring_evt == before.vring_evt
            &&& after.vring_rxq == before.vring_rxq
            &&& after.queues == before.queues
            &&& after.streams_no == before.streams_no
            &&& after.avail_features == before.avail_features
            &&& after.acked_features == before.acked_features
            &&& after.intc == before.intc
            &&& after.irq_line == before.irq_line
            &&& after.device_state is Activated
            &&& guest(after.mem()).mapped == guest(before.mem()).mapped
        }),
{
    let queue = before.vring_ctl->Some_0.queue@;
    let left = after.vring_ctl->Some_0.queue@;
    if before.audio_backend is Some {
        let steps = choose|steps: Seq<ControlTrace>|
            {
                &&& #[trigger] control::explained(steps, before.control_env(), queue.pending)
                &&& after.control_effects() == before.control_effects().plus(control::total(steps))
                &&& have_used == control::any_used(steps)
                &&& errors == control::errors(steps)
            };
        law_interrupt_where_a_chain_was_given_back(steps, before.control_env(), queue.pending);
        law_every_request_is_accounted_for(steps, before.control_env(), queue.pending);
        assert(left.used == queue.used + control::total(steps).used);
        let passed = before.audio_backend->Some_0.sent();
        let all = after.audio_backend->Some_0.sent();
        assert(all == passed + control::total(steps).sent);
        assert(all.take(passed.len() as int) =~= passed);
        assert(all.skip(passed.len() as int) =~= control::total(steps).sent);
        assert(left.used.take(queue.used.len() as int) =~= queue.used);
    } else {
        assert(left.used.take(queue.used.len() as int) =~= queue.used);
    }
}

/// Is this the same stream, but that buffers may have been added behind those that wait on it?
pub open spec fn only_gains_buffers(before: StreamView, after: StreamView) -> bool {
    &&& after.id == before.id
    &&& after.params == before.params
    &&& after.formats == before.formats
    &&& after.rates == before.rates
    &&& after.direction == before.direction
    &&& after.channels_min == before.channels_min
    &&& after.channels_max == before.channels_max
    &&& after.state == before.state
    &&& after.buffers.len() >= before.buffers.len()
    &&& forall|j: int|
        0 <= j < before.buffers.len() ==> #[trigger] after.buffers[j] == before.buffers[j]
}

/// Over any number of transfers, no stream changes but that buffers are added to it.
pub proof fn law_transfers_only_add_buffers(
    steps: Seq<TransmitTrace>,
    env: TransmitEnv,
    chains: Seq<ChainView>,
    i: int,
)
    requires
        transmit::explained(steps, env, chains),
        0 <= i < env.streams.len(),
    ensures
        transmit::streams_at_end(steps, env.streams).len() == env.streams.len(),
        only_gains_buffers(env.streams[i], transmit::streams_at_end(steps, env.streams)[i]),
    decreases steps.len(),
{
    if steps.len() > 0 {
        let n = steps.len() - 1;
        let fewer = steps.drop_last();
        assert forall|k: int| 0 <= k < fewer.len() implies #[trigger] transmit::explained_at(
            fewer,
            env,
            chains.drop_last(),
            k,
        ) by {
            assert(fewer.take(k) =~= steps.take(k));
            assert(transmit::explained_at(steps, env, chains, k));
        }
        law_transfers_only_add_buffers(fewer, env, chains.drop_last(), i);
        assert(steps.take(n) =~= fewer);
        assert(transmit::explained_at(steps, env, chains, n));
        let found = TransmitEnv {
            streams: transmit::streams_at_end(fewer, env.streams),
            ..env
        };
        law_transfer_only_adds_buffers(found, chains[n], steps[n], i);
    }
}

/// Transfers neither make streams nor take them away.
proof fn lemma_as_many_streams(steps: Seq<TransmitTrace>, env: TransmitEnv, chains: Seq<ChainView>)
    requires
        transmit::explained(steps, env, chains),
    ensures
        transmit::streams_at_end(steps, env.streams).len() == env.streams.len(),
    decreases steps.len(),
{
    if steps.len() > 0 {
        let n = steps.len() - 1;
        let fewer = steps.drop_last();
        assert forall|k: int| 0 <= k < fewer.len() implies #[trigger] transmit::explained_at(
            fewer,
            env,
            chains.drop_last(),
            k,
        ) by {
            assert(fewer.take(k) =~= steps.take(k));
            assert(transmit::explained_at(steps, env, chains, k));
        }
        lemma_as_many_streams(fewer, env, chains.drop_last());
        assert(steps.take(n) =~= fewer);
        assert(transmit::explained_at(steps, env, chains, n));
        let found = TransmitEnv {
            streams: transmit::streams_at_end(fewer, env.streams),
            ..env
        };
        lemma_transfer_so_far(
            found,
            chains[n],
            chains[n].descriptors.len(),
            steps[n].effects.reads,
        );
    }
}

/// When the transmit queue has been dealt with it is empty. Without an audio backend every transfer
/// failed for want of it and none was given back. With one, there is one interrupt for each chain
/// that was given back, and these stand behind those that had been. The streams only gain
/// buffers, and the rest of the device stays as it is.
pub proof fn law_transmit_queue_is_emptied(
    before: Snd,
    after: Snd,
    errors: Seq<Error>,
    signals: Seq<crate::vring::Signal>,
)
    requires
        Snd::transfers_processed(before, after, errors, signals),
    ensures
        ({
            let queue = before.vring_txq->Some_0.queue@;
            let left = after.vring_txq->Some_0.queue@;
            &&& left.pending.len() == 0
            &&& left.max_size == queue.max_size
            &&& left.used.len() == queue.used.len() + signals.len()
            &&& stream_views(after.streams@).len() == stream_views(before.streams@).len()
            &&& forall|i: int|
                0 <= i < stream_views(before.streams@).len() ==> only_gains_buffers(
                    stream_views(before.streams@)[i],
                    #[trigger] stream_views(after.streams@)[i],
                )
            &&& left.used.take(queue.used.len() as int) == queue.used
            &&& before.audio_backend is None ==> {
                &&& signals.len() == 0
                &&& errors.len() == queue.pending.len()
                &&& forall|i: int|
                    0 <= i < errors.len() ==> #[trigger] errors[i] == Error::MissingAudioBackend
                &&& after.streams == before.streams
            }
            &&& after.vring_ctl == before.vring_ctl
            &&& after.vring_evt == before.vring_evt
            &&& after.vring_rxq == before.vring_rxq
            &&& after.queues == before.queues
            &&& after.streams_no == before.streams_no
            &&& after.avail_features == before.avail_features
            &&& after.acked_features == before.acked_features
            &&& after.intc == before.intc
            &&& after.irq_line == before.irq_line
            &&& after.device_state is Activated
            &&& guest(after.mem()).mapped == guest(before.mem()).mapped
        }),
{
    let queue = before.vring_txq->Some_0.queue@;
    let left = after.vring_txq->Some_0.queue@;
    if before.audio_backend is Some {
        let steps = choose|steps: Seq<TransmitTrace>|
            {
                &&& #[trigger] transmit::explained(steps, before.transmit_env(), queue.pending)
                &&& after.transmit_effects() == before.transmit_effects().plus(
                    transmit::total(steps),
                )
                &&& stream_views(after.streams@) == transmit::streams_at_end(
                    steps,
                    stream_views(before.streams@),
                )
                &&& signals.len() == transmit::interrupts(steps)
            };
        lemma_as_many_streams(steps, before.transmit_env(), queue.pending);
        assert forall|i: int|
            0 <= i < stream_views(before.streams@).len() implies only_gains_buffers(
            stream_views(before.streams@)[i],
            #[trigger] stream_views(after.streams@)[i],
        ) by {
            law_transfers_only_add_buffers(steps, before.transmit_env(), queue.pending, i);
        }
        law_interrupts_match_chains_given_back(steps, before.transmit_env(), queue.pending);
        assert(left.used == queue.used + transmit::total(steps).used);
        assert(left.used.take(queue.used.len() as int) =~= queue.used);
    } else {
        assert(left.used.take(queue.used.len() as int) =~= queue.used);
    }
}

} // verus!
