//! What a period of sound is made of, byte by byte.
use crate::audio_backends::laws::actions::{ends, named};
use crate::audio_backends::pipewire::PwAction;
use crate::audio_backends::worker::{
    all_fit, carried, drainable, drained, dropped_in_order, fetched, fetches, frame_bytes, fresh,
    handled, messages, period, stream_of, supplied, Drain, PeriodFill, WorkerView,
};
use crate::error::Error;
use crate::guest_memory::{all_mapped, fits, law_fits_where_every_byte_is_mapped};
use crate::message::IOMessage;
use crate::stream::{BufferView, StreamView};
use vstd::prelude::*;

verus! {

/// The bytes of sound data in the first `k` buffers.
pub open spec fn data_before(buffers: Seq<BufferView>, k: int) -> int
    decreases k,
{
    if k <= 0 {
        0
    } else {
        data_before(buffers, k - 1) + buffers[k - 1].message.data_len
    }
}

/// Is this what is taken where `count` bytes are asked for? Buffers are taken from the front, each
/// as a whole where the bytes before it and its own are no more than were asked for, and their
/// transfers end. Of the next buffer as much is taken as is still asked for, and it stays in the
/// queue with that much played. The rest of the queue stays as it is.
pub open spec fn takes_from_the_front(q: Seq<BufferView>, count: int, drain: Drain) -> bool {
    let whole = drain.ended.len() as int;
    let missing = count - data_before(q, whole);
    let part = missing > 0 && whole < q.len();
    &&& whole <= q.len()
    &&& missing >= 0
    &&& forall|i: int| 0 <= i < whole ==> #[trigger] drain.ended[i] == q[i].message
    &&& forall|i: int| 0 <= i < whole ==> #[trigger] data_before(q, i) < count
    &&& part ==> q[whole].message.data_len > missing
    &&& drain.pieces.len() == if part {
        whole + 1
    } else {
        whole
    }
    &&& forall|i: int|
        0 <= i < whole ==> (#[trigger] drain.pieces[i]).0 == q[i].message.data_addr
            && drain.pieces[i].1 == q[i].message.data_len
    &&& part ==> drain.pieces[whole].0 == q[whole].message.data_addr && drain.pieces[whole].1
        == missing
    &&& drain.rest.len() == q.len() - whole
    &&& forall|i: int| 1 <= i < drain.rest.len() ==> #[trigger] drain.rest[i] == q[whole + i]
    &&& whole < q.len() ==> {
        &&& drain.rest[0].data == q[whole].data
        &&& drain.rest[0].message == q[whole].message
        &&& drain.rest[0].pos == if part {
            missing
        } else {
            q[whole].pos as int
        }
    }
    &&& drain.full <==> missing == 0 || part
}

/// The bytes in all buffers but the first.
proof fn lemma_data_before(q: Seq<BufferView>, k: int)
    requires
        0 <= k < q.len(),
    ensures
        data_before(q, k + 1) == q[0].message.data_len + data_before(q.drop_first(), k),
    decreases k,
{
    if k > 0 {
        lemma_data_before(q, k - 1);
        assert(q.drop_first()[k - 1] == q[k]);
    } else {
        assert(data_before(q, 0) == 0);
    }
}

/// What is taken from a queue is taken from its front.
proof fn lemma_drained(q: Seq<BufferView>, count: nat)
    ensures
        takes_from_the_front(q, count as int, drained(q, count)),
    decreases q.len(),
{
    let drain = drained(q, count);
    assert(data_before(q, 0) == 0);
    if count > 0 && q.len() > 0 {
        let message = q[0].message;
        if message.data_len <= count {
            let fewer = q.drop_first();
            let left = (count - message.data_len) as nat;
            lemma_drained(fewer, left);
            let more = drained(fewer, left);
            let whole = drain.ended.len() as int;
            assert(whole == more.ended.len() + 1);
            lemma_data_before(q, whole - 1);
            assert forall|i: int| 0 <= i < whole implies #[trigger] data_before(q, i) < count by {
                if i > 0 {
                    lemma_data_before(q, i - 1);
                    assert(data_before(fewer, i - 1) < left);
                }
            }
            assert forall|i: int| 0 <= i < whole implies #[trigger] drain.ended[i]
                == q[i].message by {
                if i > 0 {
                    assert(drain.ended[i] == more.ended[i - 1]);
                    assert(fewer[i - 1] == q[i]);
                }
            }
            assert forall|i: int| 0 <= i < whole implies (#[trigger] drain.pieces[i]).0
                == q[i].message.data_addr && drain.pieces[i].1 == q[i].message.data_len by {
                if i > 0 {
                    assert(drain.pieces[i] == more.pieces[i - 1]);
                    assert(fewer[i - 1] == q[i]);
                }
            }
            if whole < q.len() {
                assert(fewer[whole - 1] == q[whole]);
                if more.pieces.len() == whole {
                    assert(drain.pieces[whole] == more.pieces[whole - 1]);
                }
            }
            assert forall|i: int| 1 <= i < drain.rest.len() implies #[trigger] drain.rest[i]
                == q[whole + i] by {
                assert(drain.rest[i] == more.rest[i]);
                assert(fewer[whole - 1 + i] == q[whole + i]);
            }
        }
    }
}

/// A period of a connected stream is taken from the front of the queue that the stream plays from,
/// and is as long as the parameters of the stream say.
pub proof fn law_period_is_taken_from_the_front(
    worker: WorkerView,
    streams: Seq<StreamView>,
    id: int,
)
    requires
        0 <= id < streams.len(),
        0 <= id < worker.listeners.len(),
        worker.listeners[id] is Some,
    ensures
        ({
            let queue = worker.queues[worker.listeners[id]->Some_0.queue];
            let count = streams[id].params.period_bytes as int;
            takes_from_the_front(queue, count, period(worker, streams, id))
        }),
{
    lemma_drained(
        worker.queues[worker.listeners[id]->Some_0.queue],
        streams[id].params.period_bytes as nat,
    );
}

/// There is at least as much data in more buffers.
proof fn lemma_data_is_monotone(q: Seq<BufferView>, j: int, k: int)
    requires
        j <= k,
    ensures
        data_before(q, j) <= data_before(q, k),
    decreases k - j,
{
    if j < k {
        lemma_data_is_monotone(q, j, k - 1);
        lemma_data_grows(q, k);
        if k <= 0 {
            assert(data_before(q, j) == 0);
        }
    }
}

/// Reads that are as long as the data of the first buffers hold as much as these.
proof fn lemma_reads_of_buffers(reads: Seq<(u64, Seq<u8>)>, q: Seq<BufferView>, k: int)
    requires
        forall|i: int|
            0 <= i < k ==> (#[trigger] reads[i]).1.len() == q[i].message.data_len,
    ensures
        read_before(reads, k) == data_before(q, k),
    decreases k,
{
    if k > 0 {
        lemma_reads_of_buffers(reads, q, k - 1);
        assert(reads[k - 1].1.len() == q[k - 1].message.data_len);
    }
}

/// Some piece cannot be read exactly where the bytes of some buffer cannot.
proof fn lemma_unreadable_pieces(mapped: Set<u64>, q: Seq<BufferView>, count: int, drain: Drain)
    requires
        takes_from_the_front(q, count, drain),
    ensures
        !all_fit(mapped, drain.pieces) <==> exists|i: int| #[trigger]
            cannot_be_read(mapped, q, count, i),
{
    let whole = drain.ended.len() as int;
    assert forall|i: int| 0 <= i < drain.pieces.len() implies (!fits(
        mapped,
        (#[trigger] drain.pieces[i]).0,
        drain.pieces[i].1,
    ) <==> cannot_be_read(mapped, q, count, i)) by {
        law_fits_where_every_byte_is_mapped(mapped, drain.pieces[i].0, drain.pieces[i].1);
        if i < whole {
            assert(data_before(q, i) < count);
            assert(data_before(q, i + 1) == data_before(q, i) + q[i].message.data_len);
            lemma_data_is_monotone(q, i + 1, whole);
        }
    }
    assert forall|i: int| cannot_be_read(mapped, q, count, i) implies i < drain.pieces.len() by {
        if i >= whole {
            lemma_data_is_monotone(q, whole, i);
            if i > whole {
                lemma_data_is_monotone(q, whole + 1, i);
            }
        }
    }
    if !all_fit(mapped, drain.pieces) {
        let i = choose|i: int|
            0 <= i < drain.pieces.len() && !fits(
                mapped,
                (#[trigger] drain.pieces[i]).0,
                drain.pieces[i].1,
            );
        assert(cannot_be_read(mapped, q, count, i));
    }
    if exists|i: int| #[trigger] cannot_be_read(mapped, q, count, i) {
        let i = choose|i: int| #[trigger] cannot_be_read(mapped, q, count, i);
        assert(!fits(mapped, drain.pieces[i].0, drain.pieces[i].1));
    }
}

/// Where `count` bytes are asked for, can those that would come from the buffer with this position
/// not be read?
pub open spec fn cannot_be_read(
    mapped: Set<u64>,
    q: Seq<BufferView>,
    count: int,
    i: int,
) -> bool {
    let missing = count - data_before(q, i);
    let message = q[i].message;
    let len = if message.data_len <= missing {
        message.data_len as int
    } else {
        missing
    };
    &&& 0 <= i < q.len()
    &&& missing > 0
    &&& !(mapped.contains(message.data_addr) && all_mapped(
        mapped,
        message.data_addr as int,
        len as nat,
    ))
}

/// A period is as long as the parameters of the stream say where there is that much data in the
/// queue that the stream plays from; else it is all that there is, and does not count as full. Its
/// bytes are those that were read where the buffers of the queue say that their data lies, one
/// buffer after the other. The transfers that it takes as a whole end, in order, and as many
/// buffers leave the queue. No other queue and no connection changes. Where some of the bytes
/// cannot be read, and only there, nothing changes and there is an error.
pub proof fn law_supplied_period(
    before: WorkerView,
    after: WorkerView,
    streams: Seq<StreamView>,
    id: int,
    mapped: Set<u64>,
    made: Seq<(u64, Seq<u8>)>,
    res: Result<PeriodFill, Error>,
)
    requires
        supplied(before, after, streams, id, mapped, made, res),
        0 <= id < streams.len(),
        0 <= id < before.listeners.len(),
        before.listeners[id] is Some,
    ensures
        ({
            let listener = before.listeners[id]->Some_0;
            let q = before.queues[listener.queue];
            let count = streams[id].params.period_bytes as int;
            let there = data_before(q, q.len() as int);
            match res {
                Ok(fill) => {
                    let whole = fill.ended@.len() as int;
                    &&& fill.stride == listener.channels + listener.channels
                    &&& fill.full <==> there >= count
                    &&& fill.bytes@.len() == if there >= count {
                        count
                    } else {
                        there
                    }
                    &&& made.len() <= q.len()
                    &&& forall|i: int|
                        0 <= i < made.len() ==> (#[trigger] made[i]).0 == q[i].message.data_addr
                            && made[i].1.len() <= q[i].message.data_len
                    &&& forall|i: int, j: int|
                        0 <= i < made.len() && 0 <= j < made[i].1.len()
                            ==> fill.bytes@[data_before(q, i) + j] == #[trigger] made[i].1[j]
                    &&& whole <= made.len() <= whole + 1
                    &&& forall|i: int| 0 <= i < whole ==> #[trigger] fill.ended@[i] == q[i].message
                    &&& forall|i: int|
                        0 <= i < whole ==> (#[trigger] made[i]).1.len() == q[i].message.data_len
                    &&& after.queues[listener.queue].len() == q.len() - whole
                    &&& forall|i: int|
                        1 <= i < q.len() - whole ==> #[trigger] after.queues[listener.queue][i]
                            == q[whole + i]
                    &&& forall|other: u64|
                        other != listener.queue && #[trigger] before.queues.contains_key(other)
                            ==> after.queues.contains_key(other) && after.queues[other]
                            == before.queues[other]
                    &&& after.listeners == before.listeners
                    &&& after.current == before.current
                },
                Err(error) => error == Error::DescriptorReadFailed && after == before,
            }
        }),
        res is Err <==> exists|i: int| #[trigger]
            cannot_be_read(
                mapped,
                before.queues[before.listeners[id]->Some_0.queue],
                streams[id].params.period_bytes as int,
                i,
            ),
{
    let listener = before.listeners[id]->Some_0;
    let q = before.queues[listener.queue];
    let count = streams[id].params.period_bytes as int;
    law_period_is_taken_from_the_front(before, streams, id);
    let drain = period(before, streams, id);
    lemma_unreadable_pieces(mapped, q, count, drain);
    if let Ok(fill) = res {
        let whole = drain.ended.len() as int;
        let n = q.len() as int;
        assert forall|i: int| 0 <= i < made.len() implies (#[trigger] made[i]).0
            == q[i].message.data_addr && made[i].1.len() <= q[i].message.data_len by {
            assert(made[i].0 == drain.pieces[i].0 && made[i].1.len() == drain.pieces[i].1);
        }
        assert forall|i: int| 0 <= i < whole implies (#[trigger] made[i]).1.len()
            == q[i].message.data_len by {
            assert(made[i].1.len() == drain.pieces[i].1);
        }
        lemma_reads_of_buffers(made, q, whole);
        lemma_fetched_len(made);
        lemma_data_is_monotone(q, whole, n);
        if whole < n {
            lemma_data_is_monotone(q, whole + 1, n);
        }
        if made.len() == whole + 1 {
            assert(made[whole].1.len() == drain.pieces[whole].1);
        }
        assert forall|i: int, j: int|
            0 <= i < made.len() && 0 <= j < made[i].1.len() implies fill.bytes@[data_before(q, i)
            + j] == #[trigger] made[i].1[j] by {
            lemma_reads_of_buffers(made, q, i);
            law_fetched_bytes_stand_in_a_row(made, i, j);
        }
    }
}

/// A frame of a stream that was prepared has two bytes for each channel that its parameters name,
/// whatever becomes of the parameters afterwards.
pub proof fn law_frames_have_two_bytes_for_each_channel(
    worker: WorkerView,
    streams: Seq<StreamView>,
    id: usize,
)
    requires
        id < streams.len(),
        worker.listeners.len() == streams.len(),
        handled(worker, streams, PwAction::Prepare(id)).outcome matches Ok(outcome)
            && outcome is Connect,
    ensures
        frame_bytes(handled(worker, streams, PwAction::Prepare(id)).worker, id as int)
            == streams[id as int].params.channels + streams[id as int].params.channels,
{
}

/// A number of bytes can be taken from a queue exactly where no buffer that any of them would come
/// from has been played in part.
pub proof fn law_drainable_where_unplayed(q: Seq<BufferView>, count: nat)
    ensures
        drainable(q, count) <==> forall|k: int|
            0 <= k < q.len() && #[trigger] data_before(q, k) < count ==> q[k].pos == 0,
    decreases q.len(),
{
    assert(data_before(q, 0) == 0);
    if count > 0 && q.len() > 0 {
        let fewer = q.drop_first();
        let len = q[0].message.data_len;
        if len <= count {
            let left = (count - len) as nat;
            law_drainable_where_unplayed(fewer, left);
            if drainable(q, count) {
                assert forall|k: int|
                    0 <= k < q.len() && #[trigger] data_before(q, k) < count implies q[k].pos
                    == 0 by {
                    if k > 0 {
                        lemma_data_before(q, k - 1);
                        assert(data_before(fewer, k - 1) < left);
                        assert(fewer[k - 1] == q[k]);
                    }
                }
            }
            if forall|k: int|
                0 <= k < q.len() && #[trigger] data_before(q, k) < count ==> q[k].pos == 0 {
                assert forall|k: int|
                    0 <= k < fewer.len() && #[trigger] data_before(fewer, k) < left implies fewer[
                    k].pos == 0 by {
                    lemma_data_before(q, k);
                    assert(data_before(q, k + 1) < count);
                    assert(fewer[k] == q[k + 1]);
                }
                assert(q[0].pos == 0);
            }
        } else {
            assert forall|k: int| 1 <= k < q.len() implies #[trigger] data_before(q, k) >= len by {
                lemma_data_before(q, k - 1);
                lemma_data_grows(fewer, k - 1);
            }
        }
    } else {
        assert forall|k: int| 0 <= k < q.len() implies #[trigger] data_before(q, k) >= 0 by {
            lemma_data_grows(q, k);
        }
    }
}

/// There is never less than no data.
proof fn lemma_data_grows(q: Seq<BufferView>, k: int)
    ensures
        data_before(q, k) >= 0,
    decreases k,
{
    if k > 0 {
        lemma_data_grows(q, k - 1);
    }
}

/// The bytes in the first `k` reads.
pub open spec fn read_before(reads: Seq<(u64, Seq<u8>)>, k: int) -> int
    decreases k,
{
    if k <= 0 {
        0
    } else {
        read_before(reads, k - 1) + reads[k - 1].1.len()
    }
}

/// The bytes of a period are those of its reads, one read after the other.
pub proof fn law_fetched_bytes_stand_in_a_row(reads: Seq<(u64, Seq<u8>)>, i: int, j: int)
    requires
        0 <= i < reads.len(),
        0 <= j < reads[i].1.len(),
    ensures
        fetched(reads).len() == read_before(reads, reads.len() as int),
        0 <= read_before(reads, i) + j < fetched(reads).len(),
        fetched(reads)[read_before(reads, i) + j] == reads[i].1[j],
    decreases reads.len(),
{
    lemma_fetched_len(reads);
    let fewer = reads.drop_last();
    lemma_fetched_len(fewer);
    lemma_read_before(reads, reads.len() - 1);
    lemma_read_before(reads, i);
    if i < fewer.len() {
        assert(fewer[i] == reads[i]);
        law_fetched_bytes_stand_in_a_row(fewer, i, j);
    } else {
        assert(fetched(fewer).len() == read_before(reads, i));
    }
}

/// Reads that come later do not matter for the bytes in the first ones.
proof fn lemma_read_before(reads: Seq<(u64, Seq<u8>)>, k: int)
    requires
        k < reads.len(),
    ensures
        read_before(reads, k) == read_before(reads.drop_last(), k),
    decreases k,
{
    if k > 0 {
        lemma_read_before(reads, k - 1);
    }
}

/// As many bytes are fetched as are read.
proof fn lemma_fetched_len(reads: Seq<(u64, Seq<u8>)>)
    ensures
        fetched(reads).len() == read_before(reads, reads.len() as int),
    decreases reads.len(),
{
    if reads.len() > 0 {
        lemma_fetched_len(reads.drop_last());
        lemma_read_before(reads, reads.len() - 1);
    }
}

/// Reads fetch pieces where each reads one piece, from its beginning to its end, in order. They can
/// where every byte of every piece is mapped.
pub proof fn law_pieces_are_fetched_in_order(
    mapped: Set<u64>,
    reads: Seq<(u64, Seq<u8>)>,
    pieces: Seq<(u64, nat)>,
    i: int,
)
    requires
        0 <= i < pieces.len(),
    ensures
        fetches(reads, pieces) ==> reads.len() == pieces.len() && reads[i].0 == pieces[i].0
            && reads[i].1.len() == pieces[i].1,
        all_fit(mapped, pieces) ==> mapped.contains(pieces[i].0) && all_mapped(
            mapped,
            pieces[i].0 as int,
            pieces[i].1,
        ),
        (forall|k: int|
            0 <= k < pieces.len() ==> mapped.contains((#[trigger] pieces[k]).0) && all_mapped(
                mapped,
                pieces[k].0 as int,
                pieces[k].1,
            )) ==> all_fit(mapped, pieces),
{
    assert forall|k: int| 0 <= k < pieces.len() implies (fits(
        mapped,
        (#[trigger] pieces[k]).0,
        pieces[k].1,
    ) <==> mapped.contains(pieces[k].0) && all_mapped(mapped, pieces[k].0 as int, pieces[k].1)) by {
        law_fits_where_every_byte_is_mapped(mapped, pieces[k].0, pieces[k].1);
    }
}

/// The number of buffers in the first `k` queues of a row.
pub open spec fn buffers_before(
    queues: Map<u64, Seq<BufferView>>,
    order: Seq<u64>,
    k: int,
) -> int
    decreases k,
{
    if k <= 0 {
        0
    } else {
        buffers_before(queues, order, k - 1) + queues[order[k - 1]].len()
    }
}

/// The transfers of queues that are dropped one after the other end in that order, those of each
/// queue from its front to its back.
pub proof fn law_dropped_queues_end_in_order(
    queues: Map<u64, Seq<BufferView>>,
    order: Seq<u64>,
    i: int,
    j: int,
)
    requires
        0 <= i < order.len(),
        0 <= j < queues[order[i]].len(),
    ensures
        ({
            let ended = dropped_in_order(queues, order);
            let at = buffers_before(queues, order, i) + j;
            &&& ended.len() == buffers_before(queues, order, order.len() as int)
            &&& 0 <= at < ended.len()
            &&& ended[at] == queues[order[i]][j].message
        }),
    decreases order.len(),
{
    lemma_dropped_len(queues, order);
    let fewer = order.drop_last();
    lemma_dropped_len(queues, fewer);
    lemma_buffers_before(queues, order, order.len() - 1);
    lemma_buffers_before(queues, order, i);
    if i < fewer.len() {
        assert(fewer[i] == order[i]);
        law_dropped_queues_end_in_order(queues, fewer, i, j);
    }
}

/// Queues that come later do not matter for the buffers in the first ones.
proof fn lemma_buffers_before(queues: Map<u64, Seq<BufferView>>, order: Seq<u64>, k: int)
    requires
        k < order.len(),
    ensures
        buffers_before(queues, order, k) == buffers_before(queues, order.drop_last(), k),
        buffers_before(queues, order, k) >= 0,
    decreases k,
{
    if k > 0 {
        lemma_buffers_before(queues, order, k - 1);
    }
}

/// As many transfers end as there are buffers.
proof fn lemma_dropped_len(queues: Map<u64, Seq<BufferView>>, order: Seq<u64>)
    ensures
        dropped_in_order(queues, order).len() == buffers_before(
            queues,
            order,
            order.len() as int,
        ),
    decreases order.len(),
{
    if order.len() > 0 {
        lemma_dropped_len(queues, order.drop_last());
        lemma_buffers_before(queues, order, order.len() - 1);
    }
}

/// A worker that has done nothing yet has no connections, and but one queue, which is empty and is
/// the current one.
pub proof fn law_fresh_worker_is_silent(streams: nat, i: int, q: u64)
    ensures
        fresh(streams).listeners.len() == streams,
        0 <= i < streams ==> fresh(streams).listeners[i] is None,
        fresh(streams).current == 0,
        fresh(streams).queues.contains_key(q) <==> q == 0,
        fresh(streams).queues[0].len() == 0,
{
}

/// A worker that ended has no connections and but one queue, which is empty. The transfers that
/// end last are those of the queue that was current.
pub proof fn law_ended_worker_is_silent(
    before: WorkerView,
    after: WorkerView,
    ended: Seq<IOMessage>,
)
    requires
        WorkerView::ended_with(before, after, ended),
    ensures
        after.listeners.len() == before.listeners.len(),
        forall|i: int|
            0 <= i < after.listeners.len() ==> (#[trigger] after.listeners[i]) is None,
        forall|q: u64| #[trigger] after.queues.contains_key(q) <==> q == before.current,
        after.queues[before.current].len() == 0,
        after.current == before.current,
        ({
            let last = before.queues[before.current];
            &&& ended.len() >= last.len()
            &&& ended.skip(ended.len() - last.len()) == ends(last)
        }),
{
    let order = choose|order: Seq<u64>| #[trigger]
        before.is_order(order) && ended == dropped_in_order(before.queues, order);
    let last = before.queues[before.current];
    assert(messages(last) =~= ends(last));
    assert(ended.skip(ended.len() - last.len()) =~= messages(last));
}

/// The request of an action is the one that came with it: there is one with parameters and with a
/// release, and with nothing else. The stream of an action is the one that it names.
pub proof fn law_actions_carry_their_request(action: PwAction)
    ensures
        stream_of(action) == named(action),
        match action {
            PwAction::SetParameters(id, message, request) => carried(action) matches Some(found)
                && found == message,
            PwAction::Release(id, message) => carried(action) matches Some(found) && found
                == message,
            _ => carried(action) is None,
        },
{
}

} // verus!
