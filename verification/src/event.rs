//! Log events, and the order in which a batch of them is shown.

use vstd::prelude::*;
use crate::request::text_of;

verus! {

/// One event of a log group, as the backend returns it. Either part may be
/// missing.
#[derive(Clone, Debug)]
pub struct LogEvent {
    pub timestamp: Option<i64>,
    pub message: Option<String>,
}

/// An event as a mathematical record.
pub struct LogEventView {
    pub timestamp: Option<i64>,
    pub message: Option<Seq<char>>,
}

impl View for LogEvent {
    type V = LogEventView;

    open spec fn view(&self) -> LogEventView {
        LogEventView { timestamp: self.timestamp, message: text_of(self.message) }
    }
}

/// The number by which an event is ordered: its timestamp, or -1 where it
/// has none.
pub open spec fn sort_key(timestamp: Option<i64>) -> int {
    match timestamp {
        Some(t) => t as int,
        None => -1,
    }
}

/// No event stands before one with a smaller key.
pub open spec fn in_time_order(batch: Seq<LogEvent>) -> bool {
    forall|i: int, j: int|
        0 <= i <= j < batch.len() ==> sort_key(batch[i].timestamp) <= sort_key(batch[j].timestamp)
}

/// The events of `batch` whose key is `key`, in the order they have there.
pub open spec fn with_key(batch: Seq<LogEvent>, key: int) -> Seq<LogEvent> {
    batch.filter(|e: LogEvent| sort_key(e.timestamp) == key)
}

/// `sorted` is `arrived` put in time order: it holds the same events, no
/// event stands before one with a smaller key, and events with the same key
/// stand as they arrived.
pub open spec fn is_time_sorted(sorted: Seq<LogEvent>, arrived: Seq<LogEvent>) -> bool {
    &&& in_time_order(sorted)
    &&& sorted.to_multiset() == arrived.to_multiset()
    &&& forall|key: int| #[trigger] with_key(sorted, key) == with_key(arrived, key)
}

fn key_of(event: &LogEvent) -> (key: i64)
    ensures
        key == sort_key(event.timestamp),
{
    match event.timestamp {
        Some(t) => t,
        None => -1,
    }
}

/// Putting `event` into `sorted` behind the events whose key is no larger
/// and before those whose key is larger adds it to the run of its key, at the
/// end, and leaves the other runs as they are.
proof fn lemma_insert_keeps_runs(sorted: Seq<LogEvent>, at: int, event: LogEvent, key: int)
    requires
        0 <= at <= sorted.len(),
        forall|j: int| at <= j < sorted.len() ==> sort_key(sorted[j].timestamp) > sort_key(event.timestamp),
    ensures
        with_key(sorted.insert(at, event), key) == if sort_key(event.timestamp) == key {
            with_key(sorted, key).push(event)
        } else {
            with_key(sorted, key)
        },
{
    let pred = |e: LogEvent| sort_key(e.timestamp) == key;
    let head = sorted.subrange(0, at);
    let tail = sorted.subrange(at, sorted.len() as int);
    assert(sorted =~= head + tail);
    assert(sorted.insert(at, event) =~= head.push(event) + tail);
    Seq::filter_distributes_over_add(head, tail, pred);
    Seq::filter_distributes_over_add(head.push(event), tail, pred);
    head.lemma_filter_push(event, pred);
    if sort_key(event.timestamp) == key {
        assert(tail.all(|x: LogEvent| !pred(x))) by {
            assert forall|i: int| 0 <= i < tail.len() implies !pred(#[trigger] tail[i]) by {
                assert(tail[i] == sorted[at + i]);
            }
        }
        tail.lemma_all_neg_filter_empty(pred);
        assert(tail.filter(pred) =~= Seq::<LogEvent>::empty());
        assert(head.filter(pred).push(event) + tail.filter(pred) =~= head.filter(pred).push(event));
        assert(head.filter(pred) + tail.filter(pred) =~= head.filter(pred));
    }
}

/// Two batches in time order that hold the same events, with the events of
/// each key in the same order, are one and the same.
proof fn lemma_same_runs_same_batch(a: Seq<LogEvent>, b: Seq<LogEvent>)
    requires
        in_time_order(a),
        in_time_order(b),
        a.to_multiset() == b.to_multiset(),
        forall|key: int| #[trigger] with_key(a, key) == with_key(b, key),
    ensures
        a == b,
    decreases a.len(),
{
    broadcast use vstd::seq_lib::group_to_multiset_ensures;

    vstd::seq_lib::to_multiset_len(a);
    vstd::seq_lib::to_multiset_len(b);
    if a.len() == 0 {
        assert(a =~= b);
    } else {
        let (la, lb) = (a.last(), b.last());
        let (ra, rb) = (a.drop_last(), b.drop_last());
        let top = sort_key(la.timestamp);
        assert(a =~= ra.push(la));
        assert(b =~= rb.push(lb));
        assert(sort_key(lb.timestamp) == top) by {
            assert(b.contains(lb)) by {
                assert(b[b.len() - 1] == lb);
            }
            assert(a.contains(la)) by {
                assert(a[a.len() - 1] == la);
            }
            assert(a.to_multiset().count(lb) > 0);
            assert(a.contains(lb));
            let i = choose|i: int| 0 <= i < a.len() && a[i] == lb;
            assert(sort_key(a[i].timestamp) <= sort_key(a[a.len() - 1].timestamp));
            assert(b.to_multiset().count(la) > 0);
            assert(b.contains(la));
            let j = choose|j: int| 0 <= j < b.len() && b[j] == la;
            assert(sort_key(b[j].timestamp) <= sort_key(b[b.len() - 1].timestamp));
        }
        assert forall|key: int| #[trigger] with_key(ra, key) == with_key(rb, key) && (key == top
            ==> la == lb) by {
            let pred = |e: LogEvent| sort_key(e.timestamp) == key;
            ra.lemma_filter_push(la, pred);
            rb.lemma_filter_push(lb, pred);
            assert(with_key(a, key) == with_key(b, key));
            if key == top {
                assert(ra.filter(pred).push(la) == rb.filter(pred).push(lb));
                assert(ra.filter(pred).push(la).last() == la);
                assert(rb.filter(pred).push(lb).last() == lb);
                assert(ra.filter(pred).push(la).drop_last() =~= ra.filter(pred));
                assert(rb.filter(pred).push(lb).drop_last() =~= rb.filter(pred));
            }
        }
        assert(with_key(ra, top) == with_key(rb, top));
        assert(la == lb);
        assert(ra.to_multiset() =~= rb.to_multiset()) by {
            vstd::seq_lib::to_multiset_build(ra, la);
            vstd::seq_lib::to_multiset_build(rb, lb);
            assert(ra.to_multiset() =~= ra.to_multiset().insert(la).remove(la));
            assert(rb.to_multiset() =~= rb.to_multiset().insert(la).remove(la));
        }
        assert(in_time_order(ra)) by {
            assert forall|i: int, j: int| 0 <= i <= j < ra.len() implies sort_key(
                ra[i].timestamp,
            ) <= sort_key(ra[j].timestamp) by {
                assert(ra[i] == a[i] && ra[j] == a[j]);
            }
        }
        assert(in_time_order(rb)) by {
            assert forall|i: int, j: int| 0 <= i <= j < rb.len() implies sort_key(
                rb[i].timestamp,
            ) <= sort_key(rb[j].timestamp) by {
                assert(rb[i] == b[i] && rb[j] == b[j]);
            }
        }
        lemma_same_runs_same_batch(ra, rb);
    }
}

/// Time order leaves no choice: a batch has one time-sorted form.
pub proof fn lemma_time_sorted_is_unique(
    first: Seq<LogEvent>,
    second: Seq<LogEvent>,
    arrived: Seq<LogEvent>,
)
    requires
        is_time_sorted(first, arrived),
        is_time_sorted(second, arrived),
    ensures
        first == second,
{
    assert forall|key: int| #[trigger] with_key(first, key) == with_key(second, key) by {
        assert(with_key(first, key) == with_key(arrived, key));
        assert(with_key(second, key) == with_key(arrived, key));
    }
    lemma_same_runs_same_batch(first, second);
}

/// Puts a batch in time order. The backend does not promise any order; events
/// with equal keys stay as they arrived.
pub fn sort_events(events: Vec<LogEvent>) -> (sorted: Vec<LogEvent>)
    ensures
        is_time_sorted(sorted@, events@),
        sorted@.len() == events@.len(),
{
    let ghost arrived = events@;
    let mut rest = events;
    let mut sorted: Vec<LogEvent> = Vec::new();
    let ghost mut taken: int = 0;
    proof {
        assert(arrived.subrange(0, 0) =~= Seq::<LogEvent>::empty());
        assert(rest@ =~= arrived.subrange(0, arrived.len() as int));
    }
    while rest.len() > 0
        invariant
            0 <= taken <= arrived.len(),
            rest@ == arrived.subrange(taken, arrived.len() as int),
            sorted@.len() == taken,
            is_time_sorted(sorted@, arrived.subrange(0, taken)),
        decreases rest.len(),
    {
        let event = rest.remove(0);
        let key = key_of(&event);
        let mut at: usize = sorted.len();
        while at > 0 && key_of(&sorted[at - 1]) > key
            invariant
                0 <= at <= sorted@.len(),
                key == sort_key(event.timestamp),
                forall|j: int| at <= j < sorted@.len() ==> sort_key(sorted@[j].timestamp) > key,
            decreases at,
        {
            at = at - 1;
        }
        proof {
            let before = sorted@;
            let after = before.insert(at as int, event);
            let seen = arrived.subrange(0, taken);
            let seen_next = arrived.subrange(0, taken + 1);
            assert(event == arrived[taken]);
            assert(seen_next =~= seen.push(event));
            assert forall|k: int| #[trigger] with_key(after, k) == with_key(seen_next, k) by {
                lemma_insert_keeps_runs(before, at as int, event, k);
                seen.lemma_filter_push(event, |e: LogEvent| sort_key(e.timestamp) == k);
                assert(with_key(before, k) == with_key(seen, k));
            }
            vstd::seq_lib::to_multiset_insert(before, at as int, event);
            vstd::seq_lib::to_multiset_build(seen, event);
            assert forall|i: int, j: int| 0 <= i <= j < after.len() implies sort_key(
                after[i].timestamp,
            ) <= sort_key(after[j].timestamp) by {
                if i < at && j > at {
                    assert(after[i] == before[i]);
                    assert(after[j] == before[j - 1]);
                } else if i < at && j < at {
                    assert(after[i] == before[i]);
                    assert(after[j] == before[j]);
                } else if i > at {
                    assert(after[i] == before[i - 1]);
                    assert(after[j] == before[j - 1]);
                } else if i < at && j == at {
                    assert(after[i] == before[i]);
                    if at > 0 {
                        assert(sort_key(before[at - 1].timestamp) <= key);
                        assert(sort_key(before[i].timestamp) <= sort_key(before[at - 1].timestamp));
                    }
                } else if i == at && j > at {
                    assert(after[j] == before[j - 1]);
                }
            }
            assert(rest@ =~= arrived.subrange(taken + 1, arrived.len() as int));
            taken = taken + 1;
        }
        sorted.insert(at, event);
    }
    proof {
        assert(arrived.subrange(0, taken) =~= arrived);
    }
    sorted
}

} // verus!
