//! The cursor that leads from one answer of the backend to the next query:
//! a continuation token while the backend has more of the same result set,
//! a timestamp once it has not.

use vstd::prelude::*;
use crate::event::{LogEvent, sort_key, is_time_sorted};
use crate::request::text_of;

verus! {

/// Where the next query takes up the search. A token always goes first:
/// it pages within one logical query. A timestamp anchors the query that
/// follows a chain of tokens.
#[derive(Clone, Debug)]
pub enum AWSResponse {
    /// The backend has more: ask again with this token.
    Token(String),
    /// The backend has no more for now: ask again from this time on.
    LastLog(Option<i64>),
}

/// A cursor as a mathematical value.
pub enum CursorView {
    Token(Seq<char>),
    LastLog(Option<i64>),
}

impl View for AWSResponse {
    type V = CursorView;

    open spec fn view(&self) -> CursorView {
        match self {
            AWSResponse::Token(t) => CursorView::Token(t@),
            AWSResponse::LastLog(at) => CursorView::LastLog(*at),
        }
    }
}

/// The cursor after an answer that held `sorted`, a batch in time order, and
/// `token`, to a query whose window started at `start_time`. Without a
/// token, a batch that is not empty gives the timestamp of its last event as
/// it is. Where that event has none, the cursor has none either, and the
/// window start is not fallen back on; that can be only in a batch that
/// holds no timestamp of 0 or more.
pub open spec fn cursor_after(
    sorted: Seq<LogEvent>,
    token: Option<Seq<char>>,
    start_time: Option<i64>,
) -> CursorView {
    match token {
        Some(t) => CursorView::Token(t),
        None => if sorted.len() > 0 {
            CursorView::LastLog(sorted.last().timestamp)
        } else {
            CursorView::LastLog(start_time)
        },
    }
}

/// Derives the cursor from an answer: the token where there is one, else the
/// timestamp of the last event of the batch, else the start of the query's
/// own window.
pub fn next_cursor(sorted: &Vec<LogEvent>, token: Option<String>, start_time: Option<i64>) -> (cursor:
    AWSResponse)
    ensures
        cursor@ == cursor_after(sorted@, text_of(token), start_time),
{
    match token {
        Some(t) => AWSResponse::Token(t),
        None => {
            let n = sorted.len();
            if n > 0 {
                AWSResponse::LastLog(sorted[n - 1].timestamp)
            } else {
                AWSResponse::LastLog(start_time)
            }
        },
    }
}

/// `timestamp` belongs to an event of `batch`, and no event of `batch` has a
/// larger key.
pub open spec fn is_latest_in(timestamp: Option<i64>, batch: Seq<LogEvent>) -> bool {
    &&& exists|i: int| 0 <= i < batch.len() && #[trigger] batch[i].timestamp == timestamp
    &&& forall|i: int|
        0 <= i < batch.len() ==> sort_key(#[trigger] batch[i].timestamp) <= sort_key(timestamp)
}

/// An answer with a token gives that token as the cursor, whatever the batch
/// holds, an empty batch too.
pub proof fn lemma_token_is_next_cursor(
    sorted: Seq<LogEvent>,
    token: Seq<char>,
    start_time: Option<i64>,
)
    ensures
        cursor_after(sorted, Some(token), start_time) == CursorView::Token(token),
{
}

/// An answer without a token and without events gives the start of the
/// query's own window as the cursor.
pub proof fn lemma_empty_batch_falls_back_to_window(start_time: Option<i64>)
    ensures
        cursor_after(Seq::<LogEvent>::empty(), None, start_time) == CursorView::LastLog(start_time),
{
}

/// An answer without a token and with events gives as the cursor the
/// timestamp of an event that arrived, and none that arrived has a larger
/// key.
pub proof fn lemma_exhausted_batch_gives_latest(
    arrived: Seq<LogEvent>,
    sorted: Seq<LogEvent>,
    start_time: Option<i64>,
)
    requires
        is_time_sorted(sorted, arrived),
        arrived.len() > 0,
    ensures
        cursor_after(sorted, None, start_time) matches CursorView::LastLog(at) && is_latest_in(
            at,
            arrived,
        ),
{
    broadcast use vstd::seq_lib::group_to_multiset_ensures;

    assert(sorted.len() == arrived.len()) by {
        vstd::seq_lib::to_multiset_len(sorted);
        vstd::seq_lib::to_multiset_len(arrived);
    }
    let last = sorted.last();
    assert(sorted.contains(last)) by {
        assert(sorted[sorted.len() - 1] == last);
    }
    assert(arrived.to_multiset().count(last) > 0);
    assert(arrived.contains(last));
    let w = choose|i: int| 0 <= i < arrived.len() && arrived[i] == last;
    assert(arrived[w].timestamp == last.timestamp);
    assert forall|i: int| 0 <= i < arrived.len() implies sort_key(
        #[trigger] arrived[i].timestamp,
    ) <= sort_key(last.timestamp) by {
        assert(arrived.contains(arrived[i]));
        assert(sorted.to_multiset().count(arrived[i]) > 0);
        assert(sorted.contains(arrived[i]));
        let j = choose|j: int| 0 <= j < sorted.len() && sorted[j] == arrived[i];
        assert(sort_key(sorted[j].timestamp) <= sort_key(sorted[sorted.len() - 1].timestamp));
    }
}

/// Where every event of the batch has a timestamp, or one of them has a
/// timestamp that is not negative, an answer without a token gives the
/// largest timestamp of the batch as the cursor.
pub proof fn lemma_exhausted_batch_gives_max_timestamp(
    arrived: Seq<LogEvent>,
    sorted: Seq<LogEvent>,
    start_time: Option<i64>,
)
    requires
        is_time_sorted(sorted, arrived),
        arrived.len() > 0,
        (forall|i: int| 0 <= i < arrived.len() ==> #[trigger] arrived[i].timestamp is Some) || (
        exists|i: int|
            0 <= i < arrived.len() && #[trigger] arrived[i].timestamp is Some
                && arrived[i].timestamp->0 >= 0),
    ensures
        cursor_after(sorted, None, start_time) matches CursorView::LastLog(Some(max)) && (exists|
            i: int,
        |
            0 <= i < arrived.len() && #[trigger] arrived[i].timestamp == Some(max)) && (forall|
            i: int,
        |
            0 <= i < arrived.len() && #[trigger] arrived[i].timestamp is Some
                ==> arrived[i].timestamp->0 <= max),
{
    lemma_exhausted_batch_gives_latest(arrived, sorted, start_time);
    assert(sorted.len() == arrived.len()) by {
        vstd::seq_lib::to_multiset_len(sorted);
        vstd::seq_lib::to_multiset_len(arrived);
    }
    let at = sorted.last().timestamp;
    if forall|i: int| 0 <= i < arrived.len() ==> #[trigger] arrived[i].timestamp is Some {
        let w = choose|i: int| 0 <= i < arrived.len() && #[trigger] arrived[i].timestamp == at;
        assert(arrived[w].timestamp is Some);
    } else {
        let p = choose|i: int|
            0 <= i < arrived.len() && #[trigger] arrived[i].timestamp is Some
                && arrived[i].timestamp->0 >= 0;
        assert(sort_key(arrived[p].timestamp) <= sort_key(at));
    }
}

} // verus!
