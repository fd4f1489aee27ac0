//! One fetch, from the backend's answer on: the batch is put in time order,
//! shown, and the cursor for the next query is derived.

use vstd::prelude::*;
use crate::cursor::{AWSResponse, cursor_after, next_cursor};
use crate::emit::{Line, emit_lines};
use crate::event::{LogEvent, is_time_sorted, sort_events};
use crate::request::{FilterRequest, text_of};

verus! {

/// What the backend answered to one query: the events in the order they
/// arrived, and a token where it has more.
#[derive(Debug)]
pub struct FetchedPage {
    pub events: Vec<LogEvent>,
    pub next_token: Option<String>,
}

/// What one fetch comes to: the batch in time order, the lines to print, in
/// that order, and the cursor for the next query.
#[derive(Debug)]
pub struct Fetched {
    pub events: Vec<LogEvent>,
    pub lines: Vec<Line>,
    pub cursor: AWSResponse,
}

/// Completes a fetch. `page` is what the backend answered to `req`. The
/// events come out in time order, each with its line, and the cursor is the
/// token of the answer where it has one, else the timestamp of the last event
/// in time order, else the start of the window of `req`.
pub fn fetch_logs(req: &FilterRequest, page: FetchedPage) -> (done: Fetched)
    ensures
        is_time_sorted(done.events@, page.events@),
        done.events@.len() == page.events@.len(),
        done.lines@.len() == done.events@.len(),
        forall|i: int| 0 <= i < done.events@.len() ==> (#[trigger] done.lines@[i]).shows(done.events@[i]),
        done.cursor@ == cursor_after(done.events@, text_of(page.next_token), req.start_time),
{
    let FetchedPage { events, next_token } = page;
    let sorted = sort_events(events);
    let lines = emit_lines(&sorted);
    let cursor = next_cursor(&sorted, next_token, req.start_time);
    Fetched { events: sorted, lines, cursor }
}

} // verus!
