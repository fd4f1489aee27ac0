//! The query of one cycle: which group, from when on, where in the result
//! set, through which filter, and how many events at most.

use vstd::prelude::*;
use crate::span::{Instant, Span};
use crate::window::{calculate_start_time, window_start};

verus! {

/// The most events that one answer may hold.
pub const PAGE_SIZE: i64 = 100;

/// One bounded query to the backend. Where a continuation token is present
/// the backend goes by it and passes over the start time, which is carried
/// all the same: it is where the search resumes once the chain of tokens has
/// ended.
#[derive(Clone, Debug)]
pub struct FilterRequest {
    pub log_group: String,
    pub start_time: Option<i64>,
    pub continuation_token: Option<String>,
    pub filter_pattern: Option<String>,
    pub page_size: i64,
}

/// A query as a mathematical record.
pub struct FilterRequestView {
    pub log_group: Seq<char>,
    pub start_time: Option<i64>,
    pub continuation_token: Option<Seq<char>>,
    pub filter_pattern: Option<Seq<char>>,
    pub page_size: int,
}

impl View for FilterRequest {
    type V = FilterRequestView;

    open spec fn view(&self) -> FilterRequestView {
        FilterRequestView {
            log_group: self.log_group@,
            start_time: self.start_time,
            continuation_token: text_of(self.continuation_token),
            filter_pattern: text_of(self.filter_pattern),
            page_size: self.page_size as int,
        }
    }
}

/// The characters of a string that may be absent.
pub open spec fn text_of(s: Option<String>) -> Option<Seq<char>> {
    match s {
        Some(s) => Some(s@),
        None => None,
    }
}

/// A copy of a string that may be absent.
pub(crate) fn copy_text(text: &Option<String>) -> (copy: Option<String>)
    ensures
        copy == *text,
{
    match text {
        Some(t) => Some(t.clone()),
        None => None,
    }
}

/// The query that resumes in `group` at `start`, or at `token` where there
/// is one, with the fixed page size.
pub open spec fn resumed_request(
    group: Seq<char>,
    start: Option<i64>,
    filter: Option<Seq<char>>,
    token: Option<Seq<char>>,
) -> FilterRequestView {
    FilterRequestView {
        log_group: group,
        start_time: start,
        continuation_token: token,
        filter_pattern: filter,
        page_size: PAGE_SIZE as int,
    }
}

/// The first query of a chain in `group`: it starts `lookback` nanoseconds
/// before the instant `from` and carries no token.
pub open spec fn fresh_request(
    group: Seq<char>,
    from: int,
    lookback: nat,
    filter: Option<Seq<char>>,
) -> FilterRequestView {
    resumed_request(group, window_start(from, lookback), filter, None)
}

/// Builds the first query of a chain: the window starts `start` before
/// `from`, and there is no token yet.
pub fn create_filter_request(
    group: &String,
    from: &Instant,
    start: &Span,
    filter: Option<String>,
) -> (req: FilterRequest)
    requires
        window_start(from@, start@) is Some,
    ensures
        req@ == fresh_request(group@, from@, start@, text_of(filter)),
{
    let window = calculate_start_time(from, start);
    create_filter_from_timestamp(group, window, filter, None)
}

/// Builds a query that takes the search up again: `start` and `token` go
/// into it as they are, nothing is computed anew.
pub fn create_filter_from_timestamp(
    group: &String,
    start: Option<i64>,
    filter: Option<String>,
    token: Option<String>,
) -> (req: FilterRequest)
    ensures
        req@ == resumed_request(group@, start, text_of(filter), text_of(token)),
{
    FilterRequest {
        log_group: group.clone(),
        start_time: start,
        continuation_token: token,
        filter_pattern: filter,
        page_size: PAGE_SIZE,
    }
}

} // verus!
