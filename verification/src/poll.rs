//! The poll cycle: which query goes out next, when the run pauses, and when
//! it ends. The cycle decides; whoever drives it performs each action and
//! reports what came of it.

use vstd::prelude::*;
use crate::config::{ConfigError, SettingsView, TailSettings};
use crate::cursor::{AWSResponse, CursorView};
use crate::request::{
    FilterRequest,
    FilterRequestView,
    PAGE_SIZE,
    copy_text,
    create_filter_from_timestamp,
    create_filter_request,
    fresh_request,
    resumed_request,
    text_of,
};
use crate::span::{Instant, Span};
use crate::window::{calculate_start_time, window_start};

verus! {

/// Where the cycle stands.
#[derive(Clone, Copy, Debug, PartialEq, Eq, Structural)]
pub enum PollState {
    /// A query is out, or is to go out now.
    Fetching,
    /// The chain is exhausted; the run pauses before the next one.
    Idle,
    /// The run is over.
    Done,
}

/// Why a fetch brought no answer.
#[derive(Clone, Debug)]
pub enum FetchError {
    /// The fetch took longer than its bound.
    TransportTimeout,
    /// The backend refused the query or failed on it; with its words.
    Backend(String),
}

/// A failed fetch as a mathematical value.
pub enum FetchErrorView {
    TransportTimeout,
    Backend(Seq<char>),
}

impl View for FetchError {
    type V = FetchErrorView;

    open spec fn view(&self) -> FetchErrorView {
        match self {
            FetchError::TransportTimeout => FetchErrorView::TransportTimeout,
            FetchError::Backend(words) => FetchErrorView::Backend(words@),
        }
    }
}

/// What the driver reports to the cycle.
#[derive(Clone, Debug)]
pub enum PollEvent {
    /// The fetch succeeded and led to this cursor.
    Fetched(AWSResponse),
    /// The fetch failed.
    Failed(FetchError),
    /// The pause is over.
    Woke,
}

/// An event as a mathematical value.
pub enum EventView {
    Fetched(CursorView),
    Failed(FetchErrorView),
    Woke,
}

impl View for PollEvent {
    type V = EventView;

    open spec fn view(&self) -> EventView {
        match self {
            PollEvent::Fetched(cursor) => EventView::Fetched(cursor@),
            PollEvent::Failed(error) => EventView::Failed(error@),
            PollEvent::Woke => EventView::Woke,
        }
    }
}

/// What the cycle asks of the driver.
#[derive(Clone, Debug)]
pub enum PollAction {
    /// Send this query, and wait for the answer no longer than this.
    Fetch(FilterRequest, Span),
    /// Pause for this long.
    Sleep(Span),
    /// End the run; all went well.
    Exit,
    /// End the run and report this failure.
    Abort(FetchError),
}

/// An action as a mathematical value, spans in nanoseconds.
pub enum ActionView {
    Fetch(FilterRequestView, nat),
    Sleep(nat),
    Exit,
    Abort(FetchErrorView),
}

impl View for PollAction {
    type V = ActionView;

    open spec fn view(&self) -> ActionView {
        match self {
            PollAction::Fetch(request, timeout) => ActionView::Fetch(request@, timeout@),
            PollAction::Sleep(pause) => ActionView::Sleep(pause@),
            PollAction::Exit => ActionView::Exit,
            PollAction::Abort(error) => ActionView::Abort(error@),
        }
    }
}

/// The cycle as a mathematical record: the settings of the run, the state,
/// and the query of the moment, which is the one that is out while fetching,
/// the one that goes out after the pause while idle, and the last one that
/// went out when done.
pub struct CycleView {
    pub settings: SettingsView,
    pub state: PollState,
    pub request: FilterRequestView,
}

impl CycleView {
    /// The query of the moment is one of this run, and the cycle idles only
    /// in a run that watches, on a query without a token.
    pub open spec fn wf(self) -> bool {
        &&& self.request.log_group == self.settings.group
        &&& self.request.filter_pattern == self.settings.filter
        &&& self.request.page_size == PAGE_SIZE
        &&& self.state == PollState::Idle ==> self.settings.watch is Some
            && self.request.continuation_token is None
    }

    /// The cycle at the start of a run at the instant `now`: the first query
    /// is out.
    pub open spec fn started(settings: SettingsView, now: int) -> CycleView {
        CycleView {
            settings,
            state: PollState::Fetching,
            request: fresh_request(settings.group, now, settings.lookback, settings.filter),
        }
    }

    /// The query that follows the query of the moment under `cursor`. A
    /// token continues the chain in the same window: the start time stays.
    /// A timestamp begins a new window there.
    pub open spec fn following(self, cursor: CursorView) -> FilterRequestView {
        match cursor {
            CursorView::Token(token) => resumed_request(
                self.settings.group,
                self.request.start_time,
                self.settings.filter,
                Some(token),
            ),
            CursorView::LastLog(at) => resumed_request(
                self.settings.group,
                at,
                self.settings.filter,
                None,
            ),
        }
    }

    /// What the state calls for.
    pub open spec fn pending(self) -> ActionView {
        match self.state {
            PollState::Fetching => ActionView::Fetch(self.request, self.settings.timeout),
            PollState::Idle => ActionView::Sleep(self.settings.watch->0),
            PollState::Done => ActionView::Exit,
        }
    }

    /// The cycle after `event`. A token keeps it fetching. A timestamp ends
    /// the run, or where the run watches, sends it idle. Waking sends it
    /// fetching again. A failed fetch ends the run. An event that the state
    /// does not wait for changes nothing.
    pub open spec fn after(self, event: EventView) -> CycleView {
        match (self.state, event) {
            (PollState::Fetching, EventView::Fetched(CursorView::Token(token))) => CycleView {
                request: self.following(CursorView::Token(token)),
                ..self
            },
            (PollState::Fetching, EventView::Fetched(CursorView::LastLog(at))) => {
                if self.settings.watch is Some {
                    CycleView {
                        state: PollState::Idle,
                        request: self.following(CursorView::LastLog(at)),
                        ..self
                    }
                } else {
                    CycleView { state: PollState::Done, ..self }
                }
            },
            (PollState::Fetching, EventView::Failed(_)) => CycleView {
                state: PollState::Done,
                ..self
            },
            (PollState::Idle, EventView::Woke) => CycleView { state: PollState::Fetching, ..self },
            _ => self,
        }
    }

    /// What the cycle asks for on `event`: to report the failure of a fetch
    /// that failed, else what its new state calls for.
    pub open spec fn action_on(self, event: EventView) -> ActionView {
        match (self.state, event) {
            (PollState::Fetching, EventView::Failed(error)) => ActionView::Abort(error),
            _ => self.after(event).pending(),
        }
    }

    /// The cycle after the events `events`, in turn.
    pub open spec fn after_all(self, events: Seq<EventView>) -> CycleView
        decreases events.len(),
    {
        if events.len() == 0 {
            self
        } else {
            self.after_all(events.drop_last()).after(events.last())
        }
    }
}

/// The events of a chain of answers that each held a token, in turn.
pub open spec fn token_chain(tokens: Seq<Seq<char>>) -> Seq<EventView> {
    Seq::new(tokens.len(), |i: int| EventView::Fetched(CursorView::Token(tokens[i])))
}

/// No event is a failed fetch.
pub open spec fn all_fetches_succeed(events: Seq<EventView>) -> bool {
    forall|i: int| 0 <= i < events.len() ==> !(#[trigger] events[i] is Failed)
}

/// A step keeps the cycle well formed, and never touches the settings.
pub proof fn lemma_step_keeps_cycle_well_formed(cycle: CycleView, event: EventView)
    requires
        cycle.wf(),
    ensures
        cycle.after(event).wf(),
        cycle.after(event).settings == cycle.settings,
{
}

/// However many steps are taken, the cycle stays well formed and the
/// settings stay what they were.
pub proof fn lemma_run_keeps_cycle_well_formed(cycle: CycleView, events: Seq<EventView>)
    requires
        cycle.wf(),
    ensures
        cycle.after_all(events).wf(),
        cycle.after_all(events).settings == cycle.settings,
    decreases events.len(),
{
    if events.len() > 0 {
        lemma_run_keeps_cycle_well_formed(cycle, events.drop_last());
        lemma_step_keeps_cycle_well_formed(cycle.after_all(events.drop_last()), events.last());
    }
}

/// A run that does not watch never pauses: whatever has happened, the cycle
/// is not idle, and it answers no event by asking for a pause.
pub proof fn lemma_one_shot_never_sleeps(cycle: CycleView, events: Seq<EventView>, event: EventView)
    requires
        cycle.wf(),
        cycle.settings.watch is None,
    ensures
        cycle.after_all(events).state != PollState::Idle,
        !(cycle.after_all(events).action_on(event) is Sleep),
{
    lemma_run_keeps_cycle_well_formed(cycle, events);
    lemma_step_keeps_cycle_well_formed(cycle.after_all(events), event);
}

/// While the answers hold tokens the cycle keeps fetching in the window it
/// began with: after a chain of tokens the query of the moment has the start
/// time of the first query, and the last token where there was one.
pub proof fn lemma_token_chain_keeps_window(cycle: CycleView, tokens: Seq<Seq<char>>)
    requires
        cycle.state == PollState::Fetching,
    ensures
        cycle.after_all(token_chain(tokens)).state == PollState::Fetching,
        cycle.after_all(token_chain(tokens)).settings == cycle.settings,
        cycle.after_all(token_chain(tokens)).request.start_time == cycle.request.start_time,
        tokens.len() > 0 ==> cycle.after_all(token_chain(tokens)).request == resumed_request(
            cycle.settings.group,
            cycle.request.start_time,
            cycle.settings.filter,
            Some(tokens.last()),
        ),
    decreases tokens.len(),
{
    if tokens.len() > 0 {
        lemma_token_chain_keeps_window(cycle, tokens.drop_last());
        assert(token_chain(tokens).drop_last() =~= token_chain(tokens.drop_last()));
        assert(token_chain(tokens).last() == EventView::Fetched(CursorView::Token(tokens.last())));
    }
}

/// A run that does not watch goes through the whole chain of tokens and
/// ends, with nothing to report, on the first answer without one.
pub proof fn lemma_one_shot_ends_after_chain(
    cycle: CycleView,
    tokens: Seq<Seq<char>>,
    at: Option<i64>,
)
    requires
        cycle.state == PollState::Fetching,
        cycle.settings.watch is None,
    ensures
        ({
            let chained = cycle.after_all(token_chain(tokens));
            let last = EventView::Fetched(CursorView::LastLog(at));
            &&& chained.state == PollState::Fetching
            &&& chained.after(last).state == PollState::Done
            &&& chained.action_on(last) == ActionView::Exit
        }),
{
    lemma_token_chain_keeps_window(cycle, tokens);
}

/// A run that watches pauses when the chain is exhausted, for the interval
/// of its settings, and on waking sends out one query: the one that resumes
/// at the timestamp that the chain ended on, without a token.
pub proof fn lemma_watch_resumes_at_anchor(cycle: CycleView, at: Option<i64>)
    requires
        cycle.state == PollState::Fetching,
        cycle.settings.watch is Some,
    ensures
        ({
            let idle = cycle.after(EventView::Fetched(CursorView::LastLog(at)));
            let resumed = resumed_request(cycle.settings.group, at, cycle.settings.filter, None);
            &&& idle.state == PollState::Idle
            &&& cycle.action_on(EventView::Fetched(CursorView::LastLog(at))) == ActionView::Sleep(
                cycle.settings.watch->0,
            )
            &&& idle.after(EventView::Woke).state == PollState::Fetching
            &&& idle.action_on(EventView::Woke) == ActionView::Fetch(
                resumed,
                cycle.settings.timeout,
            )
            &&& resumed.start_time == at
        }),
{
}

/// A run that watches does not end by itself: as long as no fetch fails,
/// the cycle is never done.
pub proof fn lemma_watch_never_ends(cycle: CycleView, events: Seq<EventView>)
    requires
        cycle.settings.watch is Some,
        cycle.state != PollState::Done,
        all_fetches_succeed(events),
    ensures
        cycle.after_all(events).state != PollState::Done,
        cycle.after_all(events).settings == cycle.settings,
    decreases events.len(),
{
    if events.len() > 0 {
        let before = events.drop_last();
        assert(all_fetches_succeed(before)) by {
            assert forall|i: int| 0 <= i < before.len() implies !(#[trigger] before[i] is Failed) by {
                assert(before[i] == events[i]);
            }
        }
        lemma_watch_never_ends(cycle, before);
        assert(!(events[events.len() - 1] is Failed));
    }
}

/// Once done, the cycle stays done and asks for nothing but the end.
pub proof fn lemma_done_is_final(cycle: CycleView, event: EventView)
    requires
        cycle.state == PollState::Done,
    ensures
        cycle.after(event) == cycle,
        cycle.action_on(event) == ActionView::Exit,
{
}

/// The poll cycle of one run.
#[derive(Debug)]
pub struct PollCycle {
    settings: TailSettings,
    state: PollState,
    request: FilterRequest,
}

impl View for PollCycle {
    type V = CycleView;

    closed spec fn view(&self) -> CycleView {
        CycleView { settings: self.settings@, state: self.state, request: self.request@ }
    }
}

impl PollCycle {
    #[verifier::type_invariant]
    spec fn inv(&self) -> bool {
        self@.wf()
    }

    /// Starts a run at the instant `now`: the first query looks back from
    /// there by the lookback of the settings. There is no run where the
    /// lookback leads out of the calendar.
    pub fn start(settings: TailSettings, now: &Instant) -> (begun: Result<
        (PollCycle, PollAction),
        ConfigError,
    >)
        ensures
            match begun {
                Ok((cycle, action)) => {
                    &&& window_start(now@, settings.lookback@) is Some
                    &&& cycle@ == CycleView::started(settings@, now@)
                    &&& action@ == cycle@.pending()
                    &&& cycle@.wf()
                },
                Err(error) => {
                    &&& window_start(now@, settings.lookback@) is None
                    &&& error == ConfigError::LookbackOutOfRange
                },
            },
    {
        if calculate_start_time(now, &settings.lookback).is_none() {
            return Err(ConfigError::LookbackOutOfRange);
        }
        let request = create_filter_request(
            &settings.group,
            now,
            &settings.lookback,
            copy_text(&settings.filter),
        );
        let first = copy_request(&request);
        let timeout = settings.timeout;
        let cycle = PollCycle { settings, state: PollState::Fetching, request };
        Ok((cycle, PollAction::Fetch(first, timeout)))
    }

    /// Where the cycle stands.
    pub fn state(&self) -> (state: PollState)
        ensures
            state == self@.state,
    {
        self.state
    }

    /// The settings of the run.
    pub fn settings(&self) -> (settings: &TailSettings)
        ensures
            settings@ == self@.settings,
    {
        &self.settings
    }

    /// The query of the moment.
    pub fn request(&self) -> (request: &FilterRequest)
        ensures
            request@ == self@.request,
            self@.wf(),
    {
        proof {
            use_type_invariant(self);
        }
        &self.request
    }

    /// Takes the cycle one step on: to the state after `event`, with the
    /// action that the driver is to perform next.
    pub fn advance(self, event: PollEvent) -> (next: (PollCycle, PollAction))
        ensures
            next.0@ == self@.after(event@),
            next.1@ == self@.action_on(event@),
            next.0@.wf(),
    {
        proof {
            use_type_invariant(&self);
        }
        let PollCycle { settings, state, request } = self;
        match (state, event) {
            (PollState::Fetching, PollEvent::Fetched(AWSResponse::Token(token))) => {
                let next = create_filter_from_timestamp(
                    &settings.group,
                    request.start_time,
                    copy_text(&settings.filter),
                    Some(token),
                );
                let out = copy_request(&next);
                let timeout = settings.timeout;
                (
                    PollCycle { settings, state: PollState::Fetching, request: next },
                    PollAction::Fetch(out, timeout),
                )
            },
            (PollState::Fetching, PollEvent::Fetched(AWSResponse::LastLog(at))) => {
                match settings.watch {
                    Some(pause) => {
                        let next = create_filter_from_timestamp(
                            &settings.group,
                            at,
                            copy_text(&settings.filter),
                            None,
                        );
                        (
                            PollCycle { settings, state: PollState::Idle, request: next },
                            PollAction::Sleep(pause),
                        )
                    },
                    None => (
                        PollCycle { settings, state: PollState::Done, request },
                        PollAction::Exit,
                    ),
                }
            },
            (PollState::Fetching, PollEvent::Failed(error)) => (
                PollCycle { settings, state: PollState::Done, request },
                PollAction::Abort(error),
            ),
            (PollState::Idle, PollEvent::Woke) => {
                let out = copy_request(&request);
                let timeout = settings.timeout;
                (
                    PollCycle { settings, state: PollState::Fetching, request },
                    PollAction::Fetch(out, timeout),
                )
            },
            (state, _) => {
                let action = match state {
                    PollState::Fetching => PollAction::Fetch(copy_request(&request), settings.timeout),
                    PollState::Idle => match settings.watch {
                        Some(pause) => PollAction::Sleep(pause),
                        None => PollAction::Exit,
                    },
                    PollState::Done => PollAction::Exit,
                };
                (PollCycle { settings, state, request }, action)
            },
        }
    }
}

fn copy_request(request: &FilterRequest) -> (copy: FilterRequest)
    ensures
        copy@ == request@,
{
    FilterRequest {
        log_group: request.log_group.clone(),
        start_time: request.start_time,
        continuation_token: copy_text(&request.continuation_token),
        filter_pattern: copy_text(&request.filter_pattern),
        page_size: request.page_size,
    }
}

} // verus!
