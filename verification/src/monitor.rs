//! The monitor of new SEC filings: when it polls the feed, when it validates
//! against the full-text search, how long it rests, and what it reports.
use vstd::prelude::*;

use crate::accessions::{self, filter_new, no_accessions};
use crate::common::{self, Submission, SubmissionView};

verus! {

/// Nanoseconds in a millisecond.
pub const NANOS_PER_MILLI: i128 = 1_000_000;

#[verifier::external_type_specification]
#[verifier::external_body]
pub struct ExNaiveDate(chrono::NaiveDate);

/// How new filings are looked for.
pub struct Monitor {
    pub polling_interval_ms: u64,
    pub validation_interval_ms: u64,
    pub start_date: Option<chrono::NaiveDate>,
    pub use_rss: bool,
    pub use_efts: bool,
}

impl Default for Monitor {
    /// Polls the feed five times a second and validates once a minute, from now on.
    fn default() -> (monitor: Self)
        ensures
            monitor == (Monitor {
                polling_interval_ms: 200,
                validation_interval_ms: 60_000,
                start_date: None,
                use_rss: true,
                use_efts: true,
            }),
    {
        Monitor {
            polling_interval_ms: 200,
            validation_interval_ms: 60_000,
            start_date: None,
            use_rss: true,
            use_efts: true,
        }
    }
}

impl Monitor {
    /// The default monitor.
    pub fn new() -> (monitor: Self)
        ensures
            monitor == (Monitor {
                polling_interval_ms: 200,
                validation_interval_ms: 60_000,
                start_date: None,
                use_rss: true,
                use_efts: true,
            }),
    {
        Monitor::default()
    }

    /// Polls the feed that often.
    pub fn polling_interval_ms(self, ms: u64) -> (monitor: Self)
        ensures
            monitor == (Monitor { polling_interval_ms: ms, ..self }),
    {
        Monitor { polling_interval_ms: ms, ..self }
    }

    /// Validates that often.
    pub fn validation_interval_ms(self, ms: u64) -> (monitor: Self)
        ensures
            monitor == (Monitor { validation_interval_ms: ms, ..self }),
    {
        Monitor { validation_interval_ms: ms, ..self }
    }

    /// Reports the filings from that day on first.
    pub fn start_date(self, date: chrono::NaiveDate) -> (monitor: Self)
        ensures
            monitor == (Monitor { start_date: Some(date), ..self }),
    {
        Monitor { start_date: Some(date), ..self }
    }

    /// Whether to poll the feed.
    pub fn use_rss(self, val: bool) -> (monitor: Self)
        ensures
            monitor == (Monitor { use_rss: val, ..self }),
    {
        Monitor { use_rss: val, ..self }
    }

    /// Whether to validate.
    pub fn use_efts(self, val: bool) -> (monitor: Self)
        ensures
            monitor == (Monitor { use_efts: val, ..self }),
    {
        Monitor { use_efts: val, ..self }
    }

    /// The monitor at work. At least one of the two sources must be in use.
    pub fn build(self) -> (running: MonitorLoop)
        requires
            self.use_rss || self.use_efts,
        ensures
            running@ == started(self),
            running@.is_valid(),
    {
        MonitorLoop {
            monitor: self,
            accessions: no_accessions(),
            last_poll: 0,
            last_validation: 0,
            phase: Phase::Starting,
        }
    }
}

/// What a monitor at work waits for.
#[derive(Debug, Clone, Copy, PartialEq, Eq, Structural)]
pub enum Phase {
    /// The word to start.
    Starting,
    /// The next batch of the backfill.
    Backfilling,
    /// That the new filings of the backfill were taken.
    ReportingBackfill,
    /// The time from which the intervals count.
    Arming,
    /// The time by which it decides what is due.
    Deciding,
    /// The filings of the day.
    Validating,
    /// That the new filings of the day were taken.
    ReportingValidation,
    /// The time of the validation.
    MarkingValidation,
    /// The filings of the feed.
    Polling,
    /// That the new filings of the feed were taken.
    ReportingPoll,
    /// The time of the poll.
    MarkingPoll,
    /// The time by which it decides how long to rest.
    Resting,
    /// The end of its rest.
    Sleeping,
}

/// A reading of a clock, in nanoseconds, and whether the clock can also tell the time
/// one interval earlier.
#[derive(Debug, Clone, Copy, PartialEq, Eq, Structural)]
pub struct ClockMark {
    pub at: u64,
    pub reaches_back: bool,
}

/// What a monitor at work is told.
#[derive(Debug)]
pub enum MonitorEvent {
    Start,
    /// The next batch of the backfill.
    Backfilled(Vec<Submission>),
    /// The backfill is over.
    BackfillEnded,
    /// The filings that were reported have been taken.
    Taken,
    /// A reading for each of the two intervals.
    Armed { poll: ClockMark, validation: ClockMark },
    /// A reading of the clock.
    Clock(u64),
    /// The filings of the day.
    Validated(Vec<Submission>),
    /// The filings of the feed, if it could be read.
    Polled(Option<Vec<Submission>>),
    /// The rest is over.
    Slept,
}

/// What a monitor at work asks for.
#[derive(Debug)]
pub enum MonitorAction {
    /// Begin the backfill from that day to today, and give its first batch.
    BeginBackfill(chrono::NaiveDate),
    /// Give the next batch of the backfill.
    ContinueBackfill,
    /// Report these filings.
    Report(Vec<Submission>),
    /// Read the clock for each of the two intervals.
    Arm,
    /// Read the clock.
    ReadClock,
    /// Fetch the filings of the day.
    Validate,
    /// Fetch the filings of the feed.
    Poll,
    /// Rest for that many nanoseconds.
    Sleep(u128),
}

/// A monitor at work.
pub struct MonitorLoop {
    pub monitor: Monitor,
    pub accessions: indexmap::IndexSet<u64>,
    /// When the feed was polled last, in nanoseconds.
    pub last_poll: i128,
    /// When it validated last, in nanoseconds.
    pub last_validation: i128,
    pub phase: Phase,
}

pub enum MonitorEventView {
    Start,
    Backfilled(Seq<SubmissionView>),
    BackfillEnded,
    Taken,
    Armed { poll: ClockMark, validation: ClockMark },
    Clock(u64),
    Validated(Seq<SubmissionView>),
    Polled(Option<Seq<SubmissionView>>),
    Slept,
}

pub enum MonitorActionView {
    BeginBackfill(chrono::NaiveDate),
    ContinueBackfill,
    Report(Seq<SubmissionView>),
    Arm,
    ReadClock,
    Validate,
    Poll,
    Sleep(nat),
}

pub struct LoopView {
    pub monitor: Monitor,
    pub seen: Seq<u64>,
    pub last_poll: int,
    pub last_validation: int,
    pub phase: Phase,
}

impl View for MonitorEvent {
    type V = MonitorEventView;

    open spec fn view(&self) -> MonitorEventView {
        match self {
            MonitorEvent::Start => MonitorEventView::Start,
            MonitorEvent::Backfilled(batch) => MonitorEventView::Backfilled(
                common::submissions_view(batch@),
            ),
            MonitorEvent::BackfillEnded => MonitorEventView::BackfillEnded,
            MonitorEvent::Taken => MonitorEventView::Taken,
            MonitorEvent::Armed { poll, validation } => MonitorEventView::Armed {
                poll: *poll,
                validation: *validation,
            },
            MonitorEvent::Clock(now) => MonitorEventView::Clock(*now),
            MonitorEvent::Validated(batch) => MonitorEventView::Validated(
                common::submissions_view(batch@),
            ),
            MonitorEvent::Polled(Some(batch)) => MonitorEventView::Polled(
                Some(common::submissions_view(batch@)),
            ),
            MonitorEvent::Polled(None) => MonitorEventView::Polled(None),
            MonitorEvent::Slept => MonitorEventView::Slept,
        }
    }
}

impl View for MonitorAction {
    type V = MonitorActionView;

    open spec fn view(&self) -> MonitorActionView {
        match self {
            MonitorAction::BeginBackfill(date) => MonitorActionView::BeginBackfill(*date),
            MonitorAction::ContinueBackfill => MonitorActionView::ContinueBackfill,
            MonitorAction::Report(batch) => MonitorActionView::Report(
                common::submissions_view(batch@),
            ),
            MonitorAction::Arm => MonitorActionView::Arm,
            MonitorAction::ReadClock => MonitorActionView::ReadClock,
            MonitorAction::Validate => MonitorActionView::Validate,
            MonitorAction::Poll => MonitorActionView::Poll,
            MonitorAction::Sleep(nanos) => MonitorActionView::Sleep(*nanos as nat),
        }
    }
}

impl View for MonitorLoop {
    type V = LoopView;

    open spec fn view(&self) -> LoopView {
        LoopView {
            monitor: self.monitor,
            seen: accessions::seen_order(self.accessions),
            last_poll: self.last_poll as int,
            last_validation: self.last_validation as int,
            phase: self.phase,
        }
    }
}

/// A monitor before its first event.
pub open spec fn started(monitor: Monitor) -> LoopView {
    LoopView {
        monitor,
        seen: Seq::empty(),
        last_poll: 0,
        last_validation: 0,
        phase: Phase::Starting,
    }
}

/// An interval in nanoseconds.
pub open spec fn nanos(ms: u64) -> int {
    ms * NANOS_PER_MILLI
}

/// The time from which an interval counts at the start: one interval before the
/// reading, so that it is over at once, or the reading itself where the clock does
/// not reach back so far.
pub open spec fn first_mark(mark: ClockMark, ms: u64) -> int {
    if mark.reaches_back {
        mark.at - nanos(ms)
    } else {
        mark.at as int
    }
}

/// The interval since `last` is over. A clock that went back counts as no time.
pub open spec fn is_due(now: u64, last: int, ms: u64) -> bool {
    (if now >= last {
        now - last
    } else {
        0
    }) >= nanos(ms)
}

impl LoopView {
    /// At least one source is in use, what is remembered is without repetition and
    /// within its limit, and no mark lies further back than the clock and one
    /// interval allow.
    pub open spec fn is_valid(self) -> bool {
        &&& self.monitor.use_rss || self.monitor.use_efts
        &&& accessions::is_window(self.seen)
        &&& -nanos(self.monitor.polling_interval_ms) <= self.last_poll <= u64::MAX
        &&& -nanos(self.monitor.validation_interval_ms) <= self.last_validation <= u64::MAX
    }

    pub open spec fn at(self, phase: Phase) -> LoopView {
        LoopView { phase, ..self }
    }

    /// The validation is in use and due.
    pub open spec fn validation_is_due(self, now: u64) -> bool {
        self.monitor.use_efts && is_due(
            now,
            self.last_validation,
            self.monitor.validation_interval_ms,
        )
    }

    /// The poll is in use and due.
    pub open spec fn poll_is_due(self, now: u64) -> bool {
        self.monitor.use_rss && is_due(now, self.last_poll, self.monitor.polling_interval_ms)
    }

    pub open spec fn next_poll(self) -> int {
        self.last_poll + nanos(self.monitor.polling_interval_ms)
    }

    pub open spec fn next_validation(self) -> int {
        self.last_validation + nanos(self.monitor.validation_interval_ms)
    }

    /// When the next of the sources in use is due.
    pub open spec fn wake(self) -> int {
        if !self.monitor.use_efts {
            self.next_poll()
        } else if !self.monitor.use_rss {
            self.next_validation()
        } else if self.next_poll() <= self.next_validation() {
            self.next_poll()
        } else {
            self.next_validation()
        }
    }

    /// Reports what is new in a batch; where nothing is, goes on as it would when
    /// what was reported has been taken.
    pub open spec fn report(
        self,
        batch: Seq<SubmissionView>,
        reporting: Phase,
        otherwise: Phase,
        action: MonitorActionView,
    ) -> (LoopView, MonitorActionView) {
        let new = accessions::new_in(batch, self.seen);
        let next = LoopView { seen: accessions::seen_after(batch, self.seen), ..self };
        if new.len() > 0 {
            (next.at(reporting), MonitorActionView::Report(new))
        } else {
            (next.at(otherwise), action)
        }
    }

    /// What a monitor does with an event, and what it is then; nothing where it does
    /// not wait for such an event.
    pub open spec fn react(self, event: MonitorEventView) -> Option<(LoopView, MonitorActionView)> {
        match (self.phase, event) {
            (Phase::Starting, MonitorEventView::Start) => match self.monitor.start_date {
                Some(date) => Some(
                    (self.at(Phase::Backfilling), MonitorActionView::BeginBackfill(date)),
                ),
                None => Some((self.at(Phase::Arming), MonitorActionView::Arm)),
            },
            (Phase::Backfilling, MonitorEventView::Backfilled(batch)) => Some(
                self.report(
                    batch,
                    Phase::ReportingBackfill,
                    Phase::Backfilling,
                    MonitorActionView::ContinueBackfill,
                ),
            ),
            (Phase::ReportingBackfill, MonitorEventView::Taken) => Some(
                (self.at(Phase::Backfilling), MonitorActionView::ContinueBackfill),
            ),
            (Phase::Backfilling, MonitorEventView::BackfillEnded) => Some(
                (self.at(Phase::Arming), MonitorActionView::Arm),
            ),
            (Phase::Arming, MonitorEventView::Armed { poll, validation }) => Some(
                (
                    LoopView {
                        last_poll: first_mark(poll, self.monitor.polling_interval_ms),
                        last_validation: first_mark(
                            validation,
                            self.monitor.validation_interval_ms,
                        ),
                        phase: Phase::Deciding,
                        ..self
                    },
                    MonitorActionView::ReadClock,
                ),
            ),
            (Phase::Deciding, MonitorEventView::Clock(now)) => if self.validation_is_due(now) {
                Some((self.at(Phase::Validating), MonitorActionView::Validate))
            } else if self.poll_is_due(now) {
                Some((self.at(Phase::Polling), MonitorActionView::Poll))
            } else {
                Some((self.at(Phase::Resting), MonitorActionView::ReadClock))
            },
            (Phase::Validating, MonitorEventView::Validated(batch)) => Some(
                self.report(
                    batch,
                    Phase::ReportingValidation,
                    Phase::MarkingValidation,
                    MonitorActionView::ReadClock,
                ),
            ),
            (Phase::ReportingValidation, MonitorEventView::Taken) => Some(
                (self.at(Phase::MarkingValidation), MonitorActionView::ReadClock),
            ),
            (Phase::MarkingValidation, MonitorEventView::Clock(now)) => Some(
                (
                    LoopView { last_validation: now as int, phase: Phase::Deciding, ..self },
                    MonitorActionView::ReadClock,
                ),
            ),
            (Phase::Polling, MonitorEventView::Polled(Some(batch))) => Some(
                self.report(
                    batch,
                    Phase::ReportingPoll,
                    Phase::MarkingPoll,
                    MonitorActionView::ReadClock,
                ),
            ),
            (Phase::Polling, MonitorEventView::Polled(None)) => Some(
                (self.at(Phase::MarkingPoll), MonitorActionView::ReadClock),
            ),
            (Phase::ReportingPoll, MonitorEventView::Taken) => Some(
                (self.at(Phase::MarkingPoll), MonitorActionView::ReadClock),
            ),
            (Phase::MarkingPoll, MonitorEventView::Clock(now)) => Some(
                (
                    LoopView { last_poll: now as int, phase: Phase::Resting, ..self },
                    MonitorActionView::ReadClock,
                ),
            ),
            (Phase::Resting, MonitorEventView::Clock(now)) => if self.wake() > now {
                Some(
                    (
                        self.at(Phase::Sleeping),
                        MonitorActionView::Sleep((self.wake() - now) as nat),
                    ),
                )
            } else {
                Some((self.at(Phase::Deciding), MonitorActionView::ReadClock))
            },
            (Phase::Sleeping, MonitorEventView::Slept) => Some(
                (self.at(Phase::Deciding), MonitorActionView::ReadClock),
            ),
            _ => None,
        }
    }
}

/// An interval in nanoseconds.
fn interval(ms: u64) -> (nanoseconds: i128)
    ensures
        nanoseconds == nanos(ms),
        0 <= nanoseconds <= u64::MAX * NANOS_PER_MILLI,
{
    ms as i128 * NANOS_PER_MILLI
}

/// The time from which an interval counts at the start.
fn mark_before(mark: ClockMark, ms: u64) -> (last: i128)
    ensures
        last == first_mark(mark, ms),
{
    if mark.reaches_back {
        mark.at as i128 - interval(ms)
    } else {
        mark.at as i128
    }
}

/// Whether the interval since `last` is over.
fn interval_is_over(now: u64, last: i128, ms: u64) -> (due: bool)
    requires
        -nanos(ms) <= last <= u64::MAX,
    ensures
        due == is_due(now, last as int, ms),
{
    let elapsed: i128 = if now as i128 >= last {
        now as i128 - last
    } else {
        0
    };
    elapsed >= interval(ms)
}

impl MonitorLoop {
    /// When the next of the sources in use is due.
    fn next_wake(&self) -> (wake: i128)
        requires
            self@.is_valid(),
        ensures
            wake == self@.wake(),
            wake <= u64::MAX + u64::MAX * NANOS_PER_MILLI,
    {
        let poll: i128 = self.last_poll + interval(self.monitor.polling_interval_ms);
        let validation: i128 = self.last_validation + interval(
            self.monitor.validation_interval_ms,
        );
        if !self.monitor.use_efts {
            poll
        } else if !self.monitor.use_rss || validation < poll {
            validation
        } else {
            poll
        }
    }

    /// Reports what is new in a batch.
    fn report(
        &mut self,
        batch: Vec<Submission>,
        reporting: Phase,
        otherwise: Phase,
        action: MonitorAction,
    ) -> (chosen: MonitorAction)
        requires
            old(self)@.is_valid(),
        ensures
            final(self)@.is_valid(),
            (final(self)@, chosen@) == old(self)@.report(
                common::submissions_view(batch@),
                reporting,
                otherwise,
                action@,
            ),
    {
        proof {
            accessions::law_window_is_kept(
                common::submissions_view(batch@),
                self@.seen,
            );
        }
        let new = filter_new(batch, &mut self.accessions);
        if new.len() > 0 {
            self.phase = reporting;
            MonitorAction::Report(new)
        } else {
            self.phase = otherwise;
            action
        }
    }

    /// Takes an event and says what to do next; nothing, and nothing changes, where
    /// such an event is not waited for.
    pub fn step(&mut self, event: MonitorEvent) -> (action: Option<MonitorAction>)
        requires
            old(self)@.is_valid(),
        ensures
            final(self)@.is_valid(),
            match action {
                Some(action) => old(self)@.react(event@) == Some((final(self)@, action@)),
                None => old(self)@.react(event@) is None && final(self)@ == old(self)@,
            },
    {
        match (self.phase, event) {
            (Phase::Starting, MonitorEvent::Start) => match self.monitor.start_date {
                Some(date) => {
                    self.phase = Phase::Backfilling;
                    Some(MonitorAction::BeginBackfill(date))
                },
                None => {
                    self.phase = Phase::Arming;
                    Some(MonitorAction::Arm)
                },
            },
            (Phase::Backfilling, MonitorEvent::Backfilled(batch)) => Some(
                self.report(
                    batch,
                    Phase::ReportingBackfill,
                    Phase::Backfilling,
                    MonitorAction::ContinueBackfill,
                ),
            ),
            (Phase::ReportingBackfill, MonitorEvent::Taken) => {
                self.phase = Phase::Backfilling;
                Some(MonitorAction::ContinueBackfill)
            },
            (Phase::Backfilling, MonitorEvent::BackfillEnded) => {
                self.phase = Phase::Arming;
                Some(MonitorAction::Arm)
            },
            (Phase::Arming, MonitorEvent::Armed { poll, validation }) => {
                self.last_poll = mark_before(poll, self.monitor.polling_interval_ms);
                self.last_validation = mark_before(
                    validation,
                    self.monitor.validation_interval_ms,
                );
                self.phase = Phase::Deciding;
                Some(MonitorAction::ReadClock)
            },
            (Phase::Deciding, MonitorEvent::Clock(now)) => {
                if self.monitor.use_efts && interval_is_over(
                    now,
                    self.last_validation,
                    self.monitor.validation_interval_ms,
                ) {
                    self.phase = Phase::Validating;
                    return Some(MonitorAction::Validate);
                }
                if self.monitor.use_rss && interval_is_over(
                    now,
                    self.last_poll,
                    self.monitor.polling_interval_ms,
                ) {
                    self.phase = Phase::Polling;
                    return Some(MonitorAction::Poll);
                }
                self.phase = Phase::Resting;
                Some(MonitorAction::ReadClock)
            },
            (Phase::Validating, MonitorEvent::Validated(batch)) => Some(
                self.report(
                    batch,
                    Phase::ReportingValidation,
                    Phase::MarkingValidation,
                    MonitorAction::ReadClock,
                ),
            ),
            (Phase::ReportingValidation, MonitorEvent::Taken) => {
                self.phase = Phase::MarkingValidation;
                Some(MonitorAction::ReadClock)
            },
            (Phase::MarkingValidation, MonitorEvent::Clock(now)) => {
                self.last_validation = now as i128;
                self.phase = Phase::Deciding;
                Some(MonitorAction::ReadClock)
            },
            (Phase::Polling, MonitorEvent::Polled(Some(batch))) => Some(
                self.report(
                    batch,
                    Phase::ReportingPoll,
                    Phase::MarkingPoll,
                    MonitorAction::ReadClock,
                ),
            ),
            (Phase::Polling, MonitorEvent::Polled(None)) => {
                self.phase = Phase::MarkingPoll;
                Some(MonitorAction::ReadClock)
            },
            (Phase::ReportingPoll, MonitorEvent::Taken) => {
                self.phase = Phase::MarkingPoll;
                Some(MonitorAction::ReadClock)
            },
            (Phase::MarkingPoll, MonitorEvent::Clock(now)) => {
                self.last_poll = now as i128;
                self.phase = Phase::Resting;
                Some(MonitorAction::ReadClock)
            },
            (Phase::Resting, MonitorEvent::Clock(now)) => {
                let wake: i128 = self.next_wake();
                if wake > now as i128 {
                    self.phase = Phase::Sleeping;
                    Some(MonitorAction::Sleep((wake - now as i128) as u128))
                } else {
                    self.phase = Phase::Deciding;
                    Some(MonitorAction::ReadClock)
                }
            },
            (Phase::Sleeping, MonitorEvent::Slept) => {
                self.phase = Phase::Deciding;
                Some(MonitorAction::ReadClock)
            },
            _ => None,
        }
    }
}

/// The filings that an action reports.
pub open spec fn reported(action: MonitorActionView) -> Seq<SubmissionView> {
    match action {
        MonitorActionView::Report(batch) => batch,
        _ => Seq::empty(),
    }
}

/// The event is what the action asks for.
pub open spec fn answers(action: MonitorActionView, event: MonitorEventView) -> bool {
    match action {
        MonitorActionView::BeginBackfill(_) | MonitorActionView::ContinueBackfill => event
            is Backfilled || event is BackfillEnded,
        MonitorActionView::Report(_) => event is Taken,
        MonitorActionView::Arm => event is Armed,
        MonitorActionView::ReadClock => event is Clock,
        MonitorActionView::Validate => event is Validated,
        MonitorActionView::Poll => event is Polled,
        MonitorActionView::Sleep(_) => event is Slept,
    }
}

/// A monitor that gets what it asks for always goes on: it starts when it is told to,
/// and after every action it waits for what the action asks for.
pub proof fn law_monitor_goes_on(
    state: LoopView,
    event: MonitorEventView,
    answer: MonitorEventView,
)
    requires
        state.react(event) is Some,
        answers((state.react(event)->0).1, answer),
    ensures
        (state.react(event)->0).0.react(answer) is Some,
        started(state.monitor).react(MonitorEventView::Start) is Some,
{
}

/// What a monitor reports is not empty, and the numbers that it remembers are always
/// those that it reported last, whether an event brings anything new or not.
pub proof fn law_reported_numbers_are_remembered(state: LoopView, event: MonitorEventView)
    requires
        state.is_valid(),
        state.react(event) is Some,
    ensures
        ({
            let (next, action) = state.react(event)->0;
            &&& action is Report ==> reported(action).len() > 0
            &&& next.seen == accessions::newest(
                state.seen + accessions::numbers_of(reported(action)),
            )
            &&& next.monitor == state.monitor
        }),
{
    let (next, action) = state.react(event)->0;
    match event {
        MonitorEventView::Backfilled(batch) => {
            accessions::law_newest_numbers_are_remembered(batch, state.seen);
        },
        MonitorEventView::Validated(batch) => {
            accessions::law_newest_numbers_are_remembered(batch, state.seen);
        },
        MonitorEventView::Polled(Some(batch)) => {
            accessions::law_newest_numbers_are_remembered(batch, state.seen);
        },
        _ => {},
    }
    if action is Report {
    } else {
        let none = accessions::numbers_of(Seq::empty());
        assert(accessions::numbers_of(reported(action)) =~= none);
        assert(state.seen + none =~= state.seen);
        match event {
            MonitorEventView::Backfilled(batch) => {
                assert(accessions::new_in(batch, state.seen) =~= Seq::empty());
            },
            MonitorEventView::Validated(batch) => {
                assert(accessions::new_in(batch, state.seen) =~= Seq::empty());
            },
            MonitorEventView::Polled(Some(batch)) => {
                assert(accessions::new_in(batch, state.seen) =~= Seq::empty());
            },
            _ => {},
        }
    }
}

/// A source that is not in use is left alone, none is asked before it is due, and the
/// feed is not polled while a validation is due.
pub proof fn law_validation_goes_first(state: LoopView, event: MonitorEventView)
    requires
        state.react(event) is Some,
    ensures
        ({
            let (next, action) = state.react(event)->0;
            &&& action is Validate ==> event is Clock && state.validation_is_due(event->Clock_0)
            &&& action is Poll ==> event is Clock && state.poll_is_due(event->Clock_0)
                && !state.validation_is_due(event->Clock_0)
        }),
{
}

/// A monitor rests exactly until the first of its sources is due: where it rests, none
/// is due before the end of the rest and one is from then on; where it does not, one is
/// due already.
pub proof fn law_rest_ends_when_a_source_is_due(state: LoopView, now: u64, later: u64)
    requires
        state.is_valid(),
        state.phase == Phase::Resting,
        state.last_poll <= now <= later,
        state.last_validation <= now,
    ensures
        state.react(MonitorEventView::Clock(now)) is Some,
        match (state.react(MonitorEventView::Clock(now))->0).1 {
            MonitorActionView::Sleep(rest) => (state.validation_is_due(later) || state.poll_is_due(
                later,
            )) <==> later >= now + rest,
            _ => state.validation_is_due(now) || state.poll_is_due(now),
        },
{
}

/// Where the clock reaches back one interval, the first round begins at once: with the
/// validation, or with the feed where the validation is not in use.
pub proof fn law_first_round_begins_at_once(
    state: LoopView,
    poll: ClockMark,
    validation: ClockMark,
    now: u64,
)
    requires
        state.is_valid(),
        state.phase == Phase::Arming,
        poll.reaches_back,
        validation.reaches_back,
        poll.at <= now,
        validation.at <= now,
    ensures
        ({
            let (armed, action) = state.react(MonitorEventView::Armed { poll, validation })->0;
            let first = (armed.react(MonitorEventView::Clock(now))->0).1;
            &&& action is ReadClock
            &&& first == if state.monitor.use_efts {
                MonitorActionView::Validate
            } else {
                MonitorActionView::Poll
            }
        }),
{
}

/// Whatever a monitor is told, it stays valid.
pub proof fn law_monitor_stays_valid(state: LoopView, event: MonitorEventView)
    requires
        state.is_valid(),
        state.react(event) is Some,
    ensures
        (state.react(event)->0).0.is_valid(),
{
    match event {
        MonitorEventView::Backfilled(batch) => {
            accessions::law_window_is_kept(batch, state.seen);
        },
        MonitorEventView::Validated(batch) => {
            accessions::law_window_is_kept(batch, state.seen);
        },
        MonitorEventView::Polled(Some(batch)) => {
            accessions::law_window_is_kept(batch, state.seen);
        },
        _ => {},
    }
}

/// A monitor after a row of events, and the numbers of all filings that it has reported,
/// in their order. An event that is not waited for changes nothing.
pub open spec fn run_of(monitor: Monitor, events: Seq<MonitorEventView>) -> (LoopView, Seq<u64>)
    decreases events.len(),
{
    if events.len() == 0 {
        (started(monitor), Seq::empty())
    } else {
        let (state, numbers) = run_of(monitor, events.drop_last());
        match state.react(events.last()) {
            Some((next, action)) => (next, numbers + accessions::numbers_of(reported(action))),
            None => (state, numbers),
        }
    }
}

/// Over a whole run, whatever a monitor is told, it reports a number again only when at
/// least as many others have been reported since as it can remember. What it remembers
/// are the numbers that it reported last.
pub proof fn law_repeats_are_far_apart(monitor: Monitor, events: Seq<MonitorEventView>)
    requires
        monitor.use_rss || monitor.use_efts,
    ensures
        accessions::repeats_are_far_apart(run_of(monitor, events).1),
        run_of(monitor, events).0.seen == accessions::newest(run_of(monitor, events).1),
        run_of(monitor, events).0.is_valid(),
        run_of(monitor, events).0.monitor == monitor,
    decreases events.len(),
{
    if events.len() > 0 {
        law_repeats_are_far_apart(monitor, events.drop_last());
        let (state, numbers) = run_of(monitor, events.drop_last());
        let event = events.last();
        if let Some((next, action)) = state.react(event) {
            law_monitor_stays_valid(state, event);
            law_reported_numbers_are_remembered(state, event);
            let new = accessions::numbers_of(reported(action));
            accessions::lemma_newest_of_newest(numbers, new);
            if action is Report {
                match event {
                    MonitorEventView::Backfilled(batch) => {
                        accessions::law_repeats_stay_far_apart(numbers, batch);
                    },
                    MonitorEventView::Validated(batch) => {
                        accessions::law_repeats_stay_far_apart(numbers, batch);
                    },
                    MonitorEventView::Polled(Some(batch)) => {
                        accessions::law_repeats_stay_far_apart(numbers, batch);
                    },
                    _ => {},
                }
            } else {
                assert(numbers + new =~= numbers);
            }
        }
    }
}

} // verus!
