//! What holds of a monitor at work, event by event and over several events.
use vstd::prelude::*;

use crate::accessions;
use crate::common::{self, Submission, SubmissionView};
use crate::monitor::{
    self, ClockMark, LoopView, Monitor, MonitorAction, MonitorActionView, MonitorEvent,
    MonitorEventView, MonitorLoop, Phase,
};

verus! {

/// A view of filings keeps all of them, in their order, with all that they hold.
pub proof fn law_filings_keep_their_fields(submissions: Seq<Submission>, i: int)
    requires
        0 <= i < submissions.len(),
    ensures
        common::submissions_view(submissions).len() == submissions.len(),
        ({
            let seen = common::submissions_view(submissions)[i];
            &&& seen.accession == submissions[i].accession
            &&& seen.submission_type == submissions[i].submission_type@
            &&& seen.ciks == submissions[i].ciks@
            &&& seen.filing_date == submissions[i].filing_date@
            &&& seen == submissions[i]@
        }),
{
}

/// No filings are viewed as none.
pub proof fn law_no_filings()
    ensures
        common::submissions_view(Seq::empty()) == Seq::<SubmissionView>::empty(),
{
    assert(common::submissions_view(Seq::empty()) =~= Seq::<SubmissionView>::empty());
}

/// A single filing is new exactly where its number is not remembered. A new number
/// becomes the last that is remembered; the first of fifty thousand makes room for it.
/// Nothing new comes in an empty batch.
pub proof fn law_one_filing(filing: SubmissionView, seen: Seq<u64>)
    requires
        seen.len() <= 50_000,
    ensures
        seen.contains(filing.accession) ==> {
            &&& accessions::new_in(seq![filing], seen) == Seq::<SubmissionView>::empty()
            &&& accessions::seen_after(seq![filing], seen) == seen
        },
        !seen.contains(filing.accession) ==> {
            &&& accessions::new_in(seq![filing], seen) == seq![filing]
            &&& seen.len() < 50_000 ==> accessions::seen_after(seq![filing], seen) == seen
                + seq![filing.accession]
            &&& seen.len() == 50_000 ==> accessions::seen_after(seq![filing], seen)
                == seen.subrange(1, 50_000) + seq![filing.accession]
        },
        accessions::new_in(Seq::empty(), seen) == Seq::<SubmissionView>::empty(),
        accessions::seen_after(Seq::empty(), seen) == seen,
{
    let batch = seq![filing];
    reveal_with_fuel(accessions::new_in, 2);
    reveal_with_fuel(accessions::seen_after, 2);
    assert(batch.drop_last() =~= Seq::<SubmissionView>::empty());
    assert(batch.last() == filing);
    if !seen.contains(filing.accession) {
        assert(accessions::new_in(batch, seen) =~= batch);
        assert(seen.push(filing.accession) =~= seen + seq![filing.accession]);
        if seen.len() == 50_000 {
            assert(seen.skip(1).push(filing.accession) =~= seen.subrange(1, 50_000)
                + seq![filing.accession]);
        }
    }
}

/// A window holds at most fifty thousand numbers, each once.
pub proof fn law_windows_have_a_limit(seen: Seq<u64>)
    ensures
        accessions::is_window(seen) <==> seen.no_duplicates() && seen.len() <= 50_000,
{
}

/// The newest numbers are the last fifty thousand.
pub proof fn law_newest_are_the_last(older: Seq<u64>, last: Seq<u64>)
    ensures
        last.len() <= 50_000 ==> accessions::newest(last) == last,
        last.len() == 50_000 ==> accessions::newest(older + last) == last,
{
    if last.len() == 50_000 {
        assert(accessions::newest(older + last) =~= last);
    }
}

/// Numbers are those of the filings, one for each.
pub proof fn law_numbers_of_filings(batch: Seq<SubmissionView>, i: int)
    ensures
        accessions::numbers_of(batch).len() == batch.len(),
        0 <= i < batch.len() ==> accessions::numbers_of(batch)[i] == batch[i].accession,
{
}

/// Equal numbers that lie far apart have fifty thousand others between them, and any
/// numbers of which no two are equal lie far apart.
pub proof fn law_far_apart(numbers: Seq<u64>, i: int, j: int)
    ensures
        accessions::repeats_are_far_apart(numbers) && 0 <= i < j < numbers.len() && numbers[i]
            == numbers[j] ==> j - i > 50_000,
        numbers.no_duplicates() ==> accessions::repeats_are_far_apart(numbers),
{
}

/// The filings of an event that brings any, whichever source they come from.
pub open spec fn brought(event: MonitorEventView) -> Option<Seq<SubmissionView>> {
    match event {
        MonitorEventView::Backfilled(batch) => Some(batch),
        MonitorEventView::Validated(batch) => Some(batch),
        MonitorEventView::Polled(batch) => batch,
        _ => None,
    }
}

/// Whatever source a batch comes from, all of it is looked at: what is reported are
/// exactly the filings of the whole batch that are new, all its numbers are remembered,
/// and every filing has a number that was remembered before or that is reported now.
/// An event without a batch reports nothing and leaves what is remembered as it is.
pub proof fn law_whole_batches_are_reported(state: LoopView, event: MonitorEventView, i: int)
    requires
        state.is_valid(),
        state.react(event) is Some,
    ensures
        ({
            let (next, action) = state.react(event)->0;
            match brought(event) {
                Some(batch) => {
                    &&& monitor::reported(action) == accessions::new_in(batch, state.seen)
                    &&& next.seen == accessions::seen_after(batch, state.seen)
                    &&& 0 <= i < batch.len() ==> state.seen.contains(batch[i].accession)
                        || accessions::numbers_of(monitor::reported(action)).contains(
                        batch[i].accession,
                    )
                },
                None => {
                    &&& monitor::reported(action) == Seq::<SubmissionView>::empty()
                    &&& next.seen == state.seen
                },
            }
        }),
{
    if let Some(batch) = brought(event) {
        if 0 <= i < batch.len() {
            accessions::law_nothing_is_lost(batch, state.seen, i);
        }
        assert(monitor::reported((state.react(event)->0).1) =~= accessions::new_in(
            batch,
            state.seen,
        ));
    }
}

/// What an action reports is what it carries to be reported, and nothing otherwise.
pub proof fn law_what_is_reported(action: MonitorActionView, batch: Seq<SubmissionView>)
    ensures
        action == MonitorActionView::Report(batch) ==> monitor::reported(action) == batch,
        !(action is Report) ==> monitor::reported(action).len() == 0,
{
}

/// A batch of the backfill is reported where it brings anything new; then, or else at
/// once, the next one is asked for. The end of the backfill arms the intervals.
pub proof fn law_backfill_goes_on(state: LoopView, batch: Seq<SubmissionView>)
    requires
        state.is_valid(),
        state.phase == Phase::Backfilling,
    ensures
        ({
            let new = accessions::new_in(batch, state.seen);
            let (next, action) = state.react(MonitorEventView::Backfilled(batch))->0;
            let (taken, then_action) = next.react(MonitorEventView::Taken)->0;
            let looked_at = LoopView {
                seen: accessions::seen_after(batch, state.seen),
                phase: Phase::Backfilling,
                ..state
            };
            &&& state.react(MonitorEventView::Backfilled(batch)) is Some
            &&& new.len() == 0 ==> action == MonitorActionView::ContinueBackfill && next
                == looked_at
            &&& new.len() > 0 ==> {
                &&& action == MonitorActionView::Report(new)
                &&& next.react(MonitorEventView::Taken) is Some
                &&& then_action == MonitorActionView::ContinueBackfill
                &&& taken == looked_at
            }
        }),
        state.react(MonitorEventView::BackfillEnded) == Some(
            (LoopView { phase: Phase::Arming, ..state }, MonitorActionView::Arm),
        ),
{
}

/// After a validation, whether it brings anything new or not, the time of the validation
/// is read, and then the time to decide by; nothing but that time and what is remembered
/// has changed.
pub proof fn law_validation_is_marked(
    state: LoopView,
    batch: Seq<SubmissionView>,
    marked: u64,
)
    requires
        state.is_valid(),
        state.phase == Phase::Validating,
    ensures
        ({
            let new = accessions::new_in(batch, state.seen);
            let (first, action) = state.react(MonitorEventView::Validated(batch))->0;
            let waiting = if new.len() > 0 {
                (first.react(MonitorEventView::Taken)->0).0
            } else {
                first
            };
            let asked = if new.len() > 0 {
                (first.react(MonitorEventView::Taken)->0).1
            } else {
                action
            };
            &&& state.react(MonitorEventView::Validated(batch)) is Some
            &&& new.len() > 0 ==> action == MonitorActionView::Report(new)
                && first.react(MonitorEventView::Taken) is Some
            &&& asked == MonitorActionView::ReadClock
            &&& waiting.react(MonitorEventView::Clock(marked)) == Some(
                (
                    LoopView {
                        seen: accessions::seen_after(batch, state.seen),
                        last_validation: marked as int,
                        phase: Phase::Deciding,
                        ..state
                    },
                    MonitorActionView::ReadClock,
                ),
            )
        }),
{
}

/// After a poll, whether the feed could be read or not and whether it brings anything new
/// or not, the time of the poll is read, and then the time to rest by; nothing but that
/// time and what is remembered has changed.
pub proof fn law_poll_is_marked(
    state: LoopView,
    feed: Option<Seq<SubmissionView>>,
    marked: u64,
)
    requires
        state.is_valid(),
        state.phase == Phase::Polling,
    ensures
        ({
            let batch = match feed {
                Some(batch) => batch,
                None => Seq::empty(),
            };
            let new = accessions::new_in(batch, state.seen);
            let (first, action) = state.react(MonitorEventView::Polled(feed))->0;
            let waiting = if new.len() > 0 {
                (first.react(MonitorEventView::Taken)->0).0
            } else {
                first
            };
            let asked = if new.len() > 0 {
                (first.react(MonitorEventView::Taken)->0).1
            } else {
                action
            };
            &&& state.react(MonitorEventView::Polled(feed)) is Some
            &&& new.len() > 0 ==> action == MonitorActionView::Report(new)
                && first.react(MonitorEventView::Taken) is Some
            &&& asked == MonitorActionView::ReadClock
            &&& waiting.react(MonitorEventView::Clock(marked)) == Some(
                (
                    LoopView {
                        seen: accessions::seen_after(batch, state.seen),
                        last_poll: marked as int,
                        phase: Phase::Resting,
                        ..state
                    },
                    MonitorActionView::ReadClock,
                ),
            )
        }),
{
}

/// A monitor that is told to start begins with the backfill from its start date, where it
/// has one, and otherwise arms its intervals at once. Before that it remembers nothing.
pub proof fn law_backfill_comes_first(settings: Monitor)
    ensures
        ({
            let state = monitor::started(settings);
            &&& state.monitor == settings
            &&& state.seen.len() == 0
            &&& state.last_poll == 0
            &&& state.last_validation == 0
            &&& settings.start_date is None ==> state.react(MonitorEventView::Start) == Some(
                (LoopView { phase: Phase::Arming, ..state }, MonitorActionView::Arm),
            )
            &&& settings.start_date is Some ==> state.react(MonitorEventView::Start) == Some(
                (
                    LoopView { phase: Phase::Backfilling, ..state },
                    MonitorActionView::BeginBackfill(settings.start_date->0),
                ),
            )
        }),
{
}

/// The intervals count from the readings, or from one interval before them where the
/// clock reaches back so far. A millisecond has a million nanoseconds.
pub proof fn law_intervals_are_armed(state: LoopView, poll: ClockMark, validation: ClockMark)
    requires
        state.phase == Phase::Arming,
    ensures
        state.react(MonitorEventView::Armed { poll, validation }) is Some,
        ({
            let (next, action) = state.react(MonitorEventView::Armed { poll, validation })->0;
            &&& action == MonitorActionView::ReadClock
            &&& next.phase == Phase::Deciding
            &&& next.seen == state.seen
            &&& next.monitor == state.monitor
            &&& poll.at - next.last_poll == if poll.reaches_back {
                state.monitor.polling_interval_ms * 1_000_000
            } else {
                0
            }
            &&& validation.at - next.last_validation == if validation.reaches_back {
                state.monitor.validation_interval_ms * 1_000_000
            } else {
                0
            }
        }),
{
}

/// A source is asked as soon as its interval is over: the validation first, then the
/// feed. Where neither is to be asked, the monitor reads the clock again to rest. Nothing
/// else changes.
pub proof fn law_decision(state: LoopView, now: u64)
    requires
        state.phase == Phase::Deciding,
    ensures
        state.react(MonitorEventView::Clock(now)) is Some,
        ({
            let (next, action) = state.react(MonitorEventView::Clock(now))->0;
            let settings = state.monitor;
            let validates = settings.use_efts && (settings.validation_interval_ms == 0 || now
                >= state.last_validation + settings.validation_interval_ms * 1_000_000);
            let polls = settings.use_rss && (settings.polling_interval_ms == 0 || now
                >= state.last_poll + settings.polling_interval_ms * 1_000_000);
            &&& action is Validate <==> validates
            &&& action is Poll <==> polls && !validates
            &&& action is ReadClock <==> !polls && !validates
            &&& action is Validate ==> next == (LoopView { phase: Phase::Validating, ..state })
            &&& action is Poll ==> next == (LoopView { phase: Phase::Polling, ..state })
            &&& action is ReadClock ==> next == (LoopView { phase: Phase::Resting, ..state })
        }),
{
    let settings = state.monitor;
    assert(monitor::nanos(settings.validation_interval_ms) == settings.validation_interval_ms
        * 1_000_000);
    assert(monitor::nanos(settings.polling_interval_ms) == settings.polling_interval_ms
        * 1_000_000);
}

/// A rest ends when the interval of a source in use is over, and of two sources the one
/// that is over first. Where one is over already there is no rest, and after a rest the
/// monitor decides again.
pub proof fn law_rest(state: LoopView, now: u64)
    requires
        state.is_valid(),
        state.phase == Phase::Resting,
    ensures
        state.react(MonitorEventView::Clock(now)) is Some,
        ({
            let (next, action) = state.react(MonitorEventView::Clock(now))->0;
            let settings = state.monitor;
            let validation = state.last_validation + settings.validation_interval_ms * 1_000_000;
            let poll = state.last_poll + settings.polling_interval_ms * 1_000_000;
            let over = (settings.use_efts && validation <= now) || (settings.use_rss && poll
                <= now);
            &&& over ==> action is ReadClock && next == (LoopView {
                phase: Phase::Deciding,
                ..state
            })
            &&& !over ==> {
                &&& action is Sleep
                &&& settings.use_efts ==> now + action->Sleep_0 <= validation
                &&& settings.use_rss ==> now + action->Sleep_0 <= poll
                &&& (settings.use_efts && now + action->Sleep_0 == validation) || (
                settings.use_rss && now + action->Sleep_0 == poll)
                &&& next == (LoopView { phase: Phase::Sleeping, ..state })
                &&& next.react(MonitorEventView::Slept) == Some(
                    (LoopView { phase: Phase::Deciding, ..state }, MonitorActionView::ReadClock),
                )
            }
        }),
{
}

/// A monitor reacts to nothing but what its last action asks for, and before its first
/// event only to the word to start.
pub proof fn law_nothing_else_is_taken(
    state: LoopView,
    event: MonitorEventView,
    other: MonitorEventView,
)
    requires
        state.react(event) is Some,
    ensures
        ({
            let (next, action) = state.react(event)->0;
            next.react(other) is Some <==> match action {
                MonitorActionView::BeginBackfill(_) => other is Backfilled
                    || other is BackfillEnded,
                MonitorActionView::ContinueBackfill => other is Backfilled
                    || other is BackfillEnded,
                MonitorActionView::Report(_) => other is Taken,
                MonitorActionView::Arm => other is Armed,
                MonitorActionView::ReadClock => other is Clock,
                MonitorActionView::Validate => other is Validated,
                MonitorActionView::Poll => other is Polled,
                MonitorActionView::Sleep(_) => other is Slept,
            }
        }),
        monitor::started(state.monitor).react(other) is Some <==> other is Start,
{
}

/// A monitor is valid where a source is in use, at most fifty thousand numbers are
/// remembered, each once, and no mark lies more than one interval before the clock began.
pub proof fn law_valid_monitors(state: LoopView)
    ensures
        state.is_valid() <==> {
            &&& state.monitor.use_rss || state.monitor.use_efts
            &&& state.seen.no_duplicates()
            &&& state.seen.len() <= 50_000
            &&& 0 <= state.last_poll + state.monitor.polling_interval_ms * 1_000_000
            &&& state.last_poll <= 0xffff_ffff_ffff_ffff
            &&& 0 <= state.last_validation + state.monitor.validation_interval_ms * 1_000_000
            &&& state.last_validation <= 0xffff_ffff_ffff_ffff
        },
{
}

/// The view of an event holds all that the event brings.
pub proof fn law_events_are_viewed_whole(event: MonitorEvent)
    ensures
        match event {
            MonitorEvent::Start => event@ == MonitorEventView::Start,
            MonitorEvent::Backfilled(batch) => event@ is Backfilled && event@->Backfilled_0
                == common::submissions_view(batch@),
            MonitorEvent::BackfillEnded => event@ == MonitorEventView::BackfillEnded,
            MonitorEvent::Taken => event@ == MonitorEventView::Taken,
            MonitorEvent::Armed { poll, validation } => event@ == (MonitorEventView::Armed {
                poll,
                validation,
            }),
            MonitorEvent::Clock(now) => event@ == MonitorEventView::Clock(now),
            MonitorEvent::Validated(batch) => event@ is Validated && event@->Validated_0
                == common::submissions_view(batch@),
            MonitorEvent::Polled(Some(batch)) => event@ == MonitorEventView::Polled(
                Some(common::submissions_view(batch@)),
            ),
            MonitorEvent::Polled(None) => event@ == MonitorEventView::Polled(None),
            MonitorEvent::Slept => event@ == MonitorEventView::Slept,
        },
{
}

/// The view of an action holds all that the action asks for.
pub proof fn law_actions_are_viewed_whole(action: MonitorAction)
    ensures
        match action {
            MonitorAction::BeginBackfill(date) => action@ == MonitorActionView::BeginBackfill(
                date,
            ),
            MonitorAction::ContinueBackfill => action@ == MonitorActionView::ContinueBackfill,
            MonitorAction::Report(batch) => action@ is Report && action@->Report_0
                == common::submissions_view(batch@),
            MonitorAction::Arm => action@ == MonitorActionView::Arm,
            MonitorAction::ReadClock => action@ == MonitorActionView::ReadClock,
            MonitorAction::Validate => action@ == MonitorActionView::Validate,
            MonitorAction::Poll => action@ == MonitorActionView::Poll,
            MonitorAction::Sleep(nanos) => action@ is Sleep && action@->Sleep_0 == nanos,
        },
{
}

/// The view of a monitor at work holds its settings, its marks and what it remembers.
pub proof fn law_monitors_are_viewed_whole(running: MonitorLoop)
    ensures
        running@.monitor == running.monitor,
        running@.seen == accessions::seen_order(running.accessions),
        running@.last_poll == running.last_poll,
        running@.last_validation == running.last_validation,
        running@.phase == running.phase,
{
}

} // verus!
