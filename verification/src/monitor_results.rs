//! What the functions of the feed and of the monitor give back, in terms of what they are
//! given.
use vstd::prelude::*;

use crate::accessions::{self, filter_new, no_accessions};
use crate::common::{self, Submission};
use crate::compression_util::{
    compress_bytes, zstd_outcome, CompressionError, CompressionType,
};
use crate::feed_laws;
use crate::monitor::{self, Monitor, MonitorAction, MonitorEvent, MonitorLoop, Phase};
use crate::monitor_laws;
use crate::rss::{
    self, parse_rss, read_accession, read_title, submissions_in, try_parse_rss, FeedReader,
};
use crate::text;
use crate::xml::{self, read_event, read_events, EventView, RawEvent, XmlEvent};

verus! {

/// A monitor polls every two hundred milliseconds and validates once a minute, both
/// sources are in use, and nothing is backfilled, unless it is told otherwise.
pub proof fn law_result_of_making_a_monitor(fresh: Monitor, default: Monitor)
    requires
        call_ensures(Monitor::new, (), fresh),
        call_ensures(<Monitor as Default>::default, (), default),
    ensures
        fresh.polling_interval_ms == 200,
        fresh.validation_interval_ms == 60_000,
        fresh.start_date is None,
        fresh.use_rss,
        fresh.use_efts,
        default == fresh,
{
}

/// Each setting is changed alone and to what is asked for.
pub proof fn law_results_of_setting_a_monitor(
    settings: Monitor,
    ms: u64,
    date: chrono::NaiveDate,
    val: bool,
    polling: Monitor,
    validating: Monitor,
    dated: Monitor,
    fed: Monitor,
    searched: Monitor,
)
    requires
        call_ensures(Monitor::polling_interval_ms, (settings, ms), polling),
        call_ensures(Monitor::validation_interval_ms, (settings, ms), validating),
        call_ensures(Monitor::start_date, (settings, date), dated),
        call_ensures(Monitor::use_rss, (settings, val), fed),
        call_ensures(Monitor::use_efts, (settings, val), searched),
    ensures
        polling == (Monitor { polling_interval_ms: ms, ..settings }),
        validating == (Monitor { validation_interval_ms: ms, ..settings }),
        dated == (Monitor { start_date: Some(date), ..settings }),
        fed == (Monitor { use_rss: val, ..settings }),
        searched == (Monitor { use_efts: val, ..settings }),
{
}

/// A monitor at work begins with its settings, with nothing remembered, and waits for the
/// word to start.
pub proof fn law_result_of_building(settings: Monitor, running: MonitorLoop)
    requires
        call_ensures(Monitor::build, (settings,), running),
    ensures
        running.monitor == settings,
        accessions::seen_order(running.accessions).len() == 0,
        running.last_poll == 0,
        running.last_validation == 0,
        running.phase == Phase::Starting,
{
}

/// The filings of an event that brings any, whichever source they come from.
pub open spec fn batch_of(event: MonitorEvent) -> Option<Seq<Submission>> {
    match event {
        MonitorEvent::Backfilled(batch) => Some(batch@),
        MonitorEvent::Validated(batch) => Some(batch@),
        MonitorEvent::Polled(Some(batch)) => Some(batch@),
        _ => None,
    }
}

/// The filings that an action asks to report.
pub open spec fn report_of(action: MonitorAction) -> Seq<Submission> {
    match action {
        MonitorAction::Report(batch) => batch@,
        _ => Seq::empty(),
    }
}

/// Whatever source a batch comes from, a step looks at all of it: every filing has a
/// number that was remembered before or that the step reports, and the step reports what
/// the whole batch brings that is new. A step on any other event reports nothing and
/// remembers what was remembered. The settings never change.
pub proof fn law_results_of_a_step(event: MonitorEvent, action: MonitorAction, i: int)
    ensures
        forall|running: &mut MonitorLoop|
            running@.is_valid() && #[trigger] call_ensures(
                MonitorLoop::step,
                (running, event),
                Some(action),
            ) ==> {
                let seen = accessions::seen_order(running.accessions);
                let known = accessions::seen_order(final(running).accessions);
                let reported = common::submissions_view(report_of(action));
                &&& final(running).monitor == running.monitor
                &&& match batch_of(event) {
                    Some(batch) => {
                        &&& reported == accessions::new_in(
                            common::submissions_view(batch),
                            seen,
                        )
                        &&& known == accessions::seen_after(
                            common::submissions_view(batch),
                            seen,
                        )
                        &&& 0 <= i < batch.len() ==> seen.contains(batch[i].accession)
                            || accessions::numbers_of(reported).contains(batch[i].accession)
                    },
                    None => reported.len() == 0 && known == seen,
                }
            },
{
    assert forall|running: &mut MonitorLoop|
        running@.is_valid() && #[trigger] call_ensures(
            MonitorLoop::step,
            (running, event),
            Some(action),
        ) implies {
        let seen = accessions::seen_order(running.accessions);
        let known = accessions::seen_order(final(running).accessions);
        let reported = common::submissions_view(report_of(action));
        &&& final(running).monitor == running.monitor
        &&& match batch_of(event) {
            Some(batch) => {
                &&& reported == accessions::new_in(common::submissions_view(batch), seen)
                &&& known == accessions::seen_after(common::submissions_view(batch), seen)
                &&& 0 <= i < batch.len() ==> seen.contains(batch[i].accession)
                    || accessions::numbers_of(reported).contains(batch[i].accession)
            },
            None => reported.len() == 0 && known == seen,
        }
    } by {
        let state = running@;
        let (next, asked) = state.react(event@)->0;
        assert(next == final(running)@ && asked == action@);
        monitor_laws::law_whole_batches_are_reported(state, event@, i);
        monitor::law_reported_numbers_are_remembered(state, event@);
        monitor_laws::law_no_filings();
        assert(monitor::reported(action@) == common::submissions_view(report_of(action)));
        if let Some(batch) = batch_of(event) {
            assert(monitor_laws::brought(event@) == Some(common::submissions_view(batch)));
            if 0 <= i < batch.len() {
                assert(common::submissions_view(batch)[i].accession == batch[i].accession);
            }
        }
    }
}

/// A step that is not waited for changes nothing, and every step keeps the monitor valid.
pub proof fn law_results_of_other_steps(event: MonitorEvent, action: Option<MonitorAction>)
    ensures
        forall|running: &mut MonitorLoop|
            running@.is_valid() && #[trigger] call_ensures(
                MonitorLoop::step,
                (running, event),
                action,
            ) ==> {
                &&& final(running)@.is_valid()
                &&& action is Some <==> running@.react(event@) is Some
                &&& action is None ==> final(running)@ == running@
                &&& action is Some ==> running@.react(event@) == Some(
                    (final(running)@, action->0@),
                )
            },
{
}

/// The clock decides as it should: a step on a reading validates where the validation is
/// in use and its interval is over, else polls where the poll is, and else rests.
pub proof fn law_results_of_deciding(now: u64, action: MonitorAction)
    ensures
        forall|running: &mut MonitorLoop|
            running@.is_valid() && running.phase == Phase::Deciding && #[trigger] call_ensures(
                MonitorLoop::step,
                (running, MonitorEvent::Clock(now)),
                Some(action),
            ) ==> {
                let settings = running.monitor;
                let validates = settings.use_efts && (settings.validation_interval_ms == 0 || now
                    >= running.last_validation + settings.validation_interval_ms * 1_000_000);
                let polls = settings.use_rss && (settings.polling_interval_ms == 0 || now
                    >= running.last_poll + settings.polling_interval_ms * 1_000_000);
                &&& action is Validate <==> validates
                &&& action is Poll <==> polls && !validates
                &&& final(running).last_poll == running.last_poll
                &&& final(running).last_validation == running.last_validation
            },
{
    assert forall|running: &mut MonitorLoop|
        running@.is_valid() && running.phase == Phase::Deciding && #[trigger] call_ensures(
            MonitorLoop::step,
            (running, MonitorEvent::Clock(now)),
            Some(action),
        ) implies {
        let settings = running.monitor;
        let validates = settings.use_efts && (settings.validation_interval_ms == 0 || now
            >= running.last_validation + settings.validation_interval_ms * 1_000_000);
        let polls = settings.use_rss && (settings.polling_interval_ms == 0 || now
            >= running.last_poll + settings.polling_interval_ms * 1_000_000);
        &&& action is Validate <==> validates
        &&& action is Poll <==> polls && !validates
        &&& final(running).last_poll == running.last_poll
        &&& final(running).last_validation == running.last_validation
    } by {
        monitor_laws::law_decision(running@, now);
    }
}

/// A set begins without numbers. What is new in a batch is filtered, and the numbers of the
/// whole batch are remembered: a batch in two parts gives the same as in one.
pub proof fn law_results_of_filtering(
    fresh: indexmap::IndexSet<u64>,
    batch: Vec<Submission>,
    new: Vec<Submission>,
)
    requires
        call_ensures(no_accessions, (), fresh),
    ensures
        accessions::seen_order(fresh).len() == 0,
        forall|seen: &mut indexmap::IndexSet<u64>|
            #[trigger] call_ensures(filter_new, (batch, seen), new) ==> {
                &&& common::submissions_view(new@) == accessions::new_in(
                    common::submissions_view(batch@),
                    accessions::seen_order(*seen),
                )
                &&& accessions::seen_order(*final(seen)) == accessions::seen_after(
                    common::submissions_view(batch@),
                    accessions::seen_order(*seen),
                )
            },
{
}

/// A title with no opening parenthesis names no filer; any other names the one whose number
/// stands in the last but one group, or before the only one.
pub proof fn law_result_of_reading_a_title(
    title: &str,
    cik: Option<Option<u64>>,
    front: Seq<char>,
    number: Seq<char>,
    rest: Seq<char>,
    last: Seq<char>,
)
    requires
        call_ensures(read_title, (title,), cik),
        !number.contains('('),
        !number.contains(')'),
        !rest.contains('('),
        !last.contains('('),
    ensures
        cik is None <==> !title@.contains('('),
        title@ == front + seq!['('] + (number + seq![')'] + rest) + seq!['('] + last ==> cik
            == Some(text::read_u64(number)),
        title@ == (number + seq![')'] + rest) + seq!['('] + last ==> cik == Some(
            text::read_u64(number),
        ),
{
    feed_laws::law_filer_in_a_title(front, number, rest, last);
    let long = front + seq!['('] + (number + seq![')'] + rest) + seq!['('] + last;
    assert(long[front.len() as int] == '(');
    let short = (number + seq![')'] + rest) + seq!['('] + last;
    assert(short[(number.len() + 1 + rest.len()) as int] == '(');
}

/// Dashes in an accession number count for nothing.
pub proof fn law_result_of_reading_an_accession(
    s: &str,
    dashed: &str,
    front: Seq<char>,
    back: Seq<char>,
    plain: Option<u64>,
    accession: Option<u64>,
)
    requires
        call_ensures(read_accession, (s,), plain),
        call_ensures(read_accession, (dashed,), accession),
        s@ == front + back,
        dashed@ == front + seq!['-'] + back,
    ensures
        accession == plain,
        !s@.contains('-') ==> plain == text::read_u64(s@),
{
    feed_laws::law_dashes_count_for_nothing(front, back);
    feed_laws::law_dashes_count_for_nothing(s@, back);
}

/// A reader begins with nothing known and takes each event as the laws of events say; it
/// fails only where a date cannot be read.
pub proof fn law_results_of_reading_events(fresh: FeedReader, event: XmlEvent, read: bool)
    requires
        call_ensures(FeedReader::new, (), fresh),
    ensures
        fresh.accession is None,
        fresh.cik is None,
        fresh.submission_type@.len() == 0,
        fresh.filing_date@.len() == 0,
        !fresh.in_summary,
        !fresh.in_title,
        fresh.summary@.len() == 0,
        fresh.submissions@.len() == 0,
        forall|reader: &mut FeedReader|
            #[trigger] call_ensures(FeedReader::apply, (reader, &event), read) ==> {
                &&& read <==> reader@.can_read(event@)
                &&& read ==> final(reader)@ == reader@.next(event@)
            },
{
    assert(fresh@.submissions.len() == fresh.submissions@.len());
}

/// The filings of events, and of the text of a feed, are those of its events; they are
/// given exactly where every date can be read, however they are asked for.
pub proof fn law_results_of_reading_a_feed(
    xml: &str,
    events: Vec<XmlEvent>,
    found: Option<Vec<Submission>>,
    tried: Option<Vec<Submission>>,
    parsed: Vec<Submission>,
)
    requires
        call_ensures(read_events, (xml,), events),
        call_ensures(submissions_in, (&events,), found),
        call_ensures(try_parse_rss, (xml,), tried),
        found is Some ==> call_ensures(parse_rss, (xml,), parsed),
    ensures
        found is Some <==> rss::feed_is_readable(xml::events_view(events@)),
        tried is Some <==> found is Some,
        found is Some ==> {
            &&& common::submissions_view(found->0@) == rss::feed_after(
                xml::events_view(events@),
            ).submissions
            &&& common::submissions_view(tried->0@) == common::submissions_view(found->0@)
            &&& common::submissions_view(parsed@) == common::submissions_view(found->0@)
        },
{
}

/// An event is kept as it came out of the reader.
pub proof fn law_result_of_reading_an_event(raw: RawEvent, event: XmlEvent)
    requires
        call_ensures(read_event, (&raw,), event),
    ensures
        match raw {
            RawEvent::Start(tag) => event@ == (EventView::Start {
                name: xml::start_name(tag),
                attributes: xml::start_attributes(tag),
            }),
            RawEvent::Empty(tag) => event@ == (EventView::Empty {
                name: xml::start_name(tag),
                attributes: xml::start_attributes(tag),
            }),
            RawEvent::Text(text) => event@ == EventView::Text(xml::unescaped_text(text)),
            RawEvent::End(tag) => event@ == (EventView::End { name: xml::end_name(tag) }),
            RawEvent::Eof => event@ == EventView::Eof,
            RawEvent::Failed(error) => event@ == EventView::Failed(xml::xml_error_text(error)),
            RawEvent::Other => event@ == EventView::Other,
        },
{
}

/// The same bytes at the same level give the same frame, and an outcome keeps the frame or
/// the error that it is made of.
pub proof fn law_results_of_compressing(
    level: i32,
    bytes: &[u8],
    first: Vec<u8>,
    second: Vec<u8>,
    result: Result<Vec<u8>, std::io::Error>,
    outcome: Result<Vec<u8>, CompressionError>,
)
    requires
        call_ensures(compress_bytes, (CompressionType::Zstd, level, bytes), Ok(first)),
        call_ensures(compress_bytes, (CompressionType::Zstd, level, bytes), Ok(second)),
        call_ensures(zstd_outcome, (result,), outcome),
    ensures
        first@ == second@,
        first@ == crate::compression_util::zstd_frame(bytes@, level),
        match result {
            Ok(frame) => outcome is Ok && outcome->Ok_0 == frame,
            Err(error) => outcome is Err && outcome->Err_0 == CompressionError::Zstd(error),
        },
{
}

} // verus!
