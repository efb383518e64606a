//! What holds of reading the feed, event by event.
use vstd::prelude::*;

use crate::common;
use crate::rss::{self, FeedReader, FeedView};
use crate::text;
use crate::text_laws;
use crate::xml::{self, EventView, XmlEvent};

verus! {

/// The value of an attribute is that of the first with the key, whatever it is and
/// whatever stands around it.
pub proof fn law_first_attribute_is_found(
    attributes: Seq<Option<(Seq<u8>, Seq<u8>)>>,
    i: int,
    key: Seq<u8>,
    value: Seq<u8>,
)
    requires
        0 <= i < attributes.len(),
        attributes[i] == Some((key, value)),
        forall|j: int|
            0 <= j < i ==> !((#[trigger] attributes[j]) is Some && (attributes[j]->0).0 == key),
    ensures
        rss::attribute_value(attributes, key) == Some(value),
    decreases attributes.len(),
{
    if i > 0 {
        assert(!(attributes[0] is Some && (attributes[0]->0).0 == key));
        let rest = attributes.skip(1);
        assert forall|j: int| 0 <= j < i - 1 implies !((#[trigger] rest[j]) is Some && (
        rest[j]->0).0 == key) by {
            assert(rest[j] == attributes[j + 1]);
        }
        law_first_attribute_is_found(rest, i - 1, key, value);
    }
}

/// There is no value exactly where no attribute has the key.
pub proof fn law_missing_attributes(attributes: Seq<Option<(Seq<u8>, Seq<u8>)>>, key: Seq<u8>)
    ensures
        rss::attribute_value(attributes, key) is None <==> forall|j: int|
            0 <= j < attributes.len() ==> !((#[trigger] attributes[j]) is Some && (
            attributes[j]->0).0 == key),
    decreases attributes.len(),
{
    if attributes.len() > 0 {
        let rest = attributes.skip(1);
        law_missing_attributes(rest, key);
        let here = attributes[0] is Some && (attributes[0]->0).0 == key;
        if !here && rss::attribute_value(rest, key) is None {
            assert forall|j: int| 0 <= j < attributes.len() implies !((
            #[trigger] attributes[j]) is Some && (attributes[j]->0).0 == key) by {
                if j > 0 {
                    assert(rest[j - 1] == attributes[j]);
                }
            }
        } else if !here {
            let k = choose|k: int|
                0 <= k < rest.len() && (#[trigger] rest[k]) is Some && (rest[k]->0).0 == key;
            assert(attributes[k + 1] == rest[k]);
        }
    }
}

/// The same of the attributes of an event: the value is the bytes of the first with the
/// key.
pub proof fn law_first_attribute_of_an_event(
    attributes: Vec<Option<(Vec<u8>, Vec<u8>)>>,
    i: int,
    key: Vec<u8>,
    value: Vec<u8>,
)
    requires
        0 <= i < attributes@.len(),
        attributes@[i] == Some((key, value)),
        forall|j: int|
            0 <= j < i ==> !((#[trigger] attributes@[j]) is Some && (attributes@[j]->0).0@
                == key@),
    ensures
        rss::attribute_value(xml::attributes_view(attributes@), key@) == Some(value@),
{
    let all = xml::attributes_view(attributes@);
    assert forall|j: int| 0 <= j < i implies !((#[trigger] all[j]) is Some && (all[j]->0).0
        == key@) by {
        assert(!(attributes@[j] is Some && (attributes@[j]->0).0@ == key@));
    }
    law_first_attribute_is_found(all, i, key@, value@);
}

/// Bytes of UTF-8 are read as the text that they encode, any others as
/// `String::from_utf8_lossy` reads them.
pub proof fn law_attributes_are_read(s: Seq<char>, bytes: Seq<u8>)
    ensures
        rss::attribute_text(vstd::utf8::encode_utf8(s)) == s,
        !vstd::utf8::valid_utf8(bytes) ==> rss::attribute_text(bytes) == rss::lossy_utf8(bytes),
        rss::name_bytes(s) == vstd::utf8::encode_utf8(s),
{
    vstd::utf8::encode_utf8_valid_utf8(s);
    vstd::utf8::encode_utf8_decode_utf8(s);
}

/// Dashes in an accession number count for nothing, wherever they stand; without them it
/// is read as any number.
pub proof fn law_dashes_count_for_nothing(front: Seq<char>, back: Seq<char>)
    ensures
        rss::accession_of(front + seq!['-'] + back) == rss::accession_of(front + back),
        !front.contains('-') ==> rss::accession_of(front) == text::read_u64(front),
{
    let keep = |c: char| c != '-';
    Seq::filter_distributes_over_add(front + seq!['-'], back, keep);
    Seq::filter_distributes_over_add(front, seq!['-'], keep);
    Seq::filter_distributes_over_add(front, back, keep);
    reveal_with_fuel(Seq::filter, 2);
    assert(seq!['-'].drop_last() =~= Seq::<char>::empty());
    assert((front + seq!['-']).filter(keep) =~= front.filter(keep));
    if !front.contains('-') {
        lemma_nothing_is_left_out(front);
    }
}

proof fn lemma_nothing_is_left_out(s: Seq<char>)
    requires
        !s.contains('-'),
    ensures
        s.filter(|c: char| c != '-') == s,
    decreases s.len(),
{
    reveal(Seq::filter);
    if s.len() > 0 {
        let rest = s.drop_last();
        assert(s.contains(s[s.len() - 1]));
        assert(!rest.contains('-')) by {
            if rest.contains('-') {
                let i = choose|i: int| 0 <= i < rest.len() && rest[i] == '-';
                assert(s[i] == '-');
            }
        }
        lemma_nothing_is_left_out(rest);
        assert(rest.push(s.last()) =~= s);
    }
}

/// The filer's number stands in the last but one group that begins with a parenthesis,
/// or before the only one, up to a closing parenthesis.
pub proof fn law_filer_in_a_title(
    front: Seq<char>,
    number: Seq<char>,
    rest: Seq<char>,
    last: Seq<char>,
)
    requires
        !number.contains('('),
        !number.contains(')'),
        !rest.contains('('),
        !last.contains('('),
    ensures
        rss::title_cik(front + seq!['('] + (number + seq![')'] + rest) + seq!['('] + last)
            == text::read_u64(number),
        rss::title_cik(front + seq!['('] + number + seq!['('] + last) == text::read_u64(number),
        rss::title_cik((number + seq![')'] + rest) + seq!['('] + last) == text::read_u64(number),
        rss::title_cik(number + seq!['('] + last) == text::read_u64(number),
{
    let group = number + seq![')'] + rest;
    assert(!group.contains('(')) by {
        if group.contains('(') {
            let i = choose|i: int| 0 <= i < group.len() && group[i] == '(';
            if i < number.len() {
                assert(number[i] == '(');
            } else if i > number.len() {
                assert(rest[i - number.len() - 1] == '(');
            }
        }
    }
    text_laws::law_cut_at_the_first_separator(number, rest, ')');
    text_laws::law_parted_at_the_last_separator(front + seq!['('] + group, last, '(');
    text_laws::law_parted_at_the_last_separator(front, group, '(');
    text_laws::law_parted_at_the_last_separator(front + seq!['('] + number, last, '(');
    text_laws::law_parted_at_the_last_separator(front, number, '(');
    text_laws::law_parted_at_the_last_separator(group, last, '(');
    text_laws::law_parted_at_the_last_separator(number, last, '(');
}

/// A summary says when a filing was made behind the first `Filed:</b>`; the white space
/// around it is left out.
pub proof fn law_date_in_a_summary(front: Seq<char>, back: Seq<char>, other: Seq<char>)
    requires
        forall|j: int|
            0 <= j < front.len() ==> !"Filed:</b>"@.is_prefix_of(
                #[trigger] (front + "Filed:</b>"@ + back).skip(j),
            ),
        forall|j: int| 0 <= j <= other.len() ==> !"Filed:</b>"@.is_prefix_of(
            #[trigger] other.skip(j),
        ),
    ensures
        rss::filed_text(front + "Filed:</b>"@ + back) == Some(text::trimmed(back)),
        rss::filed_text(other) is None,
{
    text_laws::law_the_rest_stands_behind(front, "Filed:</b>"@, back);
    text_laws::law_nothing_stands_behind_what_is_missing(other, "Filed:</b>"@);
}

/// Of all start tags, with or without an end of their own, three are looked at: a category
/// gives the form, a summary begins anew, and a title begins. Each leaves all else as it
/// is, and any other tag leaves everything.
pub proof fn law_start_tags(
    state: FeedView,
    name: Seq<u8>,
    attributes: Seq<Option<(Seq<u8>, Seq<u8>)>>,
)
    ensures
        state.next(EventView::Empty { name, attributes }) == state.next(
            EventView::Start { name, attributes },
        ),
        state.next(
            EventView::Start { name: vstd::utf8::encode_utf8("summary"@), attributes },
        ) == (FeedView { in_summary: true, summary: Seq::empty(), ..state }),
        state.next(EventView::Start { name: vstd::utf8::encode_utf8("title"@), attributes }) == (
        FeedView { in_title: true, ..state }),
        match rss::attribute_value(attributes, vstd::utf8::encode_utf8("term"@)) {
            Some(term) => state.next(
                EventView::Start { name: vstd::utf8::encode_utf8("category"@), attributes },
            ) == (FeedView { submission_type: rss::attribute_text(term), ..state }),
            None => state.next(
                EventView::Start { name: vstd::utf8::encode_utf8("category"@), attributes },
            ) == state,
        },
        name != vstd::utf8::encode_utf8("summary"@) && name != vstd::utf8::encode_utf8("title"@)
            && name != vstd::utf8::encode_utf8("category"@) ==> state.next(
            EventView::Start { name, attributes },
        ) == state,
{
    rss::lemma_names_differ();
}

/// Texts in a summary are put together, so that one in pieces is the same as one in
/// whole.
pub proof fn law_texts_in_a_summary(state: FeedView, first: Seq<char>, second: Seq<char>)
    requires
        state.in_summary,
    ensures
        state.next(EventView::Text(Some(first))) == (FeedView {
            summary: state.summary + first,
            ..state
        }),
        state.next(EventView::Text(Some(first))).next(EventView::Text(Some(second)))
            == state.next(EventView::Text(Some(first + second))),
{
    assert(state.summary + first + second =~= state.summary + (first + second));
}

/// A title outside a summary names the filer where it has a parenthesis.
pub proof fn law_texts_in_a_title(state: FeedView, s: Seq<char>)
    requires
        !state.in_summary,
        state.in_title,
    ensures
        s.contains('(') ==> state.next(EventView::Text(Some(s))) == (FeedView {
            cik: rss::title_cik(s),
            ..state
        }),
        !s.contains('(') ==> state.next(EventView::Text(Some(s))) == state,
{
}

/// Outside a summary and a title, a text that begins with `urn:tag:sec.gov` gives the
/// accession number, which stands behind its last `=`; any other changes nothing.
pub proof fn law_other_texts(state: FeedView, front: Seq<char>, number: Seq<char>, s: Seq<char>)
    requires
        !state.in_summary,
        !state.in_title,
        !number.contains('='),
    ensures
        state.next(EventView::Text(Some("urn:tag:sec.gov"@ + front + seq!['='] + number))) == (
        FeedView { accession: rss::accession_of(number), ..state }),
        state.next(EventView::Text(Some("urn:tag:sec.gov"@ + number))) == (FeedView {
            accession: rss::accession_of("urn:tag:sec.gov"@ + number),
            ..state
        }),
        !"urn:tag:sec.gov"@.is_prefix_of(s) ==> state.next(EventView::Text(Some(s))) == state,
{
    let pat = "urn:tag:sec.gov"@;
    reveal_strlit("urn:tag:sec.gov");
    let whole = pat + front + seq!['='] + number;
    text_laws::law_parted_at_the_last_separator(pat + front, number, '=');
    assert(pat =~= whole.subrange(0, pat.len() as int));
    let short = pat + number;
    assert(pat =~= short.subrange(0, pat.len() as int));
    assert(!short.contains('=')) by {
        if short.contains('=') {
            let i = choose|i: int| 0 <= i < short.len() && short[i] == '=';
            if i >= pat.len() {
                assert(number[i - pat.len()] == '=');
            }
        }
    }
    text_laws::law_parted_at_the_last_separator(front, short, '=');
}

/// A text whose entities could not be replaced, the end of the feed, what is not
/// well-formed, and what is neither a tag nor a text change nothing.
pub proof fn law_other_events(state: FeedView, words: Seq<char>)
    ensures
        state.next(EventView::Text(None)) == state,
        state.next(EventView::Eof) == state,
        state.next(EventView::Failed(words)) == state,
        state.next(EventView::Other) == state,
{
    reveal_strlit("urn:tag:sec.gov");
    assert(state.summary + Seq::<char>::empty() =~= state.summary);
}

/// The end of a title and of a summary ends it. The date of the filing is the first ten
/// bytes of what the summary says, where it says when the filing was made. Nothing else
/// changes.
pub proof fn law_end_of_title_and_summary(state: FeedView, date: Seq<char>, rest: Seq<char>)
    requires
        vstd::utf8::encode_utf8(date).len() == 10,
    ensures
        state.next(EventView::End { name: vstd::utf8::encode_utf8("title"@) }) == (FeedView {
            in_title: false,
            ..state
        }),
        rss::filed_text(state.summary) is None ==> state.next(
            EventView::End { name: vstd::utf8::encode_utf8("summary"@) },
        ) == (FeedView { in_summary: false, ..state }),
        rss::filed_text(state.summary) == Some(date + rest) ==> state.next(
            EventView::End { name: vstd::utf8::encode_utf8("summary"@) },
        ) == (FeedView { in_summary: false, filing_date: date, ..state }),
{
    rss::lemma_names_differ();
    text_laws::law_bytes_of_a_beginning(date, rest);
}

/// The end of an entry with an accession number gives a filing with what was read of the
/// entry; without one it gives none. What was read is forgotten either way, and the
/// filings before it are kept.
pub proof fn law_end_of_an_entry(state: FeedView, i: int)
    ensures
        ({
            let next = state.next(EventView::End { name: vstd::utf8::encode_utf8("entry"@) });
            &&& next.accession is None
            &&& next.cik is None
            &&& next.submission_type.len() == 0
            &&& next.filing_date.len() == 0
            &&& next.in_summary == state.in_summary
            &&& next.in_title == state.in_title
            &&& next.summary == state.summary
            &&& 0 <= i < state.submissions.len() ==> next.submissions[i] == state.submissions[i]
            &&& state.accession is None ==> next.submissions == state.submissions
            &&& state.accession is Some ==> {
                let filing = next.submissions.last();
                &&& next.submissions.len() == state.submissions.len() + 1
                &&& filing.accession == state.accession->0
                &&& filing.submission_type == state.submission_type
                &&& filing.filing_date == state.filing_date
                &&& state.cik is Some ==> filing.ciks == seq![state.cik->0]
                &&& state.cik is None ==> filing.ciks.len() == 0
            }
        }),
{
    rss::lemma_names_differ();
}

/// No end tag but those of a title, a summary and an entry changes anything.
pub proof fn law_other_end_tags(state: FeedView, name: Seq<u8>)
    requires
        name != vstd::utf8::encode_utf8("title"@),
        name != vstd::utf8::encode_utf8("summary"@),
        name != vstd::utf8::encode_utf8("entry"@),
    ensures
        state.next(EventView::End { name }) == state,
{
}

/// Before the first event nothing is known; each event is taken behind those before it.
pub proof fn law_events_are_taken_in_order(events: Seq<EventView>, event: EventView)
    ensures
        ({
            let start = rss::feed_after(Seq::empty());
            &&& start.accession is None
            &&& start.cik is None
            &&& start.submission_type.len() == 0
            &&& start.filing_date.len() == 0
            &&& !start.in_summary
            &&& !start.in_title
            &&& start.summary.len() == 0
            &&& start.submissions.len() == 0
            &&& start == rss::new_feed()
        }),
        rss::feed_after(events.push(event)) == rss::feed_after(events).next(event),
{
    assert(events.push(event).drop_last() =~= events);
}

/// A feed is readable exactly where every summary that ends in it and says when the
/// filing was made says it in at least ten bytes of whole characters.
pub proof fn law_readable_feeds(events: Seq<EventView>, event: EventView)
    ensures
        rss::feed_is_readable(Seq::empty()),
        rss::feed_is_readable(events.push(event)) <==> rss::feed_is_readable(events) && (event == (
        EventView::End { name: vstd::utf8::encode_utf8("summary"@) }) && rss::filed_text(
            rss::feed_after(events).summary,
        ) is Some ==> text::has_byte_prefix(
            rss::filed_text(rss::feed_after(events).summary)->0,
            10,
        )),
        rss::feed_after(events).can_read(event) <==> (event == (EventView::End {
            name: vstd::utf8::encode_utf8("summary"@),
        }) && rss::filed_text(rss::feed_after(events).summary) is Some ==> text::has_byte_prefix(
            rss::filed_text(rss::feed_after(events).summary)->0,
            10,
        )),
{
    assert(events.push(event).drop_last() =~= events);
}

/// A date takes ten bytes where there is one.
pub proof fn law_dates(date: Seq<char>)
    ensures
        rss::is_date(date) <==> date.len() == 0 || vstd::utf8::encode_utf8(date).len() == 10,
{
}

/// Ended entries are counted one by one.
pub proof fn law_ended_entries(first: Seq<EventView>, second: Seq<EventView>, event: EventView)
    ensures
        rss::entries_ended(first + second) == rss::entries_ended(first) + rss::entries_ended(
            second,
        ),
        rss::entries_ended(seq![event]) == if event == (EventView::End {
            name: vstd::utf8::encode_utf8("entry"@),
        }) {
            1nat
        } else {
            0nat
        },
{
    let ends = |event: EventView| event == EventView::End { name: rss::name_bytes("entry"@) };
    Seq::filter_distributes_over_add(first, second, ends);
    reveal_with_fuel(Seq::filter, 2);
    assert(seq![event].drop_last() =~= Seq::<EventView>::empty());
}

/// The view of a reader holds all that the reader does.
pub proof fn law_readers_are_viewed_whole(reader: FeedReader)
    ensures
        reader@.accession == reader.accession,
        reader@.cik == reader.cik,
        reader@.submission_type == reader.submission_type@,
        reader@.filing_date == reader.filing_date@,
        reader@.in_summary == reader.in_summary,
        reader@.in_title == reader.in_title,
        reader@.summary == reader.summary@,
        reader@.submissions == common::submissions_view(reader.submissions@),
{
}

/// The view of an event holds all that the event does.
pub proof fn law_xml_events_are_viewed_whole(event: XmlEvent)
    ensures
        match event {
            XmlEvent::Start { name, attributes } => event@ == (EventView::Start {
                name: name@,
                attributes: xml::attributes_view(attributes@),
            }),
            XmlEvent::Empty { name, attributes } => event@ == (EventView::Empty {
                name: name@,
                attributes: xml::attributes_view(attributes@),
            }),
            XmlEvent::Text(Some(s)) => event@ == EventView::Text(Some(s@)),
            XmlEvent::Text(None) => event@ == EventView::Text(None),
            XmlEvent::End { name } => event@ == (EventView::End { name: name@ }),
            XmlEvent::Eof => event@ == EventView::Eof,
            XmlEvent::Failed(words) => event@ == EventView::Failed(words@),
            XmlEvent::Other => event@ == EventView::Other,
        },
{
}

/// The view of attributes has one for each, with its key and its value.
pub proof fn law_attributes_are_viewed_whole(
    attributes: Seq<Option<(Vec<u8>, Vec<u8>)>>,
    i: int,
)
    ensures
        xml::attributes_view(attributes).len() == attributes.len(),
        0 <= i < attributes.len() ==> match attributes[i] {
            Some((key, value)) => xml::attributes_view(attributes)[i] == Some((key@, value@)),
            None => xml::attributes_view(attributes)[i] is None,
        },
{
}

/// The view of events has one for each, in their order; only the end of the text and what
/// is not well-formed come last.
pub proof fn law_rows_of_events_are_viewed_whole(events: Seq<XmlEvent>, i: int, event: EventView)
    ensures
        xml::events_view(events).len() == events.len(),
        0 <= i < events.len() ==> xml::events_view(events)[i] == events[i]@,
        event.is_last() <==> event is Eof || event is Failed,
{
}

} // verus!
