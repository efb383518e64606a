//! The feed of current SEC filings.
use vstd::prelude::*;

use crate::common::{self, Submission, SubmissionView};
use crate::text::{
    self, after_text, begins_with, cut_at_first, parse_u64, read_number, same_bytes, split_at_last,
    take_bytes, to_chars, trim_text,
};
use crate::xml::{self, read_events, EventView, XmlEvent};

verus! {

/// How far the feed has been read: what is known of the entry under way, where in
/// it the reader is, and the filings of the entries before it.
pub struct FeedReader {
    pub accession: Option<u64>,
    pub cik: Option<u64>,
    pub submission_type: String,
    pub filing_date: String,
    pub in_summary: bool,
    pub in_title: bool,
    pub summary: String,
    pub submissions: Vec<Submission>,
}

pub struct FeedView {
    pub accession: Option<u64>,
    pub cik: Option<u64>,
    pub submission_type: Seq<char>,
    pub filing_date: Seq<char>,
    pub in_summary: bool,
    pub in_title: bool,
    pub summary: Seq<char>,
    pub submissions: Seq<SubmissionView>,
}

impl View for FeedReader {
    type V = FeedView;

    open spec fn view(&self) -> FeedView {
        FeedView {
            accession: self.accession,
            cik: self.cik,
            submission_type: self.submission_type@,
            filing_date: self.filing_date@,
            in_summary: self.in_summary,
            in_title: self.in_title,
            summary: self.summary@,
            submissions: common::submissions_view(self.submissions@),
        }
    }
}

/// The text that `String::from_utf8_lossy` gives for the bytes.
pub uninterp spec fn lossy_utf8(bytes: Seq<u8>) -> Seq<char>;

/// Calls `String::from_utf8_lossy`. Trusted: the text depends on the bytes alone,
/// and it is the one that they encode where they are UTF-8.
#[verifier::external_body]
fn lossy_text(bytes: &[u8]) -> (text: String)
    ensures
        text@ == lossy_utf8(bytes@),
        vstd::utf8::valid_utf8(bytes@) ==> text@ == vstd::utf8::decode_utf8(bytes@),
{
    String::from_utf8_lossy(bytes).into_owned()
}

/// The text that an attribute's bytes are read as: the one that they encode, or what
/// `String::from_utf8_lossy` gives where they are not UTF-8.
pub open spec fn attribute_text(bytes: Seq<u8>) -> Seq<char> {
    if vstd::utf8::valid_utf8(bytes) {
        vstd::utf8::decode_utf8(bytes)
    } else {
        lossy_utf8(bytes)
    }
}

/// The bytes of a name.
pub open spec fn name_bytes(name: Seq<char>) -> Seq<u8> {
    vstd::utf8::encode_utf8(name)
}

/// The value of the first attribute with that key.
pub open spec fn attribute_value(
    attributes: Seq<Option<(Seq<u8>, Seq<u8>)>>,
    key: Seq<u8>,
) -> Option<Seq<u8>>
    decreases attributes.len(),
{
    if attributes.len() == 0 {
        None
    } else if attributes[0] is Some && (attributes[0]->0).0 == key {
        Some((attributes[0]->0).1)
    } else {
        attribute_value(attributes.skip(1), key)
    }
}

/// The filer's number in a title such as `10-K - Name (0000320193) (Filer)`: what
/// stands behind the last but one opening parenthesis, or at the start of the text
/// where there is only one, up to the next closing one.
pub open spec fn title_cik(text: Seq<char>) -> Option<u64> {
    text::read_u64(
        text::before_first(
            text::after_last(text::before_last(text, '('), '('),
            ')',
        ),
    )
}

/// An accession number such as `0001213900-26-058507` as one number.
pub open spec fn accession_of(text: Seq<char>) -> Option<u64> {
    text::read_u64(text.filter(|c: char| c != '-'))
}

/// What stands behind `Filed:</b>` in a summary.
pub open spec fn filed_text(summary: Seq<char>) -> Option<Seq<char>> {
    match text::text_after(summary, "Filed:</b>"@) {
        Some(rest) => Some(text::trimmed(rest)),
        None => None,
    }
}

/// How many bytes a filing date such as `2026-05-18` takes.
pub const DATE_BYTES: usize = 10;

/// The state before the first event.
pub open spec fn new_feed() -> FeedView {
    FeedView {
        accession: None,
        cik: None,
        submission_type: Seq::empty(),
        filing_date: Seq::empty(),
        in_summary: false,
        in_title: false,
        summary: Seq::empty(),
        submissions: Seq::empty(),
    }
}

impl FeedView {
    /// The filing of the entry under way.
    pub open spec fn submission(self) -> SubmissionView {
        SubmissionView {
            accession: self.accession->0,
            submission_type: self.submission_type,
            ciks: match self.cik {
                Some(cik) => seq![cik],
                None => Seq::empty(),
            },
            filing_date: self.filing_date,
        }
    }

    pub open spec fn opened(
        self,
        name: Seq<u8>,
        attributes: Seq<Option<(Seq<u8>, Seq<u8>)>>,
    ) -> FeedView {
        if name == name_bytes("category"@) {
            match attribute_value(attributes, name_bytes("term"@)) {
                Some(term) => FeedView { submission_type: attribute_text(term), ..self },
                None => self,
            }
        } else if name == name_bytes("summary"@) {
            FeedView { in_summary: true, summary: Seq::empty(), ..self }
        } else if name == name_bytes("title"@) {
            FeedView { in_title: true, ..self }
        } else {
            self
        }
    }

    pub open spec fn text(self, text: Seq<char>) -> FeedView {
        if self.in_summary {
            FeedView { summary: self.summary + text, ..self }
        } else if self.in_title {
            if text.contains('(') {
                FeedView { cik: title_cik(text), ..self }
            } else {
                self
            }
        } else if "urn:tag:sec.gov"@.is_prefix_of(text) {
            FeedView { accession: accession_of(text::after_last(text, '=')), ..self }
        } else {
            self
        }
    }

    pub open spec fn closed(self, name: Seq<u8>) -> FeedView {
        if name == name_bytes("title"@) {
            FeedView { in_title: false, ..self }
        } else if name == name_bytes("summary"@) {
            match filed_text(self.summary) {
                Some(filed) => FeedView {
                    in_summary: false,
                    filing_date: text::byte_prefix(filed, DATE_BYTES as int),
                    ..self
                },
                None => FeedView { in_summary: false, ..self },
            }
        } else if name == name_bytes("entry"@) {
            self.ended()
        } else {
            self
        }
    }

    /// The state after the end of an entry: its filing is kept if it has an
    /// accession number, and nothing of it is left for the next entry.
    pub open spec fn ended(self) -> FeedView {
        FeedView {
            accession: None,
            cik: None,
            submission_type: Seq::empty(),
            filing_date: Seq::empty(),
            submissions: if self.accession is Some {
                self.submissions.push(self.submission())
            } else {
                self.submissions
            },
            ..self
        }
    }

    /// The state after an event.
    pub open spec fn next(self, event: EventView) -> FeedView {
        match event {
            EventView::Start { name, attributes } => self.opened(name, attributes),
            EventView::Empty { name, attributes } => self.opened(name, attributes),
            EventView::Text(Some(text)) => self.text(text),
            EventView::Text(None) => self.text(Seq::empty()),
            EventView::End { name } => self.closed(name),
            EventView::Eof | EventView::Failed(_) | EventView::Other => self,
        }
    }

    /// A summary that ends here and says when the filing was made has room for the
    /// date.
    pub open spec fn can_read(self, event: EventView) -> bool {
        match event {
            EventView::End { name } => name == name_bytes("summary"@) ==> match filed_text(
                self.summary,
            ) {
                Some(filed) => text::has_byte_prefix(filed, DATE_BYTES as int),
                None => true,
            },
            _ => true,
        }
    }
}

/// The state after the events.
pub open spec fn feed_after(events: Seq<EventView>) -> FeedView
    decreases events.len(),
{
    if events.len() == 0 {
        new_feed()
    } else {
        feed_after(events.drop_last()).next(events.last())
    }
}

/// Every date in the feed can be read.
pub open spec fn feed_is_readable(events: Seq<EventView>) -> bool
    decreases events.len(),
{
    events.len() > 0 ==> feed_is_readable(events.drop_last()) && feed_after(
        events.drop_last(),
    ).can_read(events.last())
}

/// No two of the element names are the same.
pub proof fn lemma_names_differ()
    ensures
        name_bytes("title"@) != name_bytes("summary"@),
        name_bytes("title"@) != name_bytes("entry"@),
        name_bytes("title"@) != name_bytes("category"@),
        name_bytes("title"@) != name_bytes("id"@),
        name_bytes("summary"@) != name_bytes("entry"@),
        name_bytes("summary"@) != name_bytes("category"@),
        name_bytes("summary"@) != name_bytes("id"@),
        name_bytes("entry"@) != name_bytes("category"@),
        name_bytes("entry"@) != name_bytes("id"@),
        name_bytes("category"@) != name_bytes("id"@),
{
    reveal_strlit("title");
    reveal_strlit("summary");
    reveal_strlit("entry");
    reveal_strlit("category");
    reveal_strlit("id");
    assert("title"@[0] != "entry"@[0]);
    vstd::utf8::encode_utf8_decode_utf8("title"@);
    vstd::utf8::encode_utf8_decode_utf8("summary"@);
    vstd::utf8::encode_utf8_decode_utf8("entry"@);
    vstd::utf8::encode_utf8_decode_utf8("category"@);
    vstd::utf8::encode_utf8_decode_utf8("id"@);
}

/// The value of the first attribute with that key.
fn find_attribute<'a>(attributes: &'a Vec<Option<(Vec<u8>, Vec<u8>)>>, key: &[u8]) -> (value:
    Option<&'a Vec<u8>>)
    ensures
        match value {
            Some(value) => attribute_value(
                xml::attributes_view(attributes@),
                key@,
            ) == Some(value@),
            None => attribute_value(xml::attributes_view(attributes@), key@) is None,
        },
{
    let ghost all = xml::attributes_view(attributes@);
    let mut i: usize = 0;
    assert(all.skip(0) =~= all);
    while i < attributes.len()
        invariant
            i <= attributes.len(),
            all == xml::attributes_view(attributes@),
            attribute_value(all, key@) == attribute_value(all.skip(i as int), key@),
        decreases attributes.len() - i,
    {
        assert(all.skip(i as int)[0] == xml::attribute_view(attributes@[i as int]));
        if let Some((name, value)) = &attributes[i] {
            if same_bytes(name.as_slice(), key) {
                return Some(value);
            }
        }
        assert(all.skip(i as int).skip(1) =~= all.skip(i + 1));
        i += 1;
    }
    None
}

/// The filer's number in a title, where there is an opening parenthesis.
pub fn read_title(text: &str) -> (cik: Option<Option<u64>>)
    ensures
        cik == if text@.contains('(') {
            Some(title_cik(text@))
        } else {
            None
        },
{
    match split_at_last(text, '(') {
        None => None,
        Some((before, _)) => {
            let group = match split_at_last(before, '(') {
                Some((_, after)) => after,
                None => before,
            };
            Some(parse_u64(cut_at_first(group, ')')))
        },
    }
}

/// An accession number as one number.
pub fn read_accession(text: &str) -> (accession: Option<u64>)
    ensures
        accession == accession_of(text@),
{
    let chars = to_chars(text);
    let ghost keep = |c: char| c != '-';
    let mut digits: Vec<char> = Vec::new();
    let mut i: usize = 0;
    proof {
        reveal(Seq::filter);
        assert(chars@.take(0) =~= Seq::empty());
    }
    while i < chars.len()
        invariant
            i <= chars.len(),
            keep == (|c: char| c != '-'),
            digits@ == chars@.take(i as int).filter(keep),
        decreases chars.len() - i,
    {
        proof {
            reveal(Seq::filter);
            assert(chars@.take(i + 1).drop_last() =~= chars@.take(i as int));
        }
        if chars[i] != '-' {
            digits.push(chars[i]);
        }
        i += 1;
    }
    assert(chars@.take(i as int) =~= chars@);
    match read_number(&digits) {
        Ok(accession) => Some(accession),
        Err(_) => None,
    }
}

impl FeedReader {
    /// The state before the first event.
    pub fn new() -> (reader: Self)
        ensures
            reader@ == new_feed(),
    {
        let reader = FeedReader {
            accession: None,
            cik: None,
            submission_type: String::new(),
            filing_date: String::new(),
            in_summary: false,
            in_title: false,
            summary: String::new(),
            submissions: Vec::new(),
        };
        assert(reader@.submissions =~= Seq::empty());
        assert(reader@.summary =~= Seq::empty());
        reader
    }

    fn open(&mut self, name: &Vec<u8>, attributes: &Vec<Option<(Vec<u8>, Vec<u8>)>>)
        ensures
            final(self)@ == old(self)@.opened(name@, xml::attributes_view(attributes@)),
    {
        if same_bytes(name.as_slice(), "category".as_bytes()) {
            if let Some(term) = find_attribute(attributes, "term".as_bytes()) {
                self.submission_type = lossy_text(term.as_slice());
            }
        } else if same_bytes(name.as_slice(), "summary".as_bytes()) {
            self.in_summary = true;
            self.summary = String::new();
        } else if same_bytes(name.as_slice(), "title".as_bytes()) {
            self.in_title = true;
        }
    }

    fn take_text(&mut self, text: &str)
        ensures
            final(self)@ == old(self)@.text(text@),
    {
        if self.in_summary {
            self.summary.append(text);
        } else if self.in_title {
            if let Some(cik) = read_title(text) {
                self.cik = cik;
            }
        } else if begins_with(text, "urn:tag:sec.gov") {
            let accession = match split_at_last(text, '=') {
                Some((_, after)) => after,
                None => text,
            };
            self.accession = read_accession(accession);
        }
    }

    /// Takes the end of an element; false where that is a summary whose date cannot
    /// be read.
    fn close(&mut self, name: &Vec<u8>) -> (read: bool)
        ensures
            read == old(self)@.can_read(EventView::End { name: name@ }),
            read ==> final(self)@ == old(self)@.closed(name@),
    {
        proof {
            lemma_names_differ();
        }
        if same_bytes(name.as_slice(), "title".as_bytes()) {
            self.in_title = false;
        } else if same_bytes(name.as_slice(), "summary".as_bytes()) {
            if let Some(rest) = after_text(self.summary.as_str(), "Filed:</b>") {
                match take_bytes(trim_text(rest), DATE_BYTES) {
                    Some(date) => {
                        self.filing_date = date.to_owned();
                    },
                    None => return false,
                }
            }
            self.in_summary = false;
        } else if same_bytes(name.as_slice(), "entry".as_bytes()) {
            self.end_entry();
        }
        true
    }

    fn end_entry(&mut self)
        ensures
            final(self)@ == old(self)@.ended(),
    {
        let ghost before = self.submissions@;
        if let Some(accession) = self.accession {
            let mut ciks: Vec<u64> = Vec::new();
            if let Some(cik) = self.cik {
                ciks.push(cik);
            }
            let submission = Submission {
                accession,
                submission_type: self.submission_type.clone(),
                ciks,
                filing_date: self.filing_date.clone(),
            };
            assert(submission@.ciks =~= self@.submission().ciks);
            self.submissions.push(submission);
            assert(common::submissions_view(self.submissions@)
                =~= common::submissions_view(before).push(submission@));
        }
        self.accession = None;
        self.cik = None;
        self.submission_type = String::new();
        self.filing_date = String::new();
    }

    /// Takes an event; false where a date cannot be read.
    pub fn apply(&mut self, event: &XmlEvent) -> (read: bool)
        ensures
            read == old(self)@.can_read(event@),
            read ==> final(self)@ == old(self)@.next(event@),
    {
        match event {
            XmlEvent::Start { name, attributes } => {
                self.open(name, attributes);
                true
            },
            XmlEvent::Empty { name, attributes } => {
                self.open(name, attributes);
                true
            },
            XmlEvent::Text(Some(text)) => {
                self.take_text(text.as_str());
                true
            },
            XmlEvent::Text(None) => {
                proof {
                    reveal_strlit("");
                    assert(""@ =~= Seq::empty());
                }
                self.take_text("");
                true
            },
            XmlEvent::End { name } => self.close(name),
            _ => true,
        }
    }
}

/// The filings that the events report; none at all where a date cannot be read.
pub fn submissions_in(events: &Vec<XmlEvent>) -> (submissions: Option<Vec<Submission>>)
    ensures
        submissions is Some <==> feed_is_readable(xml::events_view(events@)),
        submissions matches Some(submissions) ==> common::submissions_view(submissions@)
            == feed_after(xml::events_view(events@)).submissions,
{
    let ghost all = xml::events_view(events@);
    let mut reader = FeedReader::new();
    let mut i: usize = 0;
    assert(all.take(0) =~= Seq::empty());
    while i < events.len()
        invariant
            i <= events.len(),
            all == xml::events_view(events@),
            feed_is_readable(all.take(i as int)),
            reader@ == feed_after(all.take(i as int)),
        decreases events.len() - i,
    {
        proof {
            assert(all.take(i + 1).drop_last() =~= all.take(i as int));
            assert(all.take(i + 1).last() == events@[i as int]@);
        }
        if !reader.apply(&events[i]) {
            proof {
                lemma_unreadable_persists(all, i + 1);
            }
            return None;
        }
        i += 1;
    }
    assert(all.take(i as int) =~= all);
    Some(reader.submissions)
}

proof fn lemma_unreadable_persists(events: Seq<EventView>, n: int)
    requires
        0 <= n <= events.len(),
        !feed_is_readable(events.take(n)),
    ensures
        !feed_is_readable(events),
    decreases events.len() - n,
{
    if n < events.len() {
        assert(events.take(n + 1).drop_last() =~= events.take(n));
        lemma_unreadable_persists(events, n + 1);
    } else {
        assert(events.take(n) =~= events);
    }
}

/// The filings in the text of the feed.
pub fn parse_rss(xml: &str) -> (submissions: Vec<Submission>)
    requires
        feed_is_readable(xml::feed_events(xml@)),
    ensures
        common::submissions_view(submissions@) == feed_after(
            xml::feed_events(xml@),
        ).submissions,
{
    submissions_in(&read_events(xml)).unwrap()
}

/// The filings in the text of the feed; none at all where a date cannot be read.
pub fn try_parse_rss(xml: &str) -> (submissions: Option<Vec<Submission>>)
    ensures
        submissions is Some <==> feed_is_readable(xml::feed_events(xml@)),
        submissions matches Some(submissions) ==> common::submissions_view(submissions@)
            == feed_after(xml::feed_events(xml@)).submissions,
{
    if submissions_in(&read_events(xml)).is_none() {
        return None;
    }
    Some(parse_rss(xml))
}

proof fn lemma_date_length(filed: Seq<char>)
    requires
        text::has_byte_prefix(filed, DATE_BYTES as int),
    ensures
        name_bytes(text::byte_prefix(filed, DATE_BYTES as int)).len() == DATE_BYTES,
{
    let bytes = vstd::utf8::encode_utf8(filed);
    vstd::utf8::encode_utf8_valid_utf8(filed);
    vstd::utf8::valid_utf8_split(bytes, DATE_BYTES as int);
    vstd::utf8::decode_utf8_encode_utf8(bytes.subrange(0, DATE_BYTES as int));
    assert(bytes.subrange(0, DATE_BYTES as int).len() == DATE_BYTES);
}

/// A date is absent or as long as a date is.
pub open spec fn is_date(date: Seq<char>) -> bool {
    date.len() == 0 || vstd::utf8::encode_utf8(date).len() == DATE_BYTES
}

/// How many entries end in the events.
pub open spec fn entries_ended(events: Seq<EventView>) -> nat {
    events.filter(|event: EventView| event == EventView::End { name: name_bytes("entry"@) }).len()
}

/// Every filing in a feed has at most one filer, and a date that is absent or as
/// long as a date is; and there are no more filings than entries.
pub proof fn law_filings_of_a_feed(events: Seq<EventView>)
    requires
        feed_is_readable(events),
    ensures
        is_date(feed_after(events).filing_date),
        forall|i: int|
            0 <= i < feed_after(events).submissions.len() ==> {
                &&& (#[trigger] feed_after(events).submissions[i]).ciks.len() <= 1
                &&& is_date(feed_after(events).submissions[i].filing_date)
            },
        feed_after(events).submissions.len() <= entries_ended(events),
    decreases events.len(),
{
    reveal(Seq::filter);
    if events.len() > 0 {
        law_filings_of_a_feed(events.drop_last());
        let before = feed_after(events.drop_last());
        lemma_names_differ();
        if let EventView::End { name } = events.last() {
            if name == name_bytes("summary"@) {
                if let Some(filed) = filed_text(before.summary) {
                    lemma_date_length(filed);
                }
            }
        }
    }
}

/// The state is that of a reader between two entries.
pub open spec fn is_between_entries(state: FeedView) -> bool {
    &&& state.accession is None
    &&& state.cik is None
    &&& state.submission_type.len() == 0
    &&& state.filing_date.len() == 0
    &&& !state.in_summary
    &&& !state.in_title
}

/// The event is the beginning of a summary.
pub open spec fn begins_summary(event: EventView) -> bool {
    match event {
        EventView::Start { name, .. } => name == name_bytes("summary"@),
        EventView::Empty { name, .. } => name == name_bytes("summary"@),
        _ => false,
    }
}

/// A summary has begun in the events.
pub open spec fn summary_began(events: Seq<EventView>) -> bool {
    exists|i: int| 0 <= i < events.len() && begins_summary(#[trigger] events[i])
}

/// No summary ends in the events before one has begun in them.
pub open spec fn summaries_begin(events: Seq<EventView>) -> bool {
    forall|i: int|
        0 <= i < events.len() && #[trigger] events[i] == (EventView::End {
            name: name_bytes("summary"@),
        }) ==> summary_began(events.take(i))
}

proof fn lemma_no_date_in_nothing()
    ensures
        filed_text(Seq::empty()) is None,
{
    reveal_strlit("Filed:</b>");
    assert forall|i: int| !text::occurs_at(Seq::empty(), "Filed:</b>"@, i) by {}
}

proof fn lemma_feed_after_more(before: Seq<EventView>, events: Seq<EventView>)
    requires
        is_between_entries(feed_after(before)),
        summaries_begin(events) || filed_text(feed_after(before).summary) is None,
    ensures
        ({
            let first = feed_after(before);
            let alone = feed_after(events);
            let behind = feed_after(before + events);
            &&& behind.accession == alone.accession
            &&& behind.cik == alone.cik
            &&& behind.submission_type == alone.submission_type
            &&& behind.filing_date == alone.filing_date
            &&& behind.in_summary == alone.in_summary
            &&& behind.in_title == alone.in_title
            &&& summary_began(events) ==> behind.summary == alone.summary
            &&& !summary_began(events) ==> {
                &&& !alone.in_summary
                &&& alone.summary == Seq::<char>::empty()
                &&& behind.summary == first.summary
            }
            &&& behind.submissions == first.submissions + alone.submissions
            &&& feed_is_readable(before) && feed_is_readable(events) ==> feed_is_readable(
                before + events,
            )
        }),
    decreases events.len(),
{
    let first = feed_after(before);
    if events.len() == 0 {
        assert(before + events =~= before);
        assert(first.submissions + new_feed().submissions =~= first.submissions);
        assert(first.submission_type =~= Seq::empty());
        assert(first.filing_date =~= Seq::empty());
    } else {
        let rest = events.drop_last();
        let event = events.last();
        if summaries_begin(events) {
            assert forall|i: int|
                0 <= i < rest.len() && #[trigger] rest[i] == (EventView::End {
                    name: name_bytes("summary"@),
                }) implies summary_began(rest.take(i)) by {
                assert(events[i] == rest[i]);
                assert(events.take(i) =~= rest.take(i));
            }
        }
        lemma_feed_after_more(before, rest);
        assert((before + events).drop_last() =~= before + rest);
        lemma_names_differ();
        lemma_no_date_in_nothing();
        if summary_began(rest) {
            let i = choose|i: int| 0 <= i < rest.len() && begins_summary(#[trigger] rest[i]);
            assert(begins_summary(events[i]));
        }
        if begins_summary(event) {
            assert(begins_summary(events[events.len() - 1]));
        }
        if summary_began(events) {
            let i = choose|i: int| 0 <= i < events.len() && begins_summary(#[trigger] events[i]);
            if i < rest.len() {
                assert(begins_summary(rest[i]));
            }
        }
        if summaries_begin(events) && event == (EventView::End { name: name_bytes("summary"@) }) {
            assert(events[events.len() - 1] == event);
            assert(events.take(events.len() - 1) =~= rest);
        }
        let alone = feed_after(rest);
        if let EventView::End { name } = event {
            if name == name_bytes("entry"@) && alone.accession is Some {
                assert(first.submissions + alone.submissions.push(alone.submission())
                    =~= (first.submissions + alone.submissions).push(alone.submission()));
            }
        }
    }
}

/// Entries are read apart from one another: what comes behind a feed that ends
/// between two entries reports the filings that it reports alone, unless it ends a
/// summary that it did not begin while an earlier one still holds a date.
pub proof fn law_entries_are_read_apart(before: Seq<EventView>, events: Seq<EventView>)
    requires
        is_between_entries(feed_after(before)),
        summaries_begin(events) || filed_text(feed_after(before).summary) is None,
    ensures
        feed_after(before + events).submissions == feed_after(before).submissions + feed_after(
            events,
        ).submissions,
        feed_is_readable(before) && feed_is_readable(events) ==> feed_is_readable(before + events),
{
    lemma_feed_after_more(before, events);
}

/// A feed that is cut off or broken keeps the entries that were finished: without the
/// end of another entry there are no more filings, and without the end of another
/// summary no date that cannot be read.
pub proof fn law_a_cut_feed_keeps_its_entries(before: Seq<EventView>, rest: Seq<EventView>)
    requires
        forall|i: int|
            0 <= i < rest.len() ==> {
                &&& #[trigger] rest[i] != (EventView::End { name: name_bytes("entry"@) })
                &&& rest[i] != (EventView::End { name: name_bytes("summary"@) })
            },
    ensures
        feed_after(before + rest).submissions == feed_after(before).submissions,
        feed_is_readable(before) ==> feed_is_readable(before + rest),
    decreases rest.len(),
{
    if rest.len() == 0 {
        assert(before + rest =~= before);
    } else {
        let shorter = rest.drop_last();
        assert forall|i: int| 0 <= i < shorter.len() implies {
            &&& #[trigger] shorter[i] != (EventView::End { name: name_bytes("entry"@) })
            &&& shorter[i] != (EventView::End { name: name_bytes("summary"@) })
        } by {
            assert(shorter[i] == rest[i]);
        }
        law_a_cut_feed_keeps_its_entries(before, shorter);
        assert((before + rest).drop_last() =~= before + shorter);
        assert(rest[rest.len() - 1] == rest.last());
    }
}

} // verus!
