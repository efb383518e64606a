use secinfra::common::Submission;
use secinfra::rss::{parse_rss, read_accession, read_title, submissions_in, try_parse_rss, FeedReader};
use secinfra::xml::{read_events, XmlEvent};

fn fields(submission: &Submission) -> (u64, &str, &[u64], &str) {
    (
        submission.accession,
        &submission.submission_type,
        &submission.ciks,
        &submission.filing_date,
    )
}

const FEED: &str = r#"<?xml version="1.0" encoding="ISO-8859-1" ?>
<feed xmlns="http://www.w3.org/2005/Atom">
<title>Latest Filings - Mon, 18 May 2026 17:00:00 EDT</title>
<id>https://www.sec.gov/cgi-bin/browse-edgar?action=getcurrent</id>
<entry>
<title>10-K/A - NutriBand Inc. (0001676047) (Filer)</title>
<link rel="alternate" type="text/html" href="https://www.sec.gov/Archives/edgar/data/1/index.htm"/>
<summary type="html">
 &lt;b&gt;Filed:&lt;/b&gt; 2026-05-18 &lt;b&gt;AccNo:&lt;/b&gt; 0001213900-26-058507 &lt;b&gt;Size:&lt;/b&gt; 2 MB
</summary>
<updated>2026-05-18T17:00:00-04:00</updated>
<category scheme="https://www.sec.gov/" label="form type" term="10-K/A"/>
<id>urn:tag:sec.gov,2008:accession-number=0001213900-26-058507</id>
</entry>
<entry>
<title>4 - Nobody</title>
<category term="4"/>
<id>urn:tag:sec.gov,2008:accession-number=0000000001-26-000002</id>
</entry>
<entry>
<title>8-K - No Number (0000000009) (Filer)</title>
<category term="8-K"/>
<id>somewhere else</id>
</entry>
</feed>"#;

#[test]
fn entries_become_filings() {
    let submissions = parse_rss(FEED);
    assert_eq!(submissions.len(), 2);
    assert_eq!(
        fields(&submissions[0]),
        (121390026058507, "10-K/A", &[1676047][..], "2026-05-18")
    );
    assert_eq!(fields(&submissions[1]), (126000002, "4", &[][..], ""));
}

#[test]
fn entries_are_read_apart() {
    let entry = |n: u32| {
        format!(
            "<entry><title>A (000{n}) (Filer)</title>\
             <summary>&lt;b&gt;Filed:&lt;/b&gt; 2026-01-0{n} x</summary>\
             <category term=\"T{n}\"/><id>urn:tag:sec.gov,2008:accession-number=0-0-{n}</id></entry>"
        )
    };
    let both = parse_rss(&format!("<feed>{}{}</feed>", entry(1), entry(2)));
    let first = parse_rss(&format!("<feed>{}</feed>", entry(1)));
    let second = parse_rss(&format!("<feed>{}</feed>", entry(2)));
    assert_eq!(both.len(), 2);
    assert_eq!(fields(&both[0]), fields(&first[0]));
    assert_eq!(fields(&both[1]), fields(&second[0]));
    assert_eq!(fields(&both[1]), (2, "T2", &[2][..], "2026-01-02"));
}

#[test]
fn titles_hold_the_filer_in_the_last_group_but_one() {
    assert_eq!(read_title("10-K/A - NutriBand Inc. (0001676047) (Filer)"), Some(Some(1676047)));
    assert_eq!(read_title("10-K - A (B) Inc. (0000000012) (Subject)"), Some(Some(12)));
    assert_eq!(read_title("no group"), None);
    assert_eq!(read_title("12) only one (Filer)"), Some(Some(12)));
    assert_eq!(read_title("one (Filer)"), Some(None));
    assert_eq!(read_title("(7"), Some(None));
    assert_eq!(read_title("(7)("), Some(Some(7)));
    assert_eq!(read_title("((Filer)"), Some(None));
}

#[test]
fn accession_numbers_lose_their_dashes() {
    assert_eq!(read_accession("0001213900-26-058507"), Some(121390026058507));
    assert_eq!(read_accession("000121390026058507"), Some(121390026058507));
    assert_eq!(read_accession(""), None);
    assert_eq!(read_accession("--"), None);
    assert_eq!(read_accession("12a"), None);
}

#[test]
fn a_broken_feed_gives_what_came_before() {
    let broken = FEED.replace("<title>4 - Nobody</title>", "<title>4 - Nobody</titel>");
    let submissions = parse_rss(&broken);
    assert_eq!(submissions.len(), 1);
    assert_eq!(submissions[0].accession, 121390026058507);
    match read_events(&broken).last() {
        Some(XmlEvent::Failed(words)) => assert!(words.contains("titel"), "{words}"),
        other => panic!("{other:?}"),
    }
    assert!(parse_rss("").is_empty());
    assert!(parse_rss("no markup at all").is_empty());
}

#[test]
fn dates_that_cannot_be_read_are_told() {
    let feed = |text: &str| {
        format!(
            "<entry><summary>Filed:&lt;/b&gt;{text}</summary>\
             <id>urn:tag:sec.gov,2008:accession-number=1</id></entry>"
        )
    };
    assert!(try_parse_rss(&feed(" 2026-05-1")).is_none());
    assert!(try_parse_rss(&feed("")).is_none());
    assert!(try_parse_rss(&feed(" 2026-05-1é tail")).is_none());
    assert_eq!(try_parse_rss(&feed(" 2026-05-18")).unwrap()[0].filing_date, "2026-05-18");
    assert_eq!(try_parse_rss(FEED).unwrap().len(), 2);
}

#[test]
fn events_come_in_order_and_end() {
    let events = read_events("<a x=\"1\" y='2 &amp; 3'> t &lt; u <b/></a>");
    assert_eq!(events.len(), 5);
    match &events[0] {
        XmlEvent::Start { name, attributes } => {
            assert_eq!(name, b"a");
            assert_eq!(attributes[0], Some((b"x".to_vec(), b"1".to_vec())));
            assert_eq!(attributes[1], Some((b"y".to_vec(), b"2 &amp; 3".to_vec())));
        }
        other => panic!("{other:?}"),
    }
    match &events[1] {
        XmlEvent::Text(Some(text)) => assert_eq!(text, "t < u"),
        other => panic!("{other:?}"),
    }
    assert!(matches!(&events[2], XmlEvent::Empty { name, .. } if name == b"b"));
    assert!(matches!(&events[3], XmlEvent::End { name } if name == b"a"));
    assert!(matches!(&events[4], XmlEvent::Eof));
    assert!(matches!(read_events("&nosuch;")[0], XmlEvent::Text(None)));
    assert!(matches!(read_events("<!-- c -->")[0], XmlEvent::Other));
}

#[test]
fn an_attribute_is_taken_raw_and_the_first_counts() {
    let feed = |attributes: &str| {
        format!(
            "<entry><category {attributes}/><id>urn:tag:sec.gov,2008:accession-number=1</id></entry>"
        )
    };
    assert_eq!(parse_rss(&feed("label=\"l\" term=\"S&amp;P\""))[0].submission_type, "S&amp;P");
    assert_eq!(parse_rss(&feed("label=\"l\""))[0].submission_type, "");
    assert_eq!(parse_rss(&feed("term=\"a\" term=\"b\""))[0].submission_type, "a");
}

fn tag(name: &str) -> XmlEvent {
    XmlEvent::Start { name: name.as_bytes().to_vec(), attributes: Vec::new() }
}

fn end(name: &str) -> XmlEvent {
    XmlEvent::End { name: name.as_bytes().to_vec() }
}

fn text(text: &str) -> XmlEvent {
    XmlEvent::Text(Some(text.to_string()))
}

#[test]
fn events_are_taken_one_by_one() {
    let mut reader = FeedReader::new();
    assert!(reader.apply(&text("urn:tag:sec.gov,2008:accession-number=0-0-5")));
    assert_eq!(reader.accession, Some(5));
    assert!(reader.apply(&tag("title")));
    assert!(reader.apply(&text("urn:tag:sec.gov,2008:accession-number=0-0-6")));
    assert_eq!(reader.accession, Some(5));
    assert!(reader.apply(&text("x (8) (F)")));
    assert!(reader.apply(&text("no group")));
    assert!(reader.apply(&XmlEvent::Text(None)));
    assert_eq!(reader.cik, Some(8));
    assert!(reader.apply(&text("x (y) (F)")));
    assert_eq!(reader.cik, None);
    assert!(reader.apply(&end("title")));
    assert!(reader.apply(&tag("summary")));
    assert!(reader.apply(&text("Filed:")));
    assert!(reader.apply(&text("</b>\n2026-02-03 x")));
    assert_eq!(reader.summary, "Filed:</b>\n2026-02-03 x");
    assert!(reader.apply(&end("summary")));
    assert_eq!(reader.filing_date, "2026-02-03");
    assert!(reader.apply(&end("entry")));
    assert_eq!(reader.submissions.len(), 1);
    assert_eq!(fields(&reader.submissions[0]), (5, "", &[][..], "2026-02-03"));
    assert_eq!((reader.accession, reader.cik), (None, None));
    assert!(reader.apply(&end("entry")));
    assert_eq!(reader.submissions.len(), 1);
}

#[test]
fn attributes_that_are_not_utf8_are_read_as_far_as_they_can_be() {
    let term = |value: &[u8]| {
        vec![
            XmlEvent::Empty {
                name: b"category".to_vec(),
                attributes: vec![None, Some((b"term".to_vec(), value.to_vec()))],
            },
            text("urn:tag:sec.gov,2008:accession-number=1"),
            end("entry"),
        ]
    };
    let read = |value: &[u8]| submissions_in(&term(value)).unwrap()[0].submission_type.clone();
    assert_eq!(read(b"10-K"), "10-K");
    assert_eq!(read(b"a\xffb"), "a\u{fffd}b");
}

#[test]
fn a_summary_in_a_summary_does_not_reach_the_next_entry() {
    let entry = "<entry><summary>Filed:&lt;/b&gt; 2026-01-01 <summary>x</summary></summary>\
                 <id>urn:tag:sec.gov,2008:accession-number=1</id></entry>";
    let alone = parse_rss(&format!("<feed>{entry}</feed>"));
    let behind = parse_rss(&format!("{}{entry}</feed>", FEED.replace("</feed>", "")));
    assert_eq!(alone.len(), 1);
    assert_eq!(behind.len(), 3);
    assert_eq!(fields(&behind[2]), fields(&alone[0]));
}
