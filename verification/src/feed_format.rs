//! How the feed writes a filing, and that it is read as it was written.
use vstd::prelude::*;

use crate::common::SubmissionView;
use crate::rss::{self, DATE_BYTES};
use crate::text;
use crate::xml::EventView;

verus! {

/// The events of an entry with a title, a summary, a category and an identifier.
pub open spec fn entry_events(
    title: Seq<char>,
    summary: Seq<char>,
    category: Seq<Option<(Seq<u8>, Seq<u8>)>>,
    id: Seq<char>,
) -> Seq<EventView> {
    seq![
        EventView::Start { name: rss::name_bytes("entry"@), attributes: Seq::empty() },
        EventView::Start { name: rss::name_bytes("title"@), attributes: Seq::empty() },
        EventView::Text(Some(title)),
        EventView::End { name: rss::name_bytes("title"@) },
        EventView::Start { name: rss::name_bytes("summary"@), attributes: Seq::empty() },
        EventView::Text(Some(summary)),
        EventView::End { name: rss::name_bytes("summary"@) },
        EventView::Empty { name: rss::name_bytes("category"@), attributes: category },
        EventView::Start { name: rss::name_bytes("id"@), attributes: Seq::empty() },
        EventView::Text(Some(id)),
        EventView::End { name: rss::name_bytes("id"@) },
        EventView::End { name: rss::name_bytes("entry"@) },
    ]
}

proof fn lemma_feed_after_push(events: Seq<EventView>, event: EventView)
    ensures
        rss::feed_after(events.push(event)) == rss::feed_after(events).next(event),
{
    assert(events.push(event).drop_last() =~= events);
}

/// An entry becomes a filing: with the number in its identifier, the form in its
/// category, the filer in its title and the date in its summary.
pub proof fn law_entry_becomes_a_filing(
    before: Seq<EventView>,
    title: Seq<char>,
    summary: Seq<char>,
    category: Seq<Option<(Seq<u8>, Seq<u8>)>>,
    id: Seq<char>,
)
    requires
        rss::is_between_entries(rss::feed_after(before)),
        title.contains('('),
        rss::filed_text(summary) is Some,
        rss::attribute_value(category, rss::name_bytes("term"@)) is Some,
        "urn:tag:sec.gov"@.is_prefix_of(id),
        rss::accession_of(text::after_last(id, '=')) is Some,
    ensures
        rss::feed_after(before + entry_events(title, summary, category, id)).submissions
            == rss::feed_after(before).submissions.push(
            SubmissionView {
                accession: rss::accession_of(text::after_last(id, '='))->0,
                submission_type: rss::attribute_text(
                    rss::attribute_value(category, rss::name_bytes("term"@))->0,
                ),
                ciks: match rss::title_cik(title) {
                    Some(cik) => seq![cik],
                    None => Seq::empty(),
                },
                filing_date: text::byte_prefix(rss::filed_text(summary)->0, DATE_BYTES as int),
            },
        ),
        rss::is_between_entries(
            rss::feed_after(before + entry_events(title, summary, category, id)),
        ),
{
    let e = entry_events(title, summary, category, id);
    rss::lemma_names_differ();
    let s1 = before.push(e[0]);
    let s2 = s1.push(e[1]);
    let s3 = s2.push(e[2]);
    let s4 = s3.push(e[3]);
    let s5 = s4.push(e[4]);
    let s6 = s5.push(e[5]);
    let s7 = s6.push(e[6]);
    let s8 = s7.push(e[7]);
    let s9 = s8.push(e[8]);
    let s10 = s9.push(e[9]);
    let s11 = s10.push(e[10]);
    let s12 = s11.push(e[11]);
    lemma_feed_after_push(before, e[0]);
    lemma_feed_after_push(s1, e[1]);
    lemma_feed_after_push(s2, e[2]);
    lemma_feed_after_push(s3, e[3]);
    lemma_feed_after_push(s4, e[4]);
    lemma_feed_after_push(s5, e[5]);
    assert(rss::feed_after(s6).summary =~= summary);
    lemma_feed_after_push(s6, e[6]);
    lemma_feed_after_push(s7, e[7]);
    lemma_feed_after_push(s8, e[8]);
    lemma_feed_after_push(s9, e[9]);
    lemma_feed_after_push(s10, e[10]);
    lemma_feed_after_push(s11, e[11]);
    assert(before + e =~= s12);
}

/// A form that is written as UTF-8 is read as it was written.
pub proof fn law_form_is_read_as_written(form: Seq<char>)
    ensures
        rss::attribute_text(vstd::utf8::encode_utf8(form)) == form,
{
    vstd::utf8::encode_utf8_valid_utf8(form);
    vstd::utf8::encode_utf8_decode_utf8(form);
}

/// Other elements change nothing.
pub proof fn law_other_elements_are_passed_over(
    state: rss::FeedView,
    name: Seq<u8>,
    attributes: Seq<Option<(Seq<u8>, Seq<u8>)>>,
)
    requires
        name != rss::name_bytes("title"@),
        name != rss::name_bytes("summary"@),
        name != rss::name_bytes("category"@),
        name != rss::name_bytes("entry"@),
    ensures
        state.next(EventView::Start { name, attributes }) == state,
        state.next(EventView::Empty { name, attributes }) == state,
        state.next(EventView::End { name }) == state,
{
}

/// A title that ends with a number in parentheses, a blank and another group names the
/// filer by that number.
pub proof fn law_title_names_the_filer(front: Seq<char>, digits: Seq<char>, role: Seq<char>)
    requires
        digits.len() > 0,
        text::all_digits(digits),
        text::digits_value(digits) <= u64::MAX,
        !role.contains('('),
    ensures
        rss::title_cik(front + seq!['('] + digits + seq![')', ' ', '('] + role) == Some(
            text::digits_value(digits) as u64,
        ),
{
    let title = front + seq!['('] + digits + seq![')', ' ', '('] + role;
    let last = (front.len() + digits.len() + 3) as int;
    assert(title[last] == '(');
    assert forall|j: int| last < j < title.len() implies title[j] != '(' by {
        assert(title[j] == role[j - last - 1]);
    }
    text::lemma_last(title, '(', last);
    let rest = title.take(last);
    let first = front.len() as int;
    assert(rest[first] == '(');
    assert forall|j: int| first < j < rest.len() implies rest[j] != '(' by {
        if j - first - 1 < digits.len() {
            assert(rest[j] == digits[j - first - 1]);
            assert(text::is_digit(digits[j - first - 1]));
        }
    }
    text::lemma_last(rest, '(', first);
    let group = rest.skip(first + 1);
    let tail = seq![')', ' '];
    assert(group =~= digits + tail);
    assert forall|j: int| 0 <= j < digits.len() implies digits[j] != ')' by {
        assert(text::is_digit(digits[j]));
    }
    text::lemma_before_first_of_concat(digits, tail, ')');
    assert(text::is_digit(digits[0]));
}

proof fn lemma_filter_digits(digits: Seq<char>)
    requires
        text::all_digits(digits),
    ensures
        digits.filter(|c: char| c != '-') == digits,
    decreases digits.len(),
{
    reveal(Seq::filter);
    if digits.len() > 0 {
        let rest = digits.drop_last();
        assert forall|i: int| 0 <= i < rest.len() implies text::is_digit(#[trigger] rest[i]) by {
            assert(text::is_digit(digits[i]));
        }
        lemma_filter_digits(rest);
        assert(text::is_digit(digits[digits.len() - 1]));
        assert(rest.push(digits.last()) =~= digits);
    } else {
        assert(digits.filter(|c: char| c != '-') =~= digits);
    }
}

/// An identifier that ends with an accession number in three groups of digits gives the
/// number that the digits write.
pub proof fn law_identifier_holds_the_accession(
    front: Seq<char>,
    filer: Seq<char>,
    year: Seq<char>,
    number: Seq<char>,
)
    requires
        filer.len() > 0,
        text::all_digits(filer + year + number),
        text::digits_value(filer + year + number) <= u64::MAX,
    ensures
        rss::accession_of(
            text::after_last(
                front + seq!['='] + (filer + seq!['-'] + year + seq!['-'] + number),
                '=',
            ),
        ) == Some(text::digits_value(filer + year + number) as u64),
{
    let keep = |c: char| c != '-';
    let all = filer + year + number;
    let written = filer + seq!['-'] + year + seq!['-'] + number;
    let id = front + seq!['='] + written;
    assert forall|i: int| 0 <= i < filer.len() implies text::is_digit(#[trigger] filer[i]) by {
        assert(all[i] == filer[i]);
    }
    assert forall|i: int| 0 <= i < year.len() implies text::is_digit(#[trigger] year[i]) by {
        assert(all[filer.len() + i] == year[i]);
    }
    assert forall|i: int| 0 <= i < number.len() implies text::is_digit(#[trigger] number[i]) by {
        assert(all[filer.len() + year.len() + i] == number[i]);
    }
    let at = front.len() as int;
    assert(id[at] == '=');
    assert forall|j: int| at < j < id.len() implies id[j] != '=' by {
        let k = j - at - 1;
        assert(id[j] == written[k]);
        let second = filer.len() + 1;
        let third = second + year.len() + 1;
        if k < filer.len() {
            assert(written[k] == filer[k]);
        } else if second <= k < second + year.len() {
            assert(written[k] == year[k - second]);
        } else if third <= k {
            assert(written[k] == number[k - third]);
        }
    }
    text::lemma_last(id, '=', at);
    assert(id.skip(at + 1) =~= written);
    lemma_filter_digits(filer);
    lemma_filter_digits(year);
    lemma_filter_digits(number);
    Seq::filter_distributes_over_add(filer, seq!['-'], keep);
    Seq::filter_distributes_over_add(filer + seq!['-'], year, keep);
    Seq::filter_distributes_over_add(filer + seq!['-'] + year, seq!['-'], keep);
    Seq::filter_distributes_over_add(filer + seq!['-'] + year + seq!['-'], number, keep);
    assert(seq!['-'].filter(keep) =~= Seq::empty()) by {
        reveal_with_fuel(Seq::filter, 2);
        assert(seq!['-'].drop_last() =~= Seq::<char>::empty());
    }
    assert(written.filter(keep) =~= all);
    assert(text::is_digit(all[0]));
}

pub proof fn lemma_prefix_of_encoding(front: Seq<char>, back: Seq<char>)
    ensures
        vstd::utf8::encode_utf8(front + back) == vstd::utf8::encode_utf8(front)
            + vstd::utf8::encode_utf8(back),
        vstd::utf8::is_char_boundary(
            vstd::utf8::encode_utf8(front + back),
            vstd::utf8::encode_utf8(front).len() as int,
        ),
    decreases front.len(),
{
    let all = front + back;
    let bytes = vstd::utf8::encode_utf8(all);
    vstd::utf8::encode_utf8_valid_utf8(all);
    if front.len() == 0 {
        assert(all =~= back);
        assert(vstd::utf8::encode_utf8(front) + vstd::utf8::encode_utf8(back)
            =~= vstd::utf8::encode_utf8(back));
    } else {
        assert(all.drop_first() =~= front.drop_first() + back);
        lemma_prefix_of_encoding(front.drop_first(), back);
        vstd::utf8::encode_utf8_first_scalar(all);
        let rest = vstd::utf8::encode_utf8(all.drop_first());
        assert(vstd::utf8::pop_first_scalar(bytes) =~= rest);
        assert(bytes =~= vstd::utf8::encode_utf8(front) + vstd::utf8::encode_utf8(back));
    }
}

/// A summary that says when the filing was made gives that date: what stands behind the
/// first `Filed:</b>` and a blank, where it is as long as a date and does not begin or end
/// with white space.
pub proof fn law_summary_holds_the_date(front: Seq<char>, date: Seq<char>, rest: Seq<char>)
    requires
        vstd::utf8::encode_utf8(date).len() == DATE_BYTES,
        date.len() > 0,
        !text::is_whitespace(date[0]),
        !text::is_whitespace(date.last()),
        text::first_at(
            front + "Filed:</b>"@ + seq![' '] + date + rest,
            "Filed:</b>"@,
            front.len() as int,
        ),
    ensures
        ({
            let summary = front + "Filed:</b>"@ + seq![' '] + date + rest;
            &&& rss::filed_text(summary) is Some
            &&& text::has_byte_prefix(rss::filed_text(summary)->0, DATE_BYTES as int)
            &&& text::byte_prefix(rss::filed_text(summary)->0, DATE_BYTES as int) == date
        }),
{
    let pat = "Filed:</b>"@;
    let summary = front + pat + seq![' '] + date + rest;
    let at = front.len() as int;
    assert(text::occurs_at(summary, pat, at));
    let found = choose|i: int| text::first_at(summary, pat, i);
    assert(text::first_at(summary, pat, found));
    assert(found == at);
    let after = summary.skip(at + pat.len());
    assert(after =~= seq![' '] + date + rest);
    let text = date + rest;
    assert(after.skip(1) =~= text);
    text::lemma_trim_start(after, 1);
    let end = lemma_trimmed_end(text, date.len() as int);
    text::lemma_trim_end(text, end);
    let filed = text.take(end);
    let tail = filed.skip(date.len() as int);
    assert(filed =~= date + tail);
    lemma_prefix_of_encoding(date, tail);
    let bytes = vstd::utf8::encode_utf8(filed);
    assert(bytes.subrange(0, DATE_BYTES as int) =~= vstd::utf8::encode_utf8(date));
    vstd::utf8::encode_utf8_decode_utf8(date);
}

/// Where the white space at the end of a text begins, if not before `from`.
proof fn lemma_trimmed_end(s: Seq<char>, from: int) -> (end: int)
    requires
        0 < from <= s.len(),
        !text::is_whitespace(s[from - 1]),
    ensures
        from <= end <= s.len(),
        !text::is_whitespace(s[end - 1]),
        forall|j: int| end <= j < s.len() ==> text::is_whitespace(#[trigger] s[j]),
    decreases s.len(),
{
    if from == s.len() || !text::is_whitespace(s.last()) {
        s.len() as int
    } else {
        let end = lemma_trimmed_end(s.drop_last(), from);
        assert forall|j: int| end <= j < s.len() implies text::is_whitespace(#[trigger] s[j]) by {
            if j < s.len() - 1 {
                assert(s[j] == s.drop_last()[j]);
            }
        }
        end
    }
}

} // verus!
