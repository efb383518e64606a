//! What holds of the text and decimal helpers, in terms of how texts are put together.
use vstd::prelude::*;

use crate::text::{self, NumberError};

verus! {

/// Every character is one of the ten digits.
pub open spec fn only_digits(s: Seq<char>) -> bool {
    forall|i: int| 0 <= i < s.len() ==> '0' <= #[trigger] s[i] <= '9'
}

/// A text is cut at the first separator, whatever comes behind it; a text without the
/// separator is kept whole.
pub proof fn law_cut_at_the_first_separator(front: Seq<char>, back: Seq<char>, c: char)
    requires
        !front.contains(c),
    ensures
        text::before_first(front, c) == front,
        text::before_first(front + seq![c] + back, c) == front,
{
    assert(front + Seq::<char>::empty() =~= front);
    text::lemma_before_first_of_concat(front, Seq::empty(), c);
    let rest = seq![c] + back;
    assert(front + seq![c] + back =~= front + rest);
    text::lemma_before_first_of_concat(front, rest, c);
}

/// A text is parted at the last separator, whatever comes before it; a text without the
/// separator is all behind it.
pub proof fn law_parted_at_the_last_separator(front: Seq<char>, back: Seq<char>, c: char)
    requires
        !back.contains(c),
    ensures
        text::before_last(front + seq![c] + back, c) == front,
        text::after_last(front + seq![c] + back, c) == back,
        text::after_last(back, c) == back,
{
    let whole = front + seq![c] + back;
    let at = front.len() as int;
    assert forall|j: int| at < j < whole.len() implies whole[j] != c by {
        assert(whole[j] == back[j - at - 1]);
    }
    text::lemma_last(whole, c, at);
    assert(whole.take(at) =~= front);
    assert(whole.skip(at + 1) =~= back);
    text::lemma_last(back, c, -1);
    assert(back.skip(0) =~= back);
}

/// A text stands in every text that is put together around it.
pub proof fn law_a_part_is_found(front: Seq<char>, pat: Seq<char>, back: Seq<char>)
    ensures
        text::occurs_in(front + pat + back, pat),
        text::occurs_at(front + pat + back, pat, front.len() as int),
{
    let whole = front + pat + back;
    assert(whole.subrange(front.len() as int, (front.len() + pat.len()) as int) =~= pat);
    assert(text::occurs_at(whole, pat, front.len() as int));
}

/// Where a text stands in another, this is put together around it.
pub proof fn law_what_is_found_is_a_part(s: Seq<char>, pat: Seq<char>) -> (parts: (
    Seq<char>,
    Seq<char>,
))
    requires
        text::occurs_in(s, pat),
    ensures
        s == parts.0 + pat + parts.1,
{
    let i = choose|i: int| text::occurs_at(s, pat, i);
    let front = s.take(i);
    let back = s.skip(i + pat.len());
    assert(s =~= front + pat + back);
    (front, back)
}

/// The first place is one at which the text stands, with none before it.
pub proof fn law_the_first_place_is_first(s: Seq<char>, pat: Seq<char>, i: int, j: int)
    requires
        text::first_at(s, pat, i),
    ensures
        0 <= i <= s.len() - pat.len(),
        s == s.take(i) + pat + s.skip(i + pat.len()),
        0 <= j < i ==> !pat.is_prefix_of(s.skip(j)),
{
    assert(s =~= s.take(i) + pat + s.skip(i + pat.len()));
    lemma_found_at_a_beginning(s, pat, j);
}

/// A text stands at an index exactly where what follows the index begins with it.
pub proof fn lemma_found_at_a_beginning(s: Seq<char>, pat: Seq<char>, j: int)
    ensures
        0 <= j <= s.len() ==> (text::occurs_at(s, pat, j) <==> pat.is_prefix_of(s.skip(j))),
{
    if 0 <= j && j + pat.len() <= s.len() {
        assert(s.skip(j).subrange(0, pat.len() as int) =~= s.subrange(j, j + pat.len()));
    }
}

/// Behind the first of a text stands all that was put there.
pub proof fn law_the_rest_stands_behind(front: Seq<char>, pat: Seq<char>, back: Seq<char>)
    requires
        forall|j: int|
            0 <= j < front.len() ==> !pat.is_prefix_of(#[trigger] (front + pat + back).skip(j)),
    ensures
        text::text_after(front + pat + back, pat) == Some(back),
{
    let whole = front + pat + back;
    let at = front.len() as int;
    law_a_part_is_found(front, pat, back);
    assert forall|j: int| 0 <= j < at implies !text::occurs_at(whole, pat, j) by {
        lemma_found_at_a_beginning(whole, pat, j);
        assert(!pat.is_prefix_of(whole.skip(j)));
    }
    assert(text::first_at(whole, pat, at));
    let found = choose|i: int| text::first_at(whole, pat, i);
    assert(text::first_at(whole, pat, found));
    assert(found == at);
    assert(whole.skip(at + pat.len()) =~= back);
}

/// Nothing stands behind a text that does not occur.
pub proof fn law_nothing_stands_behind_what_is_missing(s: Seq<char>, pat: Seq<char>)
    requires
        forall|j: int| 0 <= j <= s.len() ==> !pat.is_prefix_of(#[trigger] s.skip(j)),
    ensures
        text::text_after(s, pat) is None,
        !text::occurs_in(s, pat),
{
    assert forall|j: int| !text::occurs_at(s, pat, j) by {
        lemma_found_at_a_beginning(s, pat, j);
        if 0 <= j <= s.len() {
            assert(!pat.is_prefix_of(s.skip(j)));
        }
    }
}

/// White space are the twenty-five characters of the Unicode property White_Space.
pub proof fn law_white_space_characters(c: char)
    ensures
        text::is_whitespace(c) <==> seq![
            '\t', '\n', '\u{b}', '\u{c}', '\r', ' ', '\u{85}', '\u{a0}', '\u{1680}', '\u{2000}',
            '\u{2001}', '\u{2002}', '\u{2003}', '\u{2004}', '\u{2005}', '\u{2006}', '\u{2007}',
            '\u{2008}', '\u{2009}', '\u{200a}', '\u{2028}', '\u{2029}', '\u{202f}', '\u{205f}',
            '\u{3000}',
        ].contains(c),
{
    let all = seq![
        '\t', '\n', '\u{b}', '\u{c}', '\r', ' ', '\u{85}', '\u{a0}', '\u{1680}', '\u{2000}',
        '\u{2001}', '\u{2002}', '\u{2003}', '\u{2004}', '\u{2005}', '\u{2006}', '\u{2007}',
        '\u{2008}', '\u{2009}', '\u{200a}', '\u{2028}', '\u{2029}', '\u{202f}', '\u{205f}',
        '\u{3000}',
    ];
    if text::is_whitespace(c) {
        let u = c as u32;
        let i: int = if u <= 0xd {
            u - 0x9
        } else if u == 0x20 {
            5
        } else if u == 0x85 {
            6
        } else if u == 0xa0 {
            7
        } else if u == 0x1680 {
            8
        } else if u <= 0x200a {
            u - 0x2000 + 9
        } else if u == 0x2028 {
            20
        } else if u == 0x2029 {
            21
        } else if u == 0x202f {
            22
        } else if u == 0x205f {
            23
        } else {
            24
        };
        assert(all[i] == c);
    }
}

/// White space around a text is taken off, and nothing else.
pub proof fn law_white_space_is_taken_off(front: Seq<char>, core: Seq<char>, back: Seq<char>)
    requires
        forall|i: int| 0 <= i < front.len() ==> text::is_whitespace(#[trigger] front[i]),
        forall|i: int| 0 <= i < back.len() ==> text::is_whitespace(#[trigger] back[i]),
        core.len() > 0 ==> !text::is_whitespace(core[0]) && !text::is_whitespace(core.last()),
    ensures
        text::trimmed(front + core + back) == core,
{
    let whole = front + core + back;
    if core.len() > 0 {
        let at = front.len() as int;
        assert forall|j: int| 0 <= j < at implies text::is_whitespace(#[trigger] whole[j]) by {
            assert(whole[j] == front[j]);
        }
        assert(whole[at] == core[0]);
        text::lemma_trim_start(whole, at);
        let rest = whole.skip(at);
        assert(rest =~= core + back);
        let end = core.len() as int;
        assert forall|j: int| end <= j < rest.len() implies text::is_whitespace(
            #[trigger] rest[j],
        ) by {
            assert(rest[j] == back[j - end]);
        }
        assert(rest[end - 1] == core.last());
        text::lemma_trim_end(rest, end);
        assert(rest.take(end) =~= core);
    } else {
        assert forall|j: int| 0 <= j < whole.len() implies text::is_whitespace(
            #[trigger] whole[j],
        ) by {
            if j < front.len() {
                assert(whole[j] == front[j]);
            } else {
                assert(whole[j] == back[j - front.len()]);
            }
        }
        text::lemma_trim_start(whole, whole.len() as int);
        assert(whole.skip(whole.len() as int) =~= core);
        assert(text::trim_end(core) == core);
    }
}

/// Text and more text: the bytes of the first part are a part of their own.
pub proof fn law_bytes_of_a_beginning(front: Seq<char>, back: Seq<char>)
    ensures
        text::has_byte_prefix(
            front + back,
            vstd::utf8::encode_utf8(front).len() as int,
        ),
        text::byte_prefix(front + back, vstd::utf8::encode_utf8(front).len() as int) == front,
{
    crate::feed_format::lemma_prefix_of_encoding(front, back);
    let bytes = vstd::utf8::encode_utf8(front + back);
    let n = vstd::utf8::encode_utf8(front).len() as int;
    assert(bytes.subrange(0, n) =~= vstd::utf8::encode_utf8(front));
    vstd::utf8::encode_utf8_decode_utf8(front);
}

/// Only so many bytes as whole characters take are a part of their own.
pub proof fn law_only_whole_characters(s: Seq<char>, n: int) -> (k: int)
    requires
        text::has_byte_prefix(s, n),
    ensures
        0 <= k <= s.len(),
        vstd::utf8::encode_utf8(s.take(k)).len() == n,
        text::byte_prefix(s, n) == s.take(k),
{
    let bytes = vstd::utf8::encode_utf8(s);
    vstd::utf8::encode_utf8_valid_utf8(s);
    vstd::utf8::valid_utf8_split(bytes, n);
    vstd::utf8::decode_utf8_split(bytes, n);
    vstd::utf8::encode_utf8_decode_utf8(s);
    let front = vstd::utf8::decode_utf8(bytes.subrange(0, n));
    let back = vstd::utf8::decode_utf8(bytes.subrange(n, bytes.len() as int));
    vstd::utf8::decode_utf8_encode_utf8(bytes.subrange(0, n));
    assert(s == front + back);
    assert(s.take(front.len() as int) =~= front);
    front.len() as int
}

/// A digit writes its own value, and nothing writes zero.
pub proof fn law_a_digit_writes_its_value(c: char)
    requires
        '0' <= c <= '9',
    ensures
        text::digits_value(seq![c]) == c as u32 - 48,
        text::digits_value(Seq::empty()) == 0,
{
    reveal_with_fuel(text::digits_value, 2);
    assert(seq![c].drop_last() =~= Seq::<char>::empty());
}

/// Digits behind others shift these by as many places as they take.
pub proof fn law_digits_have_places(front: Seq<char>, back: Seq<char>)
    ensures
        text::digits_value(front + back) == text::digits_value(front)
            * vstd::arithmetic::power::pow(10, back.len()) + text::digits_value(back),
    decreases back.len(),
{
    vstd::arithmetic::power::lemma_pow0(10);
    if back.len() == 0 {
        assert(front + back =~= front);
    } else {
        let rest = back.drop_last();
        law_digits_have_places(front, rest);
        assert((front + back).drop_last() =~= front + rest);
        assert((front + back).last() == back.last());
        let p = vstd::arithmetic::power::pow(10, rest.len());
        vstd::arithmetic::power::lemma_pow_adds(10, rest.len(), 1);
        vstd::arithmetic::power::lemma_pow1(10);
        let a = text::digits_value(front) as int;
        let b = text::digits_value(rest) as int;
        assert((a * p + b) * 10 == a * (p * 10) + b * 10) by (nonlinear_arith);
    }
}

/// A row of digits reads as the number that it writes, with or without a plus sign, as long
/// as that fits.
pub proof fn law_digits_are_read(digits: Seq<char>)
    requires
        digits.len() > 0,
        only_digits(digits),
    ensures
        text::digits_value(digits) <= 0xffff_ffff_ffff_ffff ==> {
            &&& text::read_u64(digits) == Some(text::digits_value(digits) as u64)
            &&& text::read_u64(seq!['+'] + digits) == Some(text::digits_value(digits) as u64)
        },
        text::digits_value(digits) > 0xffff_ffff_ffff_ffff ==> {
            &&& text::read_u64(digits) is None
            &&& text::read_u64(seq!['+'] + digits) is None
            &&& text::number_fault(digits) == Some(NumberError::TooLarge)
        },
{
    assert(digits[0] != '+');
    assert((seq!['+'] + digits).skip(1) =~= digits);
    assert(text::all_digits(digits));
    if text::digits_value(digits) > 0xffff_ffff_ffff_ffff {
        lemma_fault_of_digits(digits);
        text::law_a_number_or_a_fault(digits);
    }
}

proof fn lemma_fault_of_digits(digits: Seq<char>)
    requires
        text::all_digits(digits),
    ensures
        text::digits_fault(digits) is None || text::digits_fault(digits) == Some(
            NumberError::TooLarge,
        ),
    decreases digits.len(),
{
    if digits.len() > 0 {
        let rest = digits.drop_last();
        assert forall|i: int| 0 <= i < rest.len() implies text::is_digit(#[trigger] rest[i]) by {
            assert(text::is_digit(digits[i]));
        }
        lemma_fault_of_digits(rest);
        assert(text::is_digit(digits[digits.len() - 1]));
    }
}

/// Only rows of digits, with or without a plus sign, are read as numbers.
pub proof fn law_only_digits_are_read(s: Seq<char>)
    requires
        text::read_u64(s) is Some,
    ensures
        s.len() > 0,
        only_digits(s) || (s[0] == '+' && s.len() > 1 && only_digits(s.skip(1))),
{
    let d = text::unsigned_part(s);
    assert forall|i: int| 0 <= i < d.len() implies '0' <= #[trigger] d[i] <= '9' by {
        assert(text::is_digit(d[i]));
    }
}

/// Nothing is told from what is not a number: an empty text from one with a wrong
/// character behind digits.
pub proof fn law_faults_are_told_apart(digits: Seq<char>, wrong: char, rest: Seq<char>)
    requires
        only_digits(digits),
        text::digits_value(digits) <= 0xffff_ffff_ffff_ffff,
        !('0' <= wrong <= '9'),
        digits.len() > 0 || wrong != '+',
    ensures
        text::number_fault(Seq::empty()) == Some(NumberError::Empty),
        text::number_fault(digits + seq![wrong] + rest) == Some(NumberError::InvalidDigit),
        text::number_fault(seq!['+']) == Some(NumberError::InvalidDigit),
        text::read_u64(digits + seq![wrong] + rest) is None,
{
    let s = digits + seq![wrong] + rest;
    let n = (digits.len() + 1) as int;
    let upto = s.take(n);
    assert(upto.drop_last() =~= digits);
    assert(upto.last() == wrong);
    lemma_no_fault_of_digits(digits);
    assert(text::digits_fault(upto) == Some(NumberError::InvalidDigit));
    text::lemma_fault_persists(s, n);
    assert(s[0] != '+') by {
        if digits.len() > 0 {
            assert(s[0] == digits[0]);
        } else {
            assert(s[0] == wrong);
        }
    }
    assert(text::unsigned_part(s) == s);
    text::law_a_number_or_a_fault(s);
}

proof fn lemma_no_fault_of_digits(digits: Seq<char>)
    requires
        only_digits(digits),
        text::digits_value(digits) <= 0xffff_ffff_ffff_ffff,
    ensures
        text::digits_fault(digits) is None,
{
    if digits.len() > 0 {
        assert(text::all_digits(digits));
        assert(text::unsigned_part(digits) == digits) by {
            assert(digits[0] != '+');
        }
        law_digits_are_read(digits);
        text::law_a_number_or_a_fault(digits);
    }
}

/// A number is written with digits alone, without a leading zero, and they write it.
pub proof fn law_decimal_is_the_shortest(n: nat)
    ensures
        only_digits(text::decimal(n)),
        text::digits_value(text::decimal(n)) == n,
        text::decimal(n).len() > 0,
        n > 0 ==> text::decimal(n)[0] != '0',
        n == 0 ==> text::decimal(n).len() == 1,
    decreases n,
{
    text::lemma_decimal_digits(n);
    let d = text::decimal(n);
    assert forall|i: int| 0 <= i < d.len() implies '0' <= #[trigger] d[i] <= '9' by {
        assert(text::is_digit(d[i]));
    }
    if n >= 10 {
        law_decimal_is_the_shortest(n / 10);
    }
}

/// What stands before the first separator begins the text and holds no separator, and
/// either it is all of the text or the separator follows.
pub proof fn law_before_the_first_separator(s: Seq<char>, c: char)
    ensures
        text::before_first(s, c).is_prefix_of(s),
        !text::before_first(s, c).contains(c),
        text::before_first(s, c).len() == s.len() || s[text::before_first(s, c).len() as int]
            == c,
    decreases s.len(),
{
    let front = text::before_first(s, c);
    if s.len() > 0 && s[0] != c {
        let rest = s.skip(1);
        law_before_the_first_separator(rest, c);
        let shorter = text::before_first(rest, c);
        assert(front == seq![s[0]] + shorter);
        assert(shorter =~= rest.subrange(0, shorter.len() as int));
        assert(front =~= s.subrange(0, front.len() as int)) by {
            assert forall|i: int| 0 < i < front.len() implies front[i] == s[i] by {
                assert(front[i] == shorter[i - 1]);
                assert(rest.subrange(0, shorter.len() as int)[i - 1] == rest[i - 1]);
            }
        }
        assert forall|i: int| 0 <= i < front.len() implies front[i] != c by {
            if i > 0 {
                assert(front[i] == shorter[i - 1]);
                assert(shorter.contains(shorter[i - 1]));
            }
        }
    } else {
        assert(front =~= s.subrange(0, 0));
    }
}

/// A text is what stands before its last separator, the separator, and what stands behind
/// it, which holds no separator.
pub proof fn law_around_the_last_separator(s: Seq<char>, c: char)
    requires
        s.contains(c),
    ensures
        s == text::before_last(s, c) + seq![c] + text::after_last(s, c),
        !text::after_last(s, c).contains(c),
    decreases s.len(),
{
    let rest = s.drop_last();
    if s.last() == c {
        assert(s =~= rest + seq![c] + Seq::<char>::empty());
    } else {
        let i = choose|i: int| 0 <= i < s.len() && s[i] == c;
        assert(rest[i] == c);
        law_around_the_last_separator(rest, c);
        let back = text::after_last(rest, c);
        let front = text::before_last(rest, c);
        assert(rest.push(s.last()) =~= front + seq![c] + back.push(s.last()));
        assert(s =~= rest.push(s.last()));
        assert(text::before_last(s, c) == front);
        assert(text::after_last(s, c) == back.push(s.last()));
        assert forall|i: int| 0 <= i < back.len() + 1 implies back.push(s.last())[i] != c by {
            if i < back.len() {
                assert(back.contains(back[i]));
            }
        }
    }
}

/// A trimmed text is a part of the text with nothing but white space around it, and
/// neither begins nor ends with white space.
pub proof fn law_trimmed_text_is_a_part(s: Seq<char>) -> (ends: (int, int))
    ensures
        0 <= ends.0 <= ends.1 <= s.len(),
        text::trimmed(s) == s.subrange(ends.0, ends.1),
        forall|i: int|
            0 <= i < ends.0 || ends.1 <= i < s.len() ==> text::is_whitespace(#[trigger] s[i]),
        ends.0 < ends.1 ==> !text::is_whitespace(s[ends.0]) && !text::is_whitespace(
            s[ends.1 - 1],
        ),
{
    let from = lemma_white_space_before(s);
    text::lemma_trim_start(s, from);
    let rest = s.skip(from);
    let to = lemma_white_space_behind(rest);
    text::lemma_trim_end(rest, to);
    assert(rest.take(to) =~= s.subrange(from, from + to));
    assert forall|i: int| 0 <= i < from || from + to <= i < s.len() implies text::is_whitespace(
        #[trigger] s[i],
    ) by {
        if i >= from {
            assert(rest[i - from] == s[i]);
        }
    }
    (from, from + to)
}

proof fn lemma_white_space_before(s: Seq<char>) -> (n: int)
    ensures
        0 <= n <= s.len(),
        forall|i: int| 0 <= i < n ==> text::is_whitespace(#[trigger] s[i]),
        n == s.len() || !text::is_whitespace(s[n]),
    decreases s.len(),
{
    if s.len() > 0 && text::is_whitespace(s[0]) {
        let n = lemma_white_space_before(s.skip(1));
        assert forall|i: int| 0 <= i < n + 1 implies text::is_whitespace(#[trigger] s[i]) by {
            if i > 0 {
                assert(s.skip(1)[i - 1] == s[i]);
            }
        }
        n + 1
    } else {
        0
    }
}

proof fn lemma_white_space_behind(s: Seq<char>) -> (n: int)
    ensures
        0 <= n <= s.len(),
        forall|i: int| n <= i < s.len() ==> text::is_whitespace(#[trigger] s[i]),
        n == 0 || !text::is_whitespace(s[n - 1]),
    decreases s.len(),
{
    if s.len() > 0 && text::is_whitespace(s.last()) {
        let n = lemma_white_space_behind(s.drop_last());
        assert forall|i: int| n <= i < s.len() implies text::is_whitespace(#[trigger] s[i]) by {
            if i < s.len() - 1 {
                assert(s.drop_last()[i] == s[i]);
            }
        }
        n
    } else {
        s.len() as int
    }
}

} // verus!
