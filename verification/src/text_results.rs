//! What the text and number functions give back, in terms of what they are given.
use vstd::prelude::*;

use crate::columns::{metadata_value_bool, metadata_value_u64};
use crate::double::{double_is_zero, double_to_u64};
use crate::json::{Cell, JsonNumber};
use crate::text::{
    self, after_text, begins_with, cut_at_first, find_text, joined_text, parse_number, parse_u64,
    read_number, same_bytes, same_text, split_at_last, take_bytes, to_chars, trim_text,
    u64_to_text, whitespace, NumberError,
};
use crate::text_laws;

verus! {

/// A text is cut before its first separator.
pub proof fn law_result_of_cutting(s: &str, c: char, part: &str)
    requires
        call_ensures(cut_at_first, (s, c), part),
    ensures
        part@.is_prefix_of(s@),
        !part@.contains(c),
        part@.len() < s@.len() ==> s@[part@.len() as int] == c,
{
    text_laws::law_before_the_first_separator(s@, c);
}

/// A text is split around its last separator, where it has one.
pub proof fn law_result_of_splitting(s: &str, c: char, parts: Option<(&str, &str)>)
    requires
        call_ensures(split_at_last, (s, c), parts),
    ensures
        match parts {
            Some((before, after)) => s@ == before@ + seq![c] + after@ && !after@.contains(c),
            None => !s@.contains(c),
        },
{
    if s@.contains(c) {
        text_laws::law_around_the_last_separator(s@, c);
    }
}

/// What is found is the first place at which a text begins with another, and nothing is
/// found only where there is none.
pub proof fn law_result_of_finding(s: &str, pat: &str, found: Option<usize>, j: int)
    requires
        call_ensures(find_text, (s, pat), found),
        0 <= j <= s@.len(),
    ensures
        match found {
            Some(i) => {
                &&& i <= s@.len()
                &&& pat@.is_prefix_of(s@.skip(i as int))
                &&& pat@.is_prefix_of(s@.skip(j)) ==> i <= j
            },
            None => !pat@.is_prefix_of(s@.skip(j)),
        },
{
    if let Some(i) = found {
        text_laws::lemma_found_at_a_beginning(s@, pat@, i as int);
    }
    text_laws::lemma_found_at_a_beginning(s@, pat@, j);
    if found is None {
        assert(!text::occurs_at(s@, pat@, j));
    }
}

/// What stands behind a text that is found is all the rest.
pub proof fn law_result_of_reading_on(
    s: &str,
    pat: &str,
    rest: Option<&str>,
    front: Seq<char>,
    back: Seq<char>,
)
    requires
        call_ensures(after_text, (s, pat), rest),
    ensures
        s@ == front + pat@ + back && (forall|j: int|
            0 <= j < front.len() ==> !pat@.is_prefix_of(#[trigger] s@.skip(j))) ==> rest is Some
            && (rest->0)@ == back,
        (forall|j: int| 0 <= j <= s@.len() ==> !pat@.is_prefix_of(#[trigger] s@.skip(j)))
            ==> rest is None,
{
    if s@ == front + pat@ + back && (forall|j: int|
        0 <= j < front.len() ==> !pat@.is_prefix_of(#[trigger] s@.skip(j))) {
        text_laws::law_the_rest_stands_behind(front, pat@, back);
    }
    if forall|j: int| 0 <= j <= s@.len() ==> !pat@.is_prefix_of(#[trigger] s@.skip(j)) {
        text_laws::law_nothing_stands_behind_what_is_missing(s@, pat@);
    }
}

/// White space at both ends is taken off, and nothing else.
pub proof fn law_result_of_trimming(s: &str, part: &str) -> (ends: (int, int))
    requires
        call_ensures(trim_text, (s,), part),
    ensures
        0 <= ends.0 <= ends.1 <= s@.len(),
        part@ == s@.subrange(ends.0, ends.1),
        forall|i: int|
            0 <= i < ends.0 || ends.1 <= i < s@.len() ==> text::is_whitespace(#[trigger] s@[i]),
        part@.len() > 0 ==> !text::is_whitespace(part@[0]) && !text::is_whitespace(
            part@.last(),
        ),
{
    text_laws::law_trimmed_text_is_a_part(s@)
}

/// The part of a text that takes so many bytes begins the text and takes them; there is
/// none only where no beginning of the text takes them.
pub proof fn law_result_of_taking_bytes(s: &str, n: usize, part: Option<&str>, k: int)
    requires
        call_ensures(take_bytes, (s, n), part),
        0 <= k <= s@.len(),
    ensures
        match part {
            Some(part) => {
                &&& part@.len() <= s@.len()
                &&& part@ == s@.take(part@.len() as int)
                &&& vstd::utf8::encode_utf8(part@).len() == n
            },
            None => vstd::utf8::encode_utf8(s@.take(k)).len() != n,
        },
{
    if let Some(part) = part {
        let m = text_laws::law_only_whole_characters(s@, n as int);
        assert(part@ == s@.take(m));
    } else {
        text_laws::law_bytes_of_a_beginning(s@.take(k), s@.skip(k));
        assert(s@.take(k) + s@.skip(k) =~= s@);
    }
}

/// Texts and bytes are compared whole, put together whole and taken apart whole.
pub proof fn law_results_of_comparing(
    a: &str,
    b: &str,
    first: &[u8],
    second: &[u8],
    c: char,
    same: bool,
    equal: bool,
    begins: bool,
    both: String,
    chars: Vec<char>,
    white: bool,
)
    requires
        call_ensures(same_text, (a, b), same),
        call_ensures(same_bytes, (first, second), equal),
        call_ensures(begins_with, (a, b), begins),
        call_ensures(joined_text, (a, b), both),
        call_ensures(to_chars, (a,), chars),
        call_ensures(whitespace, (c,), white),
    ensures
        same <==> a@ == b@,
        equal <==> first@ == second@,
        begins <==> b@.is_prefix_of(a@),
        both@ == a@ + b@,
        chars@ == a@,
        white <==> text::is_whitespace(c),
{
}

/// A row of digits, with a plus sign or without, is read as the number that it writes,
/// where that fits; no other text is read as a number.
pub proof fn law_result_of_reading_a_number(s: &str, digits: Seq<char>, number: Option<u64>)
    requires
        call_ensures(parse_u64, (s,), number),
        digits.len() > 0,
        text_laws::only_digits(digits),
    ensures
        s@ == digits || s@ == seq!['+'] + digits ==> number == if text::digits_value(digits)
            <= 0xffff_ffff_ffff_ffff {
            Some(text::digits_value(digits) as u64)
        } else {
            None
        },
        number is Some ==> s@.len() > 0 && (text_laws::only_digits(s@) || (s@[0] == '+'
            && s@.len() > 1 && text_laws::only_digits(s@.skip(1)))),
{
    text_laws::law_digits_are_read(digits);
    if number is Some {
        text_laws::law_only_digits_are_read(s@);
    }
}

/// The three ways to read a number agree, and tell what is wrong with the same texts.
pub proof fn law_readers_of_numbers_agree(
    s: &str,
    chars: Vec<char>,
    number: Option<u64>,
    parsed: Result<u64, NumberError>,
    read: Result<u64, NumberError>,
)
    requires
        chars@ == s@,
        call_ensures(parse_u64, (s,), number),
        call_ensures(parse_number, (s,), parsed),
        call_ensures(read_number, (&chars,), read),
    ensures
        parsed == read,
        number matches Some(n) ==> parsed == Ok::<u64, NumberError>(n),
        number is None ==> parsed == Err::<u64, NumberError>(text::number_fault(s@)->0),
{
}

/// A number that is written in decimal is read back, and is written without a leading
/// zero.
pub proof fn law_numbers_are_written_and_read(
    n: u64,
    written: String,
    s: &str,
    number: Option<u64>,
)
    requires
        call_ensures(u64_to_text, (n,), written),
        s@ == written@,
        call_ensures(parse_u64, (s,), number),
    ensures
        number == Some(n),
        text_laws::only_digits(written@),
        written@.len() > 1 ==> written@[0] != '0',
{
    text::law_decimal_reads_back(n);
    text_laws::law_decimal_is_the_shortest(n as nat);
}

/// A cell with a number that fits becomes that number, and so does a text that writes it.
pub proof fn law_cells_become_numbers(
    cell: Cell,
    number: JsonNumber,
    s: String,
    n: u64,
    value: u64,
)
    requires
        call_ensures(metadata_value_u64, (&cell,), value),
    ensures
        cell == Cell::Number(number) && number.unsigned == Some(n) ==> value == n,
        cell == Cell::Number(number) && number.unsigned is None && number.signed is Some
            && number.signed->0 == n ==> value == n,
        cell == Cell::Text(s) && s@ == text::decimal(n as nat) ==> value == n,
        cell == Cell::Text(s) && s@.len() > 0 && text_laws::only_digits(s@)
            && text::digits_value(s@) == n ==> value == n,
        cell == Cell::Bool(true) ==> value == 1,
        cell == Cell::Bool(false) ==> value == 0,
        cell == Cell::Null || cell == Cell::Nested(s) ==> value == 0,
{
    text::law_decimal_reads_back(n);
    if s@.len() > 0 && text_laws::only_digits(s@) {
        text_laws::law_digits_are_read(s@);
    }
}

/// A cell is true where it holds a truth value that is, a number that is not zero, or one
/// of the four texts.
pub proof fn law_cells_become_truth_values(
    cell: Cell,
    number: JsonNumber,
    s: String,
    value: bool,
)
    requires
        call_ensures(metadata_value_bool, (&cell,), value),
    ensures
        cell == Cell::Bool(true) ==> value,
        cell == Cell::Bool(false) ==> !value,
        cell == Cell::Null || cell == Cell::Nested(s) ==> !value,
        cell == Cell::Number(number) && number.signed is Some ==> value == (number.signed->0 != 0),
        cell == Cell::Number(number) && number.signed is None && number.unsigned is Some
            ==> value == (number.unsigned->0 != 0),
        cell == Cell::Text(s) ==> value == (s@ == seq!['1'] || s@ == seq!['t', 'r', 'u', 'e']
            || s@ == seq!['T', 'R', 'U', 'E'] || s@ == seq!['T', 'r', 'u', 'e']),
{
    crate::column_laws::law_texts_as_truth_values(s@, s@);
}

/// A double is told to be zero by its bits, and is truncated to the whole number below
/// it where that is not negative and fits.
pub proof fn law_doubles_become_numbers(
    exponent: u64,
    fraction: u64,
    bits: u64,
    zero: bool,
    value: u64,
)
    requires
        1023 <= exponent < 1023 + 64,
        fraction < 0x10_0000_0000_0000,
        bits == exponent * 0x10_0000_0000_0000 + fraction,
        call_ensures(double_is_zero, (bits,), zero),
        call_ensures(double_to_u64, (bits,), value),
    ensures
        !zero,
        ({
            let scaled = (0x10_0000_0000_0000 + fraction) * vstd::arithmetic::power2::pow2(
                (exponent - 1023) as nat,
            );
            value * 0x10_0000_0000_0000 <= scaled < (value + 1) * 0x10_0000_0000_0000
        }),
{
    crate::column_laws::law_doubles_are_truncated(false, exponent, fraction);
    let power = vstd::arithmetic::power2::pow2((exponent - 1023) as nat);
    vstd::arithmetic::power2::lemma2_to64();
    vstd::arithmetic::power2::lemma2_to64_rest();
    if exponent - 1023 < 63 {
        vstd::arithmetic::power2::lemma_pow2_strictly_increases((exponent - 1023) as nat, 63);
    }
    assert(power <= 0x8000_0000_0000_0000);
    assert((0x10_0000_0000_0000 + fraction) * power < 0x10_0000_0000_0000
        * 0x1_0000_0000_0000_0000) by (nonlinear_arith)
        requires
            fraction < 0x10_0000_0000_0000,
            power <= 0x8000_0000_0000_0000,
    ;
    assert(bits % 0x8000_0000_0000_0000 != 0);
}

} // verus!
