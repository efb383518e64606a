//! Text and decimal helpers, stated over the characters of a string.
use vstd::prelude::*;

verus! {

/// The characters before the first `c`, or all of them where there is none.
pub open spec fn before_first(s: Seq<char>, c: char) -> Seq<char>
    decreases s.len(),
{
    if s.len() == 0 || s[0] == c {
        Seq::empty()
    } else {
        seq![s[0]] + before_first(s.skip(1), c)
    }
}

/// The characters before the last `c`; none where `c` does not occur.
pub open spec fn before_last(s: Seq<char>, c: char) -> Seq<char>
    decreases s.len(),
{
    if s.len() == 0 {
        Seq::empty()
    } else if s.last() == c {
        s.drop_last()
    } else {
        before_last(s.drop_last(), c)
    }
}

/// The characters after the last `c`, or all of them where there is none.
pub open spec fn after_last(s: Seq<char>, c: char) -> Seq<char>
    decreases s.len(),
{
    if s.len() == 0 || s.last() == c {
        Seq::empty()
    } else {
        after_last(s.drop_last(), c).push(s.last())
    }
}

/// `pat` stands in `s` from index `i` on.
pub open spec fn occurs_at(s: Seq<char>, pat: Seq<char>, i: int) -> bool {
    0 <= i && i + pat.len() <= s.len() && s.subrange(i, i + pat.len()) == pat
}

/// `pat` stands somewhere in `s`.
pub open spec fn occurs_in(s: Seq<char>, pat: Seq<char>) -> bool {
    exists|i: int| occurs_at(s, pat, i)
}

/// `i` is the first index at which `pat` stands in `s`.
pub open spec fn first_at(s: Seq<char>, pat: Seq<char>, i: int) -> bool {
    occurs_at(s, pat, i) && forall|j: int| 0 <= j < i ==> !occurs_at(s, pat, j)
}

/// What stands in `s` behind the first `pat`, where there is one.
pub open spec fn text_after(s: Seq<char>, pat: Seq<char>) -> Option<Seq<char>> {
    if occurs_in(s, pat) {
        Some(s.skip((choose|i: int| first_at(s, pat, i)) + pat.len()))
    } else {
        None
    }
}

/// The Unicode property White_Space.
pub open spec fn is_whitespace(c: char) -> bool {
    let u = c as u32;
    ||| 0x9 <= u <= 0xd
    ||| u == 0x20
    ||| u == 0x85
    ||| u == 0xa0
    ||| u == 0x1680
    ||| 0x2000 <= u <= 0x200a
    ||| u == 0x2028
    ||| u == 0x2029
    ||| u == 0x202f
    ||| u == 0x205f
    ||| u == 0x3000
}

pub open spec fn trim_start(s: Seq<char>) -> Seq<char>
    decreases s.len(),
{
    if s.len() > 0 && is_whitespace(s[0]) {
        trim_start(s.skip(1))
    } else {
        s
    }
}

pub open spec fn trim_end(s: Seq<char>) -> Seq<char>
    decreases s.len(),
{
    if s.len() > 0 && is_whitespace(s.last()) {
        trim_end(s.drop_last())
    } else {
        s
    }
}

/// `s` without the white space at its start and at its end.
pub open spec fn trimmed(s: Seq<char>) -> Seq<char> {
    trim_end(trim_start(s))
}

/// The first `n` bytes of `s` in UTF-8 are whole characters.
pub open spec fn has_byte_prefix(s: Seq<char>, n: int) -> bool {
    vstd::utf8::is_char_boundary(vstd::utf8::encode_utf8(s), n)
}

/// The characters whose UTF-8 encoding is the first `n` bytes of that of `s`.
pub open spec fn byte_prefix(s: Seq<char>, n: int) -> Seq<char> {
    vstd::utf8::decode_utf8(vstd::utf8::encode_utf8(s).subrange(0, n))
}

pub open spec fn is_digit(c: char) -> bool {
    '0' <= c <= '9'
}

pub open spec fn all_digits(s: Seq<char>) -> bool {
    forall|i: int| 0 <= i < s.len() ==> is_digit(#[trigger] s[i])
}

pub open spec fn digit_value(c: char) -> nat {
    (c as u32 - '0' as u32) as nat
}

/// The number that a row of decimal digits writes.
pub open spec fn digits_value(s: Seq<char>) -> nat
    decreases s.len(),
{
    if s.len() == 0 {
        0
    } else {
        digits_value(s.drop_last()) * 10 + digit_value(s.last())
    }
}

/// `s` without one `+` at its start.
pub open spec fn unsigned_part(s: Seq<char>) -> Seq<char> {
    if s.len() > 0 && s[0] == '+' {
        s.skip(1)
    } else {
        s
    }
}

/// The 64-bit number that `s` writes: an optional `+`, then one or more decimal
/// digits and nothing else, and no more than fits.
pub open spec fn read_u64(s: Seq<char>) -> Option<u64> {
    let d = unsigned_part(s);
    if d.len() > 0 && all_digits(d) && digits_value(d) <= u64::MAX {
        Some(digits_value(d) as u64)
    } else {
        None
    }
}

/// Why a text does not write a 64-bit number.
#[derive(Debug, Clone, Copy, PartialEq, Eq, Structural)]
pub enum NumberError {
    /// There is nothing to read.
    Empty,
    /// A character is not a digit, or there is only a sign.
    InvalidDigit,
    /// The number does not fit.
    TooLarge,
}

/// What is wrong with the first of the characters that cannot be read on as digits.
pub open spec fn digits_fault(d: Seq<char>) -> Option<NumberError>
    decreases d.len(),
{
    if d.len() == 0 {
        None
    } else if digits_fault(d.drop_last()) is Some {
        digits_fault(d.drop_last())
    } else if !is_digit(d.last()) {
        Some(NumberError::InvalidDigit)
    } else if digits_value(d) > u64::MAX {
        Some(NumberError::TooLarge)
    } else {
        None
    }
}

/// What is wrong with a text that does not write a 64-bit number.
pub open spec fn number_fault(s: Seq<char>) -> Option<NumberError> {
    if s.len() == 0 {
        Some(NumberError::Empty)
    } else if unsigned_part(s).len() == 0 {
        Some(NumberError::InvalidDigit)
    } else {
        digits_fault(unsigned_part(s))
    }
}

/// The words for what is wrong.
pub open spec fn number_message(error: NumberError) -> Seq<char> {
    match error {
        NumberError::Empty => "cannot parse integer from empty string"@,
        NumberError::InvalidDigit => "invalid digit found in string"@,
        NumberError::TooLarge => "number too large to fit in target type"@,
    }
}

impl NumberError {
    /// The words for what is wrong.
    pub fn message(&self) -> (message: String)
        ensures
            message@ == number_message(*self),
    {
        match self {
            NumberError::Empty => "cannot parse integer from empty string".to_owned(),
            NumberError::InvalidDigit => "invalid digit found in string".to_owned(),
            NumberError::TooLarge => "number too large to fit in target type".to_owned(),
        }
    }
}

pub open spec fn digit_char(d: nat) -> char {
    ('0' as u32 + d) as char
}

/// The decimal digits of `n`, without leading zeros.
pub open spec fn decimal(n: nat) -> Seq<char>
    decreases n,
{
    if n < 10 {
        seq![digit_char(n)]
    } else {
        decimal(n / 10).push(digit_char(n % 10))
    }
}

/// The characters of `s`, in order.
pub fn to_chars(s: &str) -> (chars: Vec<char>)
    ensures
        chars@ == s@,
{
    let mut chars: Vec<char> = Vec::new();
    for c in it: s.chars()
        invariant
            it.seq() == s@,
            chars@ == s@.take(it.index() as int),
    {
        chars.push(c);
        assert(s@.take(it.index() as int + 1) =~= s@.take(it.index() as int).push(c));
    }
    assert(s@.take(s@.len() as int) =~= s@);
    chars
}

/// Whether two strings hold the same characters.
pub fn same_text(a: &str, b: &str) -> (same: bool)
    ensures
        same == (a@ == b@),
{
    let left = to_chars(a);
    let right = to_chars(b);
    if left.len() != right.len() {
        return false;
    }
    let mut i: usize = 0;
    while i < left.len()
        invariant
            left@ == a@,
            right@ == b@,
            left.len() == right.len(),
            i <= left.len(),
            forall|j: int| 0 <= j < i ==> left@[j] == right@[j],
        decreases left.len() - i,
    {
        if left[i] != right[i] {
            assert(left@[i as int] != right@[i as int]);
            return false;
        }
        i += 1;
    }
    assert(left@ =~= right@);
    true
}

/// Whether two byte strings are equal.
pub fn same_bytes(a: &[u8], b: &[u8]) -> (same: bool)
    ensures
        same == (a@ == b@),
{
    if a.len() != b.len() {
        return false;
    }
    let mut i: usize = 0;
    while i < a.len()
        invariant
            a@.len() == b@.len(),
            i <= a@.len(),
            forall|j: int| 0 <= j < i ==> a@[j] == b@[j],
        decreases a@.len() - i,
    {
        if a[i] != b[i] {
            assert(a@[i as int] != b@[i as int]);
            return false;
        }
        i += 1;
    }
    assert(a@ =~= b@);
    true
}

/// `before_first` stops at the index of the first `c`.
proof fn lemma_before_first(s: Seq<char>, c: char, i: int)
    requires
        0 <= i <= s.len(),
        forall|j: int| 0 <= j < i ==> s[j] != c,
        i == s.len() || s[i] == c,
    ensures
        before_first(s, c) == s.take(i),
    decreases s.len(),
{
    if i == 0 {
        assert(s.take(0) =~= Seq::empty());
    } else {
        lemma_before_first(s.skip(1), c, i - 1);
        assert(s.take(i) =~= seq![s[0]] + s.skip(1).take(i - 1));
    }
}

/// `before_last` and `after_last` part `s` at the index of the last `c`.
pub proof fn lemma_last(s: Seq<char>, c: char, i: int)
    requires
        -1 <= i < s.len(),
        forall|j: int| i < j < s.len() ==> s[j] != c,
        i == -1 || s[i] == c,
    ensures
        after_last(s, c) == s.skip(i + 1),
        i >= 0 ==> before_last(s, c) == s.take(i),
    decreases s.len(),
{
    if s.len() == 0 {
        assert(s.skip(0) =~= s);
        assert(after_last(s, c) =~= s.skip(0));
    } else if i == s.len() - 1 {
        assert(s.skip(i + 1) =~= Seq::empty());
        assert(s.take(i) =~= s.drop_last());
    } else {
        lemma_last(s.drop_last(), c, i);
        assert(s.skip(i + 1) =~= s.drop_last().skip(i + 1).push(s.last()));
        if i >= 0 {
            assert(s.take(i) =~= s.drop_last().take(i));
        }
    }
}

/// The text before the first `c`.
pub fn cut_at_first(s: &str, c: char) -> (part: &str)
    ensures
        part@ == before_first(s@, c),
{
    let chars = to_chars(s);
    let mut i: usize = 0;
    while i < chars.len() && chars[i] != c
        invariant
            chars@ == s@,
            i <= chars.len(),
            forall|j: int| 0 <= j < i ==> s@[j] != c,
        decreases chars.len() - i,
    {
        i += 1;
    }
    proof {
        lemma_before_first(s@, c, i as int);
    }
    assert(s@.subrange(0, i as int) =~= s@.take(i as int));
    s.substring_char(0, i)
}

/// The text before the last `c` and the text after it, where `c` occurs.
pub fn split_at_last(s: &str, c: char) -> (parts: Option<(&str, &str)>)
    ensures
        parts is Some <==> s@.contains(c),
        parts matches Some((before, after)) ==> before@ == before_last(s@, c) && after@
            == after_last(s@, c),
        parts is None ==> after_last(s@, c) == s@,
{
    let chars = to_chars(s);
    let mut i: usize = chars.len();
    while i > 0
        invariant
            chars@ == s@,
            i <= chars.len(),
            forall|j: int| i <= j < s@.len() ==> s@[j] != c,
        decreases i,
    {
        if chars[i - 1] == c {
            proof {
                assert(s@[i - 1] == c);
                lemma_last(s@, c, i - 1);
            }
            assert(s@.subrange(0, i - 1) =~= s@.take(i - 1));
            assert(s@.subrange(i as int, s@.len() as int) =~= s@.skip(i as int));
            return Some((s.substring_char(0, i - 1), s.substring_char(i, chars.len())));
        }
        i -= 1;
    }
    proof {
        lemma_last(s@, c, -1);
        assert(s@.skip(0) =~= s@);
    }
    None
}

/// Whether `pat` stands in `chars` from index `i` on.
fn stands_at(chars: &Vec<char>, pat: &Vec<char>, i: usize) -> (found: bool)
    requires
        i <= chars.len(),
    ensures
        found == occurs_at(chars@, pat@, i as int),
{
    if chars.len() - i < pat.len() {
        return false;
    }
    let mut k: usize = 0;
    while k < pat.len()
        invariant
            k <= pat.len(),
            i + pat.len() <= chars.len(),
            forall|j: int| 0 <= j < k ==> chars@[i + j] == pat@[j],
        decreases pat.len() - k,
    {
        if chars[i + k] != pat[k] {
            assert(chars@.subrange(i as int, i + pat@.len())[k as int] != pat@[k as int]);
            return false;
        }
        k += 1;
    }
    assert(chars@.subrange(i as int, i + pat@.len()) =~= pat@);
    true
}

/// The index of the first character of the first `pat` in `s`.
pub fn find_text(s: &str, pat: &str) -> (found: Option<usize>)
    ensures
        found matches Some(i) ==> first_at(s@, pat@, i as int),
        found is None ==> !occurs_in(s@, pat@),
{
    let chars = to_chars(s);
    let needle = to_chars(pat);
    let mut i: usize = 0;
    while i < chars.len()
        invariant
            chars@ == s@,
            needle@ == pat@,
            i <= chars.len(),
            forall|j: int| 0 <= j < i ==> !occurs_at(s@, pat@, j),
        decreases chars.len() - i,
    {
        if stands_at(&chars, &needle, i) {
            return Some(i);
        }
        i += 1;
    }
    if stands_at(&chars, &needle, i) {
        return Some(i);
    }
    assert forall|j: int| !occurs_at(s@, pat@, j) by {
        if 0 <= j < s@.len() {
        } else if j > s@.len() {
        }
    }
    None
}

/// What stands in `s` behind the first `pat`, where there is one.
pub fn after_text<'a>(s: &'a str, pat: &str) -> (rest: Option<&'a str>)
    ensures
        match rest {
            Some(rest) => text_after(s@, pat@) == Some(rest@),
            None => text_after(s@, pat@) is None,
        },
{
    match find_text(s, pat) {
        Some(i) => {
            let len: usize = s.unicode_len();
            let from: usize = i + pat.unicode_len();
            proof {
                assert(occurs_at(s@, pat@, i as int));
                let first = choose|j: int| first_at(s@, pat@, j);
                assert(first_at(s@, pat@, first));
                assert(first == i);
                assert(s@.subrange(from as int, s@.len() as int) =~= s@.skip(from as int));
            }
            Some(s.substring_char(from, len))
        },
        None => None,
    }
}

/// The two texts, one behind the other.
pub fn joined_text(front: &str, back: &str) -> (text: String)
    ensures
        text@ == front@ + back@,
{
    let mut text = front.to_owned();
    text.append(back);
    text
}

/// Whether `s` begins with `pat`.
pub fn begins_with(s: &str, pat: &str) -> (yes: bool)
    ensures
        yes == pat@.is_prefix_of(s@),
{
    let chars = to_chars(s);
    let needle = to_chars(pat);
    stands_at(&chars, &needle, 0)
}

/// Whether `c` has the Unicode property White_Space.
pub fn whitespace(c: char) -> (yes: bool)
    ensures
        yes == is_whitespace(c),
{
    let u = c as u32;
    (0x9 <= u && u <= 0xd) || u == 0x20 || u == 0x85 || u == 0xa0 || u == 0x1680 || (0x2000 <= u
        && u <= 0x200a) || u == 0x2028 || u == 0x2029 || u == 0x202f || u == 0x205f || u == 0x3000
}

pub proof fn lemma_trim_start(s: Seq<char>, i: int)
    requires
        0 <= i <= s.len(),
        forall|j: int| 0 <= j < i ==> is_whitespace(#[trigger] s[j]),
        i == s.len() || !is_whitespace(s[i]),
    ensures
        trim_start(s) == s.skip(i),
    decreases s.len(),
{
    if i == 0 {
        assert(s.skip(0) =~= s);
    } else {
        assert(is_whitespace(s[0]));
        assert forall|j: int| 0 <= j < i - 1 implies is_whitespace(#[trigger] s.skip(1)[j]) by {
            assert(is_whitespace(s[j + 1]));
        }
        lemma_trim_start(s.skip(1), i - 1);
        assert(s.skip(i) =~= s.skip(1).skip(i - 1));
    }
}

pub proof fn lemma_trim_end(s: Seq<char>, i: int)
    requires
        0 <= i <= s.len(),
        forall|j: int| i <= j < s.len() ==> is_whitespace(#[trigger] s[j]),
        i == 0 || !is_whitespace(s[i - 1]),
    ensures
        trim_end(s) == s.take(i),
    decreases s.len(),
{
    if i == s.len() {
        assert(s.take(i) =~= s);
        if i > 0 {
            assert(s.last() == s[i - 1]);
        }
    } else {
        assert(is_whitespace(s[s.len() - 1]));
        assert forall|j: int| i <= j < s.len() - 1 implies is_whitespace(
            #[trigger] s.drop_last()[j],
        ) by {
            assert(is_whitespace(s[j]));
        }
        lemma_trim_end(s.drop_last(), i);
        assert(s.take(i) =~= s.drop_last().take(i));
    }
}

/// `s` without the white space at its start and at its end.
pub fn trim_text(s: &str) -> (part: &str)
    ensures
        part@ == trimmed(s@),
{
    let chars = to_chars(s);
    let mut from: usize = 0;
    while from < chars.len() && whitespace(chars[from])
        invariant
            chars@ == s@,
            from <= chars.len(),
            forall|j: int| 0 <= j < from ==> is_whitespace(#[trigger] s@[j]),
        decreases chars.len() - from,
    {
        from += 1;
    }
    let mut to: usize = chars.len();
    while to > from && whitespace(chars[to - 1])
        invariant
            chars@ == s@,
            from <= to <= chars.len(),
            forall|j: int| to <= j < s@.len() ==> is_whitespace(#[trigger] s@[j]),
        decreases to,
    {
        to -= 1;
    }
    proof {
        lemma_trim_start(s@, from as int);
        let rest = s@.skip(from as int);
        assert forall|j: int| to - from <= j < rest.len() implies is_whitespace(
            #[trigger] rest[j],
        ) by {
            assert(is_whitespace(s@[j + from]));
        }
        lemma_trim_end(rest, to - from);
        assert(rest.take(to - from) =~= s@.subrange(from as int, to as int));
    }
    s.substring_char(from, to)
}

/// The first `n` bytes of `s`, where they are whole characters.
pub fn take_bytes(s: &str, n: usize) -> (part: Option<&str>)
    ensures
        part is Some <==> has_byte_prefix(s@, n as int),
        part matches Some(p) ==> p@ == byte_prefix(s@, n as int),
{
    if s.is_char_boundary(n) {
        let (front, _) = s.split_at(n);
        proof {
            vstd::utf8::encode_utf8_decode_utf8(front@);
        }
        Some(front)
    } else {
        None
    }
}

/// A prefix of digits is worth no more than the whole row.
proof fn lemma_digits_value_prefix(s: Seq<char>, i: int)
    requires
        0 <= i <= s.len(),
    ensures
        digits_value(s.take(i)) <= digits_value(s),
    decreases s.len(),
{
    if i == s.len() {
        assert(s.take(i) =~= s);
    } else {
        lemma_digits_value_prefix(s.drop_last(), i);
        assert(s.take(i) =~= s.drop_last().take(i));
    }
}

pub proof fn lemma_fault_persists(d: Seq<char>, n: int)
    requires
        0 <= n <= d.len(),
        digits_fault(d.take(n)) is Some,
    ensures
        digits_fault(d) == digits_fault(d.take(n)),
    decreases d.len() - n,
{
    if n < d.len() {
        assert(d.take(n + 1).drop_last() =~= d.take(n));
        lemma_fault_persists(d, n + 1);
    } else {
        assert(d.take(n) =~= d);
    }
}

/// The 64-bit number that the characters write, or why they write none.
pub fn read_number(chars: &Vec<char>) -> (number: Result<u64, NumberError>)
    ensures
        match number {
            Ok(number) => read_u64(chars@) == Some(number) && number_fault(chars@) is None,
            Err(error) => read_u64(chars@) is None && number_fault(chars@) == Some(error),
        },
{
    if chars.len() == 0 {
        return Err(NumberError::Empty);
    }
    let start: usize = if chars[0] == '+' {
        1
    } else {
        0
    };
    let ghost d = unsigned_part(chars@);
    assert(d =~= chars@.skip(start as int));
    if start == chars.len() {
        return Err(NumberError::InvalidDigit);
    }
    let mut value: u64 = 0;
    let mut i: usize = start;
    assert(d.take(0) =~= Seq::empty());
    while i < chars.len()
        invariant
            start <= i <= chars.len(),
            start < chars.len(),
            d == chars@.skip(start as int),
            d == unsigned_part(chars@),
            value == digits_value(d.take(i - start)),
            digits_fault(d.take(i - start)) is None,
            forall|j: int| 0 <= j < i - start ==> is_digit(#[trigger] d[j]),
        decreases chars.len() - i,
    {
        let c = chars[i];
        let ghost p = d.take(i - start + 1);
        proof {
            assert(c == d[i - start]);
            assert(p.drop_last() =~= d.take(i - start));
            assert(p.last() == c);
            lemma_digits_value_prefix(d, i - start + 1);
            if digits_fault(p) is Some {
                lemma_fault_persists(d, i - start + 1);
            }
        }
        if c < '0' || c > '9' {
            assert(!is_digit(d[i - start]));
            return Err(NumberError::InvalidDigit);
        }
        let digit: u64 = c as u64 - '0' as u64;
        assert(digits_value(p) == value * 10 + digit);
        if value > (u64::MAX - digit) / 10 {
            return Err(NumberError::TooLarge);
        }
        value = value * 10 + digit;
        i += 1;
    }
    assert(d.take(i - start) =~= d);
    Ok(value)
}

/// The 64-bit number that `s` writes, or why it writes none.
pub fn parse_number(s: &str) -> (number: Result<u64, NumberError>)
    ensures
        match number {
            Ok(number) => read_u64(s@) == Some(number) && number_fault(s@) is None,
            Err(error) => read_u64(s@) is None && number_fault(s@) == Some(error),
        },
{
    read_number(&to_chars(s))
}

/// The 64-bit number that `s` writes, if it writes one.
pub fn parse_u64(s: &str) -> (number: Option<u64>)
    ensures
        number == read_u64(s@),
{
    match parse_number(s) {
        Ok(number) => Some(number),
        Err(_) => None,
    }
}

fn digit_text(d: u64) -> (s: &'static str)
    requires
        d < 10,
    ensures
        s@ == seq![digit_char(d as nat)],
{
    proof {
        reveal_strlit("0");
        reveal_strlit("1");
        reveal_strlit("2");
        reveal_strlit("3");
        reveal_strlit("4");
        reveal_strlit("5");
        reveal_strlit("6");
        reveal_strlit("7");
        reveal_strlit("8");
        reveal_strlit("9");
    }
    let s = match d {
        0 => "0",
        1 => "1",
        2 => "2",
        3 => "3",
        4 => "4",
        5 => "5",
        6 => "6",
        7 => "7",
        8 => "8",
        _ => "9",
    };
    assert(s@ =~= seq![digit_char(d as nat)]);
    s
}

/// `n` in decimal.
pub fn u64_to_text(n: u64) -> (s: String)
    ensures
        s@ == decimal(n as nat),
    decreases n,
{
    if n < 10 {
        digit_text(n).to_owned()
    } else {
        let mut s = u64_to_text(n / 10);
        s.append(digit_text(n % 10));
        assert(s@ =~= decimal(n as nat));
        s
    }
}

pub proof fn lemma_decimal_digits(n: nat)
    ensures
        decimal(n).len() > 0,
        all_digits(decimal(n)),
        digits_value(decimal(n)) == n,
    decreases n,
{
    let d = (n % 10) as nat;
    assert(digit_value(digit_char(d)) == d);
    if n < 10 {
        reveal_with_fuel(digits_value, 2);
        assert(decimal(n).drop_last() =~= Seq::empty());
    } else {
        lemma_decimal_digits(n / 10);
        assert(decimal(n).drop_last() =~= decimal(n / 10));
    }
}

proof fn lemma_digits_fault(d: Seq<char>)
    ensures
        digits_fault(d) is None <==> all_digits(d) && digits_value(d) <= u64::MAX,
    decreases d.len(),
{
    if d.len() > 0 {
        let before = d.drop_last();
        lemma_digits_fault(before);
        lemma_digits_value_prefix(d, before.len() as int);
        assert(d.take(before.len() as int) =~= before);
        if all_digits(d) {
            assert forall|i: int| 0 <= i < before.len() implies is_digit(#[trigger] before[i]) by {
                assert(is_digit(d[i]));
            }
            assert(is_digit(d[d.len() - 1]));
        } else if all_digits(before) && is_digit(d.last()) {
            assert forall|i: int| 0 <= i < d.len() implies is_digit(#[trigger] d[i]) by {
                if i < before.len() {
                    assert(is_digit(before[i]));
                }
            }
        }
    }
}

/// A text writes a number, or something is wrong with it, and not both.
pub proof fn law_a_number_or_a_fault(s: Seq<char>)
    ensures
        read_u64(s) is None <==> number_fault(s) is Some,
{
    lemma_digits_fault(unsigned_part(s));
}

/// A number that is written in decimal reads back as itself.
pub proof fn law_decimal_reads_back(n: u64)
    ensures
        read_u64(decimal(n as nat)) == Some(n),
{
    lemma_decimal_digits(n as nat);
    assert(is_digit(decimal(n as nat)[0]));
}

pub proof fn lemma_before_first_of_concat(front: Seq<char>, back: Seq<char>, c: char)
    requires
        !front.contains(c),
        back.len() == 0 || back[0] == c,
    ensures
        before_first(front + back, c) == front,
    decreases front.len(),
{
    if front.len() == 0 {
        assert(front + back =~= back);
        assert(before_first(back, c) =~= front);
    } else {
        let all = front + back;
        assert(front[0] != c);
        assert(all.skip(1) =~= front.skip(1) + back);
        assert forall|i: int| 0 <= i < front.skip(1).len() implies front.skip(1)[i] != c by {
            assert(front[i + 1] != c);
        }
        lemma_before_first_of_concat(front.skip(1), back, c);
        assert(seq![all[0]] + front.skip(1) =~= front);
    }
}

pub proof fn lemma_before_first_extends(front: Seq<char>, back: Seq<char>, c: char)
    requires
        !front.contains(c),
    ensures
        before_first(front + back, c) == front + before_first(back, c),
    decreases front.len(),
{
    if front.len() == 0 {
        assert(front + back =~= back);
        assert(front + before_first(back, c) =~= before_first(back, c));
    } else {
        let all = front + back;
        assert(front[0] != c);
        assert(all.skip(1) =~= front.skip(1) + back);
        assert forall|i: int| 0 <= i < front.skip(1).len() implies front.skip(1)[i] != c by {
            assert(front[i + 1] != c);
        }
        lemma_before_first_extends(front.skip(1), back, c);
        assert(seq![all[0]] + (front.skip(1) + before_first(back, c)) =~= front + before_first(
            back,
            c,
        ));
    }
}

} // verus!
