//! Searching and reading text as bytes. Text reaches the library as UTF-8;
//! every pattern the library looks for is ASCII, so a match on bytes is a
//! match on characters.

use vstd::prelude::*;
use vstd::string::{StrSliceExecFns, StringExecFns};

verus! {

/// Whether `needle` stands in `hay` at offset `at`.
pub open spec fn occurs_at(hay: Seq<u8>, needle: Seq<u8>, at: int) -> bool {
    &&& 0 <= at
    &&& at + needle.len() <= hay.len()
    &&& hay.subrange(at, at + needle.len()) == needle
}

/// Whether `needle` stands somewhere in `hay`.
pub open spec fn contains_bytes(hay: Seq<u8>, needle: Seq<u8>) -> bool {
    exists|at: int| occurs_at(hay, needle, at)
}

/// Whether `hay` begins with `needle`.
pub open spec fn starts_with_bytes(hay: Seq<u8>, needle: Seq<u8>) -> bool {
    occurs_at(hay, needle, 0)
}

/// The lower-case form of an ASCII letter; any other byte is left alone.
pub open spec fn lower(b: u8) -> u8 {
    if 0x41 <= b <= 0x5A { (b + 0x20) as u8 } else { b }
}

/// `s` with every ASCII letter in lower case.
pub open spec fn lowered(s: Seq<u8>) -> Seq<u8> {
    Seq::new(s.len(), |i: int| lower(s[i]))
}

/// Space, tab, line feed, vertical tab, form feed and carriage return.
pub open spec fn is_space(b: u8) -> bool {
    b == 0x20 || (0x09 <= b <= 0x0D)
}

/// Whether the bytes from `at` on equal `needle`.
pub fn matches_at(hay: &[u8], needle: &[u8], at: usize) -> (found: bool)
    ensures
        found == occurs_at(hay@, needle@, at as int),
{
    if at > hay.len() || needle.len() > hay.len() - at {
        return false;
    }
    let mut k: usize = 0;
    while k < needle.len()
        invariant
            k <= needle@.len(),
            at + needle@.len() <= hay@.len() <= usize::MAX,
            forall|j: int| 0 <= j < k ==> hay@[at + j] == needle@[j],
        decreases needle@.len() - k,
    {
        if hay[at + k] != needle[k] {
            assert(hay@.subrange(at as int, at + needle@.len())[k as int] != needle@[k as int]);
            return false;
        }
        k += 1;
    }
    assert(hay@.subrange(at as int, at + needle@.len()) =~= needle@);
    true
}

/// Whether `hay` begins with `needle`.
pub fn starts_with(hay: &[u8], needle: &[u8]) -> (found: bool)
    ensures
        found == starts_with_bytes(hay@, needle@),
{
    matches_at(hay, needle, 0)
}

/// The first offset at which `needle` stands in `haystack`.
pub fn find_subsequence(haystack: &[u8], needle: &[u8]) -> (found: Option<usize>)
    ensures
        match found {
            Some(at) => occurs_at(haystack@, needle@, at as int) && forall|j: int|
                0 <= j < at ==> !occurs_at(haystack@, needle@, j),
            None => !contains_bytes(haystack@, needle@),
        },
{
    if needle.len() > haystack.len() {
        return None;
    }
    let last: usize = haystack.len() - needle.len();
    let mut at: usize = 0;
    while at < last
        invariant
            at <= last,
            last == haystack@.len() - needle@.len(),
            forall|j: int| 0 <= j < at ==> !occurs_at(haystack@, needle@, j),
        decreases last - at,
    {
        if matches_at(haystack, needle, at) {
            return Some(at);
        }
        at += 1;
    }
    if matches_at(haystack, needle, at) {
        Some(at)
    } else {
        None
    }
}

/// Whether `needle` stands somewhere in `hay`.
pub fn contains(hay: &[u8], needle: &[u8]) -> (found: bool)
    ensures
        found == contains_bytes(hay@, needle@),
{
    find_subsequence(hay, needle).is_some()
}

/// A copy of `s` with every ASCII letter in lower case.
pub fn to_lower(s: &[u8]) -> (out: Vec<u8>)
    ensures
        out@ == lowered(s@),
{
    let mut out: Vec<u8> = Vec::new();
    let mut i: usize = 0;
    while i < s.len()
        invariant
            i <= s@.len(),
            out@.len() == i,
            forall|j: int| 0 <= j < i ==> out@[j] == lower(s@[j]),
        decreases s@.len() - i,
    {
        let b: u8 = s[i];
        if 0x41 <= b && b <= 0x5A {
            out.push(b + 0x20);
        } else {
            out.push(b);
        }
        i += 1;
    }
    assert(out@ =~= lowered(s@));
    out
}

/// Whether `needle` stands somewhere in `hay` once ASCII letters of `hay` are
/// taken in lower case.
pub fn contains_lowered(hay: &[u8], needle: &[u8]) -> (found: bool)
    ensures
        found == contains_bytes(lowered(hay@), needle@),
{
    let low = to_lower(hay);
    contains(low.as_slice(), needle)
}

/// Whether two byte strings are equal.
pub fn equal(a: &[u8], b: &[u8]) -> (same: bool)
    ensures
        same == (a@ == b@),
{
    if a.len() != b.len() {
        return false;
    }
    let same = matches_at(a, b, 0);
    proof {
        assert(a@.subrange(0, a@.len() as int) =~= a@);
    }
    same
}

/// Whether two texts are the same.
pub fn same_text(a: &str, b: &str) -> (same: bool)
    ensures
        same == (a@ == b@),
{
    proof {
        vstd::utf8::encode_utf8_decode_utf8(a@);
        vstd::utf8::encode_utf8_decode_utf8(b@);
    }
    equal(a.as_bytes(), b.as_bytes())
}

/// The offset of the first byte of `s` that is no white space, or the length
/// of `s`.
pub open spec fn first_non_space(s: Seq<u8>) -> int
    decreases s.len(),
{
    if s.len() == 0 || !is_space(s[0]) {
        0
    } else {
        1 + first_non_space(s.drop_first())
    }
}

/// The offset behind the last byte of `s` that is no white space, or zero.
pub open spec fn last_non_space_end(s: Seq<u8>) -> int
    decreases s.len(),
{
    if s.len() == 0 || !is_space(s.last()) {
        s.len() as int
    } else {
        last_non_space_end(s.drop_last())
    }
}

/// `s` without the white space at its two ends.
pub open spec fn trimmed(s: Seq<u8>) -> Seq<u8> {
    let start = first_non_space(s);
    let end = last_non_space_end(s);
    if start >= end {
        Seq::empty()
    } else {
        s.subrange(start, end)
    }
}

/// The first offset of `s` from which on everything is white space, given that
/// the byte before it is none.
proof fn lemma_last_non_space_unique(s: Seq<u8>, end: int)
    requires
        0 <= end <= s.len(),
        forall|j: int| end <= j < s.len() ==> is_space(#[trigger] s[j]),
        end > 0 ==> !is_space(s[end - 1]),
    ensures
        last_non_space_end(s) == end,
    decreases s.len(),
{
    if s.len() == 0 || !is_space(s.last()) {
    } else {
        lemma_last_non_space_unique(s.drop_last(), end);
    }
}

/// The first offset of `s` that holds no white space, given that everything
/// before it is white space.
proof fn lemma_first_non_space_unique(s: Seq<u8>, start: int)
    requires
        0 <= start <= s.len(),
        forall|j: int| 0 <= j < start ==> is_space(#[trigger] s[j]),
        start < s.len() ==> !is_space(s[start]),
    ensures
        first_non_space(s) == start,
    decreases s.len(),
{
    if s.len() == 0 || !is_space(s[0]) {
    } else {
        let rest = s.drop_first();
        assert forall|j: int| 0 <= j < start - 1 implies is_space(#[trigger] rest[j]) by {
            assert(rest[j] == s[j + 1]);
        }
        lemma_first_non_space_unique(rest, start - 1);
    }
}

/// Whether a byte is white space.
pub fn is_space_byte(b: u8) -> (space: bool)
    ensures
        space == is_space(b),
{
    b == 0x20 || (0x09 <= b && b <= 0x0D)
}

/// `s` without the white space at its two ends.
pub fn trim(s: &[u8]) -> (out: Vec<u8>)
    ensures
        out@ == trimmed(s@),
{
    let mut start: usize = 0;
    while start < s.len() && is_space_byte(s[start])
        invariant
            start <= s@.len(),
            forall|j: int| 0 <= j < start ==> is_space(#[trigger] s@[j]),
        decreases s@.len() - start,
    {
        start += 1;
    }
    let mut end: usize = s.len();
    while end > 0 && is_space_byte(s[end - 1])
        invariant
            end <= s@.len(),
            forall|j: int| end <= j < s@.len() ==> is_space(#[trigger] s@[j]),
        decreases end,
    {
        end -= 1;
    }
    proof {
        lemma_first_non_space_unique(s@, start as int);
        lemma_last_non_space_unique(s@, end as int);
    }
    let mut out: Vec<u8> = Vec::new();
    if start >= end {
        return out;
    }
    let mut i: usize = start;
    assert(s@.subrange(start as int, start as int) =~= Seq::<u8>::empty());
    while i < end
        invariant
            start <= i <= end <= s@.len(),
            out@ == s@.subrange(start as int, i as int),
        decreases end - i,
    {
        out.push(s[i]);
        assert(s@.subrange(start as int, i + 1) =~= s@.subrange(start as int, i as int).push(
            s@[i as int],
        ));
        i += 1;
    }
    out
}

/// The number that the decimal digits of `s` write.
pub open spec fn decimal_value(s: Seq<u8>) -> nat
    decreases s.len(),
{
    if s.len() == 0 {
        0
    } else {
        decimal_value(s.drop_last()) * 10 + (s.last() - 0x30) as nat
    }
}

/// Whether `s` holds only decimal digits.
pub open spec fn all_digits(s: Seq<u8>) -> bool {
    forall|i: int| 0 <= i < s.len() ==> 0x30 <= #[trigger] s[i] <= 0x39
}

/// What `s` says as an unsigned 64-bit number: one or more decimal digits,
/// with or without a plus sign before them, whose value fits.
pub open spec fn parsed_u64(s: Seq<u8>) -> Option<u64> {
    let digits = if s.len() > 0 && s[0] == 0x2B { s.drop_first() } else { s };
    if digits.len() > 0 && all_digits(digits) && decimal_value(digits) <= u64::MAX {
        Some(decimal_value(digits) as u64)
    } else {
        None
    }
}

/// The value of decimal digits grows with every digit added.
pub proof fn lemma_decimal_value_grows(s: Seq<u8>, n: int)
    requires
        all_digits(s),
        0 <= n <= s.len(),
    ensures
        decimal_value(s.take(n)) <= decimal_value(s),
    decreases s.len() - n,
{
    if n < s.len() {
        lemma_decimal_value_grows(s, n + 1);
        assert(s.take(n + 1).drop_last() =~= s.take(n));
    } else {
        assert(s.take(n) =~= s);
    }
}

/// Reads an unsigned 64-bit number written in decimal.
pub fn parse_u64(s: &[u8]) -> (value: Option<u64>)
    ensures
        value == parsed_u64(s@),
{
    let start: usize = if s.len() > 0 && s[0] == 0x2B { 1 } else { 0 };
    let ghost digits = if start == 1 { s@.drop_first() } else { s@ };
    if start == s.len() {
        return None;
    }
    let mut acc: u64 = 0;
    let mut i: usize = start;
    assert(digits.take(0) =~= Seq::<u8>::empty());
    while i < s.len()
        invariant
            start <= i <= s@.len(),
            start == (if s@.len() > 0 && s@[0] == 0x2B { 1usize } else { 0usize }),
            digits == (if start == 1 { s@.drop_first() } else { s@ }),
            digits.len() == s@.len() - start,
            forall|j: int| 0 <= j < digits.len() ==> digits[j] == s@[start + j],
            all_digits(digits.take(i - start)),
            acc == decimal_value(digits.take(i - start)),
        decreases s@.len() - i,
    {
        let b: u8 = s[i];
        let ghost seen = digits.take(i - start);
        let ghost next = digits.take(i - start + 1);
        assert(next.drop_last() =~= seen);
        assert(next.last() == b);
        assert(decimal_value(next) == decimal_value(seen) * 10 + (b - 0x30) as nat);
        if b < 0x30 || b > 0x39 {
            assert(digits[i - start] == b);
            return None;
        }
        let d: u64 = (b - 0x30) as u64;
        if acc > (u64::MAX - d) / 10 {
            proof {
                assert(decimal_value(next) > u64::MAX);
                if all_digits(digits) {
                    lemma_decimal_value_grows(digits, i - start + 1);
                }
            }
            return None;
        }
        acc = acc * 10 + d;
        assert(all_digits(next)) by {
            assert forall|j: int| 0 <= j < next.len() implies 0x30 <= #[trigger] next[j]
                <= 0x39 by {
                if j < seen.len() {
                    assert(seen[j] == next[j]);
                }
            }
        }
        i += 1;
    }
    assert(digits.take(digits.len() as int) =~= digits);
    Some(acc)
}


/// The first offset from `from` on that holds white space, or the length of
/// `s`.
pub open spec fn token_end(s: Seq<u8>, from: int) -> int
    decreases s.len() - from,
{
    if from >= s.len() || is_space(s[from]) {
        from
    } else {
        token_end(s, from + 1)
    }
}

/// The words of `s` from offset `from` on: the longest runs of bytes that are
/// no white space, in order.
pub open spec fn tokens_from(s: Seq<u8>, from: int) -> Seq<Seq<u8>>
    decreases s.len() - from,
{
    if from < 0 || from >= s.len() {
        Seq::empty()
    } else if is_space(s[from]) {
        tokens_from(s, from + 1)
    } else {
        let end = token_end(s, from);
        if from < end <= s.len() {
            seq![s.subrange(from, end)] + tokens_from(s, end)
        } else {
            Seq::empty()
        }
    }
}

/// The words of `s`.
pub open spec fn tokens_of(s: Seq<u8>) -> Seq<Seq<u8>> {
    tokens_from(s, 0)
}

/// The end of the word that starts at `from`, given its first white space.
proof fn lemma_token_end_unique(s: Seq<u8>, from: int, end: int)
    requires
        0 <= from <= end <= s.len(),
        forall|j: int| from <= j < end ==> !is_space(#[trigger] s[j]),
        end < s.len() ==> is_space(s[end]),
    ensures
        token_end(s, from) == end,
    decreases end - from,
{
    if from < end {
        lemma_token_end_unique(s, from + 1, end);
    }
}

/// The words of a text as sequences of bytes.
pub open spec fn words_view(words: Seq<Vec<u8>>) -> Seq<Seq<u8>> {
    Seq::new(words.len(), |i: int| words[i]@)
}

/// Splits `s` into its words.
pub fn split_whitespace(s: &[u8]) -> (words: Vec<Vec<u8>>)
    ensures
        words_view(words@) == tokens_of(s@),
{
    let mut words: Vec<Vec<u8>> = Vec::new();
    let mut i: usize = 0;
    assert(words_view(words@) =~= Seq::<Seq<u8>>::empty());
    while i < s.len()
        invariant
            i <= s@.len(),
            tokens_of(s@) == words_view(words@) + tokens_from(s@, i as int),
        decreases s@.len() - i,
    {
        if is_space_byte(s[i]) {
            i += 1;
        } else {
            let start: usize = i;
            let mut word: Vec<u8> = Vec::new();
            assert(s@.subrange(start as int, start as int) =~= Seq::<u8>::empty());
            while i < s.len() && !is_space_byte(s[i])
                invariant
                    start <= i <= s@.len(),
                    word@ == s@.subrange(start as int, i as int),
                    forall|j: int| start <= j < i ==> !is_space(#[trigger] s@[j]),
                decreases s@.len() - i,
            {
                word.push(s[i]);
                assert(s@.subrange(start as int, i + 1) =~= s@.subrange(
                    start as int,
                    i as int,
                ).push(s@[i as int]));
                i += 1;
            }
            proof {
                lemma_token_end_unique(s@, start as int, i as int);
            }
            let ghost before = words_view(words@);
            words.push(word);
            assert(words_view(words@) =~= before.push(s@.subrange(start as int, i as int)));
            assert(before + (seq![s@.subrange(start as int, i as int)] + tokens_from(
                s@,
                i as int,
            )) =~= before.push(s@.subrange(start as int, i as int)) + tokens_from(s@, i as int));
        }
    }
    assert(words_view(words@) + Seq::<Seq<u8>>::empty() =~= words_view(words@));
    words
}

/// The first offset from `from` on that holds a line feed, or the length of
/// `s`.
pub open spec fn line_end(s: Seq<u8>, from: int) -> int
    decreases s.len() - from,
{
    if from >= s.len() || s[from] == 0x0A {
        from
    } else {
        line_end(s, from + 1)
    }
}

/// The lines of `s` from offset `from` on, without their line feeds. A text
/// that ends in a line feed has no empty line behind it.
pub open spec fn lines_from(s: Seq<u8>, from: int) -> Seq<Seq<u8>>
    decreases s.len() - from,
{
    if from < 0 || from >= s.len() {
        Seq::empty()
    } else {
        let end = line_end(s, from);
        if from <= end < s.len() {
            seq![s.subrange(from, end)] + lines_from(s, end + 1)
        } else {
            seq![s.subrange(from, s.len() as int)]
        }
    }
}

/// The lines of `s`.
pub open spec fn lines_of(s: Seq<u8>) -> Seq<Seq<u8>> {
    lines_from(s, 0)
}

/// The end of the line that starts at `from`, given its line feed.
proof fn lemma_line_end_unique(s: Seq<u8>, from: int, end: int)
    requires
        0 <= from <= end <= s.len(),
        forall|j: int| from <= j < end ==> #[trigger] s[j] != 0x0A,
        end < s.len() ==> s[end] == 0x0A,
    ensures
        line_end(s, from) == end,
    decreases end - from,
{
    if from < end {
        lemma_line_end_unique(s, from + 1, end);
    }
}

/// Splits `s` into its lines.
pub fn split_lines(s: &[u8]) -> (lines: Vec<Vec<u8>>)
    ensures
        words_view(lines@) == lines_of(s@),
{
    let mut lines: Vec<Vec<u8>> = Vec::new();
    let mut i: usize = 0;
    assert(words_view(lines@) =~= Seq::<Seq<u8>>::empty());
    while i < s.len()
        invariant
            i <= s@.len(),
            lines_of(s@) == words_view(lines@) + lines_from(s@, i as int),
        decreases s@.len() - i,
    {
        let start: usize = i;
        let mut line: Vec<u8> = Vec::new();
        assert(s@.subrange(start as int, start as int) =~= Seq::<u8>::empty());
        while i < s.len() && s[i] != 0x0A
            invariant
                start <= i <= s@.len(),
                line@ == s@.subrange(start as int, i as int),
                forall|j: int| start <= j < i ==> #[trigger] s@[j] != 0x0A,
            decreases s@.len() - i,
        {
            line.push(s[i]);
            assert(s@.subrange(start as int, i + 1) =~= s@.subrange(start as int, i as int).push(
                s@[i as int],
            ));
            i += 1;
        }
        proof {
            lemma_line_end_unique(s@, start as int, i as int);
        }
        let ghost before = words_view(lines@);
        let ghost end = i as int;
        lines.push(line);
        assert(words_view(lines@) =~= before.push(s@.subrange(start as int, end)));
        assert(before + (seq![s@.subrange(start as int, end)] + lines_from(s@, end + 1))
            =~= before.push(s@.subrange(start as int, end)) + lines_from(s@, end + 1));
        assert(before + seq![s@.subrange(start as int, end)] =~= before.push(
            s@.subrange(start as int, end),
        ));
        if i < s.len() {
            i += 1;
        } else {
            assert(lines_from(s@, i as int) =~= Seq::<Seq<u8>>::empty());
            assert(words_view(lines@) + Seq::<Seq<u8>>::empty() =~= words_view(lines@));
        }
    }
    assert(words_view(lines@) + Seq::<Seq<u8>>::empty() =~= words_view(lines@));
    lines
}

/// The numbers among `words`, in order: every word that reads as an unsigned
/// 64-bit number.
pub open spec fn numbers_in(words: Seq<Seq<u8>>) -> Seq<u64>
    decreases words.len(),
{
    if words.len() == 0 {
        Seq::empty()
    } else {
        let rest = numbers_in(words.drop_last());
        match parsed_u64(words.last()) {
            Some(v) => rest.push(v),
            None => rest,
        }
    }
}

/// Reads every word that is a number, and passes over the others.
pub fn parse_numbers(words: &Vec<Vec<u8>>) -> (numbers: Vec<u64>)
    ensures
        numbers@ == numbers_in(words_view(words@)),
{
    let mut numbers: Vec<u64> = Vec::new();
    let mut i: usize = 0;
    assert(words_view(words@).take(0) =~= Seq::<Seq<u8>>::empty());
    while i < words.len()
        invariant
            i <= words@.len(),
            numbers@ == numbers_in(words_view(words@).take(i as int)),
        decreases words@.len() - i,
    {
        let ghost all = words_view(words@);
        assert(all.take(i + 1).drop_last() =~= all.take(i as int));
        assert(all.take(i + 1).last() == words@[i as int]@);
        match parse_u64(words[i].as_slice()) {
            Some(v) => {
                numbers.push(v);
            },
            None => {},
        }
        i += 1;
    }
    assert(words_view(words@).take(words@.len() as int) =~= words_view(words@));
    numbers
}


/// What `s` says as a signed 32-bit number: one or more decimal digits, with
/// or without a sign before them, whose value fits.
pub open spec fn parsed_i32(s: Seq<u8>) -> Option<i32> {
    let negative = s.len() > 0 && s[0] == 0x2D;
    let digits = if s.len() > 0 && (s[0] == 0x2B || s[0] == 0x2D) { s.drop_first() } else { s };
    if digits.len() > 0 && all_digits(digits) {
        if negative && decimal_value(digits) <= 0x8000_0000 {
            Some((-(decimal_value(digits) as int)) as i32)
        } else if !negative && decimal_value(digits) <= 0x7FFF_FFFF {
            Some(decimal_value(digits) as i32)
        } else {
            None
        }
    } else {
        None
    }
}

/// Reads a signed 32-bit number written in decimal.
pub fn parse_i32(s: &[u8]) -> (value: Option<i32>)
    ensures
        value == parsed_i32(s@),
{
    let negative: bool = s.len() > 0 && s[0] == 0x2D;
    let start: usize = if s.len() > 0 && (s[0] == 0x2B || s[0] == 0x2D) { 1 } else { 0 };
    let ghost digits = if start == 1 { s@.drop_first() } else { s@ };
    if start == s.len() {
        return None;
    }
    let mut acc: u64 = 0;
    let mut i: usize = start;
    assert(digits.take(0) =~= Seq::<u8>::empty());
    while i < s.len()
        invariant
            start <= i <= s@.len(),
            negative == (s@.len() > 0 && s@[0] == 0x2D),
            start == (if s@.len() > 0 && (s@[0] == 0x2B || s@[0] == 0x2D) {
                1usize
            } else {
                0usize
            }),
            digits == (if start == 1 { s@.drop_first() } else { s@ }),
            digits.len() == s@.len() - start,
            forall|j: int| 0 <= j < digits.len() ==> digits[j] == s@[start + j],
            all_digits(digits.take(i - start)),
            acc == decimal_value(digits.take(i - start)),
            acc <= 0x8000_0000,
        decreases s@.len() - i,
    {
        let b: u8 = s[i];
        let ghost seen = digits.take(i - start);
        let ghost next = digits.take(i - start + 1);
        assert(next.drop_last() =~= seen);
        assert(next.last() == b);
        assert(decimal_value(next) == decimal_value(seen) * 10 + (b - 0x30) as nat);
        if b < 0x30 || b > 0x39 {
            assert(digits[i - start] == b);
            return None;
        }
        let grown: u64 = acc * 10 + (b - 0x30) as u64;
        if grown > 0x8000_0000 {
            proof {
                if all_digits(digits) {
                    lemma_decimal_value_grows(digits, i - start + 1);
                }
            }
            return None;
        }
        acc = grown;
        assert(all_digits(next)) by {
            assert forall|j: int| 0 <= j < next.len() implies 0x30 <= #[trigger] next[j]
                <= 0x39 by {
                if j < seen.len() {
                    assert(seen[j] == next[j]);
                }
            }
        }
        i += 1;
    }
    assert(digits.take(digits.len() as int) =~= digits);
    if negative {
        if acc == 0x8000_0000 {
            Some(i32::MIN)
        } else {
            Some(-(acc as i32))
        }
    } else if acc <= 0x7FFF_FFFF {
        Some(acc as i32)
    } else {
        None
    }
}


/// The offset of the first byte `b` in `s`, or the length of `s`.
pub open spec fn first_byte_at(s: Seq<u8>, b: u8) -> int
    decreases s.len(),
{
    if s.len() == 0 || s[0] == b {
        0
    } else {
        1 + first_byte_at(s.drop_first(), b)
    }
}

/// Where the first byte `b` stands.
pub proof fn lemma_first_byte_at(s: Seq<u8>, b: u8, at: int)
    requires
        0 <= at <= s.len(),
        forall|j: int| 0 <= j < at ==> #[trigger] s[j] != b,
        at < s.len() ==> s[at] == b,
    ensures
        first_byte_at(s, b) == at,
    decreases s.len(),
{
    if s.len() == 0 || s[0] == b {
    } else {
        let rest = s.drop_first();
        assert forall|j: int| 0 <= j < at - 1 implies #[trigger] rest[j] != b by {
            assert(rest[j] == s[j + 1]);
        }
        lemma_first_byte_at(rest, b, at - 1);
    }
}

/// Finds the first byte `b` in `s`.
pub fn find_byte(s: &[u8], b: u8) -> (at: usize)
    ensures
        at == first_byte_at(s@, b),
        at <= s@.len(),
{
    let mut at: usize = 0;
    while at < s.len() && s[at] != b
        invariant
            at <= s@.len(),
            forall|j: int| 0 <= j < at ==> #[trigger] s@[j] != b,
        decreases s@.len() - at,
    {
        at += 1;
    }
    proof {
        lemma_first_byte_at(s@, b, at as int);
    }
    at
}

/// A copy of the bytes of `s` from `from` up to `to`.
pub fn copy_range(s: &[u8], from: usize, to: usize) -> (out: Vec<u8>)
    requires
        from <= to <= s@.len(),
    ensures
        out@ == s@.subrange(from as int, to as int),
{
    let mut out: Vec<u8> = Vec::new();
    let mut i: usize = from;
    assert(s@.subrange(from as int, from as int) =~= Seq::<u8>::empty());
    while i < to
        invariant
            from <= i <= to <= s@.len(),
            out@ == s@.subrange(from as int, i as int),
        decreases to - i,
    {
        out.push(s[i]);
        assert(s@.subrange(from as int, i + 1) =~= s@.subrange(from as int, i as int).push(
            s@[i as int],
        ));
        i += 1;
    }
    out
}

/// Whether `hay` ends with `needle`.
pub open spec fn ends_with_bytes(hay: Seq<u8>, needle: Seq<u8>) -> bool {
    needle.len() <= hay.len() && occurs_at(hay, needle, hay.len() - needle.len())
}

/// Whether `hay` ends with `needle`.
pub fn ends_with(hay: &[u8], needle: &[u8]) -> (found: bool)
    ensures
        found == ends_with_bytes(hay@, needle@),
{
    if needle.len() > hay.len() {
        return false;
    }
    matches_at(hay, needle, hay.len() - needle.len())
}


/// Whether a character is ASCII white space: space, tab, line feed, vertical
/// tab, form feed or carriage return.
pub open spec fn is_space_char(c: char) -> bool {
    c == ' ' || c == '\t' || c == '\n' || c == '\x0B' || c == '\x0C' || c == '\r'
}

/// Where `s` begins once the white space at its start is left out.
pub open spec fn text_start(s: Seq<char>) -> int
    decreases s.len(),
{
    if s.len() == 0 || !is_space_char(s[0]) {
        0
    } else {
        1 + text_start(s.drop_first())
    }
}

/// Where `s` ends once the white space at its end is left out.
pub open spec fn text_end(s: Seq<char>) -> int
    decreases s.len(),
{
    if s.len() == 0 || !is_space_char(s.last()) {
        s.len() as int
    } else {
        text_end(s.drop_last())
    }
}

/// `s` without the white space at its two ends.
pub open spec fn trimmed_text(s: Seq<char>) -> Seq<char> {
    if text_start(s) >= text_end(s) {
        Seq::empty()
    } else {
        s.subrange(text_start(s), text_end(s))
    }
}

/// Where a text begins once leading white space is left out.
proof fn lemma_text_start(s: Seq<char>, start: int)
    requires
        0 <= start <= s.len(),
        forall|j: int| 0 <= j < start ==> is_space_char(#[trigger] s[j]),
        start < s.len() ==> !is_space_char(s[start]),
    ensures
        text_start(s) == start,
    decreases s.len(),
{
    if s.len() == 0 || !is_space_char(s[0]) {
    } else {
        let rest = s.drop_first();
        assert forall|j: int| 0 <= j < start - 1 implies is_space_char(#[trigger] rest[j]) by {
            assert(rest[j] == s[j + 1]);
        }
        lemma_text_start(rest, start - 1);
    }
}

/// Where a text ends once trailing white space is left out.
proof fn lemma_text_end(s: Seq<char>, end: int)
    requires
        0 <= end <= s.len(),
        forall|j: int| end <= j < s.len() ==> is_space_char(#[trigger] s[j]),
        end > 0 ==> !is_space_char(s[end - 1]),
    ensures
        text_end(s) == end,
    decreases s.len(),
{
    if s.len() == 0 || !is_space_char(s.last()) {
    } else {
        lemma_text_end(s.drop_last(), end);
    }
}

/// Whether a character is ASCII white space.
fn is_space_character(c: char) -> (space: bool)
    ensures
        space == is_space_char(c),
{
    c == ' ' || c == '\t' || c == '\n' || c == '\x0B' || c == '\x0C' || c == '\r'
}

/// A copy of `s` without the white space at its two ends.
pub fn trim_text(s: &str) -> (out: String)
    ensures
        out@ == trimmed_text(s@),
{
    let n: usize = s.unicode_len();
    let mut start: usize = 0;
    while start < n && is_space_character(s.get_char(start))
        invariant
            start <= n,
            n == s@.len(),
            forall|j: int| 0 <= j < start ==> is_space_char(#[trigger] s@[j]),
        decreases n - start,
    {
        start += 1;
    }
    let mut end: usize = n;
    while end > 0 && is_space_character(s.get_char(end - 1))
        invariant
            end <= n,
            n == s@.len(),
            forall|j: int| end <= j < n ==> is_space_char(#[trigger] s@[j]),
        decreases end,
    {
        end -= 1;
    }
    proof {
        lemma_text_start(s@, start as int);
        lemma_text_end(s@, end as int);
    }
    if start >= end {
        String::new()
    } else {
        String::from_str(s.substring_char(start, end))
    }
}

} // verus!
