//! The bitrate that the link-layer query tool reports, read from its output.

use crate::text::{
    all_digits, contains_bytes, contains_lowered, decimal_value, first_byte_at,
    lemma_first_byte_at, lines_of, lowered, split_lines, split_whitespace, tokens_of, words_view,
};
use vstd::prelude::*;
use vstd::string::StringSliceAdditionalSpecFns;

verus! {

/// The thousandths that the digits behind a decimal point stand for: the
/// first three of them, a missing one counting as zero.
pub open spec fn thousandths(fraction: Seq<u8>) -> nat {
    let d0: nat = if fraction.len() > 0 { (fraction[0] - 0x30) as nat } else { 0 };
    let d1: nat = if fraction.len() > 1 { (fraction[1] - 0x30) as nat } else { 0 };
    let d2: nat = if fraction.len() > 2 { (fraction[2] - 0x30) as nat } else { 0 };
    d0 * 100 + d1 * 10 + d2
}

/// What a word says as a rate: a decimal number in Mbit/s, with or without a
/// plus sign before it and a fraction behind it, taken in Kbit/s, rounded
/// down, at most `u32::MAX`. A word that is no such number says nothing.
pub open spec fn rate_kbit(word: Seq<u8>) -> Option<u32> {
    let body = if word.len() > 0 && word[0] == 0x2B { word.drop_first() } else { word };
    let dot = first_byte_at(body, 0x2E);
    let whole = body.subrange(0, dot);
    let fraction = if dot < body.len() {
        body.subrange(dot + 1, body.len() as int)
    } else {
        Seq::empty()
    };
    rate_of_parts(whole, fraction)
}

/// The rate in Kbit/s that the digits before and behind the decimal point of
/// a number in Mbit/s stand for. There must be a digit, and nothing but
/// digits.
pub open spec fn rate_of_parts(whole: Seq<u8>, fraction: Seq<u8>) -> Option<u32> {
    if all_digits(whole) && all_digits(fraction) && whole.len() + fraction.len() > 0 {
        let kbit = decimal_value(whole) * 1000 + thousandths(fraction);
        Some(if kbit > u32::MAX { u32::MAX } else { kbit as u32 })
    } else {
        None
    }
}

/// Reads the digits of `s` between `from` and `to` as a number, at most
/// `cap`; `None` where a byte among them is no digit.
fn digits_capped(s: &[u8], from: usize, to: usize, cap: u64) -> (value: Option<u64>)
    requires
        from <= to <= s@.len(),
        cap <= 0xFFFF_FFFF_FFFF,
    ensures
        value.is_some() == all_digits(s@.subrange(from as int, to as int)),
        value.is_some() ==> value.unwrap() == (if decimal_value(
            s@.subrange(from as int, to as int),
        ) > cap {
            cap as nat
        } else {
            decimal_value(s@.subrange(from as int, to as int))
        }),
{
    let ghost digits = s@.subrange(from as int, to as int);
    let mut acc: u64 = 0;
    let mut i: usize = from;
    assert(digits.take(0) =~= Seq::<u8>::empty());
    while i < to
        invariant
            from <= i <= to <= s@.len(),
            cap <= 0xFFFF_FFFF_FFFF,
            digits == s@.subrange(from as int, to as int),
            all_digits(digits.take(i - from)),
            acc <= cap,
            acc == (if decimal_value(digits.take(i - from)) > cap {
                cap as nat
            } else {
                decimal_value(digits.take(i - from))
            }),
        decreases to - i,
    {
        let b: u8 = s[i];
        let ghost seen = digits.take(i - from);
        let ghost next = digits.take(i - from + 1);
        assert(next.drop_last() =~= seen);
        assert(next.last() == b);
        assert(digits[i - from] == b);
        assert(decimal_value(next) == decimal_value(seen) * 10 + (b - 0x30) as nat);
        if b < 0x30 || b > 0x39 {
            return None;
        }
        let grown: u64 = acc * 10 + (b - 0x30) as u64;
        acc = if grown > cap { cap } else { grown };
        assert(all_digits(next)) by {
            assert forall|j: int| 0 <= j < next.len() implies 0x30 <= #[trigger] next[j]
                <= 0x39 by {
                if j < seen.len() {
                    assert(seen[j] == next[j]);
                }
            }
        }
        i += 1;
    }
    assert(digits.take(digits.len() as int) =~= digits);
    Some(acc)
}

/// Reads a word as a rate in Kbit/s.
pub fn parse_rate(word: &[u8]) -> (rate: Option<u32>)
    ensures
        rate == rate_kbit(word@),
{
    let start: usize = if word.len() > 0 && word[0] == 0x2B { 1 } else { 0 };
    let ghost body = if start == 1 { word@.drop_first() } else { word@ };
    let mut dot: usize = start;
    while dot < word.len() && word[dot] != 0x2E
        invariant
            start <= dot <= word@.len(),
            forall|j: int| start <= j < dot ==> #[trigger] word@[j] != 0x2E,
        decreases word@.len() - dot,
    {
        dot += 1;
    }
    proof {
        assert forall|j: int| 0 <= j < dot - start implies #[trigger] body[j] != 0x2E by {
            assert(body[j] == word@[start + j]);
        }
        lemma_first_byte_at(body, 0x2E, dot - start);
        assert(body.subrange(0, dot - start) =~= word@.subrange(start as int, dot as int));
        if dot < word@.len() {
            assert(body.subrange(dot - start + 1, body.len() as int) =~= word@.subrange(
                dot + 1,
                word@.len() as int,
            ));
        }
    }
    let ghost whole_digits = word@.subrange(start as int, dot as int);
    let ghost spec_fraction = if dot < word@.len() {
        word@.subrange(dot + 1, word@.len() as int)
    } else {
        Seq::<u8>::empty()
    };
    assert(rate_kbit(word@) == rate_of_parts(whole_digits, spec_fraction));
    let whole: u64 = match digits_capped(word, start, dot, 0x1_0000_0000) {
        Some(v) => v,
        None => {
            return None;
        },
    };
    let frac_from: usize = if dot < word.len() { dot + 1 } else { word.len() };
    let frac_to: usize = word.len();
    let ghost fraction = word@.subrange(frac_from as int, frac_to as int);
    assert(fraction =~= spec_fraction);
    let mut millis: u64 = 0;
    let mut k: usize = 0;
    let mut i: usize = frac_from;
    while i < frac_to
        invariant
            frac_from <= i <= frac_to,
            frac_to == word@.len(),
            fraction == word@.subrange(frac_from as int, frac_to as int),
            rate_kbit(word@) == rate_of_parts(whole_digits, fraction),
            all_digits(fraction.take(i - frac_from)),
            millis == thousandths(fraction.take(i - frac_from)),
            millis <= 999,
        decreases frac_to - i,
    {
        let b: u8 = word[i];
        let ghost seen = fraction.take(i - frac_from);
        let ghost next = fraction.take(i - frac_from + 1);
        assert(fraction[i - frac_from] == b);
        assert(next[i - frac_from] == b);
        assert(forall|j: int| 0 <= j < seen.len() ==> seen[j] == next[j]);
        if b < 0x30 || b > 0x39 {
            return None;
        }
        let place: usize = i - frac_from;
        if place == 0 {
            millis = millis + (b - 0x30) as u64 * 100;
        } else if place == 1 {
            millis = millis + (b - 0x30) as u64 * 10;
        } else if place == 2 {
            millis = millis + (b - 0x30) as u64;
        }
        assert(all_digits(next)) by {
            assert forall|j: int| 0 <= j < next.len() implies 0x30 <= #[trigger] next[j]
                <= 0x39 by {
                if j < seen.len() {
                    assert(seen[j] == next[j]);
                }
            }
        }
        i += 1;
    }
    assert(fraction.take(fraction.len() as int) =~= fraction);
    if dot - start + (frac_to - frac_from) == 0 {
        return None;
    }
    let kbit: u64 = whole * 1000 + millis;
    if kbit > u32::MAX as u64 {
        Some(u32::MAX)
    } else {
        Some(kbit as u32)
    }
}

/// The first rate among `words` from `from` on. A word says the rate where
/// the word before it holds `bitrate:`; with `by_unit`, also where the word
/// behind it holds `mbit`. Letters count without regard to case.
pub open spec fn rate_in_words(words: Seq<Seq<u8>>, from: int, by_unit: bool) -> Option<u32>
    decreases words.len() - from,
{
    if from < 0 || from >= words.len() {
        None
    } else if from + 1 < words.len() && contains_bytes(
        lowered(words[from]),
        "bitrate:".spec_bytes(),
    ) && rate_kbit(words[from + 1]).is_some() {
        rate_kbit(words[from + 1])
    } else if by_unit && from + 1 < words.len() && contains_bytes(
        lowered(words[from + 1]),
        "mbit".spec_bytes(),
    ) && rate_kbit(words[from]).is_some() {
        rate_kbit(words[from])
    } else {
        rate_in_words(words, from + 1, by_unit)
    }
}

/// The first rate among `lines` from `from` on: that of the first line which
/// holds `marker`, letters without regard to case, and in which a word says
/// a rate.
pub open spec fn rate_in_lines(
    lines: Seq<Seq<u8>>,
    from: int,
    marker: Seq<u8>,
    by_unit: bool,
) -> Option<u32>
    decreases lines.len() - from,
{
    if from < 0 || from >= lines.len() {
        None
    } else if contains_bytes(lowered(lines[from]), marker) && rate_in_words(
        tokens_of(lines[from]),
        0,
        by_unit,
    ).is_some() {
        rate_in_words(tokens_of(lines[from]), 0, by_unit)
    } else {
        rate_in_lines(lines, from + 1, marker, by_unit)
    }
}

/// Finds the first rate among the words of one line.
fn scan_words(words: &Vec<Vec<u8>>, by_unit: bool) -> (rate: Option<u32>)
    ensures
        rate == rate_in_words(words_view(words@), 0, by_unit),
{
    let ghost all = words_view(words@);
    let mut i: usize = 0;
    while i < words.len()
        invariant
            i <= words@.len(),
            all == words_view(words@),
            rate_in_words(all, 0, by_unit) == rate_in_words(all, i as int, by_unit),
        decreases words@.len() - i,
    {
        assert(all[i as int] == words@[i as int]@);
        if i + 1 < words.len() {
            assert(all[i + 1] == words@[i + 1]@);
            if contains_lowered(words[i].as_slice(), "bitrate:".as_bytes()) {
                match parse_rate(words[i + 1].as_slice()) {
                    Some(r) => {
                        return Some(r);
                    },
                    None => {},
                }
            }
            if by_unit && contains_lowered(words[i + 1].as_slice(), "mbit".as_bytes()) {
                match parse_rate(words[i].as_slice()) {
                    Some(r) => {
                        return Some(r);
                    },
                    None => {},
                }
            }
        }
        i += 1;
    }
    None
}

/// Finds the first rate in a text.
fn scan_lines(text: &[u8], marker: &[u8], by_unit: bool) -> (rate: Option<u32>)
    ensures
        rate == rate_in_lines(lines_of(text@), 0, marker@, by_unit),
{
    let lines = split_lines(text);
    let ghost all = words_view(lines@);
    let mut i: usize = 0;
    while i < lines.len()
        invariant
            i <= lines@.len(),
            all == words_view(lines@),
            all == lines_of(text@),
            rate_in_lines(all, 0, marker@, by_unit) == rate_in_lines(
                all,
                i as int,
                marker@,
                by_unit,
            ),
        decreases lines@.len() - i,
    {
        assert(all[i as int] == lines@[i as int]@);
        if contains_lowered(lines[i].as_slice(), marker) {
            let words = split_whitespace(lines[i].as_slice());
            match scan_words(&words, by_unit) {
                Some(r) => {
                    return Some(r);
                },
                None => {},
            }
        }
        i += 1;
    }
    None
}

/// The bitrate, in Kbit/s, in the tool's report on the link: the first rate
/// on a line that speaks of a bitrate.
pub open spec fn link_rate_of(report: Seq<u8>) -> Option<u32> {
    rate_in_lines(lines_of(report), 0, "bitrate:".spec_bytes(), true)
}

/// The bitrate, in Kbit/s, in the tool's report on the station: the first
/// rate behind the words `tx bitrate:`.
pub open spec fn station_rate_of(report: Seq<u8>) -> Option<u32> {
    rate_in_lines(lines_of(report), 0, "tx bitrate:".spec_bytes(), false)
}

/// Reads the bitrate from the tool's report on the link.
pub fn parse_link_bitrate(report: &str) -> (rate: Option<u32>)
    ensures
        rate == link_rate_of(report.spec_bytes()),
{
    scan_lines(report.as_bytes(), "bitrate:".as_bytes(), true)
}

/// Reads the bitrate from the tool's report on the station.
pub fn parse_station_bitrate(report: &str) -> (rate: Option<u32>)
    ensures
        rate == station_rate_of(report.spec_bytes()),
{
    scan_lines(report.as_bytes(), "tx bitrate:".as_bytes(), false)
}

/// The bitrate, in Kbit/s, from the link-layer query tool. `link_report` is
/// what the tool printed on the link, `station_report` what it printed on the
/// station, each `None` where the tool could not be run or failed. Without a
/// report on the link there is no bitrate; the station is asked only where
/// the link says none.
pub fn get_bitrate_from_iw(link_report: Option<&str>, station_report: Option<&str>) -> (rate:
    Option<u32>)
    ensures
        rate == match link_report {
            Some(link) => match link_rate_of(link.spec_bytes()) {
                Some(r) => Some(r),
                None => match station_report {
                    Some(station) => station_rate_of(station.spec_bytes()),
                    None => None,
                },
            },
            None => None,
        },
{
    let link: &str = match link_report {
        Some(l) => l,
        None => {
            return None;
        },
    };
    match parse_link_bitrate(link) {
        Some(r) => Some(r),
        None => match station_report {
            Some(station) => parse_station_bitrate(station),
            None => None,
        },
    }
}

} // verus!
