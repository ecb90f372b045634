//! Amounts of pesos, and dates and times of day, as the ticket shows them.
//!
//! Timestamps are read and written out by `chrono`; what it answers is not
//! proved here.

use vstd::prelude::*;
use crate::text::{append_chars, chars_of, join, split_words, string_of, views, words};

verus! {

/// Whether `chrono::DateTime::parse_from_rfc3339` accepts `iso`.
pub uninterp spec fn rfc3339_valid(iso: Seq<char>) -> bool;

/// What `chrono::DateTime::format` writes, under the format `fmt`, for the
/// date and time that `chrono::DateTime::parse_from_rfc3339` reads from
/// `iso`.
pub uninterp spec fn rfc3339_formatted(iso: Seq<char>, fmt: Seq<char>) -> Seq<char>;

/// The formats that the ticket uses: day and month, and hour and minute.
pub open spec fn known_format(fmt: Seq<char>) -> bool {
    fmt == "%d %b"@ || fmt == "%H:%M"@
}

/// `chrono::DateTime::parse_from_rfc3339`, then `chrono::DateTime::format`
/// on what it read. `None` exactly where the parser turns `iso` down; else
/// the text that the formatter writes, which depends on `iso` and `fmt`
/// alone: the date and time are shown in the offset that `iso` names.
#[verifier::external_body]
fn format_rfc3339(iso: &str, fmt: &str) -> (r: Option<String>)
    requires
        known_format(fmt@),
    ensures
        r is Some <==> rfc3339_valid(iso@),
        r is Some ==> r->Some_0@ == rfc3339_formatted(iso@, fmt@),
{
    match chrono::DateTime::parse_from_rfc3339(iso) {
        Ok(moment) => Some(moment.format(fmt).to_string()),
        Err(_) => None,
    }
}

/// The Spanish abbreviation of a month, given the English one; any other
/// word as it is.
pub open spec fn spanish_month(w: Seq<char>) -> Seq<char> {
    if w == seq!['J', 'a', 'n'] {
        seq!['E', 'n', 'e']
    } else if w == seq!['A', 'p', 'r'] {
        seq!['A', 'b', 'r']
    } else if w == seq!['A', 'u', 'g'] {
        seq!['A', 'g', 'o']
    } else if w == seq!['D', 'e', 'c'] {
        seq!['D', 'i', 'c']
    } else {
        w
    }
}

/// `raw` with each of its words put into Spanish and single blanks between
/// them.
pub open spec fn in_spanish(raw: Seq<char>) -> Seq<char> {
    join(words(raw).map_values(|w: Seq<char>| spanish_month(w)))
}

/// Whether `w` is the three characters `a`, `b`, `c`.
fn is_three(w: &Vec<char>, a: char, b: char, c: char) -> (r: bool)
    ensures
        r == (w@ == seq![a, b, c]),
{
    if w.len() == 3 && w[0] == a && w[1] == b && w[2] == c {
        assert(w@ =~= seq![a, b, c]);
        true
    } else {
        proof {
            if w@ == seq![a, b, c] {
                assert(seq![a, b, c].len() == 3);
                assert(seq![a, b, c][0] == a);
                assert(seq![a, b, c][1] == b);
                assert(seq![a, b, c][2] == c);
            }
        }
        false
    }
}

/// The three characters `a`, `b`, `c`.
fn three(a: char, b: char, c: char) -> (r: Vec<char>)
    ensures
        r@ == seq![a, b, c],
{
    let mut r: Vec<char> = Vec::new();
    r.push(a);
    r.push(b);
    r.push(c);
    assert(r@ =~= seq![a, b, c]);
    r
}

/// Executable form of `spanish_month`.
pub fn translate_month(w: Vec<char>) -> (r: Vec<char>)
    ensures
        r@ == spanish_month(w@),
{
    if is_three(&w, 'J', 'a', 'n') {
        three('E', 'n', 'e')
    } else if is_three(&w, 'A', 'p', 'r') {
        three('A', 'b', 'r')
    } else if is_three(&w, 'A', 'u', 'g') {
        three('A', 'g', 'o')
    } else if is_three(&w, 'D', 'e', 'c') {
        three('D', 'i', 'c')
    } else {
        w
    }
}

/// A date as the formatter wrote it, with the month in Spanish.
pub fn spanish_date(raw: &str) -> (r: String)
    ensures
        r@ == in_spanish(raw@),
{
    let chars = chars_of(raw);
    let ws = split_words(chars.as_slice());
    let ghost target = words(raw@).map_values(|w: Seq<char>| spanish_month(w));
    let mut out: Vec<char> = Vec::new();
    let mut i: usize = 0;
    assert(target.take(0) =~= Seq::<Seq<char>>::empty());
    while i < ws.len()
        invariant
            i <= ws@.len(),
            views(ws@) == words(raw@),
            target == words(raw@).map_values(|w: Seq<char>| spanish_month(w)),
            out@ == join(target.take(i as int)),
        decreases ws.len() - i,
    {
        let ghost before = target.take(i as int);
        let ghost after = target.take(i + 1);
        if i > 0 {
            out.push(' ');
        }
        let mut copy: Vec<char> = Vec::new();
        append_chars(&mut copy, ws[i].as_slice());
        let word = translate_month(copy);
        append_chars(&mut out, word.as_slice());
        proof {
            assert(views(ws@)[i as int] == ws@[i as int]@);
            assert(copy@ =~= ws@[i as int]@);
            assert(after.drop_last() =~= before);
            assert(after.last() == word@);
            if i > 0 {
                assert(out@ =~= join(before) + seq![' '] + word@);
            } else {
                assert(before =~= Seq::<Seq<char>>::empty());
                assert(out@ =~= word@);
            }
        }
        i = i + 1;
    }
    assert(target.take(i as int) =~= target);
    string_of(out.as_slice())
}

/// The date and the time of day of the RFC 3339 timestamp `iso_date`: day
/// and abbreviated Spanish month, and hour and minute.
pub fn format_datetime(iso_date: &str) -> (r: (String, String))
    requires
        rfc3339_valid(iso_date@),
    ensures
        r.0@ == in_spanish(rfc3339_formatted(iso_date@, "%d %b"@)),
        r.1@ == rfc3339_formatted(iso_date@, "%H:%M"@),
{
    let raw_date = format_rfc3339(iso_date, "%d %b");
    let raw_time = format_rfc3339(iso_date, "%H:%M");
    match (raw_date, raw_time) {
        (Some(date), Some(time)) => (spanish_date(date.as_str()), time),
        _ => {
            assert(false);
            (String::new(), String::new())
        },
    }
}

/// As `format_datetime`, for any text: `None` where it is no RFC 3339
/// timestamp.
pub fn try_format_datetime(iso_date: &str) -> (r: Option<(String, String)>)
    ensures
        r is Some <==> rfc3339_valid(iso_date@),
        r is Some ==> r->Some_0.0@ == in_spanish(rfc3339_formatted(iso_date@, "%d %b"@)),
        r is Some ==> r->Some_0.1@ == rfc3339_formatted(iso_date@, "%H:%M"@),
{
    match format_rfc3339(iso_date, "%d %b") {
        Some(_) => Some(format_datetime(iso_date)),
        None => None,
    }
}

/// The character of the decimal digit `d`.
pub open spec fn digit_char(d: int) -> char {
    if d == 0 {
        '0'
    } else if d == 1 {
        '1'
    } else if d == 2 {
        '2'
    } else if d == 3 {
        '3'
    } else if d == 4 {
        '4'
    } else if d == 5 {
        '5'
    } else if d == 6 {
        '6'
    } else if d == 7 {
        '7'
    } else if d == 8 {
        '8'
    } else {
        '9'
    }
}

/// The decimal digits of `n`, without leading zeros.
pub open spec fn digits(n: nat) -> Seq<char>
    decreases n,
{
    if n < 10 {
        seq![digit_char(n as int)]
    } else {
        digits(n / 10).push(digit_char((n % 10) as int))
    }
}

/// `n` in decimal, with a minus sign where it is negative.
pub open spec fn decimal(n: int) -> Seq<char> {
    if n < 0 {
        seq!['-'] + digits((-n) as nat)
    } else {
        digits(n as nat)
    }
}

/// `s` with a point before every group of three characters counted from
/// its end, but not in front.
pub open spec fn grouped(s: Seq<char>) -> Seq<char>
    decreases s.len(),
{
    if s.len() <= 3 {
        s
    } else {
        grouped(s.take(s.len() - 3)) + seq!['.'] + s.skip(s.len() - 3)
    }
}

/// An amount of pesos as the ticket shows it.
pub open spec fn clp(amount: int) -> Seq<char> {
    seq!['$'] + grouped(decimal(amount))
}

/// Executable form of `digit_char`.
fn digit_of(d: u32) -> (r: char)
    requires
        d < 10,
    ensures
        r == digit_char(d as int),
{
    if d == 0 {
        '0'
    } else if d == 1 {
        '1'
    } else if d == 2 {
        '2'
    } else if d == 3 {
        '3'
    } else if d == 4 {
        '4'
    } else if d == 5 {
        '5'
    } else if d == 6 {
        '6'
    } else if d == 7 {
        '7'
    } else if d == 8 {
        '8'
    } else {
        '9'
    }
}

/// Appends the decimal digits of `n` to `out`.
fn push_digits(n: u64, out: &mut Vec<char>)
    ensures
        final(out)@ == old(out)@ + digits(n as nat),
    decreases n,
{
    if n < 10 {
        out.push(digit_of(n as u32));
        assert(out@ =~= old(out)@ + digits(n as nat));
    } else {
        push_digits(n / 10, out);
        out.push(digit_of((n % 10) as u32));
        assert(out@ =~= old(out)@ + digits(n as nat));
    }
}

/// Appends the first `n` characters of `s`, grouped in threes, to `out`.
fn push_grouped(s: &Vec<char>, n: usize, out: &mut Vec<char>)
    requires
        n <= s@.len(),
    ensures
        final(out)@ == old(out)@ + grouped(s@.take(n as int)),
    decreases n,
{
    let ghost head = s@.take(n as int);
    if n <= 3 {
        let mut k: usize = 0;
        while k < n
            invariant
                k <= n <= s@.len(),
                out@ == old(out)@ + s@.take(k as int),
            decreases n - k,
        {
            out.push(s[k]);
            k = k + 1;
            assert(out@ =~= old(out)@ + s@.take(k as int));
        }
    } else {
        push_grouped(s, n - 3, out);
        out.push('.');
        out.push(s[n - 3]);
        out.push(s[n - 2]);
        out.push(s[n - 1]);
        proof {
            assert(head.take(head.len() - 3) =~= s@.take(n - 3));
            assert(head.skip(head.len() - 3) =~= seq![s@[n - 3], s@[n - 2], s@[n - 1]]);
            assert(out@ =~= old(out)@ + grouped(head));
        }
    }
}

/// `n` in decimal, with a minus sign where it is negative.
pub fn decimal_chars(n: i64) -> (r: Vec<char>)
    ensures
        r@ == decimal(n as int),
{
    let mut out: Vec<char> = Vec::new();
    if n < 0 {
        out.push('-');
        let magnitude: u64 = (0 - (n as i128)) as u64;
        push_digits(magnitude, &mut out);
    } else {
        push_digits(n as u64, &mut out);
    }
    assert(out@ =~= decimal(n as int));
    out
}

/// `n` in decimal, with a minus sign where it is negative.
pub fn decimal_string(n: i64) -> (r: String)
    ensures
        r@ == decimal(n as int),
{
    let chars = decimal_chars(n);
    string_of(chars.as_slice())
}

/// An amount of pesos as the ticket shows it: a dollar sign, then the
/// amount in decimal with a point before every group of three characters
/// counted from the end.
pub fn format_clp(amount: i32) -> (r: String)
    ensures
        r@ == clp(amount as int),
{
    let amount_str = decimal_chars(amount as i64);
    let mut formatted: Vec<char> = Vec::new();
    formatted.push('$');
    push_grouped(&amount_str, amount_str.len(), &mut formatted);
    proof {
        assert(amount_str@.take(amount_str@.len() as int) =~= amount_str@);
        assert(formatted@ =~= clp(amount as int));
    }
    string_of(formatted.as_slice())
}

} // verus!
