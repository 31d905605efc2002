use vstd::prelude::*;
use vstd::std_specs::iter::IteratorSpec;
use vstd::string::*;

use crate::error::DateTimeError;
use crate::grammar::{
    bounded_end, date_rule, opt_separator, opt_token, day_end, digit_value, digits_at, is_digit, month_end, non_digit_end,
    render, sample_rule, separator_end, short_run, short_value, time_part_end, time_rule,
    timezone_end, year_end, Component,
};

verus! {

/// One recognised token of a format pattern.
#[derive(Clone)]
pub enum DateTimePart {
    Year,
    Month,
    Day,
    Hour,
    Minute,
    Second,
    Timezone,
    /// Non-digit text copied from the sample.
    Separator(String),
}

impl View for DateTimePart {
    type V = Component;

    open spec fn view(&self) -> Component {
        match self {
            DateTimePart::Year => Component::Year,
            DateTimePart::Month => Component::Month,
            DateTimePart::Day => Component::Day,
            DateTimePart::Hour => Component::Hour,
            DateTimePart::Minute => Component::Minute,
            DateTimePart::Second => Component::Second,
            DateTimePart::Timezone => Component::Timezone,
            DateTimePart::Separator(t) => Component::Separator(t@),
        }
    }
}

impl DateTimePart {
    /// The text this token contributes to a format string.
    pub fn as_str(&self) -> (r: &str)
        ensures
            r@ == self@.text(),
    {
        match self {
            DateTimePart::Year => {
                proof {
                    reveal_strlit("%Y");
                }
                "%Y"
            },
            DateTimePart::Month => {
                proof {
                    reveal_strlit("%m");
                }
                "%m"
            },
            DateTimePart::Day => {
                proof {
                    reveal_strlit("%d");
                }
                "%d"
            },
            DateTimePart::Hour => {
                proof {
                    reveal_strlit("%H");
                }
                "%H"
            },
            DateTimePart::Minute => {
                proof {
                    reveal_strlit("%M");
                }
                "%M"
            },
            DateTimePart::Second => {
                proof {
                    reveal_strlit("%S");
                }
                "%S"
            },
            DateTimePart::Timezone => {
                proof {
                    reveal_strlit("%z");
                }
                "%z"
            },
            DateTimePart::Separator(t) => t.as_str(),
        }
    }
}

/// The tokens that a sequence of parts stands for.
pub open spec fn views(parts: Seq<DateTimePart>) -> Seq<Component> {
    parts.map_values(|p: DateTimePart| p@)
}

/// An inferred format: a sequence of tokens.
#[derive(Clone)]
pub struct Pattern {
    parts: Vec<DateTimePart>,
}

impl View for Pattern {
    type V = Seq<Component>;

    closed spec fn view(&self) -> Seq<Component> {
        views(self.parts@)
    }
}

impl Pattern {
    /// A pattern with no tokens.
    pub fn new() -> (r: Pattern)
        ensures
            r@ == Seq::<Component>::empty(),
    {
        let r = Pattern { parts: Vec::new() };
        proof {
            assert(r@ =~= Seq::<Component>::empty());
        }
        r
    }

    /// The pattern made of the given tokens, in order.
    pub fn from_parts(parts: Vec<DateTimePart>) -> (r: Pattern)
        ensures
            r@ == views(parts@),
    {
        Pattern { parts }
    }

    /// The format string: the texts of the tokens, concatenated in order. It depends on
    /// the sequence of tokens alone, so rendering a pattern again gives the same text.
    pub fn as_str(&self) -> (r: String)
        ensures
            r@ == render(self@),
    {
        let mut out = String::new();
        let mut i: usize = 0;
        while i < self.parts.len()
            invariant
                i <= self.parts.len(),
                out@ == render(views(self.parts@).take(i as int)),
            decreases self.parts.len() - i,
        {
            let piece = self.parts[i].as_str();
            out.append(piece);
            proof {
                let vs = views(self.parts@);
                assert(vs.take(i + 1).drop_last() =~= vs.take(i as int));
            }
            i = i + 1;
        }
        proof {
            assert(views(self.parts@).take(i as int) =~= views(self.parts@));
        }
        out
    }
}

/// Appends `p` to `parts`.
fn push_part(parts: &mut Vec<DateTimePart>, p: DateTimePart)
    ensures
        views(final(parts)@) == views(old(parts)@).push(p@),
{
    let ghost q = p@;
    parts.push(p);
    proof {
        assert(views(final(parts)@) =~= views(old(parts)@).push(q));
    }
}

/// The characters of `text`, in order.
pub fn chars_of(text: &str) -> (r: Vec<char>)
    ensures
        r@ == text@,
{
    let mut out: Vec<char> = Vec::new();
    for c in it: text.chars()
        invariant
            it.seq() == text@,
            out@ == text@.take(it.index() as int),
    {
        out.push(c);
    }
    out
}

/// Whether `c` is one of the ASCII decimal digits.
pub fn is_digit_char(c: char) -> (r: bool)
    ensures
        r == is_digit(c),
{
    '0' <= c && c <= '9'
}

/// Whether `s` holds `n` digits starting at position `i`.
pub fn has_digits(s: &[char], i: usize, n: usize) -> (r: bool)
    requires
        i <= s@.len(),
    ensures
        r == digits_at(s@, i as int, n as int),
        s@.len() <= usize::MAX,
{
    if s.len() - i < n {
        return false;
    }
    let mut k: usize = 0;
    while k < n
        invariant
            k <= n,
            i + n <= s@.len() <= usize::MAX,
            forall|j: int| i <= j < i + k ==> is_digit(#[trigger] s@[j]),
        decreases n - k,
    {
        if !is_digit_char(s[i + k]) {
            return false;
        }
        k = k + 1;
    }
    true
}

/// The value of the digit `c`.
fn digit_of(c: char) -> (r: u32)
    requires
        is_digit(c),
    ensures
        r == digit_value(c),
        r <= 9,
{
    (c as u32) - ('0' as u32)
}

/// The value of the numeral of `n` (one or two) digits at position `i` of `s`.
fn short_value_of(s: &[char], i: usize, n: usize) -> (r: u32)
    requires
        n == 1 || n == 2,
        digits_at(s@, i as int, n as int),
    ensures
        r == short_value(s@, i as int, n as int),
{
    if n == 1 {
        digit_of(s[i])
    } else {
        10 * digit_of(s[i]) + digit_of(s[i + 1])
    }
}

/// Recognizes a year: exactly four digits at `i`. Returns the position after it.
pub fn year(s: &[char], i: usize) -> (r: Result<usize, DateTimeError>)
    requires
        i <= s@.len(),
    ensures
        match r {
            Ok(e) => year_end(s@, i as int) == Some(e as int) && e <= s@.len(),
            Err(err) => year_end(s@, i as int) is None && err == DateTimeError::NoMatch(i),
        },
{
    if has_digits(s, i, 4) {
        Ok(i + 4)
    } else {
        Err(DateTimeError::NoMatch(i))
    }
}

/// The numeral of one or two digits at `i` when its value is below `bound`: the
/// position after it, or `None` with no digit there, or `Some(Err(()))` when it is too large.
fn bounded(s: &[char], i: usize, bound: u32) -> (r: Option<Result<usize, ()>>)
    requires
        i <= s@.len(),
    ensures
        match r {
            Some(Ok(e)) => bounded_end(s@, i as int, bound as int) == Some(e as int) && e <= s@.len(),
            Some(Err(_)) => short_run(s@, i as int) >= 1 && bounded_end(s@, i as int,
                bound as int) is None,
            None => short_run(s@, i as int) == 0,
        },
{
    let n: usize = if has_digits(s, i, 2) {
        2
    } else if has_digits(s, i, 1) {
        1
    } else {
        return None;
    };
    if short_value_of(s, i, n) < bound {
        Some(Ok(i + n))
    } else {
        Some(Err(()))
    }
}

/// Recognizes a month: the one or two digits at `i`, when their value is at most 12.
pub fn month(s: &[char], i: usize) -> (r: Result<usize, DateTimeError>)
    requires
        i <= s@.len(),
    ensures
        match r {
            Ok(e) => month_end(s@, i as int) == Some(e as int) && e <= s@.len(),
            Err(err) => month_end(s@, i as int) is None && (if short_run(s@, i as int) == 0 {
                err == DateTimeError::NoMatch(i)
            } else {
                err == DateTimeError::NotMonth
            }),
        },
{
    match bounded(s, i, 13) {
        Some(Ok(e)) => Ok(e),
        Some(Err(_)) => Err(DateTimeError::NotMonth),
        None => Err(DateTimeError::NoMatch(i)),
    }
}

/// Recognizes a day: the one or two digits at `i`, when their value is at most 31.
pub fn day(s: &[char], i: usize) -> (r: Result<usize, DateTimeError>)
    requires
        i <= s@.len(),
    ensures
        match r {
            Ok(e) => day_end(s@, i as int) == Some(e as int) && e <= s@.len(),
            Err(err) => day_end(s@, i as int) is None && (if short_run(s@, i as int) == 0 {
                err == DateTimeError::NoMatch(i)
            } else {
                err == DateTimeError::NotDay
            }),
        },
{
    match bounded(s, i, 32) {
        Some(Ok(e)) => Ok(e),
        Some(Err(_)) => Err(DateTimeError::NotDay),
        None => Err(DateTimeError::NoMatch(i)),
    }
}

/// Recognizes a time part: exactly two digits at `i`. Returns the position after them
/// and their value.
pub fn time_part(s: &[char], i: usize) -> (r: Result<(usize, u32), DateTimeError>)
    requires
        i <= s@.len(),
    ensures
        match r {
            Ok((e, v)) => e <= s@.len() && time_part_end(s@, i as int) == Some(e as int) && v == short_value(
                s@,
                i as int,
                2,
            ),
            Err(err) => time_part_end(s@, i as int) is None && err == DateTimeError::NoMatch(i),
        },
{
    if has_digits(s, i, 2) {
        Ok((i + 2, short_value_of(s, i, 2)))
    } else {
        Err(DateTimeError::NoMatch(i))
    }
}

/// Recognizes an offset of the shape `+dd:dd` at `i`.
pub fn timezone(s: &[char], i: usize) -> (r: Result<usize, DateTimeError>)
    requires
        i <= s@.len(),
    ensures
        match r {
            Ok(e) => timezone_end(s@, i as int) == Some(e as int) && e <= s@.len(),
            Err(err) => timezone_end(s@, i as int) is None && err == DateTimeError::NoMatch(i),
        },
{
    if s.len() - i >= 6 && s[i] == '+' && has_digits(s, i + 1, 2) && s[i + 3] == ':'
        && has_digits(s, i + 4, 2) {
        Ok(i + 6)
    } else {
        Err(DateTimeError::NoMatch(i))
    }
}

/// Recognizes a separator: the whole run of non-digits at `i`, when it is not empty.
/// `s` holds the characters of `text`.
pub fn separator(text: &str, s: &[char], i: usize) -> (r: Result<
    (usize, DateTimePart),
    DateTimeError,
>)
    requires
        s@ == text@,
        i <= s@.len(),
    ensures
        match r {
            Ok((e, p)) => e <= s@.len() && separator_end(s@, i as int) == Some(e as int) && p@
                == Component::Separator(s@.subrange(i as int, e as int)),
            Err(err) => separator_end(s@, i as int) is None && err
                == DateTimeError::NotSeparator,
        },
{
    let mut e: usize = i;
    while e < s.len() && !is_digit_char(s[e])
        invariant
            i <= e <= s@.len(),
            non_digit_end(s@, i as int) == non_digit_end(s@, e as int),
        decreases s@.len() - e,
    {
        e = e + 1;
    }
    if e > i {
        let run = text.substring_char(i, e);
        Ok((e, DateTimePart::Separator(run.to_owned())))
    } else {
        Err(DateTimeError::NotSeparator)
    }
}

/// The date rule at `i`: a year, then optionally a separator, a month, a separator and
/// a day. Returns the position after the date and its pattern; fails only without a year.
pub fn parse_date(text: &str, s: &[char], i: usize) -> (r: Result<(usize, Pattern), DateTimeError>)
    requires
        s@ == text@,
        i <= s@.len(),
    ensures
        match r {
            Ok((e, p)) => date_rule(s@, i as int) == Some((e as int, p@)) && e <= s@.len(),
            Err(err) => date_rule(s@, i as int) is None && err == DateTimeError::NoMatch(i),
        },
{
    let a = match year(s, i) {
        Ok(a) => a,
        Err(err) => return Err(err),
    };
    let mut parts: Vec<DateTimePart> = Vec::new();
    push_part(&mut parts, DateTimePart::Year);
    let b = match separator(text, s, a) {
        Ok((e, p)) => {
            push_part(&mut parts, p);
            e
        },
        Err(_) => a,
    };
    let c = match month(s, b) {
        Ok(e) => {
            push_part(&mut parts, DateTimePart::Month);
            e
        },
        Err(_) => b,
    };
    let d = match separator(text, s, c) {
        Ok((e, p)) => {
            push_part(&mut parts, p);
            e
        },
        Err(_) => c,
    };
    let e = match day(s, d) {
        Ok(e) => {
            push_part(&mut parts, DateTimePart::Day);
            e
        },
        Err(_) => d,
    };
    proof {
        let (b1, p1) = opt_separator(s@, a as int);
        let (c1, p2) = opt_token(month_end(s@, b as int), b as int, Component::Month);
        let (d1, p3) = opt_separator(s@, c as int);
        let (e1, p4) = opt_token(day_end(s@, d as int), d as int, Component::Day);
        assert(b1 == b && c1 == c && d1 == d && e1 == e);
        assert(views(parts@) =~= seq![Component::Year] + p1 + p2 + p3 + p4);
    }
    Ok((e, Pattern::from_parts(parts)))
}

/// The time rule at `i`: an hour of two digits, then optionally a separator, a minute,
/// a separator, a second and an offset. Fails when the hour is missing or above 24.
pub fn parse_time(text: &str, s: &[char], i: usize) -> (r: Result<(usize, Pattern), DateTimeError>)
    requires
        s@ == text@,
        i <= s@.len(),
    ensures
        match r {
            Ok((e, p)) => time_rule(s@, i as int) == Some((e as int, p@)) && e <= s@.len(),
            Err(err) => time_rule(s@, i as int) is None && (if time_part_end(s@, i as int) is None {
                err == DateTimeError::NoMatch(i)
            } else {
                err == DateTimeError::NotTimePart
            }),
        },
{
    let (a, hour) = match time_part(s, i) {
        Ok(r) => r,
        Err(err) => return Err(err),
    };
    let mut parts: Vec<DateTimePart> = Vec::new();
    push_part(&mut parts, DateTimePart::Hour);
    let b = match separator(text, s, a) {
        Ok((e, p)) => {
            push_part(&mut parts, p);
            e
        },
        Err(_) => a,
    };
    let c = match time_part(s, b) {
        Ok((e, _)) => {
            push_part(&mut parts, DateTimePart::Minute);
            e
        },
        Err(_) => b,
    };
    let d = match separator(text, s, c) {
        Ok((e, p)) => {
            push_part(&mut parts, p);
            e
        },
        Err(_) => c,
    };
    let e = match time_part(s, d) {
        Ok((e, _)) => {
            push_part(&mut parts, DateTimePart::Second);
            e
        },
        Err(_) => d,
    };
    let f = match timezone(s, e) {
        Ok(f) => {
            push_part(&mut parts, DateTimePart::Timezone);
            f
        },
        Err(_) => e,
    };
    if hour > 24 {
        return Err(DateTimeError::NotTimePart);
    }
    proof {
        let (b1, p1) = opt_separator(s@, a as int);
        let (c1, p2) = opt_token(time_part_end(s@, b as int), b as int, Component::Minute);
        let (d1, p3) = opt_separator(s@, c as int);
        let (e1, p4) = opt_token(time_part_end(s@, d as int), d as int, Component::Second);
        let (f1, p5) = opt_token(timezone_end(s@, e as int), e as int, Component::Timezone);
        assert(b1 == b && c1 == c && d1 == d && e1 == e && f1 == f);
        assert(views(parts@) =~= seq![Component::Hour] + p1 + p2 + p3 + p4 + p5);
    }
    Ok((f, Pattern::from_parts(parts)))
}

/// Infers the pattern of a whole sample: the date rule from the start, a separator
/// (empty when there is none), then the time rule, whose failure leaves the time out.
/// Returns the text that was not consumed and the pattern; fails when no year starts
/// the sample.
pub fn parse_sample_date(input: &str) -> (r: Result<(&str, Pattern), DateTimeError>)
    ensures
        match r {
            Ok((rest, p)) => sample_rule(input@) matches Some((e, q)) && rest@ == input@.subrange(
                e,
                input@.len() as int,
            ) && p@ == q,
            Err(err) => sample_rule(input@) is None && err == DateTimeError::NoMatch(0),
        },
{
    let chars = chars_of(input);
    let s = chars.as_slice();
    let (a, date) = match parse_date(input, s, 0) {
        Ok(r) => r,
        Err(err) => return Err(err),
    };
    let (b, sep) = match separator(input, s, a) {
        Ok(r) => r,
        Err(_) => (a, DateTimePart::Separator(String::new())),
    };
    let (c, time) = match parse_time(input, s, b) {
        Ok(r) => r,
        Err(_) => (a, Pattern::new()),
    };
    let mut parts = date.parts;
    push_part(&mut parts, sep);
    let mut tail = time.parts;
    let ghost head = views(parts@);
    let ghost moved = tail@;
    parts.append(&mut tail);
    proof {
        assert(views(parts@) =~= head + views(moved));
    }
    let rest = input.substring_char(c, s.len());
    Ok((rest, Pattern::from_parts(parts)))
}

} // verus!
