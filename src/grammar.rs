use vstd::prelude::*;

verus! {

/// One recognised token of a format pattern, as a mathematical value.
pub enum Component {
    Year,
    Month,
    Day,
    Hour,
    Minute,
    Second,
    Timezone,
    Separator(Seq<char>),
}

impl Component {
    /// The text that the token contributes to a format string.
    pub open spec fn text(self) -> Seq<char> {
        match self {
            Component::Year => seq!['%', 'Y'],
            Component::Month => seq!['%', 'm'],
            Component::Day => seq!['%', 'd'],
            Component::Hour => seq!['%', 'H'],
            Component::Minute => seq!['%', 'M'],
            Component::Second => seq!['%', 'S'],
            Component::Timezone => seq!['%', 'z'],
            Component::Separator(t) => t,
        }
    }
}

/// The format string of a sequence of tokens: their texts, concatenated in order.
pub open spec fn render(parts: Seq<Component>) -> Seq<char>
    decreases parts.len(),
{
    if parts.len() == 0 {
        Seq::empty()
    } else {
        render(parts.drop_last()) + parts.last().text()
    }
}

/// Whether `c` is one of the ASCII decimal digits.
pub open spec fn is_digit(c: char) -> bool {
    '0' <= c && c <= '9'
}

/// The value of the decimal digit `c`.
pub open spec fn digit_value(c: char) -> int {
    (c as u32) - ('0' as u32)
}

/// Whether `s` holds `n` digits starting at position `i`.
pub open spec fn digits_at(s: Seq<char>, i: int, n: int) -> bool {
    &&& 0 <= i
    &&& i + n <= s.len()
    &&& forall|k: int| i <= k < i + n ==> is_digit(#[trigger] s[k])
}

/// How many digits, at most two, stand at position `i` of `s`.
pub open spec fn short_run(s: Seq<char>, i: int) -> int {
    if digits_at(s, i, 2) {
        2
    } else if digits_at(s, i, 1) {
        1
    } else {
        0
    }
}

/// The value of the numeral of one or two digits at position `i` of `s`.
pub open spec fn short_value(s: Seq<char>, i: int, n: int) -> int {
    if n == 1 {
        digit_value(s[i])
    } else {
        10 * digit_value(s[i]) + digit_value(s[i + 1])
    }
}

/// Where a year (exactly four digits) that starts at `i` ends.
pub open spec fn year_end(s: Seq<char>, i: int) -> Option<int> {
    if digits_at(s, i, 4) {
        Some(i + 4)
    } else {
        None
    }
}

/// Where a numeral of one or two digits at `i`, whose value is below `bound`, ends.
pub open spec fn bounded_end(s: Seq<char>, i: int, bound: int) -> Option<int> {
    let n = short_run(s, i);
    if n >= 1 && short_value(s, i, n) < bound {
        Some(i + n)
    } else {
        None
    }
}

/// Where a month (one or two digits, value at most 12) that starts at `i` ends.
pub open spec fn month_end(s: Seq<char>, i: int) -> Option<int> {
    bounded_end(s, i, 13)
}

/// Where a day (one or two digits, value at most 31) that starts at `i` ends.
pub open spec fn day_end(s: Seq<char>, i: int) -> Option<int> {
    bounded_end(s, i, 32)
}

/// Where a time part (exactly two digits) that starts at `i` ends.
pub open spec fn time_part_end(s: Seq<char>, i: int) -> Option<int> {
    if digits_at(s, i, 2) {
        Some(i + 2)
    } else {
        None
    }
}

/// Where an offset of the shape `+dd:dd` that starts at `i` ends.
pub open spec fn timezone_end(s: Seq<char>, i: int) -> Option<int> {
    if 0 <= i && i + 6 <= s.len() && s[i] == '+' && digits_at(s, i + 1, 2) && s[i + 3] == ':'
        && digits_at(s, i + 4, 2) {
        Some(i + 6)
    } else {
        None
    }
}

/// The end of the longest run of non-digits that starts at `i`.
pub open spec fn non_digit_end(s: Seq<char>, i: int) -> int
    decreases s.len() - i,
{
    if 0 <= i < s.len() && !is_digit(s[i]) {
        non_digit_end(s, i + 1)
    } else {
        i
    }
}

/// Where a separator (a run of one or more non-digits, taken whole) that starts at `i` ends.
pub open spec fn separator_end(s: Seq<char>, i: int) -> Option<int> {
    if non_digit_end(s, i) > i {
        Some(non_digit_end(s, i))
    } else {
        None
    }
}

/// An optional separator at `i`: the position after it and the tokens it gives.
pub open spec fn opt_separator(s: Seq<char>, i: int) -> (int, Seq<Component>) {
    match separator_end(s, i) {
        Some(e) => (e, seq![Component::Separator(s.subrange(i, e))]),
        None => (i, Seq::empty()),
    }
}

/// An optional token `c` at `i` that a recognizer found to end at `end`, if at all.
pub open spec fn opt_token(end: Option<int>, i: int, c: Component) -> (int, Seq<Component>) {
    match end {
        Some(e) => (e, seq![c]),
        None => (i, Seq::empty()),
    }
}

/// The date rule at `i`: a year, then optionally a separator, a month, a separator and a day.
/// Gives the position after the date and its tokens; fails only without a year.
pub open spec fn date_rule(s: Seq<char>, i: int) -> Option<(int, Seq<Component>)> {
    match year_end(s, i) {
        None => None,
        Some(a) => {
            let (b, p1) = opt_separator(s, a);
            let (c, p2) = opt_token(month_end(s, b), b, Component::Month);
            let (d, p3) = opt_separator(s, c);
            let (e, p4) = opt_token(day_end(s, d), d, Component::Day);
            Some((e, seq![Component::Year] + p1 + p2 + p3 + p4))
        },
    }
}

/// The time rule at `i`: an hour of two digits and value at most 24, then optionally a
/// separator, a minute, a separator, a second and an offset.
pub open spec fn time_rule(s: Seq<char>, i: int) -> Option<(int, Seq<Component>)> {
    match time_part_end(s, i) {
        None => None,
        Some(a) => {
            let (b, p1) = opt_separator(s, a);
            let (c, p2) = opt_token(time_part_end(s, b), b, Component::Minute);
            let (d, p3) = opt_separator(s, c);
            let (e, p4) = opt_token(time_part_end(s, d), d, Component::Second);
            let (f, p5) = opt_token(timezone_end(s, e), e, Component::Timezone);
            if short_value(s, i, 2) > 24 {
                None
            } else {
                Some((f, seq![Component::Hour] + p1 + p2 + p3 + p4 + p5))
            }
        },
    }
}

/// A whole sample: the date rule from the start, a separator (empty when there is none),
/// then the time rule. When the time rule fails its tokens are left out and the position
/// is the one after the date. Gives the position where the scan stopped and all tokens.
pub open spec fn sample_rule(s: Seq<char>) -> Option<(int, Seq<Component>)> {
    match date_rule(s, 0) {
        None => None,
        Some((a, date)) => {
            let (b, sep) = match separator_end(s, a) {
                Some(e) => (e, Component::Separator(s.subrange(a, e))),
                None => (a, Component::Separator(Seq::empty())),
            };
            let (c, time) = match time_rule(s, b) {
                Some((e, t)) => (e, t),
                None => (a, Seq::empty()),
            };
            Some((c, date + seq![sep] + time))
        },
    }
}

/// The format string inferred for a sample, if any.
pub open spec fn inferred(s: Seq<char>) -> Option<Seq<char>> {
    match sample_rule(s) {
        Some((_, parts)) => Some(render(parts)),
        None => None,
    }
}

} // verus!
