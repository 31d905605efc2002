use vstd::prelude::*;

use crate::grammar::{digit_value, inferred, is_digit, non_digit_end, render, Component};

verus! {

/// Rendering a sequence of tokens followed by another gives the two renderings, one
/// after the other.
pub proof fn lemma_render_concat(a: Seq<Component>, b: Seq<Component>)
    ensures
        render(a + b) == render(a) + render(b),
    decreases b.len(),
{
    if b.len() == 0 {
        assert(a + b =~= a);
        assert(render(b) =~= Seq::<char>::empty());
        assert(render(a) + render(b) =~= render(a));
    } else {
        lemma_render_concat(a, b.drop_last());
        assert((a + b).drop_last() =~= a + b.drop_last());
        assert((a + b).last() == b.last());
        assert(render(a) + render(b.drop_last()) + b.last().text() =~= render(a) + (render(
            b.drop_last(),
        ) + b.last().text()));
    }
}

/// The format string of a sample of exactly four digits is `%Y`.
pub proof fn lemma_four_digits(s: Seq<char>)
    requires
        s.len() == 4,
        forall|k: int| 0 <= k < 4 ==> is_digit(#[trigger] s[k]),
    ensures
        inferred(s) == Some(seq!['%', 'Y']),
{
    assert(non_digit_end(s, 4) == 4);
    let parts = seq![Component::Year, Component::Separator(Seq::empty())];
    assert(render(parts.drop_last().drop_last()) =~= Seq::<char>::empty());
    assert(render(parts.drop_last()) =~= seq!['%', 'Y']);
    assert(render(parts) =~= seq!['%', 'Y']);
    assert(seq![Component::Year] + Seq::<Component>::empty() + Seq::<Component>::empty()
        + Seq::<Component>::empty() + Seq::<Component>::empty() + seq![
        Component::Separator(Seq::empty()),
    ] + Seq::<Component>::empty() =~= parts);
}

/// The format string of a sample `YYYY-MM`, a year, one separator character and a
/// month from 01 to 12, is `%Y`, that separator, then `%m`.
pub proof fn lemma_year_month(s: Seq<char>)
    requires
        s.len() == 7,
        forall|k: int| 0 <= k < 4 ==> is_digit(#[trigger] s[k]),
        !is_digit(s[4]),
        is_digit(s[5]),
        is_digit(s[6]),
        1 <= 10 * digit_value(s[5]) + digit_value(s[6]) <= 12,
    ensures
        inferred(s) == Some(seq!['%', 'Y', s[4], '%', 'm']),
{
    assert(non_digit_end(s, 5) == 5);
    assert(non_digit_end(s, 4) == 5);
    assert(non_digit_end(s, 7) == 7);
    assert(s.subrange(4, 5) =~= seq![s[4]]);
    let parts = seq![
        Component::Year,
        Component::Separator(seq![s[4]]),
        Component::Month,
        Component::Separator(Seq::empty()),
    ];
    reveal_with_fuel(render, 5);
    assert(render(parts) =~= seq!['%', 'Y', s[4], '%', 'm']);
    assert(seq![Component::Year] + seq![Component::Separator(seq![s[4]])] + seq![
        Component::Month,
    ] + Seq::<Component>::empty() + Seq::<Component>::empty() + seq![
        Component::Separator(Seq::empty()),
    ] + Seq::<Component>::empty() =~= parts);
}

/// The format string of a sample `YYYY-MM-DD`, with a month from 01 to 12, a day from
/// 01 to 31 and one separator character before each, is `%Y`, the first separator,
/// `%m`, the second separator, then `%d`.
pub proof fn lemma_year_month_day(s: Seq<char>)
    requires
        s.len() == 10,
        forall|k: int| 0 <= k < 4 ==> is_digit(#[trigger] s[k]),
        !is_digit(s[4]),
        is_digit(s[5]),
        is_digit(s[6]),
        1 <= 10 * digit_value(s[5]) + digit_value(s[6]) <= 12,
        !is_digit(s[7]),
        is_digit(s[8]),
        is_digit(s[9]),
        1 <= 10 * digit_value(s[8]) + digit_value(s[9]) <= 31,
    ensures
        inferred(s) == Some(seq!['%', 'Y', s[4], '%', 'm', s[7], '%', 'd']),
{
    assert(non_digit_end(s, 5) == 5);
    assert(non_digit_end(s, 4) == 5);
    assert(non_digit_end(s, 8) == 8);
    assert(non_digit_end(s, 7) == 8);
    assert(non_digit_end(s, 10) == 10);
    assert(s.subrange(4, 5) =~= seq![s[4]]);
    assert(s.subrange(7, 8) =~= seq![s[7]]);
    let parts = seq![
        Component::Year,
        Component::Separator(seq![s[4]]),
        Component::Month,
        Component::Separator(seq![s[7]]),
        Component::Day,
        Component::Separator(Seq::empty()),
    ];
    reveal_with_fuel(render, 7);
    assert(render(parts) =~= seq!['%', 'Y', s[4], '%', 'm', s[7], '%', 'd']);
    assert(seq![Component::Year] + seq![Component::Separator(seq![s[4]])] + seq![
        Component::Month,
    ] + seq![Component::Separator(seq![s[7]])] + seq![Component::Day] + seq![
        Component::Separator(Seq::empty()),
    ] + Seq::<Component>::empty() =~= parts);
}

} // verus!
