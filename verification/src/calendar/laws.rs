//! What holds of the calendar: of the days next to a day, of days moved
//! by a number of days, of the week window, and of the order of dates and
//! of their texts.

use crate::calendar::{
    date_le, decimal_digit, digit_char, in_supported_years, is_calendar_date, is_gregorian,
    iso_text, next_day, previous_day, shifted, week_window, window_texts, DateView,
};
use crate::text::{
    agree_on, bytes_le_from, lemma_le_skips_common_prefix, text_between, text_le,
};
use vstd::prelude::*;
use vstd::utf8::{encode_utf8, is_ascii_chars, is_ascii_chars_encode_utf8};

verus! {

/// The day after and the day before a day of the calendar are days of the
/// calendar, and each undoes the other.
pub proof fn lemma_neighbours(d: DateView)
    requires
        is_gregorian(d),
    ensures
        is_gregorian(next_day(d)),
        is_gregorian(previous_day(d)),
        previous_day(next_day(d)) == d,
        next_day(previous_day(d)) == d,
        date_le(d, next_day(d)),
        date_le(previous_day(d), d),
{
}

/// Moving a day of the calendar gives a day of the calendar.
pub proof fn lemma_shifted_is_gregorian(d: DateView, days: int)
    requires
        is_gregorian(d),
    ensures
        is_gregorian(shifted(d, days)),
    decreases
            if days >= 0 {
                days
            } else {
                -days
            },
{
    if days > 0 {
        lemma_shifted_is_gregorian(d, days - 1);
        lemma_neighbours(shifted(d, days - 1));
    } else if days < 0 {
        lemma_shifted_is_gregorian(d, days + 1);
        lemma_neighbours(shifted(d, days + 1));
    }
}

/// One day more is the next day, and one day less the day before.
pub proof fn lemma_shifted_step(d: DateView, days: int)
    requires
        is_gregorian(d),
    ensures
        shifted(d, days + 1) == next_day(shifted(d, days)),
        shifted(d, days - 1) == previous_day(shifted(d, days)),
{
    lemma_shifted_is_gregorian(d, days + 1);
    lemma_shifted_is_gregorian(d, days - 1);
    lemma_neighbours(shifted(d, days + 1));
    lemma_neighbours(shifted(d, days - 1));
}

/// Moving by `a` days and then by `b` days is moving by `a + b` days.
pub proof fn lemma_shifted_adds(d: DateView, a: int, b: int)
    requires
        is_gregorian(d),
    ensures
        shifted(shifted(d, a), b) == shifted(d, a + b),
    decreases
            if b >= 0 {
                b
            } else {
                -b
            },
{
    if b > 0 {
        lemma_shifted_adds(d, a, b - 1);
        lemma_shifted_step(d, a + b - 1);
    } else if b < 0 {
        lemma_shifted_adds(d, a, b + 1);
        lemma_shifted_step(d, a + b + 1);
    }
}

/// The order of days is reflexive and transitive.
pub proof fn lemma_date_le_is_an_order(a: DateView, b: DateView, c: DateView)
    ensures
        date_le(a, a),
        date_le(a, b) && date_le(b, c) ==> date_le(a, c),
        date_le(a, b) || date_le(b, a),
{
}

/// A day moved forward is not earlier, and one moved back is not later.
pub proof fn lemma_shifted_keeps_direction(d: DateView, days: int)
    requires
        is_gregorian(d),
    ensures
        days >= 0 ==> date_le(d, shifted(d, days)),
        days <= 0 ==> date_le(shifted(d, days), d),
    decreases
            if days >= 0 {
                days
            } else {
                -days
            },
{
    if days > 0 {
        lemma_shifted_keeps_direction(d, days - 1);
        lemma_shifted_is_gregorian(d, days - 1);
        lemma_neighbours(shifted(d, days - 1));
    } else if days < 0 {
        lemma_shifted_keeps_direction(d, days + 1);
        lemma_shifted_is_gregorian(d, days + 1);
        lemma_neighbours(shifted(d, days + 1));
    }
}

/// The window around a day reaches six days back and six days forward:
/// its last day is the twelfth after its first, thirteen days in all, and
/// the anchor lies in the middle.
pub proof fn lemma_week_window_is_centred(anchor: DateView)
    requires
        is_gregorian(anchor),
    ensures
        match week_window(anchor) {
            Some((first, last)) => {
                &&& first == shifted(anchor, -6)
                &&& last == shifted(anchor, 6)
                &&& shifted(first, 6) == anchor
                &&& shifted(first, 12) == last
                &&& date_le(first, anchor)
                &&& date_le(anchor, last)
                &&& is_calendar_date(first)
                &&& is_calendar_date(last)
            },
            None => !in_supported_years(shifted(anchor, -6)) || !in_supported_years(
                shifted(anchor, 6),
            ),
        },
{
    lemma_shifted_adds(anchor, -6, 6);
    lemma_shifted_adds(anchor, -6, 12);
    lemma_shifted_keeps_direction(anchor, -6);
    lemma_shifted_keeps_direction(anchor, 6);
    lemma_shifted_is_gregorian(anchor, -6);
    lemma_shifted_is_gregorian(anchor, 6);
}

/// A digit has the code of `'0'` plus its value.
proof fn lemma_digit_code(n: int)
    requires
        0 <= n <= 9,
    ensures
        digit_char(n) as u8 == 48 + n,
        '\0' <= digit_char(n) <= '\u{7f}',
{
}

/// A number below ten thousand is the sum of its four digits, each times
/// its place.
proof fn lemma_places(n: u32)
    by (bit_vector)
    requires
        n <= 9999,
    ensures
        n == 1000 * (n / 1000 % 10) + 100 * (n / 100 % 10) + 10 * (n / 10 % 10) + n / 1 % 10,
        n / 1000 % 10 <= 9,
        n / 100 % 10 <= 9,
        n / 10 % 10 <= 9,
        n / 1 % 10 <= 9,
{
}

/// The four digits of a number below ten thousand are digits, and the
/// number is their sum, each times its place.
proof fn lemma_four_digits(n: int)
    requires
        0 <= n <= 9999,
    ensures
        0 <= n / 1000 % 10 <= 9,
        0 <= n / 100 % 10 <= 9,
        0 <= n / 10 % 10 <= 9,
        0 <= n / 1 % 10 <= 9,
        n == 1000 * (n / 1000 % 10) + 100 * (n / 100 % 10) + 10 * (n / 10 % 10) + n / 1 % 10,
{
    lemma_places(n as u32);
}

/// The text of a date of the years 0 to 9999 has ten characters: digits,
/// with a hyphen in the fifth and in the eighth place.
pub proof fn lemma_iso_text_shape(d: DateView)
    requires
        is_gregorian(d),
        0 <= d.year <= 9999,
    ensures
        iso_text(d).len() == 10,
        is_ascii_chars(iso_text(d)),
        iso_text(d) == seq![
            decimal_digit(d.year, 1000),
            decimal_digit(d.year, 100),
            decimal_digit(d.year, 10),
            decimal_digit(d.year, 1),
            '-',
            decimal_digit(d.month, 10),
            decimal_digit(d.month, 1),
            '-',
            decimal_digit(d.day, 10),
            decimal_digit(d.day, 1),
        ],
{
    let t = seq![
        decimal_digit(d.year, 1000),
        decimal_digit(d.year, 100),
        decimal_digit(d.year, 10),
        decimal_digit(d.year, 1),
        '-',
        decimal_digit(d.month, 10),
        decimal_digit(d.month, 1),
        '-',
        decimal_digit(d.day, 10),
        decimal_digit(d.day, 1),
    ];
    assert(iso_text(d) =~= t);
    lemma_four_digits(d.year);
    lemma_four_digits(d.month);
    lemma_four_digits(d.day);
    lemma_digit_code(d.year / 1000 % 10);
    lemma_digit_code(d.year / 100 % 10);
    lemma_digit_code(d.year / 10 % 10);
    lemma_digit_code(d.year / 1 % 10);
    lemma_digit_code(d.month / 10 % 10);
    lemma_digit_code(d.month / 1 % 10);
    lemma_digit_code(d.day / 10 % 10);
    lemma_digit_code(d.day / 1 % 10);
    assert forall|i: int| 0 <= i < t.len() implies '\0' <= #[trigger] t[i] <= '\u{7f}' by {}
}

/// Two byte sequences that first differ at `at` compare as their bytes there.
proof fn lemma_decided_at(a: Seq<u8>, b: Seq<u8>, at: int)
    requires
        0 <= at < a.len(),
        at < b.len(),
        agree_on(a, b, 0, at),
        a[at] != b[at],
    ensures
        bytes_le_from(a, b, 0) == (a[at] < b[at]),
{
    lemma_le_skips_common_prefix(a, b, 0, at);
}

/// Dates of the years 0 to 9999 come in the same order as their texts.
///
/// Outside those years a text begins with a sign and the two orders part:
/// `+10000-01-06` comes before `9999-12-25`.
pub proof fn lemma_iso_texts_sort_like_dates(a: DateView, b: DateView)
    requires
        is_gregorian(a),
        is_gregorian(b),
        0 <= a.year <= 9999,
        0 <= b.year <= 9999,
    ensures
        text_le(iso_text(a), iso_text(b)) == date_le(a, b),
{
    lemma_iso_text_shape(a);
    lemma_iso_text_shape(b);
    let (ta, tb) = (iso_text(a), iso_text(b));
    is_ascii_chars_encode_utf8(ta);
    is_ascii_chars_encode_utf8(tb);
    let (xa, xb) = (encode_utf8(ta), encode_utf8(tb));
    lemma_four_digits(a.year);
    lemma_four_digits(a.month);
    lemma_four_digits(a.day);
    lemma_four_digits(b.year);
    lemma_four_digits(b.month);
    lemma_four_digits(b.day);
    // The digits of the two texts, place by place; a hyphen stands three
    // below `'0'`.
    let ka = seq![
        a.year / 1000 % 10,
        a.year / 100 % 10,
        a.year / 10 % 10,
        a.year / 1 % 10,
        -3,
        a.month / 10 % 10,
        a.month / 1 % 10,
        -3,
        a.day / 10 % 10,
        a.day / 1 % 10,
    ];
    let kb = seq![
        b.year / 1000 % 10,
        b.year / 100 % 10,
        b.year / 10 % 10,
        b.year / 1 % 10,
        -3,
        b.month / 10 % 10,
        b.month / 1 % 10,
        -3,
        b.day / 10 % 10,
        b.day / 1 % 10,
    ];
    assert forall|i: int| 0 <= i < 10 implies xa[i] == 48 + #[trigger] ka[i] && xb[i] == 48
        + kb[i] by {
        assert(xa[i] == ta[i] as u8);
        assert(xb[i] == tb[i] as u8);
        if i != 4 && i != 7 {
            lemma_digit_code(ka[i]);
            lemma_digit_code(kb[i]);
        }
    }
    if exists|i: int| 0 <= i < 10 && ka[i] != kb[i] {
        let at = choose|at: int|
            0 <= at < 10 && ka[at] != kb[at] && forall|j: int| 0 <= j < at ==> ka[j] == kb[j];
        assert(0 <= at < 10 && ka[at] != kb[at] && forall|j: int| 0 <= j < at ==> ka[j] == kb[j])
            by {
            lemma_first_difference(ka, kb);
        }
        assert(agree_on(xa, xb, 0, at)) by {
            assert forall|j: int| 0 <= j < at implies xa[j] == xb[j] by {
                assert(ka[j] == kb[j]);
            }
        }
        assert(xa[at] == 48 + ka[at] && xb[at] == 48 + kb[at]);
        lemma_decided_at(xa, xb, at);
        assert(ka[0] == kb[0] || at == 0);
        assert(ka[1] == kb[1] || at <= 1);
        assert(ka[2] == kb[2] || at <= 2);
        assert(ka[3] == kb[3] || at <= 3);
        assert(ka[5] == kb[5] || at <= 5);
        assert(ka[6] == kb[6] || at <= 6);
        assert(ka[8] == kb[8] || at <= 8);
    } else {
        assert(agree_on(xa, xb, 0, 10)) by {
            assert forall|j: int| 0 <= j < 10 implies xa[j] == xb[j] by {
                assert(ka[j] == kb[j]);
            }
        }
        lemma_le_skips_common_prefix(xa, xb, 0, 10);
        assert(ka[0] == kb[0] && ka[1] == kb[1] && ka[2] == kb[2] && ka[3] == kb[3]);
        assert(ka[5] == kb[5] && ka[6] == kb[6] && ka[8] == kb[8] && ka[9] == kb[9]);
    }
}

/// Two sequences that differ somewhere have a first place where they differ.
proof fn lemma_first_difference(a: Seq<int>, b: Seq<int>)
    requires
        a.len() == b.len(),
        exists|i: int| 0 <= i < a.len() && a[i] != b[i],
    ensures
        exists|at: int|
            0 <= at < a.len() && a[at] != b[at] && forall|j: int| 0 <= j < at ==> a[j] == b[j],
    decreases a.len(),
{
    let i = choose|i: int| 0 <= i < a.len() && a[i] != b[i];
    if exists|k: int| 0 <= k < i && a[k] != b[k] {
        let k = choose|k: int| 0 <= k < i && a[k] != b[k];
        let (a2, b2) = (a.take(i), b.take(i));
        assert(a2[k] != b2[k]);
        lemma_first_difference(a2, b2);
        let at = choose|at: int|
            0 <= at < a2.len() && a2[at] != b2[at] && forall|j: int|
                0 <= j < at ==> a2[j] == b2[j];
        assert(a[at] != b[at]);
        assert forall|j: int| 0 <= j < at implies a[j] == b[j] by {
            assert(a2[j] == b2[j]);
        }
    } else {
        assert(forall|j: int| 0 <= j < i ==> a[j] == b[j]);
    }
}

/// Where the window around a day lies in the years 0 to 9999, the texts
/// between the texts of its bounds are those of the days between its
/// bounds: a range of texts selects the days of the window.
pub proof fn lemma_window_texts_bound_its_days(anchor: DateView, day: DateView)
    requires
        is_gregorian(anchor),
        is_gregorian(day),
        0 <= day.year <= 9999,
        week_window(anchor) matches Some((first, last)) && 0 <= first.year && last.year <= 9999,
    ensures
        match (week_window(anchor), window_texts(anchor)) {
            (Some((first, last)), Some((start, end))) => text_between(iso_text(day), start, end)
                == (date_le(first, day) && date_le(day, last)),
            _ => false,
        },
{
    lemma_week_window_is_centred(anchor);
    let (first, last) = week_window(anchor)->0;
    lemma_iso_texts_sort_like_dates(first, day);
    lemma_iso_texts_sort_like_dates(day, last);
}

} // verus!
