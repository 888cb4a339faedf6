//! What holds of dates and of their texts.
use vstd::prelude::*;
use vstd::string::*;

use crate::dates::{
    date_at, date_on, day_number, days_before_month, in_calendar, lemma_day_number_injective,
    month_len, padded, Date,
};
use crate::store_laws::{law_padded_numbers_are_ordered, ten_to};
use crate::text::{decimal, digits_value};
use crate::text_laws::law_decimal_reads_back;

verus! {

/// Days are counted from 1 January 1970, one for each day: the day after the last of a month is
/// the first of the next, and the day after the last of a year is the first of the next.
pub proof fn law_days_are_counted(d: Date, next: Date)
    requires
        d.wf(),
        next.wf(),
        if d.day < month_len(d.year as int, d.month as int) {
            next == (Date { day: (d.day + 1) as u8, ..d })
        } else if d.month < 12 {
            next.year == d.year && next.month == d.month + 1 && next.day == 1
        } else {
            next.year == d.year + 1 && next.month == 1 && next.day == 1
        },
    ensures
        day_number(next) == day_number(d) + 1,
        day_number(Date { year: 1970, month: 1, day: 1 }) == 0,
{
    reveal_with_fuel(days_before_month, 13);
    let p = d.year as int - 1;
    assert((p + 1) / 4 == p / 4 + (if (p + 1) % 4 == 0 {
        1int
    } else {
        0
    }));
    assert((p + 1) / 100 == p / 100 + (if (p + 1) % 100 == 0 {
        1int
    } else {
        0
    }));
    assert((p + 1) / 400 == p / 400 + (if (p + 1) % 400 == 0 {
        1int
    } else {
        0
    }));
}

/// February has 29 days in every fourth year, but for full centuries that four hundred does not
/// divide; the other months have the same length every year.
pub proof fn law_lengths_of_months(y: int, m: int)
    requires
        1 <= m <= 12,
    ensures
        m == 2 ==> month_len(y, m) == (if y % 400 == 0 || (y % 4 == 0 && y % 100 != 0) {
            29
        } else {
            28int
        }),
        m != 2 ==> month_len(y, m) == (if m == 4 || m == 6 || m == 9 || m == 11 {
            30
        } else {
            31int
        }),
{
}

/// The date of a time is that of the day it falls on, in UTC; a time beyond the calendar has
/// none.
pub proof fn law_date_of_a_time(seconds: i64, d: Date)
    ensures
        in_calendar(seconds) && d.wf() && day_number(d) == seconds as int / 86400 ==> date_at(
            Some(seconds),
        ) == Some(d),
        !in_calendar(seconds) ==> date_at(Some(seconds)) is None,
        date_at(None) is None,
{
    if in_calendar(seconds) && d.wf() && day_number(d) == seconds as int / 86400 {
        let e = date_on(seconds as int / 86400);
        assert(e.wf() && day_number(e) == seconds as int / 86400);
        lemma_day_number_injective(e, d);
    }
}

proof fn lemma_zeros(k: nat, s: Seq<char>)
    requires
        s.len() > 0,
    ensures
        digits_value(Seq::new(k, |i: int| '0') + s) == digits_value(s),
    decreases s.len(),
{
    let z = Seq::new(k, |i: int| '0');
    assert((z + s).drop_last() =~= z + s.drop_last());
    assert((z + s).last() == s.last());
    if s.len() == 1 {
        assert(s.drop_last() =~= Seq::<char>::empty());
        assert(z + s.drop_last() =~= z);
        lemma_all_zeros(k);
    } else {
        lemma_zeros(k, s.drop_last());
    }
}

proof fn lemma_all_zeros(k: nat)
    ensures
        digits_value(Seq::new(k, |i: int| '0')) == Some(0nat),
    decreases k,
{
    let z = Seq::new(k, |i: int| '0');
    if k > 0 {
        lemma_all_zeros((k - 1) as nat);
        assert(z.drop_last() =~= Seq::new((k - 1) as nat, |i: int| '0'));
    }
}

/// A padded number reads back as the number, and is at least as long as it is to be.
pub proof fn law_padded_reads_back(n: nat, width: nat)
    ensures
        digits_value(padded(n, width)) == Some(n),
        padded(n, width).len() >= width,
{
    law_decimal_reads_back(n);
    let d = decimal(n);
    if d.len() < width {
        lemma_zeros((width - d.len()) as nat, d);
    }
}

/// The text of a date has its year, its month and its day as numbers, in this order, with a
/// hyphen between them and in four, two and two digits.
pub proof fn law_text_of_a_date(d: Date)
    requires
        d.wf(),
        d.year >= 0,
    ensures
        ({
            let t = d.text();
            &&& t.len() == 10
            &&& digits_value(t.subrange(0, 4)) == Some(d.year as nat)
            &&& t[4] == '-' && t[7] == '-'
            &&& digits_value(t.subrange(5, 7)) == Some(d.month as nat)
            &&& digits_value(t.subrange(8, 10)) == Some(d.day as nat)
        }),
{
    reveal_strlit("-");
    reveal_with_fuel(ten_to, 6);
    let y = padded(d.year as nat, 4);
    let m = padded(d.month as nat, 2);
    let k = padded(d.day as nat, 2);
    law_padded_reads_back(d.year as nat, 4);
    law_padded_reads_back(d.month as nat, 2);
    law_padded_reads_back(d.day as nat, 2);
    lemma_padded_len(d.year as nat, 4);
    lemma_padded_len(d.month as nat, 2);
    lemma_padded_len(d.day as nat, 2);
    let t = d.text();
    assert(t.subrange(0, 4) =~= y);
    assert(t.subrange(5, 7) =~= m);
    assert(t.subrange(8, 10) =~= k);
}

proof fn lemma_padded_len(n: nat, w: nat)
    requires
        w >= 1,
        n < ten_to(w),
    ensures
        padded(n, w).len() == w,
{
    reveal_with_fuel(ten_to, 2);
    if n + 1 < ten_to(w) {
        law_padded_numbers_are_ordered(n, n + 1, w);
    } else {
        assert(n > 0) by {
            assert(ten_to(w) == 10 * ten_to((w - 1) as nat));
            lemma_ten_to_positive((w - 1) as nat);
        }
        law_padded_numbers_are_ordered((n - 1) as nat, n, w);
    }
}

proof fn lemma_ten_to_positive(w: nat)
    ensures
        ten_to(w) >= 1,
    decreases w,
{
    if w > 0 {
        lemma_ten_to_positive((w - 1) as nat);
    }
}

} // verus!
