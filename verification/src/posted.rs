//! The moment an article was posted: a calendar date and a time of day,
//! without time zone, as chrono's `NaiveDateTime` holds it.
use chrono::Datelike;
use chrono::Timelike;
use crate::text::decimal;
use vstd::prelude::*;

verus! {

/// The earliest year that chrono's `NaiveDate` can hold.
pub open spec fn min_year() -> int {
    -262143
}

/// The latest year that chrono's `NaiveDate` can hold.
pub open spec fn max_year() -> int {
    262142
}

/// Leap years of the proleptic Gregorian calendar.
pub open spec fn is_leap_year(y: int) -> bool {
    (y % 4 == 0 && y % 100 != 0) || y % 400 == 0
}

/// The number of days of month `m` (1 to 12) in year `y`.
pub open spec fn days_in_month(y: int, m: int) -> int {
    if m == 2 {
        if is_leap_year(y) {
            29
        } else {
            28
        }
    } else if m == 4 || m == 6 || m == 9 || m == 11 {
        30
    } else {
        31
    }
}

/// A date and time: `nanosecond` goes past one second only to stand for a
/// leap second, which chrono allows at second 59 of a minute.
#[derive(Clone, Copy, Debug, PartialEq, Eq, Structural)]
pub struct Posted {
    pub year: i32,
    pub month: u32,
    pub day: u32,
    pub hour: u32,
    pub minute: u32,
    pub second: u32,
    pub nanosecond: u32,
}

impl Posted {
    /// The values that chrono's `NaiveDate::from_ymd_opt` and
    /// `NaiveDate::and_hms_nano_opt` accept, which are those that a
    /// `NaiveDateTime` can hold.
    pub open spec fn wf(self) -> bool {
        &&& min_year() <= self.year <= max_year()
        &&& 1 <= self.month <= 12
        &&& 1 <= self.day <= days_in_month(self.year as int, self.month as int)
        &&& self.hour < 24
        &&& self.minute < 60
        &&& self.second < 60
        &&& self.nanosecond < 2_000_000_000
        &&& self.nanosecond >= 1_000_000_000 ==> self.second == 59
    }

    /// The date and time with the given parts, if they form one.
    pub fn new(
        year: i32,
        month: u32,
        day: u32,
        hour: u32,
        minute: u32,
        second: u32,
        nanosecond: u32,
    ) -> (r: Option<Posted>)
        ensures
            r matches Some(p) ==> p.wf(),
            r matches Some(p) ==> p == (Posted { year, month, day, hour, minute, second, nanosecond }),
            r is None ==> !(Posted { year, month, day, hour, minute, second, nanosecond }).wf(),
    {
        let p = Posted { year, month, day, hour, minute, second, nanosecond };
        if year < -262143 || year > 262142 || month < 1 || month > 12 || day < 1 {
            return None;
        }
        let shifted: u64 = (year as i64 + 400_000_000i64) as u64;
        proof {
            let y = year as int;
            assert((y + 400_000_000) % 4 == y % 4) by {
                vstd::arithmetic::div_mod::lemma_mod_add_multiples_vanish(y, 4);
                vstd::arithmetic::div_mod::lemma_mod_multiples_vanish(100_000_000, y, 4);
            }
            assert((y + 400_000_000) % 100 == y % 100) by {
                vstd::arithmetic::div_mod::lemma_mod_multiples_vanish(4_000_000, y, 100);
            }
            assert((y + 400_000_000) % 400 == y % 400) by {
                vstd::arithmetic::div_mod::lemma_mod_multiples_vanish(1_000_000, y, 400);
            }
        }
        let leap = (shifted % 4 == 0 && shifted % 100 != 0) || shifted % 400 == 0;
        assert(leap == is_leap_year(year as int));
        let days: u32 = if month == 2 {
            if leap {
                29
            } else {
                28
            }
        } else if month == 4 || month == 6 || month == 9 || month == 11 {
            30
        } else {
            31
        };
        if day > days || hour >= 24 || minute >= 60 || second >= 60 {
            return None;
        }
        if nanosecond >= 2_000_000_000 || (nanosecond >= 1_000_000_000 && second != 59) {
            return None;
        }
        Some(p)
    }
}

/// The decimal notation of `n`, with zeros in front up to `width` digits.
pub open spec fn zero_padded(n: nat, width: nat) -> Seq<char> {
    let d = decimal(n);
    if d.len() < width {
        Seq::new((width - d.len()) as nat, |i: int| '0') + d
    } else {
        d
    }
}

/// A year as chrono writes it: four digits for the years 0 to 9999, and
/// otherwise a sign followed by at least four digits.
pub open spec fn year_text(y: int) -> Seq<char> {
    if 0 <= y <= 9999 {
        zero_padded(y as nat, 4)
    } else if y < 0 {
        seq!['-'] + zero_padded((-y) as nat, 4)
    } else {
        seq!['+'] + zero_padded(y as nat, 4)
    }
}

/// The fraction of a second as chrono writes it: nothing for a whole
/// second, else a point and three, six or nine digits, the fewest of these
/// that hold every non-zero digit.
pub open spec fn fraction_text(nano: nat) -> Seq<char> {
    if nano == 0 {
        Seq::<char>::empty()
    } else if nano % 1_000_000 == 0 {
        seq!['.'] + zero_padded(nano / 1_000_000, 3)
    } else if nano % 1_000 == 0 {
        seq!['.'] + zero_padded(nano / 1_000, 6)
    } else {
        seq!['.'] + zero_padded(nano, 9)
    }
}

/// What chrono's `Display` for `NaiveDateTime` writes for the date and time
/// with these parts: `2015-09-18 23:56:04.000123` and the like, with a leap
/// second written as second 60.
pub open spec fn datetime_text(
    year: i32,
    month: u32,
    day: u32,
    hour: u32,
    minute: u32,
    second: u32,
    nanosecond: u32,
) -> Seq<char> {
    let leap = nanosecond >= 1_000_000_000;
    let sec: nat = if leap {
        (second + 1) as nat
    } else {
        second as nat
    };
    let nano: nat = if leap {
        (nanosecond - 1_000_000_000) as nat
    } else {
        nanosecond as nat
    };
    year_text(year as int) + seq!['-'] + zero_padded(month as nat, 2) + seq!['-'] + zero_padded(
        day as nat,
        2,
    ) + seq![' '] + zero_padded(hour as nat, 2) + seq![':'] + zero_padded(minute as nat, 2)
        + seq![':'] + zero_padded(sec, 2) + fraction_text(nano)
}

/// The text of `p` as chrono writes it.
pub open spec fn posted_text(p: Posted) -> Seq<char> {
    datetime_text(p.year, p.month, p.day, p.hour, p.minute, p.second, p.nanosecond)
}

/// `NaiveDate::from_ymd_opt`, `NaiveDate::and_hms_nano_opt` and the
/// `Display` of `NaiveDateTime` from chrono. Claimed: both constructors
/// succeed on a well-formed `p` (chrono's source returns `None` only for
/// the values that `wf` excludes), and the text is `datetime_text` of the
/// parts, which is what the `Debug` of `NaiveDate` and `NaiveTime`, to which
/// their `Display` defers, write.
#[verifier::external_body]
pub(crate) fn posted_to_text(p: &Posted) -> (r: String)
    requires
        p.wf(),
    ensures
        r@ == datetime_text(p.year, p.month, p.day, p.hour, p.minute, p.second, p.nanosecond),
{
    chrono::NaiveDate::from_ymd_opt(p.year, p.month, p.day).unwrap().and_hms_nano_opt(
        p.hour,
        p.minute,
        p.second,
        p.nanosecond,
    ).unwrap().to_string()
}

/// `Local::now().naive_local()` from chrono, taken apart with the getters of
/// `Datelike` and `Timelike`. Claimed: the parts form a valid date and time,
/// as every `NaiveDateTime` does; which moment it is depends on the clock
/// and is left unsaid.
#[verifier::external_body]
pub(crate) fn local_now() -> (p: Posted)
    ensures
        p.wf(),
{
    let now = chrono::Local::now().naive_local();
    Posted {
        year: now.year(),
        month: now.month(),
        day: now.day(),
        hour: now.hour(),
        minute: now.minute(),
        second: now.second(),
        nanosecond: now.nanosecond(),
    }
}

} // verus!
