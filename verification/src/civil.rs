//! Calendar arithmetic: days since the Unix epoch to and from proleptic
//! Gregorian dates, and the `YYYY-MM-DD HH:MM:SS` UTC timestamps stored rows
//! carry.

use vstd::prelude::*;
use crate::text::{append_chars, append_str, dec_seq, decimal_padded, pad_zeros_seq, string_from_chars};

verus! {

/// `y` is a leap year of the Gregorian calendar.
pub open spec fn is_leap(y: int) -> bool {
    y % 4 == 0 && (y % 100 != 0 || y % 400 == 0)
}

/// Number of days in month `m` of year `y`.
pub open spec fn days_in_month(y: int, m: int) -> int {
    if m == 2 {
        if is_leap(y) {
            29
        } else {
            28
        }
    } else if m == 4 || m == 6 || m == 9 || m == 11 {
        30
    } else {
        31
    }
}

/// `(y, m, d)` is a date of the Gregorian calendar.
pub open spec fn is_valid_date(y: int, m: int, d: int) -> bool {
    1 <= m <= 12 && 1 <= d <= days_in_month(y, m)
}

/// Days from 1970-01-01 to the date `(y, m, d)` (negative before it), counting
/// in 400-year eras of 146097 days whose years start on 1 March.
pub open spec fn days_from_civil(y: int, m: int, d: int) -> int {
    let yy = if m <= 2 {
        y - 1
    } else {
        y
    };
    let era = yy / 400;
    let yoe = yy - era * 400;
    let mp = if m > 2 {
        m - 3
    } else {
        m + 9
    };
    let doy = (153 * mp + 2) / 5 + d - 1;
    let doe = yoe * 365 + yoe / 4 - yoe / 100 + doy;
    era * 146097 + doe - 719468
}

proof fn lemma_year_of_era(doe: int)
    by (nonlinear_arith)
    requires
        0 <= doe <= 146096,
    ensures
        ({
            let yoe = (doe - doe / 1460 + doe / 36524 - doe / 146096) / 365;
            let doy = doe - (365 * yoe + yoe / 4 - yoe / 100);
            &&& 0 <= yoe <= 399
            &&& 0 <= doy <= 365
            &&& doy == 365 ==> (yoe + 1) % 4 == 0 && ((yoe + 1) % 100 != 0 || (yoe + 1) % 400 == 0)
        }),
{
}

} // verus!

verus! {

proof fn lemma_month_day(doy: int)
    by (nonlinear_arith)
    requires
        0 <= doy <= 365,
    ensures
        ({
            let mp = (5 * doy + 2) / 153;
            let d = doy - (153 * mp + 2) / 5 + 1;
            &&& 0 <= mp <= 11
            &&& 1 <= d
            &&& (153 * mp + 2) / 5 + d - 1 == doy
            &&& (mp == 1 || mp == 3 || mp == 6 || mp == 8) ==> d <= 30
            &&& (mp == 11) ==> (d <= 28 || (d == 29 && doy == 365))
            &&& d <= 31
        }),
{
}

proof fn lemma_era_mod(era: int, k: int)
    by (nonlinear_arith)
    ensures
        (era * 400 + k) % 4 == k % 4,
        (era * 400 + k) % 100 == k % 100,
        (era * 400 + k) % 400 == k % 400,
{
}

proof fn lemma_era_div(era: int, yoe: int)
    by (nonlinear_arith)
    requires
        0 <= yoe < 400,
    ensures
        (era * 400 + yoe) / 400 == era,
{
}

/// The civil date of day `days` since 1970-01-01.
closed spec fn civil_from_days(days: int) -> (int, int, int) {
    let z = days + 719468;
    let era = z / 146097;
    let doe = z - era * 146097;
    let yoe = (doe - doe / 1460 + doe / 36524 - doe / 146096) / 365;
    let doy = doe - (365 * yoe + yoe / 4 - yoe / 100);
    let mp = (5 * doy + 2) / 153;
    let d = doy - (153 * mp + 2) / 5 + 1;
    let m = if mp < 10 {
        mp + 3
    } else {
        mp - 9
    };
    let y = yoe + era * 400;
    (if m <= 2 {
        y + 1
    } else {
        y
    }, m, d)
}

proof fn lemma_civil_from_days(days: int)
    ensures
        is_valid_date(civil_from_days(days).0, civil_from_days(days).1, civil_from_days(days).2),
        days_from_civil(
            civil_from_days(days).0,
            civil_from_days(days).1,
            civil_from_days(days).2,
        ) == days,
        days >= 0 ==> civil_from_days(days).0 >= 0,
{
    let z = days + 719468;
    let era = z / 146097;
    let doe = z - era * 146097;
    assert(0 <= doe <= 146096);
    assert(days >= 0 ==> era >= 0);
    lemma_year_of_era(doe);
    let yoe = (doe - doe / 1460 + doe / 36524 - doe / 146096) / 365;
    let doy = doe - (365 * yoe + yoe / 4 - yoe / 100);
    lemma_month_day(doy);
    let mp = (5 * doy + 2) / 153;
    let d = doy - (153 * mp + 2) / 5 + 1;
    let m = if mp < 10 {
        mp + 3
    } else {
        mp - 9
    };
    let (y, mm, dd) = civil_from_days(days);
    assert(mm == m && dd == d);
    // The year before the March-based shift is `era * 400 + yoe`.
    let yy = if m <= 2 {
        y - 1
    } else {
        y
    };
    assert(yy == era * 400 + yoe);
    lemma_era_div(era, yoe);
    assert(yy / 400 == era);
    assert(yy - (yy / 400) * 400 == yoe);
    let mp2 = if m > 2 {
        m - 3
    } else {
        m + 9
    };
    assert(mp2 == mp);
    // Validity: February 29 only in leap years.
    if mp == 11 && d == 29 {
        assert(doy == 365);
        lemma_era_mod(era, yoe + 1);
        assert(y == era * 400 + yoe + 1);
        assert(is_leap(y));
    }
}

proof fn lemma_year_recovered(yoe: int, doy: int)
    by (nonlinear_arith)
    requires
        0 <= yoe <= 399,
        0 <= doy <= 364 || (doy == 365 && (yoe + 1) % 4 == 0 && ((yoe + 1) % 100 != 0 || (yoe + 1)
            % 400 == 0)),
    ensures
        ({
            let doe = 365 * yoe + yoe / 4 - yoe / 100 + doy;
            &&& (doe - doe / 1460 + doe / 36524 - doe / 146096) / 365 == yoe
            &&& 0 <= doe <= 146096
        }),
{
}

proof fn lemma_month_recovered(mp: int, d: int)
    by (nonlinear_arith)
    requires
        0 <= mp <= 11,
        1 <= d <= 31,
        (mp == 1 || mp == 3 || mp == 6 || mp == 8) ==> d <= 30,
        mp == 11 ==> d <= 29,
    ensures
        ({
            let doy = (153 * mp + 2) / 5 + d - 1;
            &&& (5 * doy + 2) / 153 == mp
            &&& 0 <= doy <= 365
            &&& doy == 365 ==> mp == 11 && d == 29
        }),
{
}

/// A valid date is the civil date of its own day number.
proof fn lemma_civil_round_trip(y: int, m: int, d: int)
    requires
        is_valid_date(y, m, d),
    ensures
        civil_from_days(days_from_civil(y, m, d)) == (y, m, d),
{
    let yy = if m <= 2 {
        y - 1
    } else {
        y
    };
    let era = yy / 400;
    let yoe = yy - era * 400;
    let mp = if m > 2 {
        m - 3
    } else {
        m + 9
    };
    lemma_month_recovered(mp, d);
    let doy = (153 * mp + 2) / 5 + d - 1;
    if doy == 365 {
        assert(m == 2 && d == 29);
        assert(is_leap(y));
        lemma_era_mod(era, yoe + 1);
        assert(y == era * 400 + yoe + 1);
    }
    lemma_year_recovered(yoe, doy);
    let doe = yoe * 365 + yoe / 4 - yoe / 100 + doy;
    let days = days_from_civil(y, m, d);
    assert(days + 719468 == era * 146097 + doe);
    assert((era * 146097 + doe) / 146097 == era) by (nonlinear_arith)
        requires
            0 <= doe <= 146096,
    ;
}

/// Different dates have different day numbers: each day since the epoch
/// names one date, so a timestamp is determined by its second count.
pub proof fn law_days_from_civil_injective(y1: int, m1: int, d1: int, y2: int, m2: int, d2: int)
    requires
        is_valid_date(y1, m1, d1),
        is_valid_date(y2, m2, d2),
        days_from_civil(y1, m1, d1) == days_from_civil(y2, m2, d2),
    ensures
        y1 == y2 && m1 == m2 && d1 == d2,
{
    lemma_civil_round_trip(y1, m1, d1);
    lemma_civil_round_trip(y2, m2, d2);
}

/// The civil date `(year, month, day)` of day `days_since_epoch` counted from
/// 1970-01-01, negative days reaching before it (Howard Hinnant's
/// civil-from-days). Days so late that shifting them to the algorithm's
/// 0000-03-01 epoch overflows are left out.
pub fn days_to_ymd(days_since_epoch: i64) -> (r: (i64, u32, u32))
    requires
        days_since_epoch <= i64::MAX - 719_468,
    ensures
        is_valid_date(r.0 as int, r.1 as int, r.2 as int),
        days_from_civil(r.0 as int, r.1 as int, r.2 as int) == days_since_epoch,
        days_since_epoch >= 0 ==> r.0 >= 0,
{
    let ghost zz: int = days_since_epoch + 719468;
    proof {
        lemma_civil_from_days(days_since_epoch as int);
        lemma_year_of_era(zz - (zz / 146097) * 146097);
        lemma_floor_div(zz);
    }
    let z: i64 = days_since_epoch + 719_468;
    let era: i64 = (if z >= 0 {
        z
    } else {
        z - 146_096
    }) / 146_097;
    assert(era == zz / 146097);
    let doe: u64 = (z - era * 146_097) as u64;
    let yoe: u64 = (doe - doe / 1460 + doe / 36524 - doe / 146_096) / 365;
    let y: i64 = yoe as i64 + era * 400;
    let doy: u64 = doe - (365 * yoe + yoe / 4 - yoe / 100);
    proof {
        lemma_month_day(doy as int);
    }
    let mp: u64 = (5 * doy + 2) / 153;
    let d: u64 = doy - (153 * mp + 2) / 5 + 1;
    let m: u64 = if mp < 10 {
        mp + 3
    } else {
        mp - 9
    };
    let y: i64 = if m <= 2 {
        y + 1
    } else {
        y
    };
    assert((y as int, m as int, d as int) == civil_from_days(days_since_epoch as int));
    (y, m as u32, d as u32)
}

/// Rounding toward zero of `(z - 146096) / 146097` for negative `z` is the
/// floor of `z / 146097`, and the era stays small enough to scale.
proof fn lemma_floor_div(z: int)
    requires
        i64::MIN + 719468 <= z <= i64::MAX,
    ensures
        z < 0 ==> -((-(z - 146096)) / 146097) == z / 146097,
        -63131837319413 <= z / 146097 <= 63131837319416,
{
    if z < 0 {
        let q = z / 146097;
        let r = z - q * 146097;
        assert(0 <= r < 146097);
        let w = -(z - 146096);
        assert(w == 146097 * (-q) - r + 146096);
        assert(w / 146097 == -q) by (nonlinear_arith)
            requires
                w == 146097 * (-q) - r + 146096,
                0 <= r < 146097,
        ;
    }
    assert(-63131837319413 <= z / 146097 <= 63131837319416) by (nonlinear_arith)
        requires
            i64::MIN + 719468 <= z <= i64::MAX,
    ;
}

} // verus!

verus! {

/// `YYYY-MM-DD HH:MM:SS` for the date `(y, m, d)` and the second `t` of
/// that day, each field zero-padded (the year to at least four digits).
pub open spec fn timestamp_view(y: nat, m: nat, d: nat, t: nat) -> Seq<char> {
    pad_zeros_seq(dec_seq(y), 4) + "-"@ + pad_zeros_seq(dec_seq(m), 2) + "-"@ + pad_zeros_seq(
        dec_seq(d),
        2,
    ) + " "@ + pad_zeros_seq(dec_seq(t / 3600), 2) + ":"@ + pad_zeros_seq(dec_seq((t / 60) % 60), 2)
        + ":"@ + pad_zeros_seq(dec_seq(t % 60), 2)
}

/// The UTC time `secs` seconds after the Unix epoch as `YYYY-MM-DD HH:MM:SS`,
/// the form SQLite's `datetime('now')` writes.
pub fn format_utc_datetime(secs: u64) -> (r: String)
    ensures
        exists|y: int, m: int, d: int|
            #![trigger days_from_civil(y, m, d)]
            {
                &&& y >= 0
                &&& is_valid_date(y, m, d)
                &&& days_from_civil(y, m, d) == secs / 86400
                &&& r@ == timestamp_view(y as nat, m as nat, d as nat, (secs % 86400) as nat)
            },
{
    let secs_per_day: u64 = 86_400;
    let days = secs / secs_per_day;
    let secs_in_day = secs % secs_per_day;
    let h = secs_in_day / 3600;
    let m = (secs_in_day / 60) % 60;
    let s = secs_in_day % 60;
    let (y, mo, d) = days_to_ymd(days as i64);
    let mut out = decimal_padded(y as u64, 4);
    append_str(&mut out, "-");
    append_chars(&mut out, &decimal_padded(mo as u64, 2));
    append_str(&mut out, "-");
    append_chars(&mut out, &decimal_padded(d as u64, 2));
    append_str(&mut out, " ");
    append_chars(&mut out, &decimal_padded(h, 2));
    append_str(&mut out, ":");
    append_chars(&mut out, &decimal_padded(m, 2));
    append_str(&mut out, ":");
    append_chars(&mut out, &decimal_padded(s, 2));
    let r = string_from_chars(&out);
    assert(r@ =~= timestamp_view(y as nat, mo as nat, d as nat, secs_in_day as nat));
    assert(days_from_civil(y as int, mo as int, d as int) == secs / 86400);
    r
}

} // verus!

