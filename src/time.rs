use vstd::prelude::*;
use vstd::utf8::decode_utf8;
use crate::text::{
    all_ascii, append_bytes, lemma_ascii_valid_utf8, lemma_decimal_ascii, string_from_valid_utf8,
    zero_padded, zero_padded_bytes,
};

verus! {

/// Days from 0000-01-01 to 1970-01-01 in the proleptic Gregorian calendar.
pub const EPOCH_DAY_NUMBER: i64 = 719528;

pub open spec fn is_leap(y: int) -> bool {
    (y % 4 == 0 && y % 100 != 0) || y % 400 == 0
}

pub open spec fn year_len(y: int) -> int {
    if is_leap(y) {
        366
    } else {
        365
    }
}

/// Leap years in `[0, y)`.
pub open spec fn leaps_before(y: int) -> int {
    (y + 3) / 4 - (y + 99) / 100 + (y + 399) / 400
}

/// Days from 0000-01-01 to the first day of year `y`.
pub open spec fn days_before_year(y: int) -> int {
    365 * y + leaps_before(y)
}

pub open spec fn month_len(y: int, m: int) -> int {
    if m == 2 {
        if is_leap(y) {
            29
        } else {
            28
        }
    } else if m == 4 || m == 6 || m == 9 || m == 11 {
        30
    } else {
        31
    }
}

/// Days of year `y` before the first of month `m`.
pub open spec fn days_before_month(y: int, m: int) -> int
    decreases m,
{
    if m <= 1 {
        0
    } else {
        days_before_month(y, m - 1) + month_len(y, m - 1)
    }
}

/// `(y, m, d)` is the calendar date of day `n`, counted from 1970-01-01.
pub open spec fn is_date_of(n: int, y: int, m: int, d: int) -> bool {
    &&& y >= 0
    &&& 1 <= m <= 12
    &&& 1 <= d <= month_len(y, m)
    &&& days_before_year(y) + days_before_month(y, m) + d - 1 == n + 719528
}

/// `YYYY-MM-DDTHH:MM:SSZ`.
pub open spec fn rfc3339(y: int, m: int, d: int, hh: int, mm: int, ss: int) -> Seq<u8> {
    zero_padded(y as nat, 4) + seq![45u8] + zero_padded(m as nat, 2) + seq![45u8] + zero_padded(d as nat, 2)
        + seq![84u8] + zero_padded(hh as nat, 2) + seq![58u8] + zero_padded(mm as nat, 2) + seq![58u8]
        + zero_padded(ss as nat, 2) + seq![90u8]
}

proof fn lemma_next_year(y: int)
    requires
        y >= 0,
    ensures
        days_before_year(y + 1) == days_before_year(y) + year_len(y),
{
    assert(leaps_before(y + 1) == leaps_before(y) + if is_leap(y) { 1int } else { 0int }) by (nonlinear_arith)
        requires
            y >= 0,
    ;
}

proof fn lemma_cycle(y: int)
    requires
        y >= 0,
    ensures
        days_before_year(y + 400) == days_before_year(y) + 146097,
{
    assert(leaps_before(y + 400) == leaps_before(y) + 97) by (nonlinear_arith)
        requires
            y >= 0,
    ;
}

proof fn lemma_cycles(c: int)
    requires
        c >= 0,
    ensures
        days_before_year(400 * c) == 146097 * c,
    decreases c,
{
    if c > 0 {
        lemma_cycles(c - 1);
        lemma_cycle(400 * (c - 1));
    }
}

fn leap(y: i64) -> (r: bool)
    requires
        y >= 0,
    ensures
        r == is_leap(y as int),
{
    (y % 4 == 0 && y % 100 != 0) || y % 400 == 0
}

fn year_length(y: i64) -> (r: i64)
    requires
        y >= 0,
    ensures
        r == year_len(y as int),
{
    if leap(y) {
        366
    } else {
        365
    }
}

fn month_length(y: i64, m: i64) -> (r: i64)
    requires
        y >= 0,
    ensures
        r == month_len(y as int, m as int),
{
    if m == 2 {
        if leap(y) {
            29
        } else {
            28
        }
    } else if m == 4 || m == 6 || m == 9 || m == 11 {
        30
    } else {
        31
    }
}

proof fn lemma_year_in_months(y: int)
    ensures
        days_before_month(y, 13) == year_len(y),
{
    reveal_with_fuel(days_before_month, 13);
}

/// The calendar date of day `days` (counted from 1970-01-01).
pub fn civil_from_days(days: i64) -> (r: (i64, i64, i64))
    requires
        days >= 0,
        days <= 106751991167300,
    ensures
        is_date_of(days as int, r.0 as int, r.1 as int, r.2 as int),
        r.0 <= 300000000000,
{
    let n: i64 = days + EPOCH_DAY_NUMBER;
    let c: i64 = n / 146097;
    let mut y: i64 = 400 * c;
    let mut rem: i64 = n - 146097 * c;
    proof {
        lemma_cycles(c as int);
    }
    while rem >= year_length(y)
        invariant
            0 <= y <= 400 * c + 400,
            c == n / 146097,
            0 <= n,
            rem == n - days_before_year(y as int),
            0 <= rem,
            n == days + 719528,
            days <= 106751991167300,
        decreases rem,
    {
        proof {
            lemma_next_year(y as int);
            if y >= 400 * c + 400 {
                lemma_cycle(400 * c);
                assert(days_before_year(400 * c + 400) == 146097 * c + 146097);
                assert(n - 146097 * c < 146097) by (nonlinear_arith)
                    requires
                        c == n / 146097,
                        n >= 0,
                ;
            }
        }
        rem = rem - year_length(y);
        y = y + 1;
    }
    let mut m: i64 = 1;
    proof {
        lemma_year_in_months(y as int);
    }
    while rem >= month_length(y, m)
        invariant
            y >= 0,
            1 <= m <= 12,
            0 <= rem,
            rem + days_before_month(y as int, m as int) < year_len(y as int),
            days_before_year(y as int) + days_before_month(y as int, m as int) + rem == n,
            days_before_month(y as int, 13) == year_len(y as int),
        decreases 12 - m,
    {
        if m == 12 {
            assert(days_before_month(y as int, 13) == days_before_month(y as int, 12) + month_len(y as int, 12));
            assert(false);
        }
        rem = rem - month_length(y, m);
        m = m + 1;
    }
    (y, m, rem + 1)
}

/// A point in time, in whole seconds since the Unix epoch.
#[derive(Debug, Clone, Copy, PartialEq, Eq, Structural)]
pub struct UtcTime {
    pub timestamp: i64,
}

/// Relies on `std::time::SystemTime::now` and `duration_since(UNIX_EPOCH)`:
/// seconds since the epoch (0 for a clock set before it).
#[verifier::external_body]
fn unix_seconds_now() -> (r: u64) {
    match std::time::SystemTime::now().duration_since(std::time::UNIX_EPOCH) {
        Ok(d) => d.as_secs(),
        Err(_) => 0,
    }
}

impl UtcTime {
    /// Formatting covers the instants from the epoch to about year 292 billion.
    pub open spec fn wf(&self) -> bool {
        self.timestamp >= 0
    }

    pub fn now() -> (r: UtcTime)
        ensures
            r.wf(),
    {
        let s = unix_seconds_now();
        let timestamp: i64 = if s > i64::MAX as u64 {
            i64::MAX
        } else {
            s as i64
        };
        UtcTime { timestamp }
    }

    pub fn to_rfc3339(&self) -> (r: String)
        requires
            self.wf(),
        ensures
            exists|y: int, m: int, d: int|
                #[trigger] is_date_of(self.timestamp as int / 86400, y, m, d) && r@ == decode_utf8(
                    rfc3339(
                        y,
                        m,
                        d,
                        (self.timestamp as int % 86400) / 3600,
                        (self.timestamp as int % 3600) / 60,
                        self.timestamp as int % 60,
                    ),
                ),
    {
        format_rfc3339(self.timestamp)
    }

    /// Seconds from `other` to `self`.
    pub fn signed_duration_since(&self, other: UtcTime) -> (r: i64)
        requires
            self.wf(),
            other.wf(),
        ensures
            r == self.timestamp - other.timestamp,
    {
        self.timestamp - other.timestamp
    }
}

pub fn utc_now_rfc3339() -> (r: String) {
    UtcTime::now().to_rfc3339()
}

/// Formats a non-negative Unix timestamp as RFC 3339 in UTC.
pub fn format_rfc3339(timestamp: i64) -> (r: String)
    requires
        timestamp >= 0,
    ensures
        exists|y: int, m: int, d: int|
            #[trigger] is_date_of(timestamp as int / 86400, y, m, d) && r@ == decode_utf8(
                rfc3339(y, m, d, (timestamp as int % 86400) / 3600, (timestamp as int % 3600) / 60, timestamp as int % 60),
            ),
{
    let days = timestamp / 86400;
    let secs = timestamp % 86400;
    let (y, m, d) = civil_from_days(days);
    let hh = secs / 3600;
    let mm = (timestamp % 3600) / 60;
    let ss = timestamp % 60;
    let mut out = zero_padded_bytes(y as u64, 4);
    out.push(45);
    append_bytes(&mut out, zero_padded_bytes(m as u64, 2).as_slice());
    out.push(45);
    append_bytes(&mut out, zero_padded_bytes(d as u64, 2).as_slice());
    out.push(84);
    append_bytes(&mut out, zero_padded_bytes(hh as u64, 2).as_slice());
    out.push(58);
    append_bytes(&mut out, zero_padded_bytes(mm as u64, 2).as_slice());
    out.push(58);
    append_bytes(&mut out, zero_padded_bytes(ss as u64, 2).as_slice());
    out.push(90);
    let ghost text = rfc3339(y as int, m as int, d as int, hh as int, mm as int, ss as int);
    assert(out@ =~= text);
    proof {
        lemma_padded_ascii(y as nat, 4);
        lemma_padded_ascii(m as nat, 2);
        lemma_padded_ascii(d as nat, 2);
        lemma_padded_ascii(hh as nat, 2);
        lemma_padded_ascii(mm as nat, 2);
        lemma_padded_ascii(ss as nat, 2);
        assert(all_ascii(text));
        lemma_ascii_valid_utf8(text);
    }
    string_from_valid_utf8(out)
}

proof fn lemma_padded_ascii(n: nat, w: nat)
    ensures
        all_ascii(zero_padded(n, w)),
{
    lemma_decimal_ascii(n);
    let z = zero_padded(n, w);
    let d = crate::text::decimal(n);
    if d.len() < w {
        let pad = Seq::new((w - d.len()) as nat, |i: int| 48u8);
        assert forall|i: int| 0 <= i < z.len() implies #[trigger] z[i] < 128 by {
            if i < pad.len() {
                assert(z[i] == pad[i]);
            } else {
                assert(z[i] == d[i - pad.len()]);
            }
        }
    }
}

} // verus!
