//! Dates and durations as the manager writes them.

use vstd::prelude::*;
use vstd::string::*;
use crate::text::{decimal, push_char, u64_to_string};

verus! {

/// `n` in decimal, with leading zeros up to `width` digits.
pub open spec fn zero_padded(n: nat, width: nat) -> Seq<char> {
    let d = decimal(n);
    if d.len() >= width {
        d
    } else {
        Seq::new((width - d.len()) as nat, |i: int| '0') + d
    }
}

/// `n` in decimal, with leading zeros up to `width` digits (`{:0width$}`).
pub fn zero_padded_decimal(n: u64, width: usize) -> (r: String)
    ensures
        r@ == zero_padded(n as nat, width as nat),
{
    let d = u64_to_string(n);
    let k = d.as_str().unicode_len();
    let mut out = String::new();
    if k < width {
        let mut i: usize = 0;
        while i < width - k
            invariant
                k < width,
                i <= width - k,
                out@ == Seq::new(i as nat, |j: int| '0'),
            decreases width - k - i,
        {
            push_char(&mut out, '0');
            i = i + 1;
            assert(out@ =~= Seq::new(i as nat, |j: int| '0'));
        }
    }
    out.append(d.as_str());
    proof {
        if k >= width {
            assert(out@ =~= decimal(n as nat));
        }
    }
    out
}

/// A calendar date written `YYYY-MM-DD`.
pub open spec fn date_text(year: nat, month: nat, day: nat) -> Seq<char> {
    zero_padded(year, 4) + "-"@ + zero_padded(month, 2) + "-"@ + zero_padded(day, 2)
}

/// Writes a calendar date `YYYY-MM-DD`.
pub fn format_date(year: u32, month: u32, day: u32) -> (r: String)
    ensures
        r@ == date_text(year as nat, month as nat, day as nat),
{
    let mut out = zero_padded_decimal(year as u64, 4);
    out.append("-");
    let m = zero_padded_decimal(month as u64, 2);
    out.append(m.as_str());
    out.append("-");
    let d = zero_padded_decimal(day as u64, 2);
    out.append(d.as_str());
    out
}

/// The local date of the browser: `js_sys::Date::new_0()` read with
/// `get_full_year`, `get_month` and `get_date`. Trusted: the month is
/// zero-based (below 12) and the day of the month is 1 to 31, as the
/// documentation of those methods says; the date itself is the time's.
#[verifier::external_body]
fn local_date() -> (r: (u32, u32, u32))
    ensures
        r.1 < 12,
        1 <= r.2 <= 31,
{
    let now = js_sys::Date::new_0();
    (now.get_full_year(), now.get_month(), now.get_date())
}

/// The text of a date read with a zero-based month: `YYYY-MM-DD` with the
/// month counted from 1.
pub open spec fn month0_date_text(year: u32, month0: u32, day: u32) -> Seq<char> {
    date_text(year as nat, (month0 + 1) as nat, day as nat)
}

/// A local date as the browser's `Date` reads it, with a zero-based month,
/// written `YYYY-MM-DD` with the month counted from 1.
pub fn local_date_text(year: u32, month0: u32, day: u32) -> (r: String)
    requires
        month0 < 12,
    ensures
        r@ == date_text(year as nat, (month0 + 1) as nat, day as nat),
{
    format_date(year, month0 + 1, day)
}

/// Today's local date, written `YYYY-MM-DD` (see `local_date_text`); which
/// date it is depends on the clock.
pub fn today_string() -> (r: String)
    ensures
        exists|y: u32, m0: u32, d: u32|
            m0 < 12 && 1 <= d <= 31 && r@ == #[trigger] month0_date_text(y, m0, d),
{
    let (year, month0, day) = local_date();
    let r = local_date_text(year, month0, day);
    assert(r@ == month0_date_text(year, month0, day));
    r
}

/// How long a node has been up: days and hours from a day on, hours and
/// minutes from an hour on, minutes below that.
pub open spec fn uptime_text(s: nat) -> Seq<char> {
    let days = s / 86400;
    let hours = (s % 86400) / 3600;
    let minutes = (s % 3600) / 60;
    if days > 0 {
        decimal(days) + "d "@ + decimal(hours) + "h"@
    } else if hours > 0 {
        decimal(hours) + "h "@ + decimal(minutes) + "m"@
    } else {
        decimal(minutes) + "m"@
    }
}

/// Writes an uptime given in seconds (see `uptime_text`).
pub fn format_uptime(seconds: u64) -> (r: String)
    ensures
        r@ == uptime_text(seconds as nat),
{
    let days = seconds / 86400;
    let hours = (seconds % 86400) / 3600;
    let minutes = (seconds % 3600) / 60;
    if days > 0 {
        let mut out = u64_to_string(days);
        out.append("d ");
        let h = u64_to_string(hours);
        out.append(h.as_str());
        out.append("h");
        out
    } else if hours > 0 {
        let mut out = u64_to_string(hours);
        out.append("h ");
        let m = u64_to_string(minutes);
        out.append(m.as_str());
        out.append("m");
        out
    } else {
        let mut out = u64_to_string(minutes);
        out.append("m");
        out
    }
}

} // verus!
