//! Calendar timestamps.
//!
//! The configuration names instants as `yyyy-mm-ddTHH:MM:SS` strings in
//! local time. The grammar and the calendar validity checks are
//! verified here; only the local-timezone interpretation of a valid
//! civil date-time — an offset that depends on the machine — is left to
//! chrono behind one trusted wrapper. A malformed timestamp is rejected
//! (fail fast): nothing falls back to another instant.

use vstd::prelude::*;

verus! {

/// A civil calendar date-time, field by field.
#[derive(Clone, Copy, PartialEq, Eq, Structural, Debug)]
pub struct DateParts {
    pub year: u16,
    pub month: u8,
    pub day: u8,
    pub hour: u8,
    pub minute: u8,
    pub second: u8,
}

/// Leap years of the proleptic Gregorian calendar.
pub open spec fn is_leap_year(y: int) -> bool {
    y % 4 == 0 && (y % 100 != 0 || y % 400 == 0)
}

/// Length of a month in days.
pub open spec fn days_in_month(y: int, m: int) -> int {
    if m == 2 {
        if is_leap_year(y) {
            29
        } else {
            28
        }
    } else if m == 4 || m == 6 || m == 9 || m == 11 {
        30
    } else {
        31
    }
}

impl DateParts {
    /// The fields name a real calendar instant, with a four-digit year.
    pub open spec fn wf(self) -> bool {
        &&& self.year <= 9999
        &&& 1 <= self.month <= 12
        &&& 1 <= self.day
        &&& self.day as int <= days_in_month(self.year as int, self.month as int)
        &&& self.hour <= 23
        &&& self.minute <= 59
        &&& self.second <= 59
    }
}

/// Length of a month in days.
pub fn month_length(year: u16, month: u8) -> (d: u8)
    requires
        1 <= month <= 12,
    ensures
        d as int == days_in_month(year as int, month as int),
{
    if month == 2 {
        if year % 4 == 0 && (year % 100 != 0 || year % 400 == 0) {
            29
        } else {
            28
        }
    } else if month == 4 || month == 6 || month == 9 || month == 11 {
        30
    } else {
        31
    }
}

/// A byte holds an ASCII digit.
pub open spec fn is_digit(b: u8) -> bool {
    48 <= b <= 57
}

/// Value of an ASCII digit byte.
pub open spec fn digit_val(b: u8) -> int {
    b as int - 48
}

/// What the timestamp grammar expects at byte `j`: digits, with `-`,
/// `T` and `:` separators in their fixed places.
pub open spec fn shape_at(s: Seq<u8>, j: int) -> bool {
    if j == 4 || j == 7 {
        s[j] == 45
    } else if j == 10 {
        s[j] == 84
    } else if j == 13 || j == 16 {
        s[j] == 58
    } else {
        is_digit(s[j])
    }
}

/// The shape of the grammar `yyyy-mm-ddTHH:MM:SS`.
pub open spec fn timestamp_shape(s: Seq<u8>) -> bool {
    s.len() == 19 && forall|j: int| 0 <= j < 19 ==> #[trigger] shape_at(s, j)
}

/// The fields a well-shaped timestamp spells out.
pub open spec fn spec_parts(s: Seq<u8>) -> DateParts {
    DateParts {
        year: (1000 * digit_val(s[0]) + 100 * digit_val(s[1]) + 10 * digit_val(s[2])
            + digit_val(s[3])) as u16,
        month: (10 * digit_val(s[5]) + digit_val(s[6])) as u8,
        day: (10 * digit_val(s[8]) + digit_val(s[9])) as u8,
        hour: (10 * digit_val(s[11]) + digit_val(s[12])) as u8,
        minute: (10 * digit_val(s[14]) + digit_val(s[15])) as u8,
        second: (10 * digit_val(s[17]) + digit_val(s[18])) as u8,
    }
}

/// A valid timestamp: the right shape, spelling out a real instant.
pub open spec fn valid_timestamp(s: Seq<u8>) -> bool {
    timestamp_shape(s) && spec_parts(s).wf()
}

/// Parse a configured timestamp. Returns the calendar fields exactly
/// when the bytes match the grammar and name a real instant, and
/// nothing otherwise: a malformed configuration is rejected, never
/// replaced by a default.
pub fn parse_timestamp(s: &[u8]) -> (r: Option<DateParts>)
    ensures
        r.is_some() == valid_timestamp(s@),
        r matches Some(p) ==> p == spec_parts(s@) && p.wf(),
{
    if s.len() != 19 {
        return None;
    }
    let mut i: usize = 0;
    while i < 19
        invariant
            s@.len() == 19,
            i <= 19,
            forall|j: int| 0 <= j < i ==> #[trigger] shape_at(s@, j),
        decreases 19 - i,
    {
        let b: u8 = s[i];
        if i == 4 || i == 7 {
            if b != 45 {
                proof {
                    assert(!shape_at(s@, i as int));
                }
                return None;
            }
        } else if i == 10 {
            if b != 84 {
                proof {
                    assert(!shape_at(s@, i as int));
                }
                return None;
            }
        } else if i == 13 || i == 16 {
            if b != 58 {
                proof {
                    assert(!shape_at(s@, i as int));
                }
                return None;
            }
        } else {
            if !(48 <= b && b <= 57) {
                proof {
                    assert(!shape_at(s@, i as int));
                }
                return None;
            }
        }
        i = i + 1;
    }
    proof {
        assert(shape_at(s@, 0));
        assert(shape_at(s@, 1));
        assert(shape_at(s@, 2));
        assert(shape_at(s@, 3));
        assert(shape_at(s@, 5));
        assert(shape_at(s@, 6));
        assert(shape_at(s@, 8));
        assert(shape_at(s@, 9));
        assert(shape_at(s@, 11));
        assert(shape_at(s@, 12));
        assert(shape_at(s@, 14));
        assert(shape_at(s@, 15));
        assert(shape_at(s@, 17));
        assert(shape_at(s@, 18));
    }
    let year: u16 = (s[0] - 48) as u16 * 1000 + (s[1] - 48) as u16 * 100 + (s[2] - 48) as u16
        * 10 + (s[3] - 48) as u16;
    let month: u8 = (s[5] - 48) * 10 + (s[6] - 48);
    let day: u8 = (s[8] - 48) * 10 + (s[9] - 48);
    let hour: u8 = (s[11] - 48) * 10 + (s[12] - 48);
    let minute: u8 = (s[14] - 48) * 10 + (s[15] - 48);
    let second: u8 = (s[17] - 48) * 10 + (s[18] - 48);
    if month < 1 || month > 12 {
        return None;
    }
    if day < 1 || day > month_length(year, month) {
        return None;
    }
    if hour > 23 || minute > 59 || second > 59 {
        return None;
    }
    Some(DateParts { year, month, day, hour, minute, second })
}

/// Relies on chrono's `NaiveDate::from_ymd_opt`, `NaiveDate::and_hms_opt`,
/// `NaiveDateTime::and_local_timezone` with `Local`,
/// `MappedLocalTime::single` and `DateTime::timestamp_micros`: the
/// local-timezone interpretation of a civil date-time, as microseconds
/// since the Unix epoch, or nothing when the local time falls in a
/// timezone fold or gap. The result depends on the machine's timezone,
/// so nothing is assumed about its value.
#[verifier::external_body]
pub(crate) fn local_timestamp_micros(parts: &DateParts) -> (r: Option<i64>)
    requires
        parts.wf(),
{
    chrono::NaiveDate::from_ymd_opt(parts.year as i32, parts.month as u32, parts.day as u32)
        .and_then(|d| d.and_hms_opt(parts.hour as u32, parts.minute as u32, parts.second as u32))
        .and_then(|dt| dt.and_local_timezone(chrono::Local).single())
        .map(|dt| dt.timestamp_micros())
}

} // verus!
