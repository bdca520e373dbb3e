//! The countdown clock.
//!
//! The clock tracks a current instant against a fixed target instant,
//! both as microseconds since the Unix epoch. The current instant may
//! be accelerated (an integer speed in thousandths, 1000 meaning real
//! time) or paused; it only ever advances by whole microseconds, so no
//! drift accumulates over a long run. The remaining time is shown as a
//! zero-padded `MM:SS` countdown, and once the target has passed the
//! display switches to a single terminal `LIVE` state: the countdown
//! never shows negative time.

use vstd::prelude::*;
use crate::fixed::{tdiv, div_trunc};
use crate::timestamp::{DateParts, local_timestamp_micros};

verus! {

/// Largest instant magnitude the clock accepts, microseconds from the
/// epoch: differences of two instants always fit an `i64`.
pub const MAX_INSTANT: i64 = 2_000_000_000_000_000_000;

/// The default simulated start when none is configured: ten minutes
/// before the target.
pub const DEFAULT_LEAD_MICROS: i64 = 600_000_000;

/// The clock speed denominator: a speed of 1000 is real time.
pub const SPEED_UNIT: u32 = 1000;

/// Whether the display shows a running countdown or the terminal live
/// state.
#[derive(Clone, Copy, PartialEq, Eq, Structural, Debug)]
pub enum CountdownState {
    Counting,
    Live,
}

/// The countdown clock's state.
#[derive(Clone, Copy, PartialEq, Eq, Structural, Debug)]
pub struct Clock {
    pub target_micros: i64,
    pub current_micros: i64,
    pub speed_milli: u32,
    pub paused: bool,
}

impl Clock {
    /// Both instants stay within `MAX_INSTANT`.
    pub open spec fn wf(self) -> bool {
        &&& -MAX_INSTANT <= self.target_micros <= MAX_INSTANT
        &&& -MAX_INSTANT <= self.current_micros <= MAX_INSTANT
    }

    /// Build a clock from the target instant and an optional explicit
    /// start instant; without one, the clock starts `DEFAULT_LEAD_MICROS`
    /// before the target. Instants out of range are rejected.
    pub fn new(target_micros: i64, start_micros: Option<i64>, speed_milli: u32, paused: bool)
        -> (r: Option<Clock>)
        ensures
            r.is_some() == {
                let start = (match start_micros {
                    Some(s) => s as int,
                    None => target_micros as int - DEFAULT_LEAD_MICROS as int,
                });
                &&& -MAX_INSTANT <= target_micros <= MAX_INSTANT
                &&& -MAX_INSTANT <= start <= MAX_INSTANT
            },
            r matches Some(c) ==> c.wf() && c.target_micros == target_micros
                && c.speed_milli == speed_milli && c.paused == paused
                && c.current_micros as int == (match start_micros {
                Some(s) => s as int,
                None => target_micros as int - DEFAULT_LEAD_MICROS as int,
            }),
    {
        if target_micros > MAX_INSTANT || target_micros < -MAX_INSTANT {
            return None;
        }
        let current: i64 = match start_micros {
            Some(s) => s,
            None => target_micros - DEFAULT_LEAD_MICROS,
        };
        if current > MAX_INSTANT || current < -MAX_INSTANT {
            return None;
        }
        Some(Clock { target_micros, current_micros: current, speed_milli, paused })
    }

    /// Advance the clock by one tick of `delta_micros`, scaled by the
    /// speed. A paused clock, or one with speed zero, never moves, no
    /// matter how many ticks arrive; an advance that would leave the
    /// accepted instant range is skipped whole rather than clamped.
    pub fn advance(&mut self, delta_micros: u64)
        requires
            old(self).wf(),
        ensures
            final(self).wf(),
            final(self).target_micros == old(self).target_micros,
            final(self).speed_milli == old(self).speed_milli,
            final(self).paused == old(self).paused,
            old(self).paused || old(self).speed_milli == 0 ==> final(self).current_micros
                == old(self).current_micros,
            !old(self).paused && old(self).speed_milli != 0 ==> ({
                let scaled = (delta_micros as int * old(self).speed_milli as int)
                    / (SPEED_UNIT as int);
                if old(self).current_micros + scaled <= MAX_INSTANT {
                    final(self).current_micros == old(self).current_micros + scaled
                } else {
                    final(self).current_micros == old(self).current_micros
                }
            }),
    {
        if self.paused || self.speed_milli == 0 {
            return;
        }
        proof {
            assert(0 <= delta_micros as int * (self.speed_milli as int)
                <= 0xffff_ffff_ffff_ffff * 0xffff_ffff) by (nonlinear_arith)
                requires
                    0 <= delta_micros as int <= 0xffff_ffff_ffff_ffff,
                    0 <= self.speed_milli as int <= 0xffff_ffff,
            ;
            vstd::arithmetic::div_mod::lemma_div_pos_is_pos(
                delta_micros as int * (self.speed_milli as int), SPEED_UNIT as int);
        }
        let scaled: u128 = (delta_micros as u128) * (self.speed_milli as u128)
            / (SPEED_UNIT as u128);
        let sum: i128 = (self.current_micros as i128) + (scaled as i128);
        if sum <= MAX_INSTANT as i128 {
            self.current_micros = sum as i64;
        }
    }

    /// Microseconds still to run before the target: negative once the
    /// target has passed.
    pub fn remaining_micros(&self) -> (r: i64)
        requires
            self.wf(),
        ensures
            r as int == self.target_micros as int - self.current_micros as int,
    {
        self.target_micros - self.current_micros
    }
}

/// Whole seconds of a microsecond span, truncated toward zero the way
/// a duration's seconds count is.
pub open spec fn spec_remaining_secs(target: int, current: int) -> int {
    tdiv(target - current, 1_000_000)
}

/// The character of one decimal digit.
pub open spec fn digit_char(d: int) -> char {
    if d == 0 {
        '0'
    } else if d == 1 {
        '1'
    } else if d == 2 {
        '2'
    } else if d == 3 {
        '3'
    } else if d == 4 {
        '4'
    } else if d == 5 {
        '5'
    } else if d == 6 {
        '6'
    } else if d == 7 {
        '7'
    } else if d == 8 {
        '8'
    } else {
        '9'
    }
}

/// The zero-padded `MM:SS` display of a non-negative seconds count:
/// minutes wrap each hour, as on a station clock face.
pub open spec fn spec_mmss(total: int) -> Seq<char> {
    let m = (total % 3600) / 60;
    let s = total % 60;
    seq![digit_char(m / 10), digit_char(m % 10), ':', digit_char(s / 10), digit_char(s % 10)]
}

/// One decimal digit as a string slice.
fn digit_str(d: u64) -> (r: &'static str)
    requires
        d <= 9,
    ensures
        r@ == seq![digit_char(d as int)],
{
    proof {
        reveal_strlit("0");
        reveal_strlit("1");
        reveal_strlit("2");
        reveal_strlit("3");
        reveal_strlit("4");
        reveal_strlit("5");
        reveal_strlit("6");
        reveal_strlit("7");
        reveal_strlit("8");
        reveal_strlit("9");
    }
    let r: &'static str = if d == 0 {
        "0"
    } else if d == 1 {
        "1"
    } else if d == 2 {
        "2"
    } else if d == 3 {
        "3"
    } else if d == 4 {
        "4"
    } else if d == 5 {
        "5"
    } else if d == 6 {
        "6"
    } else if d == 7 {
        "7"
    } else if d == 8 {
        "8"
    } else {
        "9"
    };
    proof {
        assert(r@ =~= seq![digit_char(d as int)]);
    }
    r
}

/// Append a value below 100 as two zero-padded decimal digits.
fn append_two_digits(out: &mut String, v: u64)
    requires
        v <= 99,
    ensures
        final(out)@ == old(out)@ + seq![digit_char(v as int / 10), digit_char(v as int % 10)],
{
    let d1: &str = digit_str(v / 10);
    let d2: &str = digit_str(v % 10);
    out.append(d1);
    out.append(d2);
    proof {
        assert(out@ =~= old(out)@ + seq![digit_char(v as int / 10), digit_char(v as int % 10)]);
    }
}

/// The countdown display for a pair of instants: the remaining time as
/// zero-padded `MM:SS` while the target is ahead (or this very second),
/// and the terminal `LIVE` state once it has passed — never a negative
/// time.
pub fn countdown_text(target_micros: i64, current_micros: i64) -> (r: (String, CountdownState))
    requires
        -MAX_INSTANT <= target_micros <= MAX_INSTANT,
        -MAX_INSTANT <= current_micros <= MAX_INSTANT,
    ensures
        spec_remaining_secs(target_micros as int, current_micros as int) >= 0 ==> r.1
            == CountdownState::Counting && r.0@ == spec_mmss(spec_remaining_secs(
            target_micros as int, current_micros as int)),
        spec_remaining_secs(target_micros as int, current_micros as int) < 0 ==> r.1
            == CountdownState::Live && r.0@ == "LIVE"@,
{
    let rem: i64 = target_micros - current_micros;
    let total: i64 = div_trunc(rem, 1_000_000);
    if total >= 0 {
        let m: u64 = ((total as u64) % 3600) / 60;
        let s: u64 = (total as u64) % 60;
        proof {
            vstd::arithmetic::div_mod::lemma_mod_division_less_than_divisor(total as int, 3600);
            vstd::arithmetic::div_mod::lemma_div_pos_is_pos(total as int % 3600, 60);
            vstd::arithmetic::div_mod::lemma_mod_division_less_than_divisor(total as int, 60);
            vstd::arithmetic::div_mod::lemma_multiply_divide_lt(total as int % 3600, 60, 60);
            reveal_strlit(":");
        }
        let mut out: String = String::new();
        append_two_digits(&mut out, m);
        out.append(":");
        append_two_digits(&mut out, s);
        proof {
            assert(out@ =~= spec_mmss(total as int));
        }
        (out, CountdownState::Counting)
    } else {
        (String::from_str("LIVE"), CountdownState::Live)
    }
}

/// Build the clock from parsed configuration: the target's civil
/// fields, an optional explicit simulated start, the speed and the
/// pause flag. An instant that the local timezone cannot place (or one
/// out of range) yields nothing — configuration errors are fatal, not
/// defaulted. Without an explicit start the clock begins exactly
/// `DEFAULT_LEAD_MICROS` before the target.
pub fn clock_from_parts(target: &DateParts, start: Option<&DateParts>, speed_milli: u32,
    paused: bool) -> (r: Option<Clock>)
    requires
        target.wf(),
        start matches Some(p) ==> p.wf(),
    ensures
        r matches Some(c) ==> c.wf() && c.speed_milli == speed_milli && c.paused == paused,
        start.is_none() ==> (r matches Some(c) ==> c.current_micros as int
            == c.target_micros as int - DEFAULT_LEAD_MICROS as int),
{
    let target_micros: i64 = match local_timestamp_micros(target) {
        Some(t) => t,
        None => {
            return None;
        },
    };
    let start_micros: Option<i64> = match start {
        Some(p) => {
            match local_timestamp_micros(p) {
                Some(v) => Some(v),
                None => {
                    return None;
                },
            }
        },
        None => None,
    };
    Clock::new(target_micros, start_micros, speed_milli, paused)
}

} // verus!
