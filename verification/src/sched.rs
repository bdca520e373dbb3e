//! The animation scheduler.
//!
//! The scheduler owns the view state of the fractal backdrop: which
//! curated target point is being approached, how far the current zoom
//! cycle has run, and the iteration budget that fits the current depth.
//! Zoom is held as its base-2 logarithm in milli-bits, so the cycle's
//! exponential interpolation from `start_zoom` down to `min_zoom` is an
//! exact linear interpolation here, and the budget formula
//! `80 + 20 * log2(start_zoom / zoom)` is exact integer arithmetic.
//! Times are microseconds.

use vstd::prelude::*;
use crate::fixed::{tdiv, div_trunc, lemma_tdiv_monotone, lemma_tdiv_bound, lemma_tdiv_magnitude};

verus! {

/// A curated plane point near the set boundary, in fixed point.
#[derive(Clone, Copy, PartialEq, Eq, Structural, Debug)]
pub struct Target {
    pub x: i64,
    pub y: i64,
}

/// Largest magnitude of a curated target coordinate.
pub const TARGET_BOUND: i64 = 2_000_000_000;

/// Cycle progress is measured in millionths of the cycle duration.
pub const PROGRESS_UNIT: u64 = 1_000_000;

/// Largest accepted cycle duration, frame interval and per-tick
/// delta.
pub const DURATION_BOUND: u64 = 4_503_599_627_370_496;

/// Cap on the accumulated run time, after which the orbit phase holds.
pub const TOTAL_CAP: u64 = 4_611_686_018_427_387_904;

/// Largest magnitude of a zoom logarithm, in milli-bits.
pub const LOG2_MILLI_BOUND: i64 = 100_000;

/// Smallest iteration budget.
pub const MIN_ITER: u32 = 80;

/// Largest iteration budget.
pub const MAX_ITER_CAP: u32 = 1024;

/// Interior-pixel fraction, in thousandths, above which a frame counts
/// as degenerate.
pub const DEGENERACY_PER_MILLE: u64 = 985;

/// Zoom logarithm (milli-bits) after `ppm` millionths of a cycle:
/// exponential zoom interpolation is linear in log space.
pub open spec fn spec_zoom_log2(start: int, min: int, ppm: int) -> int {
    start + tdiv((min - start) * ppm, PROGRESS_UNIT as int)
}

/// Iteration budget for a zoom logarithm (milli-bits): grows by 20 per
/// doubling of `start_zoom / zoom`, clamped to `[80, 1024]`.
pub open spec fn spec_iteration_budget(start: int, z: int) -> int {
    let raw = 80 + tdiv((start - z) * 20, 1000);
    if raw > MAX_ITER_CAP as int {
        MAX_ITER_CAP as int
    } else if raw < MIN_ITER as int {
        MIN_ITER as int
    } else {
        raw
    }
}

/// Interpolate the zoom logarithm at `progress_ppm` millionths of the
/// cycle: exactly `start` at the cycle's start and exactly `min` at its
/// end, never outside `[min, start]`.
pub fn zoom_log2_at(start: i64, min: i64, progress_ppm: u64) -> (z: i64)
    requires
        -LOG2_MILLI_BOUND <= min <= start <= LOG2_MILLI_BOUND,
        progress_ppm <= PROGRESS_UNIT,
    ensures
        z as int == spec_zoom_log2(start as int, min as int, progress_ppm as int),
        min <= z <= start,
        progress_ppm == 0 ==> z == start,
        progress_ppm == PROGRESS_UNIT ==> z == min,
{
    let diff: i64 = min - start;
    proof {
        assert(-200_000_000_000 <= diff as int * (progress_ppm as int) <= 0)
            by (nonlinear_arith)
            requires
                -200_000 <= diff as int <= 0,
                0 <= progress_ppm as int <= 1_000_000,
        ;
    }
    let scaled: i64 = diff * (progress_ppm as i64);
    let adj: i64 = div_trunc(scaled, 1_000_000);
    proof {
        assert((-(diff as int)) * (progress_ppm as int) == -(diff as int
            * (progress_ppm as int))) by (nonlinear_arith);
        lemma_tdiv_magnitude(diff as int * (progress_ppm as int), 1_000_000, 200_000);
        assert(-(diff as int) * (progress_ppm as int) <= (-(diff as int)) * 1_000_000)
            by (nonlinear_arith)
            requires
                0 <= -(diff as int),
                progress_ppm as int <= 1_000_000,
        ;
        lemma_tdiv_monotone(-(diff as int) * (progress_ppm as int),
            (-(diff as int)) * 1_000_000, 1_000_000);
        vstd::arithmetic::div_mod::lemma_div_multiples_vanish(-(diff as int), 1_000_000);
        vstd::arithmetic::mul::lemma_mul_is_commutative(-(diff as int), 1_000_000);
        assert(tdiv(diff as int * (progress_ppm as int), 1_000_000) >= diff as int);
        if progress_ppm == 0 {
            assert(diff as int * 0 == 0) by (nonlinear_arith);
        }
        if progress_ppm == PROGRESS_UNIT {
            assert(diff as int * 1_000_000 == -((-(diff as int)) * 1_000_000));
        }
        lemma_tdiv_bound(-(diff as int) * (progress_ppm as int), 1_000_000);
        assert(0 <= -(diff as int) * (progress_ppm as int)) by (nonlinear_arith)
            requires
                0 <= -(diff as int),
                0 <= progress_ppm as int,
        ;
    }
    start + adj
}

/// Within one cycle the zoom never grows: a later progress gives a
/// zoom logarithm no larger than an earlier one.
pub proof fn lemma_zoom_monotone(start: int, min: int, p1: int, p2: int)
    requires
        min <= start,
        0 <= p1 <= p2,
    ensures
        spec_zoom_log2(start, min, p2) <= spec_zoom_log2(start, min, p1),
{
    assert((min - start) * p2 <= (min - start) * p1) by (nonlinear_arith)
        requires
            min - start <= 0,
            0 <= p1 <= p2,
    ;
    lemma_tdiv_monotone((min - start) * p2, (min - start) * p1, PROGRESS_UNIT as int);
}

/// Compute the iteration budget for the current zoom: 80 at the start
/// zoom, 20 more per doubling, clamped to `[80, 1024]`.
pub fn iteration_budget(start: i64, z: i64) -> (n: u32)
    requires
        -LOG2_MILLI_BOUND <= start <= LOG2_MILLI_BOUND,
        -LOG2_MILLI_BOUND <= z <= LOG2_MILLI_BOUND,
    ensures
        n as int == spec_iteration_budget(start as int, z as int),
        MIN_ITER <= n <= MAX_ITER_CAP,
{
    let delta: i64 = start - z;
    let raw: i64 = 80 + div_trunc(delta * 20, 1000);
    proof {
        lemma_tdiv_magnitude(delta as int * 20, 1000, 4_000_000_000);
    }
    if raw > 1024 {
        1024
    } else if raw < 80 {
        80
    } else {
        raw as u32
    }
}

/// Paces work to a fixed repeating interval, carrying the overshoot
/// into the next period, the way a repeating frame timer does.
#[derive(Clone, Copy, PartialEq, Eq, Structural, Debug)]
pub struct FramePacer {
    pub elapsed_micros: u64,
    pub interval_micros: u64,
}

impl FramePacer {
    /// The elapsed part of the period stays below the interval.
    pub open spec fn wf(self) -> bool {
        &&& 0 < self.interval_micros <= DURATION_BOUND
        &&& self.elapsed_micros < self.interval_micros
    }

    /// A fresh pacer at the start of its period.
    pub fn new(interval_micros: u64) -> (g: FramePacer)
        requires
            0 < interval_micros <= DURATION_BOUND,
        ensures
            g.wf(),
            g.interval_micros == interval_micros,
            g.elapsed_micros == 0,
    {
        FramePacer { elapsed_micros: 0, interval_micros }
    }

    /// Advance the pacer by one tick. The result says whether the
    /// interval completed during this tick, in which case the
    /// overshoot is carried into the new period.
    pub fn tick(&mut self, delta_micros: u64) -> (fired: bool)
        requires
            old(self).wf(),
            delta_micros <= DURATION_BOUND,
        ensures
            final(self).wf(),
            final(self).interval_micros == old(self).interval_micros,
            fired == (old(self).elapsed_micros + delta_micros >= old(self).interval_micros),
            fired ==> final(self).elapsed_micros as int == (old(self).elapsed_micros
                + delta_micros) as int % old(self).interval_micros as int,
            !fired ==> final(self).elapsed_micros == old(self).elapsed_micros + delta_micros,
    {
        let rem: u64 = self.interval_micros - self.elapsed_micros;
        if delta_micros >= rem {
            let over: u64 = delta_micros - rem;
            proof {
                vstd::arithmetic::div_mod::lemma_mod_add_multiples_vanish(over as int,
                    self.interval_micros as int);
                vstd::arithmetic::div_mod::lemma_mod_division_less_than_divisor(over as int,
                    self.interval_micros as int);
            }
            self.elapsed_micros = over % self.interval_micros;
            true
        } else {
            self.elapsed_micros = self.elapsed_micros + delta_micros;
            false
        }
    }
}

/// View state of the fractal backdrop: the curated target list, the
/// index of the target being approached, the cycle timer, the total
/// run time that drives the orbit, and the zoom interpolation bounds.
#[derive(Debug)]
pub struct Scheduler {
    pub targets: Vec<Target>,
    pub target_index: usize,
    pub cycle_elapsed_micros: u64,
    pub cycle_duration_micros: u64,
    pub total_elapsed_micros: u64,
    pub start_zoom_log2_milli: i64,
    pub min_zoom_log2_milli: i64,
}

impl Scheduler {
    /// The scheduler's invariant: the target list is never empty, the
    /// index stays inside it, the cycle timer stays inside its period,
    /// and the zoom bounds are ordered.
    pub open spec fn wf(self) -> bool {
        &&& 0 < self.targets@.len()
        &&& self.target_index < self.targets@.len()
        &&& 0 < self.cycle_duration_micros <= DURATION_BOUND
        &&& self.cycle_elapsed_micros < self.cycle_duration_micros
        &&& self.total_elapsed_micros <= TOTAL_CAP
        &&& -LOG2_MILLI_BOUND <= self.min_zoom_log2_milli
        &&& self.min_zoom_log2_milli <= self.start_zoom_log2_milli <= LOG2_MILLI_BOUND
        &&& forall|i: int|
            0 <= i < self.targets@.len() ==> -TARGET_BOUND <= (#[trigger] self.targets@[i]).x
                <= TARGET_BOUND && -TARGET_BOUND <= self.targets@[i].y <= TARGET_BOUND
    }

    /// The configuration fields that a tick never changes.
    pub open spec fn same_config(self, other: Scheduler) -> bool {
        &&& self.targets@ == other.targets@
        &&& self.cycle_duration_micros == other.cycle_duration_micros
        &&& self.start_zoom_log2_milli == other.start_zoom_log2_milli
        &&& self.min_zoom_log2_milli == other.min_zoom_log2_milli
    }

    /// Progress through the current cycle, in millionths.
    pub open spec fn spec_progress_ppm(self) -> int {
        tdiv(self.cycle_elapsed_micros as int * (PROGRESS_UNIT as int),
            self.cycle_duration_micros as int)
    }

    /// The current zoom logarithm, derived from the cycle progress.
    pub open spec fn spec_zoom(self) -> int {
        spec_zoom_log2(self.start_zoom_log2_milli as int, self.min_zoom_log2_milli as int,
            self.spec_progress_ppm())
    }

    /// A scheduler at the start of its first cycle on the first target.
    pub fn new(targets: Vec<Target>, cycle_duration_micros: u64, start_zoom_log2_milli: i64,
        min_zoom_log2_milli: i64) -> (s: Scheduler)
        requires
            0 < targets@.len(),
            forall|i: int|
                0 <= i < targets@.len() ==> -TARGET_BOUND <= (#[trigger] targets@[i]).x
                    <= TARGET_BOUND && -TARGET_BOUND <= targets@[i].y <= TARGET_BOUND,
            0 < cycle_duration_micros <= DURATION_BOUND,
            -LOG2_MILLI_BOUND <= min_zoom_log2_milli,
            min_zoom_log2_milli <= start_zoom_log2_milli <= LOG2_MILLI_BOUND,
        ensures
            s.wf(),
            s.targets@ == targets@,
            s.target_index == 0,
            s.cycle_elapsed_micros == 0,
            s.total_elapsed_micros == 0,
            s.cycle_duration_micros == cycle_duration_micros,
            s.start_zoom_log2_milli == start_zoom_log2_milli,
            s.min_zoom_log2_milli == min_zoom_log2_milli,
    {
        Scheduler {
            targets,
            target_index: 0,
            cycle_elapsed_micros: 0,
            cycle_duration_micros,
            total_elapsed_micros: 0,
            start_zoom_log2_milli,
            min_zoom_log2_milli,
        }
    }

    /// Advance the cycle timer by one tick. When the cycle completes,
    /// the next target is selected (wrapping around the list) and the
    /// timer restarts with the overshoot carried over; that completion
    /// edge holds for exactly one tick.
    pub fn tick(&mut self, delta_micros: u64)
        requires
            old(self).wf(),
            delta_micros <= DURATION_BOUND,
        ensures
            final(self).wf(),
            old(self).same_config(*final(self)),
            old(self).cycle_elapsed_micros + delta_micros < old(self).cycle_duration_micros
                ==> final(self).cycle_elapsed_micros == old(self).cycle_elapsed_micros
                + delta_micros && final(self).target_index == old(self).target_index,
            old(self).cycle_elapsed_micros + delta_micros >= old(self).cycle_duration_micros
                ==> final(self).cycle_elapsed_micros as int == (old(self).cycle_elapsed_micros
                + delta_micros) as int % old(self).cycle_duration_micros as int
                && final(self).target_index as int == (old(self).target_index + 1) as int
                % old(self).targets@.len() as int,
            final(self).total_elapsed_micros as int == (if old(self).total_elapsed_micros
                + delta_micros <= TOTAL_CAP {
                old(self).total_elapsed_micros + delta_micros
            } else {
                TOTAL_CAP as int
            }),
    {
        if delta_micros > TOTAL_CAP - self.total_elapsed_micros {
            self.total_elapsed_micros = TOTAL_CAP;
        } else {
            self.total_elapsed_micros = self.total_elapsed_micros + delta_micros;
        }
        let rem: u64 = self.cycle_duration_micros - self.cycle_elapsed_micros;
        if delta_micros >= rem {
            let over: u64 = delta_micros - rem;
            proof {
                vstd::arithmetic::div_mod::lemma_mod_add_multiples_vanish(over as int,
                    self.cycle_duration_micros as int);
                vstd::arithmetic::div_mod::lemma_mod_division_less_than_divisor(over as int,
                    self.cycle_duration_micros as int);
                vstd::arithmetic::div_mod::lemma_mod_division_less_than_divisor(
                    (self.target_index + 1) as int, self.targets@.len() as int);
            }
            self.cycle_elapsed_micros = over % self.cycle_duration_micros;
            let len: usize = self.targets.len();
            proof {
                assert(self.target_index < len);
            }
            self.target_index = (self.target_index + 1) % len;
        } else {
            self.cycle_elapsed_micros = self.cycle_elapsed_micros + delta_micros;
        }
    }

    /// Degeneracy recovery. When strictly more than 98.5% of the
    /// rendered pixels were interior, the view has zoomed into a solid
    /// region: advance to the next target, restart the cycle and reset
    /// the zoom (the zoom is derived from the cycle, so a restarted
    /// cycle is exactly a reset to `start_zoom`). Otherwise nothing
    /// changes.
    pub fn note_frame(&mut self, interior: u64, total: u64) -> (degenerate: bool)
        requires
            old(self).wf(),
            0 < total <= 0x2000_0000,
            interior <= total,
        ensures
            final(self).wf(),
            old(self).same_config(*final(self)),
            final(self).total_elapsed_micros == old(self).total_elapsed_micros,
            degenerate == (1000 * interior > DEGENERACY_PER_MILLE * total),
            degenerate ==> final(self).target_index as int == (old(self).target_index + 1) as int
                % old(self).targets@.len() as int,
            degenerate ==> final(self).cycle_elapsed_micros == 0,
            degenerate ==> final(self).spec_progress_ppm() == 0,
            degenerate ==> final(self).spec_zoom() == old(self).start_zoom_log2_milli,
            !degenerate ==> *final(self) == *old(self),
    {
        if 1000 * interior > DEGENERACY_PER_MILLE * total {
            proof {
                vstd::arithmetic::div_mod::lemma_mod_division_less_than_divisor(
                    (self.target_index + 1) as int, self.targets@.len() as int);
            }
            let len: usize = self.targets.len();
            proof {
                assert(self.target_index < len);
            }
            self.target_index = (self.target_index + 1) % len;
            self.cycle_elapsed_micros = 0;
            proof {
                assert(0int * (PROGRESS_UNIT as int) == 0) by (nonlinear_arith);
                vstd::arithmetic::div_mod::lemma_div_of0(self.cycle_duration_micros as int);
                assert((self.min_zoom_log2_milli as int - self.start_zoom_log2_milli as int) * 0
                    == 0) by (nonlinear_arith);
                vstd::arithmetic::div_mod::lemma_div_of0(PROGRESS_UNIT as int);
            }
            true
        } else {
            false
        }
    }

    /// Progress through the current cycle in millionths, always below
    /// one whole cycle.
    pub fn progress_ppm(&self) -> (p: u64)
        requires
            self.wf(),
        ensures
            p as int == self.spec_progress_ppm(),
            p < PROGRESS_UNIT,
    {
        proof {
            assert(self.cycle_elapsed_micros as int * (PROGRESS_UNIT as int)
                < self.cycle_duration_micros as int * (PROGRESS_UNIT as int))
                by (nonlinear_arith)
                requires
                    self.cycle_elapsed_micros < self.cycle_duration_micros,
            ;
            vstd::arithmetic::mul::lemma_mul_is_commutative(self.cycle_duration_micros as int,
                PROGRESS_UNIT as int);
            vstd::arithmetic::div_mod::lemma_multiply_divide_lt(
                self.cycle_elapsed_micros as int * (PROGRESS_UNIT as int),
                self.cycle_duration_micros as int, PROGRESS_UNIT as int);
            vstd::arithmetic::div_mod::lemma_div_pos_is_pos(
                self.cycle_elapsed_micros as int * (PROGRESS_UNIT as int),
                self.cycle_duration_micros as int);
            assert(0 <= self.cycle_elapsed_micros as int * (PROGRESS_UNIT as int))
                by (nonlinear_arith);
        }
        let p: u64 = (((self.cycle_elapsed_micros as u128) * (PROGRESS_UNIT as u128))
            / (self.cycle_duration_micros as u128)) as u64;
        p
    }

    /// The current zoom logarithm in milli-bits.
    pub fn current_zoom_log2_milli(&self) -> (z: i64)
        requires
            self.wf(),
        ensures
            z as int == self.spec_zoom(),
            self.min_zoom_log2_milli <= z <= self.start_zoom_log2_milli,
    {
        let p: u64 = self.progress_ppm();
        zoom_log2_at(self.start_zoom_log2_milli, self.min_zoom_log2_milli, p)
    }

    /// The iteration budget for the current zoom depth.
    pub fn current_max_iter(&self) -> (n: u32)
        requires
            self.wf(),
        ensures
            n as int == spec_iteration_budget(self.start_zoom_log2_milli as int,
                self.spec_zoom()),
            MIN_ITER <= n <= MAX_ITER_CAP,
    {
        let z: i64 = self.current_zoom_log2_milli();
        iteration_budget(self.start_zoom_log2_milli, z)
    }

    /// The curated point currently approached. The index is always in
    /// range, so this cannot fail.
    pub fn current_target(&self) -> (t: Target)
        requires
            self.wf(),
        ensures
            t == self.targets@[self.target_index as int],
            -TARGET_BOUND <= t.x <= TARGET_BOUND,
            -TARGET_BOUND <= t.y <= TARGET_BOUND,
    {
        self.targets[self.target_index]
    }

    /// Phase arguments of the orbit perturbation, in microradians: the
    /// accumulated run time in seconds times the two distinct orbit
    /// frequencies 0.11 and 0.13.
    pub fn orbit_phases(&self) -> (p: (u64, u64))
        requires
            self.wf(),
        ensures
            p.0 as int == tdiv(self.total_elapsed_micros as int * 11, 100),
            p.1 as int == tdiv(self.total_elapsed_micros as int * 13, 100),
    {
        proof {
            assert(0 <= self.total_elapsed_micros as int * 11 <= TOTAL_CAP as int * 11)
                by (nonlinear_arith)
                requires
                    0 <= self.total_elapsed_micros as int <= TOTAL_CAP as int,
            ;
            assert(0 <= self.total_elapsed_micros as int * 13 <= TOTAL_CAP as int * 13)
                by (nonlinear_arith)
                requires
                    0 <= self.total_elapsed_micros as int <= TOTAL_CAP as int,
            ;
            lemma_tdiv_bound(self.total_elapsed_micros as int * 11, 100);
            lemma_tdiv_bound(self.total_elapsed_micros as int * 13, 100);
        }
        let p1: u64 = (((self.total_elapsed_micros as u128) * 11) / 100) as u64;
        let p2: u64 = (((self.total_elapsed_micros as u128) * 13) / 100) as u64;
        (p1, p2)
    }
}

/// Within one cycle the zoom never grows: of two well-formed states
/// with the same configuration, the one further into the cycle has the
/// smaller (or equal) zoom logarithm. Only a cycle reset enlarges the
/// zoom again.
pub proof fn lemma_cycle_zoom_nonincreasing(s1: Scheduler, s2: Scheduler)
    requires
        s1.wf(),
        s2.wf(),
        s1.same_config(s2),
        s1.cycle_elapsed_micros <= s2.cycle_elapsed_micros,
    ensures
        s2.spec_zoom() <= s1.spec_zoom(),
{
    lemma_tdiv_bound(s1.cycle_elapsed_micros as int * (PROGRESS_UNIT as int),
        s1.cycle_duration_micros as int);
    lemma_tdiv_monotone(s1.cycle_elapsed_micros as int * (PROGRESS_UNIT as int),
        s2.cycle_elapsed_micros as int * (PROGRESS_UNIT as int),
        s1.cycle_duration_micros as int);
    lemma_zoom_monotone(s1.start_zoom_log2_milli as int, s1.min_zoom_log2_milli as int,
        s1.spec_progress_ppm(), s2.spec_progress_ppm());
}

/// The target index stays strictly inside the target list in every
/// well-formed state, so indexing the list can never fail, however many
/// cycles have completed.
pub proof fn lemma_target_index_in_range(s: Scheduler)
    requires
        s.wf(),
    ensures
        s.target_index < s.targets@.len(),
{
}

/// The curated target list of the standby display: visually rich
/// points near the set boundary.
pub fn default_targets() -> (v: Vec<Target>)
    ensures
        v@.len() == 5,
        forall|i: int|
            0 <= i < v@.len() ==> -TARGET_BOUND <= (#[trigger] v@[i]).x <= TARGET_BOUND
                && -TARGET_BOUND <= v@[i].y <= TARGET_BOUND,
        v@[0] == (Target { x: -743_643_887i64, y: 131_825_904 }),
        v@[1] == (Target { x: -1_250_660_000i64, y: 20_120_000 }),
        v@[2] == (Target { x: 1_643_722, y: 822_467_633 }),
        v@[3] == (Target { x: -101_096_364i64, y: 956_286_511 }),
        v@[4] == (Target { x: -800_000_000i64, y: 156_000_000 }),
{
    let mut v: Vec<Target> = Vec::new();
    v.push(Target { x: -743_643_887, y: 131_825_904 });
    v.push(Target { x: -1_250_660_000, y: 20_120_000 });
    v.push(Target { x: 1_643_722, y: 822_467_633 });
    v.push(Target { x: -101_096_364, y: 956_286_511 });
    v.push(Target { x: -800_000_000, y: 156_000_000 });
    v
}

} // verus!
