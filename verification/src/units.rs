//! Fixed-point scalar model shared by the whole engine.
//!
//! Progress, opacity and path completion are fractions with denominator
//! [`UNIT`]; coordinates, sizes and angles are plain `i64` units clamped to
//! [`MAX_COORD`] so that interpolation never overflows.

use vstd::prelude::*;

verus! {

/// Fixed-point "one": a progress, opacity or completion value of `UNIT`
/// means 1.0.
pub const UNIT: u64 = 1_000_000;

/// Largest magnitude a stored coordinate, size or angle may take.
pub const MAX_COORD: i64 = 1_000_000_000_000;

/// Largest run time (in ticks) an animation may be given.
pub const MAX_RUN_TIME: u64 = 1_000_000_000_000;

/// Run time given to an animation that asked for none: one second at the
/// millisecond tick scale.
pub const DEFAULT_RUN_TIME: u64 = 1000;

/// Largest magnitude an interpolation endpoint may take.  Endpoints are
/// either stored object state (bounded by [`MAX_COORD`]) or sums of two such
/// values, so twice [`MAX_COORD`] bounds them all.
pub const MAX_ENDPOINT: i64 = 2_000_000_000_000;

/// Linear interpolation from `from` to `to` at fixed-point progress `p`,
/// with the quotient truncated toward `from`.
pub open spec fn spec_lerp(from: int, to: int, p: int) -> int {
    if to >= from {
        from + (to - from) * p / (UNIT as int)
    } else {
        from - (from - to) * p / (UNIT as int)
    }
}

/// `d * p / UNIT` stays at or below `d` whenever `p <= UNIT`.
proof fn lemma_scaled_fraction_le(d: int, p: int)
    requires
        0 <= d,
        0 <= p <= UNIT as int,
    ensures
        0 <= d * p / (UNIT as int) <= d,
{
    vstd::arithmetic::mul::lemma_mul_inequality(p, UNIT as int, d);
    vstd::arithmetic::mul::lemma_mul_is_commutative(p, d);
    vstd::arithmetic::mul::lemma_mul_is_commutative(UNIT as int, d);
    vstd::arithmetic::div_mod::lemma_div_is_ordered(d * p, d * (UNIT as int), UNIT as int);
    vstd::arithmetic::div_mod::lemma_div_by_multiple(d, UNIT as int);
    vstd::arithmetic::mul::lemma_mul_nonnegative(d, p);
    vstd::arithmetic::div_mod::lemma_div_pos_is_pos(d * p, UNIT as int);
}

/// Interpolation lands between its endpoints, and exactly on them at
/// progress `0` and [`UNIT`].
pub proof fn lemma_lerp_bounds(from: int, to: int, p: int)
    requires
        0 <= p <= UNIT as int,
    ensures
        from <= to ==> from <= spec_lerp(from, to, p) <= to,
        to <= from ==> to <= spec_lerp(from, to, p) <= from,
        p == 0 ==> spec_lerp(from, to, p) == from,
        p == UNIT as int ==> spec_lerp(from, to, p) == to,
{
    if to >= from {
        lemma_scaled_fraction_le(to - from, p);
        if p == UNIT as int {
            vstd::arithmetic::div_mod::lemma_div_by_multiple(to - from, UNIT as int);
        }
    } else {
        lemma_scaled_fraction_le(from - to, p);
        if p == UNIT as int {
            vstd::arithmetic::div_mod::lemma_div_by_multiple(from - to, UNIT as int);
        }
    }
}

/// Linear interpolation between two bounded endpoints.
pub fn lerp(from: i64, to: i64, p: u64) -> (r: i64)
    requires
        p <= UNIT,
        -MAX_ENDPOINT <= from <= MAX_ENDPOINT,
        -MAX_ENDPOINT <= to <= MAX_ENDPOINT,
    ensures
        r == spec_lerp(from as int, to as int, p as int),
        from <= to ==> from <= r <= to,
        to <= from ==> to <= r <= from,
        p == 0 ==> r == from,
        p == UNIT ==> r == to,
{
    proof {
        lemma_lerp_bounds(from as int, to as int, p as int);
    }
    if to >= from {
        let d = (to - from) as u64;
        proof {
            lemma_scaled_fraction_le(d as int, p as int);
        }
        from + ((d * p) / UNIT) as i64
    } else {
        let d = (from - to) as u64;
        proof {
            lemma_scaled_fraction_le(d as int, p as int);
        }
        from - ((d * p) / UNIT) as i64
    }
}

/// Raw linear progress: the fraction `elapsed / run_time` in fixed point.
pub open spec fn spec_progress_raw(elapsed: int, run_time: int) -> int {
    elapsed * (UNIT as int) / run_time
}

/// Raw progress stays inside `[0, UNIT]` and reaches [`UNIT`] exactly when
/// the elapsed time reaches the run time.
pub proof fn lemma_progress_raw_bounds(elapsed: int, run_time: int)
    requires
        0 < run_time,
        0 <= elapsed <= run_time,
    ensures
        0 <= spec_progress_raw(elapsed, run_time) <= UNIT as int,
        elapsed == run_time ==> spec_progress_raw(elapsed, run_time) == UNIT as int,
        elapsed == 0 ==> spec_progress_raw(elapsed, run_time) == 0,
{
    let u = UNIT as int;
    vstd::arithmetic::mul::lemma_mul_inequality(elapsed, run_time, u);
    vstd::arithmetic::div_mod::lemma_div_is_ordered(elapsed * u, run_time * u, run_time);
    vstd::arithmetic::div_mod::lemma_div_by_multiple(u, run_time);
    vstd::arithmetic::mul::lemma_mul_is_commutative(run_time, u);
    vstd::arithmetic::mul::lemma_mul_nonnegative(elapsed, u);
    vstd::arithmetic::div_mod::lemma_div_pos_is_pos(elapsed * u, run_time);
}

/// Compute raw linear progress for a positive run time.
pub fn progress_raw(elapsed: u64, run_time: u64) -> (r: u64)
    requires
        0 < run_time,
        run_time <= MAX_RUN_TIME,
        elapsed <= run_time,
    ensures
        r == spec_progress_raw(elapsed as int, run_time as int),
        r <= UNIT,
        elapsed == run_time ==> r == UNIT,
        elapsed == 0 ==> r == 0,
{
    proof {
        lemma_progress_raw_bounds(elapsed as int, run_time as int);
        vstd::arithmetic::mul::lemma_mul_inequality(
            elapsed as int,
            MAX_RUN_TIME as int,
            UNIT as int,
        );
    }
    elapsed * UNIT / run_time
}

/// Clamp a coordinate, size or angle into the storable range.
pub open spec fn spec_clamp_coord(v: int) -> int {
    if v < -MAX_COORD {
        -MAX_COORD as int
    } else if v > MAX_COORD {
        MAX_COORD as int
    } else {
        v
    }
}

/// Clamp a coordinate, size or angle into the storable range.
pub fn clamp_coord(v: i64) -> (r: i64)
    ensures
        r == spec_clamp_coord(v as int),
        -MAX_COORD <= r <= MAX_COORD,
{
    if v < -MAX_COORD {
        -MAX_COORD
    } else if v > MAX_COORD {
        MAX_COORD
    } else {
        v
    }
}

/// Clamp a size into the non-negative storable range.
pub open spec fn spec_clamp_size(v: int) -> int {
    if v < 0 {
        0
    } else if v > MAX_COORD {
        MAX_COORD as int
    } else {
        v
    }
}

/// Clamp a size into the non-negative storable range.
pub fn clamp_size(v: i64) -> (r: i64)
    ensures
        r == spec_clamp_size(v as int),
        0 <= r <= MAX_COORD,
{
    if v < 0 {
        0
    } else if v > MAX_COORD {
        MAX_COORD
    } else {
        v
    }
}

/// Clamp a fixed-point fraction into `[0, UNIT]`.
pub open spec fn spec_clamp_unit(v: int) -> int {
    if v < 0 {
        0
    } else if v > UNIT as int {
        UNIT as int
    } else {
        v
    }
}

/// Clamp a fixed-point fraction into `[0, UNIT]`.
pub fn clamp_unit(v: i64) -> (r: u64)
    ensures
        r == spec_clamp_unit(v as int),
        r <= UNIT,
{
    if v < 0 {
        0
    } else if v > UNIT as i64 {
        UNIT
    } else {
        v as u64
    }
}

} // verus!
