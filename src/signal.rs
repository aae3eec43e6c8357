//! Mapping of proximity samples to actuator intensities.
//!
//! All fractions are fixed-point values in units of `1 / SCALE`; time is in
//! milliseconds. Results are rounded to the nearest integer (halves round up)
//! and clamped to the actuation range `0..=MAX_ACTUATION`.
use vstd::prelude::*;
use vstd::arithmetic::div_mod::{
    lemma_div_denominator,
    lemma_div_is_ordered,
    lemma_div_multiples_vanish,
    lemma_fundamental_div_mod_converse_div,
    lemma_hoist_over_denominator,
};

use crate::config::{DeviceConfig, SCALE};

verus! {

/// Derating applied to every motor command, in percent (`0.66`).
pub const MOTOR_SPEED_PERCENT: u64 = 66;

/// Full-scale byte value that a motor command is expressed in.
pub const FULL_SCALE: u64 = 255;

/// Largest actuation value that is ever produced.
pub const MAX_ACTUATION: i32 = 255;

/// `n / d` rounded to the nearest integer, halves rounding up.
pub open spec fn round_div(n: int, d: int) -> int {
    (2 * n + d) / (2 * d)
}

/// Clamps a value into the actuation range.
pub open spec fn clamp_actuation(v: int) -> int {
    if v < 0 {
        0
    } else if v > MAX_ACTUATION {
        MAX_ACTUATION as int
    } else {
        v
    }
}

/// Denominator shared by the direct-mode formula: three fixed-point factors
/// and the derating percentage.
pub open spec fn direct_denominator() -> int {
    (SCALE as int) * (SCALE as int) * (SCALE as int) * 100
}

/// `((max - min) * sample + min) * 0.66 * speed_scale * 255`, scaled by
/// `direct_denominator()`.
pub open spec fn direct_numerator(sample: int, cfg: DeviceConfig) -> int {
    ((cfg.max_speed - cfg.min_speed) * sample + cfg.min_speed * SCALE) * cfg.speed_scale
        * MOTOR_SPEED_PERCENT * FULL_SCALE
}

/// The direct-mode intensity before the startup kick and the clamp.
pub open spec fn raw_direct(sample: int, cfg: DeviceConfig) -> int {
    round_div(direct_numerator(sample, cfg), direct_denominator())
}

/// Motor level of a fixed speed: `round(speed * 0.66 * speed_scale * 255)`.
pub open spec fn speed_level(speed: int, cfg: DeviceConfig) -> int {
    round_div(
        speed * cfg.speed_scale * MOTOR_SPEED_PERCENT * FULL_SCALE,
        (SCALE as int) * (SCALE as int) * 100,
    )
}

/// Whether a sample gets the startup kick: it is the first nonzero sample
/// after a zero one and its raw value falls short of `start_tx`.
pub open spec fn kicks(sample: int, prev: int, cfg: DeviceConfig) -> bool {
    prev == 0 && sample > 0 && raw_direct(sample, cfg) < cfg.start_tx
}

/// Direct-mode actuation of `sample` after `prev`.
pub open spec fn direct_value(sample: int, prev: int, cfg: DeviceConfig) -> int {
    clamp_actuation(
        if kicks(sample, prev, cfg) {
            cfg.start_tx as int
        } else {
            raw_direct(sample, cfg)
        },
    )
}

// In the proofs and the products below, 16830 is
// `MOTOR_SPEED_PERCENT * FULL_SCALE`, and 16830000 is that times the 1000
// milliseconds of a second.
proof fn lemma_direct_numerator_bounds(sample: int, cfg: DeviceConfig)
    requires
        cfg.wf(),
        0 <= sample <= SCALE,
    ensures
        cfg.min_speed * SCALE <= (cfg.max_speed - cfg.min_speed) * sample + cfg.min_speed * SCALE
            <= cfg.max_speed * SCALE,
        0 <= direct_numerator(sample, cfg) <= 16830 * (SCALE as int) * (SCALE as int) * (
        SCALE as int),
{
    let d = (cfg.max_speed - cfg.min_speed) as int;
    let m = cfg.min_speed as int;
    let inner = d * sample + m * SCALE;
    assert(0 <= d * sample <= d * SCALE) by (nonlinear_arith)
        requires
            0 <= d,
            0 <= sample <= SCALE,
    ;
    assert(0 <= inner <= (SCALE as int) * (SCALE as int));
    let s = cfg.speed_scale as int;
    assert(0 <= inner * s <= (SCALE as int) * (SCALE as int) * (SCALE as int)) by (nonlinear_arith)
        requires
            0 <= inner <= (SCALE as int) * (SCALE as int),
            0 <= s <= SCALE,
    ;
    assert(direct_numerator(sample, cfg) == inner * s * 16830) by (nonlinear_arith)
        requires
            inner == d * sample + m * SCALE,
            d == cfg.max_speed - cfg.min_speed,
            m == cfg.min_speed,
            s == cfg.speed_scale,
    ;
}

/// Direct-mode actuation: the sample interpolates between `min_speed` and
/// `max_speed`, derated, scaled and rounded; the first nonzero sample after a
/// zero one is raised to `start_tx` when it falls short of it.
pub fn process_pat(proximity_signal: u32, device: &DeviceConfig, prev_signal: u32) -> (r: i32)
    requires
        device.wf(),
        proximity_signal <= SCALE,
    ensures
        r == direct_value(proximity_signal as int, prev_signal as int, *device),
        0 <= r <= MAX_ACTUATION,
{
    proof {
        lemma_direct_numerator_bounds(proximity_signal as int, *device);
    }
    let span = (device.max_speed - device.min_speed) as u64;
    let inner: u64 = span * (proximity_signal as u64) + (device.min_speed as u64) * (SCALE as u64);
    let numerator: u64 = inner * (device.speed_scale as u64) * MOTOR_SPEED_PERCENT * FULL_SCALE;
    let denominator: u64 = 100_000_000_000_000;
    assert(denominator == direct_denominator());
    let raw_u: u64 = (2 * numerator + denominator) / (2 * denominator);
    assert(raw_u <= 255) by {
        lemma_div_is_ordered(
            2 * numerator + denominator,
            2 * 16830 * (SCALE as int) * (SCALE as int) * (SCALE as int) + denominator,
            2 * denominator,
        );
    }
    let raw = raw_u as i32;
    let chosen: i32 = if prev_signal == 0 && proximity_signal > 0 && raw < device.start_tx {
        device.start_tx
    } else {
        raw
    };
    if chosen < 0 {
        0
    } else if chosen > MAX_ACTUATION {
        MAX_ACTUATION
    } else {
        chosen
    }
}

proof fn lemma_raw_direct_monotone(s1: int, s2: int, cfg: DeviceConfig)
    requires
        cfg.wf(),
        0 <= s1 <= s2 <= SCALE,
    ensures
        raw_direct(s1, cfg) <= raw_direct(s2, cfg),
{
    let d = (cfg.max_speed - cfg.min_speed) as int;
    assert(direct_numerator(s1, cfg) <= direct_numerator(s2, cfg)) by (nonlinear_arith)
        requires
            0 <= d,
            d == cfg.max_speed - cfg.min_speed,
            s1 <= s2,
            0 <= cfg.speed_scale,
    ;
    lemma_div_is_ordered(
        2 * direct_numerator(s1, cfg) + direct_denominator(),
        2 * direct_numerator(s2, cfg) + direct_denominator(),
        2 * direct_denominator(),
    );
}

/// `speed_level` written over the direct-mode denominator: numerator and
/// denominator both gain a factor `SCALE`.
proof fn lemma_speed_level_scaled(speed: int, cfg: DeviceConfig)
    requires
        0 <= speed,
        cfg.wf(),
    ensures
        speed_level(speed, cfg) == round_div(
            speed * SCALE * cfg.speed_scale * MOTOR_SPEED_PERCENT * FULL_SCALE,
            direct_denominator(),
        ),
{
    let u = SCALE as int;
    let a = 2 * (speed * cfg.speed_scale * MOTOR_SPEED_PERCENT * FULL_SCALE) + u * u * 100;
    let b = 2 * (u * u * 100);
    assert(0 <= speed * cfg.speed_scale) by (nonlinear_arith)
        requires
            0 <= speed,
            0 <= cfg.speed_scale,
    ;
    assert(2 * (speed * SCALE * cfg.speed_scale * MOTOR_SPEED_PERCENT * FULL_SCALE)
        + direct_denominator() == u * a) by (nonlinear_arith)
        requires
            u == SCALE,
            a == 2 * (speed * cfg.speed_scale * MOTOR_SPEED_PERCENT * FULL_SCALE) + u * u * 100,
    ;
    assert(2 * direct_denominator() == u * b) by (nonlinear_arith)
        requires
            u == SCALE,
            b == 2 * (u * u * 100),
    ;
    lemma_div_multiples_vanish(a, u);
    lemma_div_denominator(u * a, u, b);
}

/// With no startup kick in play (the previous sample equal to the current
/// one), a direct-mode output lies between the motor levels of `min_speed` and
/// `max_speed`.
pub proof fn lemma_direct_within_speed_levels(sample: int, cfg: DeviceConfig)
    requires
        cfg.wf(),
        0 <= sample <= SCALE,
    ensures
        speed_level(cfg.min_speed as int, cfg) <= direct_value(sample, sample, cfg),
        direct_value(sample, sample, cfg) <= speed_level(cfg.max_speed as int, cfg),
{
    lemma_direct_numerator_bounds(sample, cfg);
    lemma_raw_direct_monotone(0, sample, cfg);
    lemma_raw_direct_monotone(sample, SCALE as int, cfg);
    lemma_speed_level_scaled(cfg.min_speed as int, cfg);
    lemma_speed_level_scaled(cfg.max_speed as int, cfg);
    assert(direct_numerator(0, cfg) == cfg.min_speed * SCALE * cfg.speed_scale
        * MOTOR_SPEED_PERCENT * FULL_SCALE) by (nonlinear_arith);
    assert(direct_numerator(SCALE as int, cfg) == cfg.max_speed * SCALE * cfg.speed_scale
        * MOTOR_SPEED_PERCENT * FULL_SCALE) by (nonlinear_arith);
    let top = 2 * 16830 * (SCALE as int) * (SCALE as int) * (SCALE as int) + direct_denominator();
    lemma_fundamental_div_mod_converse_div(
        top,
        2 * direct_denominator(),
        168,
        160_000_000_000_000,
    );
    lemma_div_is_ordered(
        2 * direct_numerator(sample, cfg) + direct_denominator(),
        top,
        2 * direct_denominator(),
    );
    lemma_div_is_ordered(
        0,
        2 * direct_numerator(sample, cfg) + direct_denominator(),
        2 * direct_denominator(),
    );
    assert(0 <= raw_direct(sample, cfg) <= 255);
}

/// For a fixed configuration and previous sample, the direct-mode output never
/// decreases as the sample grows.
pub proof fn lemma_direct_monotone(s1: int, s2: int, prev: int, cfg: DeviceConfig)
    requires
        cfg.wf(),
        0 <= s1 <= s2 <= SCALE,
    ensures
        direct_value(s1, prev, cfg) <= direct_value(s2, prev, cfg),
{
    lemma_raw_direct_monotone(s1, s2, cfg);
    lemma_raw_direct_monotone(0, s1, cfg);
}

/// Factor `K` of the velocity-mode denominator `K * elapsed_ms`: five
/// fixed-point factors and the derating percentage.
pub open spec fn velocity_unit() -> int {
    (SCALE as int) * (SCALE as int) * (SCALE as int) * (SCALE as int) * (SCALE as int) * 100
}

/// Whether velocity mode responds: a rising sample strictly inside the band
/// `(outer_proximity, inner_proximity)` after a nonzero one.
pub open spec fn velocity_active(sample: int, prev: int, cfg: DeviceConfig) -> bool {
    sample > cfg.outer_proximity && sample < cfg.inner_proximity && prev > 0 && sample > prev
}

/// `(max - min) * velocity * min * 0.66 * speed_scale * 255`, where
/// `velocity = (sample - prev) / elapsed * velocity_scalar`, scaled by
/// `velocity_unit() * elapsed_ms` (the elapsed time counted in seconds).
///
/// Note the asymmetry with direct mode: here the span is multiplied by
/// `min_speed`, where direct mode adds `min_speed` to it. This looks
/// unintended, but it is the established behaviour of velocity mode and is
/// kept as it is rather than corrected.
pub open spec fn velocity_numerator(sample: int, prev: int, cfg: DeviceConfig) -> int {
    (cfg.max_speed - cfg.min_speed) * (sample - prev) * 1000 * cfg.velocity_scalar * cfg.min_speed
        * cfg.speed_scale * MOTOR_SPEED_PERCENT * FULL_SCALE
}

/// Velocity-mode actuation of `sample`, `elapsed_ms` after `prev`.
///
/// Outside the active condition the output is 0. An elapsed time of zero is an
/// unbounded velocity: the output saturates whenever the other factors are
/// nonzero.
pub open spec fn velocity_value(sample: int, prev: int, elapsed_ms: int, cfg: DeviceConfig) -> int {
    if !velocity_active(sample, prev, cfg) {
        0
    } else if elapsed_ms == 0 {
        if velocity_numerator(sample, prev, cfg) > 0 {
            MAX_ACTUATION as int
        } else {
            0
        }
    } else {
        clamp_actuation(
            round_div(velocity_numerator(sample, prev, cfg), velocity_unit() * elapsed_ms),
        )
    }
}

/// Velocity-mode actuation: only a rising sample inside the configured band
/// after a nonzero one produces output, proportional to the rate of rise
/// (with the `min_speed` factor noted at `velocity_numerator`).
pub fn process_pat_advanced(
    proximity_signal: u32,
    prev_signal: u32,
    delta_ms: u64,
    device: &DeviceConfig,
) -> (r: i32)
    requires
        device.wf(),
        proximity_signal <= SCALE,
        prev_signal <= SCALE,
    ensures
        r == velocity_value(proximity_signal as int, prev_signal as int, delta_ms as int, *device),
        0 <= r <= MAX_ACTUATION,
{
    if !(proximity_signal > device.outer_proximity && proximity_signal < device.inner_proximity
        && prev_signal > 0 && proximity_signal > prev_signal) {
        return 0;
    }
    let span = (device.max_speed - device.min_speed) as u128;
    let rise = (proximity_signal - prev_signal) as u128;
    let min = device.min_speed as u128;
    let scale = device.speed_scale as u128;
    let scalar = device.velocity_scalar as u128;
    assert(span * rise <= 100_000_000) by (nonlinear_arith)
        requires
            span <= 10000,
            rise <= 10000,
    ;
    let p1: u128 = span * rise;
    assert(p1 * min <= 1_000_000_000_000) by (nonlinear_arith)
        requires
            p1 <= 100_000_000,
            min <= 10000,
    ;
    let p2: u128 = p1 * min;
    assert(p2 * scale <= 10_000_000_000_000_000) by (nonlinear_arith)
        requires
            p2 <= 1_000_000_000_000,
            scale <= 10000,
    ;
    let p3: u128 = p2 * scale;
    assert(p3 * scalar <= 10_000_000_000_000_000 * 0xffff_ffff) by (nonlinear_arith)
        requires
            p3 <= 10_000_000_000_000_000,
            scalar <= 0xffff_ffff,
    ;
    let p4: u128 = p3 * scalar;
    assert(p4 * 16830000 <= 10_000_000_000_000_000 * 0xffff_ffff * 16830000) by (nonlinear_arith)
        requires
            p4 <= 10_000_000_000_000_000 * 0xffff_ffff,
    ;
    let numerator: u128 = p4 * 16830000;
    assert(numerator == velocity_numerator(proximity_signal as int, prev_signal as int, *device))
        by (nonlinear_arith)
        requires
            numerator == span * rise * min * scale * scalar * 16830000,
            span == device.max_speed - device.min_speed,
            rise == proximity_signal - prev_signal,
            min == device.min_speed,
            scale == device.speed_scale,
            scalar == device.velocity_scalar,
    ;
    if delta_ms == 0 {
        return if numerator > 0 {
            MAX_ACTUATION
        } else {
            0
        };
    }
    let unit: u128 = 10_000_000_000_000_000_000_000;
    assert(unit == velocity_unit());
    let halves: u128 = 2 * numerator / unit;
    let rounded: u128 = (halves + delta_ms as u128) / (2 * delta_ms as u128);
    proof {
        let n = numerator as int;
        let t = delta_ms as int;
        let k = unit as int;
        assert(k * t > 0) by (nonlinear_arith)
            requires
                k > 0,
                t > 0,
        ;
        lemma_hoist_over_denominator(2 * n, t, k as nat);
        lemma_div_denominator(2 * n + t * k, k, 2 * t);
        assert(k * (2 * t) == 2 * (k * t)) by (nonlinear_arith);
        assert(t * k == k * t) by (nonlinear_arith);
        assert(rounded == round_div(n, k * t));
    }
    if rounded > MAX_ACTUATION as u128 {
        MAX_ACTUATION
    } else {
        rounded as i32
    }
}

} // verus!
