//! Per-device runtime state and the decisions taken on it: the reaction to an
//! inbound sample, the stop worker's cancellation, and the timeout watchdog.
//!
//! Time is a monotonic clock reading in milliseconds, supplied by the caller.
use vstd::prelude::*;
use vstd::arithmetic::div_mod::{lemma_fundamental_div_mod, lemma_fundamental_div_mod_converse};

use crate::config::{DeviceConfig, SCALE};
use crate::signal::{direct_value, process_pat, process_pat_advanced, velocity_value};

verus! {

/// Number of zero commands sent at once when a device's signal drops to zero.
pub const STOP_BURST: usize = 5;

/// Milliseconds in one second.
pub const MILLIS_PER_SECOND: u64 = 1000;

/// Mutable state of one device.
///
/// `stop_worker_generation` identifies the most recently started stop worker:
/// a worker keeps sending only while the flag is set and the generation it was
/// started with is still the current one, so a restarted worker never runs
/// beside an older one.
#[derive(Clone, Copy, PartialEq, Eq, Structural, Debug)]
pub struct DeviceRuntime {
    pub last_signal_time: Option<u64>,
    pub last_value: u32,
    pub stop_worker_active: bool,
    pub stop_worker_generation: u64,
}

/// What the caller must carry out after a sample was taken in.
#[derive(Debug)]
pub struct SampleOutcome {
    /// A stop worker to spawn, with the generation it must check against.
    pub spawn_worker: Option<u64>,
    /// Actuation values to send to the device, in order.
    pub sends: Vec<i32>,
}

/// Milliseconds from `last` to `now`; zero when there is no earlier reading or
/// the clock reads earlier than it.
pub open spec fn elapsed_ms(last: Option<u64>, now: u64) -> int {
    match last {
        None => 0,
        Some(t) => if now >= t {
            now - t
        } else {
            0
        },
    }
}

/// The generation that follows `g`, wrapping around at the top.
pub open spec fn next_generation(g: u64) -> u64 {
    if g == u64::MAX {
        0
    } else {
        (g + 1) as u64
    }
}

/// Actuation of a nonzero sample in the mode that the device is set to.
pub open spec fn actuation_value(sample: int, prev: int, elapsed: int, cfg: DeviceConfig) -> int {
    if cfg.use_velocity_control {
        velocity_value(sample, prev, elapsed, cfg)
    } else {
        direct_value(sample, prev, cfg)
    }
}

/// Whether a sample of `value` starts a new stop worker: the signal dropped
/// to zero and no worker is running.
pub open spec fn spawns_worker(rt: DeviceRuntime, value: u32) -> bool {
    value == 0 && !rt.stop_worker_active
}

/// The device's state after taking in a sample of `value` at `now`.
pub open spec fn after_sample(rt: DeviceRuntime, value: u32, now: u64) -> DeviceRuntime {
    DeviceRuntime {
        last_signal_time: Some(now),
        last_value: value,
        stop_worker_active: value == 0,
        stop_worker_generation: if spawns_worker(rt, value) {
            next_generation(rt.stop_worker_generation)
        } else {
            rt.stop_worker_generation
        },
    }
}

/// The commands that a sample of `value` sends: a burst of zeros when it is
/// zero, otherwise its actuation value.
pub open spec fn sample_sends(rt: DeviceRuntime, value: u32, now: u64, cfg: DeviceConfig) -> Seq<
    i32,
> {
    if value == 0 {
        Seq::new(STOP_BURST as nat, |_i: int| 0i32)
    } else {
        seq![
            actuation_value(
                value as int,
                rt.last_value as int,
                elapsed_ms(rt.last_signal_time, now),
                cfg,
            ) as i32,
        ]
    }
}

/// Whether the watchdog fires at `now`: the silence since the last signal has
/// lasted `timeout_secs` seconds or more.
pub open spec fn watchdog_fires(rt: DeviceRuntime, now: u64, timeout_secs: u64) -> bool {
    elapsed_ms(rt.last_signal_time, now) >= timeout_secs * MILLIS_PER_SECOND
}

fn elapsed_since(last: Option<u64>, now: u64) -> (r: u64)
    ensures
        r == elapsed_ms(last, now),
{
    match last {
        None => 0,
        Some(t) => if now >= t {
            now - t
        } else {
            0
        },
    }
}

impl DeviceRuntime {
    /// The last sample is a fraction in `[0, 1]`.
    pub open spec fn wf(&self) -> bool {
        self.last_value <= SCALE
    }

    /// A device that has not been heard from yet.
    pub fn new() -> (r: DeviceRuntime)
        ensures
            r.last_signal_time.is_none(),
            r.last_value == 0,
            !r.stop_worker_active,
            r.stop_worker_generation == 0,
            r.wf(),
    {
        DeviceRuntime {
            last_signal_time: None,
            last_value: 0,
            stop_worker_active: false,
            stop_worker_generation: 0,
        }
    }

    /// Takes in a proximity sample for this device.
    ///
    /// Any running stop worker is cancelled first and the signal time and
    /// value are recorded. A zero sample starts the stop worker (unless one is
    /// running) and asks for a burst of zero commands; a nonzero one asks for
    /// its actuation value, computed from the previous sample and, in velocity
    /// mode, the time since it.
    pub fn handle_proximity_parameter(&mut self, value: u32, device: &DeviceConfig, now: u64) -> (r:
        SampleOutcome)
        requires
            device.wf(),
            value <= SCALE,
            old(self).wf(),
        ensures
            final(self).wf(),
            *final(self) == after_sample(*old(self), value, now),
            r.spawn_worker == (if spawns_worker(*old(self), value) {
                Some(final(self).stop_worker_generation)
            } else {
                None::<u64>
            }),
            r.sends@ == sample_sends(*old(self), value, now, *device),
    {
        let was_active = self.stop_worker_active;
        self.stop_worker_active = false;
        let elapsed = elapsed_since(self.last_signal_time, now);
        self.last_signal_time = Some(now);
        let prev = self.last_value;
        self.last_value = value;
        let mut sends: Vec<i32> = Vec::new();
        if value == 0 {
            self.stop_worker_active = true;
            let spawn = if was_active {
                None
            } else {
                self.stop_worker_generation = if self.stop_worker_generation == u64::MAX {
                    0
                } else {
                    self.stop_worker_generation + 1
                };
                Some(self.stop_worker_generation)
            };
            let mut i: usize = 0;
            while i < STOP_BURST
                invariant
                    i <= STOP_BURST,
                    sends@ == Seq::new(i as nat, |_i: int| 0i32),
                decreases STOP_BURST - i,
            {
                sends.push(0);
                i = i + 1;
                assert(sends@ =~= Seq::new(i as nat, |_i: int| 0i32));
            }
            SampleOutcome { spawn_worker: spawn, sends }
        } else {
            let tx = if device.use_velocity_control {
                process_pat_advanced(value, prev, elapsed, device)
            } else {
                process_pat(value, device, prev)
            };
            sends.push(tx);
            assert(sends@ =~= sample_sends(*old(self), value, now, *device));
            SampleOutcome { spawn_worker: None, sends }
        }
    }

    /// Whether the stop worker started with `generation` sends another zero
    /// command; once this is false the worker ends.
    pub fn worker_should_send(&self, generation: u64) -> (r: bool)
        ensures
            r == (self.stop_worker_active && self.stop_worker_generation == generation),
    {
        self.stop_worker_active && self.stop_worker_generation == generation
    }

    /// One watchdog check at `now`. When the silence has lasted `timeout_secs`
    /// seconds or more, the device must be sent a zero command, and the signal
    /// time is reset to `now` so that the next firing takes another full
    /// timeout.
    pub fn watchdog_tick(&mut self, now: u64, timeout_secs: u64) -> (r: bool)
        requires
            old(self).wf(),
        ensures
            final(self).wf(),
            r == watchdog_fires(*old(self), now, timeout_secs),
            *final(self) == (if r {
                DeviceRuntime { last_signal_time: Some(now), ..*old(self) }
            } else {
                *old(self)
            }),
    {
        let elapsed = elapsed_since(self.last_signal_time, now);
        let fires = elapsed / MILLIS_PER_SECOND >= timeout_secs;
        assert(fires == (elapsed >= timeout_secs * MILLIS_PER_SECOND)) by (nonlinear_arith)
            requires
                fires == (elapsed / MILLIS_PER_SECOND >= timeout_secs),
                MILLIS_PER_SECOND == 1000,
        ;
        if fires {
            self.last_signal_time = Some(now);
        }
        fires
    }
}

/// A zero sample leaves a stop worker running, so a second zero sample in a
/// row starts no further worker, and the worker started by the first keeps
/// sending.
pub proof fn lemma_stop_worker_idempotent(rt: DeviceRuntime, t1: u64, t2: u64)
    ensures
        after_sample(rt, 0, t1).stop_worker_active,
        !spawns_worker(after_sample(rt, 0, t1), 0),
        after_sample(after_sample(rt, 0, t1), 0, t2) == (DeviceRuntime {
            last_signal_time: Some(t2),
            ..after_sample(rt, 0, t1)
        }),
{
}

/// Once a stop worker runs, it keeps sending through any number of further
/// zero samples, and the first nonzero sample ends it.
pub proof fn lemma_stop_worker_lifetime(rt: DeviceRuntime, value: u32, now: u64, generation: u64)
    requires
        rt.stop_worker_active,
        rt.stop_worker_generation == generation,
    ensures
        value == 0 ==> after_sample(rt, value, now).stop_worker_active && after_sample(
            rt,
            value,
            now,
        ).stop_worker_generation == generation,
        value != 0 ==> !after_sample(rt, value, now).stop_worker_active,
{
}

/// After the watchdog fires at `t`, it stays quiet until another full timeout
/// has passed without a sample.
pub proof fn lemma_watchdog_quiet_after_firing(rt: DeviceRuntime, t: u64, later: u64, timeout_secs: u64)
    requires
        t <= later,
        later - t < timeout_secs * MILLIS_PER_SECOND,
    ensures
        !watchdog_fires(DeviceRuntime { last_signal_time: Some(t), ..rt }, later, timeout_secs),
{
}

/// Time of the `k`-th watchdog check when checks come one second apart, the
/// first one second after `base`.
pub open spec fn check_time(base: u64, k: nat) -> u64 {
    (base + MILLIS_PER_SECOND * k) as u64
}

/// The device's state after `k` watchdog checks one second apart (the first
/// one second after `base`) with no sample in between.
pub open spec fn after_checks(rt: DeviceRuntime, base: u64, k: nat, timeout_secs: u64) -> DeviceRuntime
    decreases k,
{
    if k == 0 {
        rt
    } else {
        let prev = after_checks(rt, base, (k - 1) as nat, timeout_secs);
        let now = check_time(base, k);
        if watchdog_fires(prev, now, timeout_secs) {
            DeviceRuntime { last_signal_time: Some(now), ..prev }
        } else {
            prev
        }
    }
}

/// A silent device whose last sample came at `t0`, checked once a second
/// starting at any phase `base` within the second after `t0`, is stopped at
/// exactly every `timeout_secs`-th check, so at `base + j * timeout_secs`
/// seconds, each less than one second after `t0 + j * timeout_secs` seconds;
/// at no other check.
pub proof fn lemma_watchdog_fires_every_timeout(
    rt: DeviceRuntime,
    t0: u64,
    base: u64,
    k: nat,
    timeout_secs: u64,
)
    requires
        rt.last_signal_time == Some(t0),
        t0 <= base < t0 + MILLIS_PER_SECOND,
        timeout_secs >= 1,
        base + MILLIS_PER_SECOND * k <= u64::MAX,
    ensures
        k >= 1 ==> (watchdog_fires(
            after_checks(rt, base, (k - 1) as nat, timeout_secs),
            check_time(base, k),
            timeout_secs,
        ) <==> (k as int) % (timeout_secs as int) == 0),
        after_checks(rt, base, k, timeout_secs).last_signal_time == (if (k as int) / (timeout_secs as int)
            == 0 {
            Some(t0)
        } else {
            Some(check_time(base, (((k as int) / (timeout_secs as int)) * timeout_secs) as nat))
        }),
    decreases k,
{
    let t = timeout_secs as int;
    if k > 0 {
        let j = (k - 1) as nat;
        lemma_watchdog_fires_every_timeout(rt, t0, base, j, timeout_secs);
        lemma_fundamental_div_mod(j as int, t);
        let q = j as int / t;
        let r = j as int % t;
        assert(0 <= r < t);
        assert(q >= 0) by {
            vstd::arithmetic::div_mod::lemma_div_pos_is_pos(j as int, t);
        }
        assert(j == t * q + r);
        let m = q * t;
        assert(m == t * q) by (nonlinear_arith)
            requires
                m == q * t,
        ;
        assert(0 <= m <= j) by (nonlinear_arith)
            requires
                m == t * q,
                j == t * q + r,
                q >= 0,
                t >= 1,
                r >= 0,
        ;
        let prev = after_checks(rt, base, j, timeout_secs);
        let now = check_time(base, k);
        assert(now == base + MILLIS_PER_SECOND * k);
        if q == 0 {
            assert(prev.last_signal_time == Some(t0));
            assert(t * q == 0) by (nonlinear_arith)
                requires
                    q == 0,
            ;
            assert(k == r + 1);
            assert(watchdog_fires(prev, now, timeout_secs) <==> r == t - 1);
        } else {
            assert(prev.last_signal_time == Some(check_time(base, m as nat)));
            assert(k - m == r + 1);
            assert(watchdog_fires(prev, now, timeout_secs) <==> r == t - 1);
        }
        if r == t - 1 {
            assert(k == (q + 1) * t + 0) by (nonlinear_arith)
                requires
                    j == t * q + r,
                    r == t - 1,
                    k == j + 1,
            ;
            lemma_fundamental_div_mod_converse(k as int, t, q + 1, 0);
            assert(k as int / t * t == k) by (nonlinear_arith)
                requires
                    k as int / t == q + 1,
                    k == (q + 1) * t,
            ;
        } else {
            assert(k == q * t + (r + 1)) by (nonlinear_arith)
                requires
                    j == t * q + r,
                    k == j + 1,
            ;
            lemma_fundamental_div_mod_converse(k as int, t, q, r + 1);
            assert(k as int / t * t == m);
        }
    }
}

} // verus!
