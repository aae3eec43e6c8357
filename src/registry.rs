//! Connection registry: per-device delivery counters, the classification of
//! each delivery attempt, and the eviction of devices that went quiet.
//!
//! Time is a monotonic clock reading in milliseconds, supplied by the caller.
use vstd::prelude::*;

verus! {

/// Entries unused for this many milliseconds are evicted by a sweep.
pub const STALE_AFTER_MS: u64 = 300_000;

/// Delivery counters of one device endpoint.
#[derive(Clone, Copy, PartialEq, Eq, Structural, Debug)]
pub struct ConnectionInfo {
    pub last_used: u64,
    pub connection_count: u64,
    pub success_count: u64,
    pub error_count: u64,
}

/// How one delivery attempt ended.
#[derive(Clone, Copy, PartialEq, Eq, Structural, Debug)]
pub enum SendOutcome {
    Delivered,
    TransportFailed,
    TimedOut,
}

/// Why a delivery attempt failed.
#[derive(Clone, Copy, PartialEq, Eq, Structural, Debug)]
pub enum SendError {
    /// Binding, connecting or sending failed.
    Transport,
    /// Connecting or sending took longer than its bound.
    Timeout,
}

/// Counters of all device endpoints that have been used, one entry per
/// device address, in the order in which they were first used.
pub struct ConnectionManager {
    entries: Vec<(String, ConnectionInfo)>,
}

/// An entry of the registry as seen in contracts: address and counters.
pub type Entry = (Seq<char>, ConnectionInfo);

/// No address occurs twice.
pub open spec fn keys_unique(s: Seq<Entry>) -> bool {
    forall|i: int, j: int| 0 <= i < j < s.len() ==> s[i].0 != s[j].0
}

/// Neither the successes nor the errors of an entry exceed its attempts.
pub open spec fn counts_consistent(s: Seq<Entry>) -> bool {
    forall|i: int|
        #![trigger s[i]]
        0 <= i < s.len() ==> s[i].1.success_count <= s[i].1.connection_count
            && s[i].1.error_count <= s[i].1.connection_count
}

/// Position of the last entry for `key`.
pub open spec fn index_of_key(s: Seq<Entry>, key: Seq<char>) -> Option<int>
    decreases s.len(),
{
    if s.len() == 0 {
        None
    } else if s.last().0 == key {
        Some(s.len() - 1)
    } else {
        index_of_key(s.drop_last(), key)
    }
}

/// Adds one to a counter, staying at the top once there.
pub open spec fn bump(n: u64) -> u64 {
    if n == u64::MAX {
        n
    } else {
        (n + 1) as u64
    }
}

/// Counters of an address that has not been used before.
pub open spec fn fresh_info(now: u64) -> ConnectionInfo {
    ConnectionInfo { last_used: now, connection_count: 0, success_count: 0, error_count: 0 }
}

/// Counters after one more attempt at `now`.
pub open spec fn recorded(info: ConnectionInfo, success: bool, now: u64) -> ConnectionInfo {
    ConnectionInfo {
        last_used: now,
        connection_count: bump(info.connection_count),
        success_count: if success {
            bump(info.success_count)
        } else {
            info.success_count
        },
        error_count: if success {
            info.error_count
        } else {
            bump(info.error_count)
        },
    }
}

/// The registry after an attempt to `key` at `now`.
pub open spec fn after_attempt(s: Seq<Entry>, key: Seq<char>, success: bool, now: u64) -> Seq<
    Entry,
> {
    match index_of_key(s, key) {
        Some(i) => s.update(i, (key, recorded(s[i].1, success, now))),
        None => s.push((key, recorded(fresh_info(now), success, now))),
    }
}

/// Whether an entry has gone unused for `STALE_AFTER_MS` or more at `now`.
pub open spec fn is_stale(info: ConnectionInfo, now: u64) -> bool {
    now >= info.last_used && now - info.last_used >= STALE_AFTER_MS
}

/// Whether a sweep at `now` keeps an entry.
pub open spec fn keeps(now: u64) -> spec_fn(Entry) -> bool {
    |e: Entry| !is_stale(e.1, now)
}

/// The entries that a sweep at `now` keeps.
pub open spec fn kept_entries(s: Seq<Entry>, now: u64) -> Seq<Entry> {
    s.filter(keeps(now))
}

/// The error that a failed outcome reports.
pub open spec fn outcome_error(outcome: SendOutcome) -> Option<SendError> {
    match outcome {
        SendOutcome::Delivered => None,
        SendOutcome::TransportFailed => Some(SendError::Transport),
        SendOutcome::TimedOut => Some(SendError::Timeout),
    }
}

/// `success` out of `total` in tenths of a percent, rounded to the nearest
/// (halves up); zero when nothing was attempted.
pub open spec fn success_permille(total: int, success: int) -> int {
    if total == 0 {
        0
    } else {
        (2 * 1000 * success + total) / (2 * total)
    }
}

proof fn lemma_index_of_key_found(s: Seq<Entry>, key: Seq<char>, i: int)
    requires
        0 <= i < s.len(),
        s[i].0 == key,
        index_of_key(s, key) == index_of_key(s.subrange(0, i + 1), key),
    ensures
        index_of_key(s, key) == Some(i),
{
    assert(s.subrange(0, i + 1).last() == s[i]);
}

proof fn lemma_filter_keeps_keys_unique(s: Seq<Entry>, pred: spec_fn(Entry) -> bool)
    requires
        keys_unique(s),
    ensures
        keys_unique(s.filter(pred)),
    decreases s.len(),
{
    reveal(Seq::filter);
    if s.len() > 0 {
        let t = s.drop_last();
        assert(keys_unique(t));
        lemma_filter_keeps_keys_unique(t, pred);
        let f = t.filter(pred);
        if pred(s.last()) {
            assert forall|i: int| 0 <= i < f.len() implies f[i].0 != s.last().0 by {
                assert(f.contains(f[i]));
                t.lemma_filter_contains_rev(pred, f[i]);
                let j = choose|j: int| 0 <= j < t.len() && t[j] == f[i];
                assert(s[j] == t[j]);
            }
            assert(keys_unique(f.push(s.last())));
        }
    }
}

proof fn lemma_filter_keeps_counts_consistent(s: Seq<Entry>, pred: spec_fn(Entry) -> bool)
    requires
        counts_consistent(s),
    ensures
        counts_consistent(s.filter(pred)),
{
    let f = s.filter(pred);
    assert forall|k: int| 0 <= k < f.len() implies f[k].1.success_count
        <= f[k].1.connection_count && f[k].1.error_count <= f[k].1.connection_count by {
        assert(f.contains(f[k]));
        s.lemma_filter_contains_rev(pred, f[k]);
        let j = choose|j: int| 0 <= j < s.len() && s[j] == f[k];
        assert(s[j] == f[k]);
    }
}

impl View for ConnectionManager {
    type V = Seq<Entry>;

    closed spec fn view(&self) -> Seq<Entry> {
        self.entries@.map_values(|e: (String, ConnectionInfo)| (e.0@, e.1))
    }
}

impl ConnectionManager {
    /// One entry per address, with consistent counters.
    pub open spec fn wf(&self) -> bool {
        keys_unique(self@) && counts_consistent(self@)
    }

    /// An empty registry.
    pub fn new() -> (r: ConnectionManager)
        ensures
            r.wf(),
            r@ == Seq::<Entry>::empty(),
    {
        let r = ConnectionManager { entries: Vec::new() };
        assert(r@ =~= Seq::<Entry>::empty());
        r
    }

    /// Number of addresses held.
    pub fn len(&self) -> (r: usize)
        ensures
            r == self@.len(),
    {
        self.entries.len()
    }

    /// Records one delivery attempt to `device_ip` at `now`: the attempt
    /// count always grows, and the success or the error count according to
    /// `success`. An address not seen before gets a fresh entry.
    pub fn update_connection_info(&mut self, device_ip: &str, success: bool, now: u64)
        requires
            old(self).wf(),
        ensures
            final(self).wf(),
            final(self)@ == after_attempt(old(self)@, device_ip@, success, now),
    {
        let ghost s = self@;
        let needle = String::from_str(device_ip);
        let mut i = self.entries.len();
        assert(s.subrange(0, i as int) =~= s);
        while i > 0
            invariant
                i <= self.entries.len(),
                self@ == s,
                s == old(self)@,
                keys_unique(s),
                counts_consistent(s),
                needle@ == device_ip@,
                index_of_key(s, device_ip@) == index_of_key(s.subrange(0, i as int), device_ip@),
            decreases i,
        {
            let found = self.entries[i - 1].0.eq(&needle);
            if found {
                let ghost j = (i - 1) as int;
                assert(s[j].0 == device_ip@);
                proof {
                    lemma_index_of_key_found(s, device_ip@, j);
                }
                let old_info = self.entries[i - 1].1;
                let info = ConnectionInfo {
                    last_used: now,
                    connection_count: old_info.connection_count.saturating_add(1),
                    success_count: if success {
                        old_info.success_count.saturating_add(1)
                    } else {
                        old_info.success_count
                    },
                    error_count: if success {
                        old_info.error_count
                    } else {
                        old_info.error_count.saturating_add(1)
                    },
                };
                let name = self.entries[i - 1].0.clone();
                assert(info == recorded(s[j].1, success, now));
                self.entries.set(i - 1, (name, info));
                assert(self@ =~= s.update(j, (device_ip@, recorded(s[j].1, success, now))));
                assert(self@ =~= after_attempt(s, device_ip@, success, now));
                assert forall|a: int, b: int| 0 <= a < b < self@.len() implies self@[a].0
                    != self@[b].0 by {
                    assert(self@[a].0 == s[a].0);
                    assert(self@[b].0 == s[b].0);
                }
                return ;
            }
            assert(s.subrange(0, i as int).drop_last() =~= s.subrange(0, i - 1));
            i = i - 1;
        }
        assert(index_of_key(s, device_ip@) == None::<int>) by {
            assert(s.subrange(0, 0) =~= Seq::<Entry>::empty());
        }
        let info = ConnectionInfo {
            last_used: now,
            connection_count: 1,
            success_count: if success {
                1
            } else {
                0
            },
            error_count: if success {
                0
            } else {
                1
            },
        };
        self.entries.push((needle, info));
        assert(self@ =~= after_attempt(s, device_ip@, success, now));
        assert forall|a: int, b: int| 0 <= a < b < self@.len() implies self@[a].0 != self@[b].0 by {
            if b == s.len() {
                if s[a].0 == device_ip@ {
                    assert(index_of_key(s, device_ip@).is_some()) by {
                        lemma_last_match_exists(s, device_ip@, a);
                    }
                }
            }
        }
    }

    /// Records how one delivery attempt to `device_ip` ended and reports it
    /// as a result: success counts only for `Delivered`, and a failure
    /// reports whether it was a timeout.
    pub fn record_send(&mut self, device_ip: &str, outcome: SendOutcome, now: u64) -> (r: Result<
        (),
        SendError,
    >)
        requires
            old(self).wf(),
        ensures
            final(self).wf(),
            final(self)@ == after_attempt(
                old(self)@,
                device_ip@,
                outcome == SendOutcome::Delivered,
                now,
            ),
            r == (match outcome_error(outcome) {
                None => Ok(()),
                Some(e) => Err(e),
            }),
    {
        match outcome {
            SendOutcome::Delivered => {
                self.update_connection_info(device_ip, true, now);
                Ok(())
            },
            SendOutcome::TransportFailed => {
                self.update_connection_info(device_ip, false, now);
                Err(SendError::Transport)
            },
            SendOutcome::TimedOut => {
                self.update_connection_info(device_ip, false, now);
                Err(SendError::Timeout)
            },
        }
    }

    /// Evicts every entry that has gone unused for `STALE_AFTER_MS` or more,
    /// keeping the others in order, and returns how many were evicted.
    pub fn cleanup_old_connections(&mut self, now: u64) -> (removed: usize)
        requires
            old(self).wf(),
        ensures
            final(self).wf(),
            final(self)@ == kept_entries(old(self)@, now),
            removed == old(self)@.len() - final(self)@.len(),
    {
        let ghost s = self@;
        let ghost pred = keeps(now);
        let n = self.entries.len();
        let mut kept: Vec<(String, ConnectionInfo)> = Vec::new();
        let mut i: usize = 0;
        while i < n
            invariant
                n == self.entries.len(),
                self@ == s,
                i <= n,
                kept@.map_values(|e: (String, ConnectionInfo)| (e.0@, e.1)) == s.subrange(
                    0,
                    i as int,
                ).filter(keeps(now)),
            decreases n - i,
        {
            let info = self.entries[i].1;
            let stale = now >= info.last_used && now - info.last_used >= STALE_AFTER_MS;
            let ghost before = kept@;
            let ghost f = |e: (String, ConnectionInfo)| (e.0@, e.1);
            assert(s[i as int] == (self.entries@[i as int].0@, info));
            assert(keeps(now)(s[i as int]) == !stale);
            if !stale {
                let name = self.entries[i].0.clone();
                kept.push((name, info));
                assert(kept@.map_values(f) =~= before.map_values(f).push(s[i as int]));
            }
            proof {
                reveal(Seq::filter);
                let t = s.subrange(0, i + 1);
                assert(t.drop_last() =~= s.subrange(0, i as int));
                assert(t.last() == s[i as int]);
                assert(kept@.map_values(f) =~= t.filter(keeps(now)));
            }
            i = i + 1;
        }
        assert(s.subrange(0, n as int) =~= s);
        let before_len = self.entries.len();
        self.entries = kept;
        proof {
            lemma_filter_keeps_keys_unique(s, pred);
            lemma_filter_keeps_counts_consistent(s, pred);
            s.lemma_filter_len(pred);
        }
        assert(self@ == kept_entries(s, now));
        before_len - self.entries.len()
    }

    /// The counters of every address, as `(address, (attempts, successes,
    /// errors))`, in registry order.
    pub fn get_stats(&self) -> (r: Vec<(String, (u64, u64, u64))>)
        ensures
            r@.len() == self@.len(),
            forall|i: int|
                #![trigger r@[i]]
                0 <= i < r@.len() ==> r@[i].0@ == self@[i].0 && r@[i].1 == (
                    self@[i].1.connection_count,
                    self@[i].1.success_count,
                    self@[i].1.error_count,
                ),
    {
        let mut r: Vec<(String, (u64, u64, u64))> = Vec::new();
        let mut i: usize = 0;
        while i < self.entries.len()
            invariant
                i <= self.entries.len(),
                r@.len() == i,
                forall|k: int|
                    #![trigger r@[k]]
                    0 <= k < i ==> r@[k].0@ == self@[k].0 && r@[k].1 == (
                        self@[k].1.connection_count,
                        self@[k].1.success_count,
                        self@[k].1.error_count,
                    ),
            decreases self.entries.len() - i,
        {
            let info = self.entries[i].1;
            let name = self.entries[i].0.clone();
            r.push((name, (info.connection_count, info.success_count, info.error_count)));
            i = i + 1;
        }
        r
    }
}

proof fn lemma_last_match_exists(s: Seq<Entry>, key: Seq<char>, a: int)
    requires
        0 <= a < s.len(),
        s[a].0 == key,
    ensures
        index_of_key(s, key).is_some(),
    decreases s.len(),
{
    if s.last().0 != key {
        assert(s.drop_last()[a] == s[a]);
        lemma_last_match_exists(s.drop_last(), key, a);
    }
}

/// Share of successful attempts, in tenths of a percent, rounded to the
/// nearest; zero when nothing was attempted.
pub fn success_rate_permille(total: u64, success: u64) -> (r: u64)
    requires
        success <= total,
    ensures
        r == success_permille(total as int, success as int),
        r <= 1000,
{
    if total == 0 {
        0
    } else {
        let t = total as u128;
        let num: u128 = 2000 * (success as u128) + t;
        let q = num / (2 * t);
        assert(q <= 1000) by (nonlinear_arith)
            requires
                q as int == (num as int) / (2 * (t as int)),
                num as int == 2000 * (success as int) + (t as int),
                t >= 1,
                success as int <= t as int,
        ;
        q as u64
    }
}

} // verus!
