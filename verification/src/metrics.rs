//! Per-instance traffic counters, the derived statistics snapshot, and the
//! process-wide system metrics aggregation.

use vstd::prelude::*;

verus! {

/// Traffic counters of one instance. Byte counters saturate at the maximum
/// instead of overflowing; connection and error counters saturate as well.
#[derive(Clone, Copy, PartialEq, Eq, Structural, Debug)]
pub struct InstanceMetrics {
    pub bytes_sent: u64,
    pub bytes_received: u64,
    pub connections_active: u32,
    pub connections_total: u32,
    pub errors: u32,
}

/// Statistics derived from the counters of one instance. Rates are integer
/// bytes per second; the error rate is given per thousand connections.
#[derive(Clone, Copy, PartialEq, Eq, Structural, Debug)]
pub struct InstanceStats {
    pub bytes_sent: u64,
    pub bytes_received: u64,
    pub connections_active: u32,
    pub connections_total: u32,
    pub errors: u32,
    pub bytes_sent_per_sec: u64,
    pub bytes_received_per_sec: u64,
    pub error_rate_permille: u64,
}

impl InstanceMetrics {
    /// Fresh counters, all zero.
    pub fn new() -> (r: InstanceMetrics)
        ensures
            r == (InstanceMetrics {
                bytes_sent: 0,
                bytes_received: 0,
                connections_active: 0,
                connections_total: 0,
                errors: 0,
            }),
    {
        InstanceMetrics {
            bytes_sent: 0,
            bytes_received: 0,
            connections_active: 0,
            connections_total: 0,
            errors: 0,
        }
    }

    /// Add to the bytes-sent counter, clamping at the maximum.
    pub fn add_bytes_sent(&mut self, bytes: u64)
        ensures
            *final(self) == (InstanceMetrics {
                bytes_sent: if old(self).bytes_sent + bytes > u64::MAX {
                    u64::MAX
                } else {
                    (old(self).bytes_sent + bytes) as u64
                },
                ..*old(self)
            }),
    {
        self.bytes_sent = self.bytes_sent.saturating_add(bytes);
    }

    /// Add to the bytes-received counter, clamping at the maximum.
    pub fn add_bytes_received(&mut self, bytes: u64)
        ensures
            *final(self) == (InstanceMetrics {
                bytes_received: if old(self).bytes_received + bytes > u64::MAX {
                    u64::MAX
                } else {
                    (old(self).bytes_received + bytes) as u64
                },
                ..*old(self)
            }),
    {
        self.bytes_received = self.bytes_received.saturating_add(bytes);
    }

    /// Record one failed connection attempt, clamping at the maximum.
    pub fn add_error(&mut self)
        ensures
            *final(self) == (InstanceMetrics {
                errors: if old(self).errors + 1 > u32::MAX {
                    u32::MAX
                } else {
                    (old(self).errors + 1) as u32
                },
                ..*old(self)
            }),
    {
        self.errors = self.errors.saturating_add(1);
    }

    /// Record an accepted connection: one more active, one more in total.
    pub fn connection_opened(&mut self)
        ensures
            *final(self) == (InstanceMetrics {
                connections_active: if old(self).connections_active + 1 > u32::MAX {
                    u32::MAX
                } else {
                    (old(self).connections_active + 1) as u32
                },
                connections_total: if old(self).connections_total + 1 > u32::MAX {
                    u32::MAX
                } else {
                    (old(self).connections_total + 1) as u32
                },
                ..*old(self)
            }),
    {
        self.connections_active = self.connections_active.saturating_add(1);
        self.connections_total = self.connections_total.saturating_add(1);
    }

    /// Record a closed connection: one fewer active, never below zero.
    pub fn connection_closed(&mut self)
        ensures
            *final(self) == (InstanceMetrics {
                connections_active: if old(self).connections_active >= 1 {
                    (old(self).connections_active - 1) as u32
                } else {
                    0
                },
                ..*old(self)
            }),
    {
        self.connections_active = self.connections_active.saturating_sub(1);
    }

    /// The error rate per thousand connections: errors against at least one
    /// connection, so that the count shows even before a connection is
    /// recorded.
    pub open spec fn spec_error_rate_permille(errors: u32, connections_total: u32) -> int {
        errors * 1000 / (if connections_total == 0 {
            1int
        } else {
            connections_total as int
        })
    }

    /// The uptime a snapshot is computed against: the seconds from
    /// `started_at` to `now`, at least one so that rates are well defined.
    pub open spec fn spec_uptime_seconds(started_at: i64, now: i64) -> int {
        if now - started_at < 1 {
            1
        } else if now - started_at > u64::MAX {
            u64::MAX as int
        } else {
            now - started_at
        }
    }

    /// Derive the statistics snapshot. Rates are counted against the time
    /// since `started_at`; a stopped instance (no start time) reports zero
    /// rates. The error rate is errors per thousand connections, against at
    /// least one connection, so connect failures show even while nothing has
    /// connected.
    pub fn get_stats(&self, started_at: Option<i64>, now: i64) -> (r: InstanceStats)
        ensures
            r.bytes_sent == self.bytes_sent,
            r.bytes_received == self.bytes_received,
            r.connections_active == self.connections_active,
            r.connections_total == self.connections_total,
            r.errors == self.errors,
            match started_at {
                Some(started) => {
                    &&& r.bytes_sent_per_sec == self.bytes_sent as int / Self::spec_uptime_seconds(started, now)
                    &&& r.bytes_received_per_sec == self.bytes_received as int / Self::spec_uptime_seconds(started, now)
                },
                None => r.bytes_sent_per_sec == 0 && r.bytes_received_per_sec == 0,
            },
            r.error_rate_permille == Self::spec_error_rate_permille(
                self.errors,
                self.connections_total,
            ),
    {
        let (sent_rate, received_rate): (u64, u64) = match started_at {
            Some(started) => {
                let diff: i128 = now as i128 - started as i128;
                let secs: u64 = if diff < 1 {
                    1
                } else if diff > u64::MAX as i128 {
                    u64::MAX
                } else {
                    diff as u64
                };
                (self.bytes_sent / secs, self.bytes_received / secs)
            },
            None => (0, 0),
        };
        let denominator: u64 = if self.connections_total == 0 {
            1
        } else {
            self.connections_total as u64
        };
        let error_rate: u64 = (self.errors as u64) * 1000 / denominator;
        InstanceStats {
            bytes_sent: self.bytes_sent,
            bytes_received: self.bytes_received,
            connections_active: self.connections_active,
            connections_total: self.connections_total,
            errors: self.errors,
            bytes_sent_per_sec: sent_rate,
            bytes_received_per_sec: received_rate,
            error_rate_permille: error_rate,
        }
    }
}

/// Process-wide metrics captured by the periodic collector.
#[derive(Clone, Copy, PartialEq, Eq, Structural, Debug)]
pub struct SystemMetrics {
    pub uptime_seconds: u64,
    pub total_memory_mb: u64,
    pub used_memory_mb: u64,
    pub cpu_usage_percent: u64,
    pub active_connections: u32,
    pub last_updated: i64,
}

/// Session-tracking figures of one running forwarder.
#[derive(Clone, Copy, PartialEq, Eq, Structural, Debug)]
pub struct SessionMetrics {
    pub session_timeout_seconds: u64,
    pub cleanup_interval_seconds: u64,
    pub active_sessions: usize,
}

/// Relies on sys_info::mem_info: the machine's total and free memory in
/// kilobytes. The values depend on the machine's state, so nothing is
/// promised of them; `None` when the operating system refuses the query.
#[verifier::external_body]
fn read_memory_info() -> Option<(u64, u64)> {
    match sys_info::mem_info() {
        Ok(info) => Some((info.total, info.free)),
        Err(_) => None,
    }
}

/// Counters of every registered instance plus the most recent system
/// snapshot.
pub struct MetricsManager {
    instances: Vec<(u128, InstanceMetrics)>,
    system_metrics: SystemMetrics,
}

impl MetricsManager {
    /// Whether counters are registered for the id.
    pub closed spec fn spec_has(self, id: u128) -> bool {
        exists|k: int| 0 <= k < self.instances@.len() && (#[trigger] self.instances@[k]).0 == id
    }

    /// The counters registered for the id.
    pub closed spec fn spec_get(self, id: u128) -> InstanceMetrics {
        self.instances@[choose|k: int| 0 <= k < self.instances@.len() && (#[trigger] self.instances@[k]).0 == id].1
    }

    /// The most recent system snapshot.
    pub closed spec fn spec_system_metrics(self) -> SystemMetrics {
        self.system_metrics
    }

    /// Each registered instance appears once.
    pub closed spec fn wf(self) -> bool {
        forall|i: int, j: int| 0 <= i < j < self.instances@.len()
            ==> (#[trigger] self.instances@[i]).0 != (#[trigger] self.instances@[j]).0
    }

    /// A manager with no registered instance and a zeroed snapshot.
    pub fn new(now: i64) -> (r: MetricsManager)
        ensures
            r.wf(),
            forall|x: u128| !r.spec_has(x),
            r.spec_system_metrics() == (SystemMetrics {
                uptime_seconds: 0,
                total_memory_mb: 0,
                used_memory_mb: 0,
                cpu_usage_percent: 0,
                active_connections: 0,
                last_updated: now,
            }),
    {
        MetricsManager {
            instances: Vec::new(),
            system_metrics: SystemMetrics {
                uptime_seconds: 0,
                total_memory_mb: 0,
                used_memory_mb: 0,
                cpu_usage_percent: 0,
                active_connections: 0,
                last_updated: now,
            },
        }
    }

    /// Register an instance with zeroed counters; an already registered id is
    /// reset.
    pub fn register_instance(&mut self, instance_id: u128)
        requires
            old(self).wf(),
        ensures
            final(self).wf(),
            final(self).spec_has(instance_id),
            final(self).spec_get(instance_id) == InstanceMetrics::spec_zero(),
            forall|x: u128| x != instance_id ==> final(self).spec_has(x) == old(self).spec_has(x),
            forall|x: u128| x != instance_id && old(self).spec_has(x) ==> final(self).spec_get(x) == old(self).spec_get(x),
            final(self).spec_system_metrics() == old(self).spec_system_metrics(),
    {
        self.unregister_instance(instance_id);
        let ghost mid = *self;
        self.instances.push((instance_id, InstanceMetrics::new()));
        proof {
            let n = self.instances@.len();
            assert(self.instances@[n - 1].0 == instance_id);
            assert(self.spec_has(instance_id));
            assert forall|k: int| 0 <= k < n && (#[trigger] self.instances@[k]).0 == instance_id
                implies self.instances@[k].1 == InstanceMetrics::spec_zero() by {
                if k < n - 1 {
                    assert(mid.instances@[k].0 == instance_id);
                    assert(mid.spec_has(instance_id));
                }
            }
            assert forall|x: u128| x != instance_id && #[trigger] self.spec_has(x)
                implies mid.spec_has(x) && self.spec_get(x) == mid.spec_get(x) by {
                let k = choose|k: int| 0 <= k < n && (#[trigger] self.instances@[k]).0 == x;
                assert(k < n - 1);
                assert(mid.instances@[k].0 == x);
                assert(mid.spec_has(x));
                lemma_unique_get(mid.instances@, x, k);
                lemma_unique_get(self.instances@, x, k);
            }
            assert forall|x: u128| x != instance_id && #[trigger] mid.spec_has(x)
                implies self.spec_has(x) by {
                let k = choose|k: int| 0 <= k < mid.instances@.len() && (#[trigger] mid.instances@[k]).0 == x;
                assert(self.instances@[k].0 == x);
            }
        }
    }

    /// Remove an instance's counters; unknown ids are a no-op.
    pub fn unregister_instance(&mut self, instance_id: u128)
        requires
            old(self).wf(),
        ensures
            final(self).wf(),
            !final(self).spec_has(instance_id),
            forall|x: u128| x != instance_id ==> final(self).spec_has(x) == old(self).spec_has(x),
            forall|x: u128| x != instance_id && old(self).spec_has(x) ==> final(self).spec_get(x) == old(self).spec_get(x),
            final(self).spec_system_metrics() == old(self).spec_system_metrics(),
    {
        let n = self.instances.len();
        let mut i: usize = 0;
        while i < n
            invariant
                self == old(self),
                old(self).wf(),
                n == self.instances@.len(),
                0 <= i <= n,
                forall|k: int| 0 <= k < i ==> (#[trigger] self.instances@[k]).0 != instance_id,
            decreases n - i,
        {
            if self.instances[i].0 == instance_id {
                self.instances.remove(i);
                proof {
                    let s_old = old(self).instances@;
                    let s_new = self.instances@;
                    s_old.remove_ensures(i as int);
                    assert forall|a: int, b: int| 0 <= a < b < s_new.len()
                        implies (#[trigger] s_new[a]).0 != (#[trigger] s_new[b]).0 by {
                        let a0: int = if a < i { a } else { a + 1 };
                        let b0: int = if b < i { b } else { b + 1 };
                        assert(s_new[a] == s_old[a0]);
                        assert(s_new[b] == s_old[b0]);
                    }
                    assert forall|k: int| 0 <= k < s_new.len()
                        implies (#[trigger] s_new[k]).0 != instance_id by {
                        let k0: int = if k < i { k } else { k + 1 };
                        assert(s_new[k] == s_old[k0]);
                    }
                    assert forall|x: u128| x != instance_id && old(self).spec_has(x)
                        implies self.spec_has(x) && self.spec_get(x) == old(self).spec_get(x) by {
                        let k0 = choose|k: int| 0 <= k < s_old.len() && (#[trigger] s_old[k]).0 == x;
                        let k: int = if k0 < i { k0 } else { k0 - 1 };
                        assert(s_new[k] == s_old[k0]);
                        assert(self.spec_has(x));
                        lemma_unique_get(s_old, x, k0);
                        lemma_unique_get(s_new, x, k);
                    }
                    assert forall|x: u128| x != instance_id && self.spec_has(x)
                        implies old(self).spec_has(x) by {
                        let k = choose|k: int| 0 <= k < s_new.len() && (#[trigger] s_new[k]).0 == x;
                        let k0: int = if k < i { k } else { k + 1 };
                        assert(s_new[k] == s_old[k0]);
                    }
                }
                return;
            }
            i = i + 1;
        }
    }

    /// The most recent system snapshot.
    pub fn get_system_metrics(&self) -> (r: SystemMetrics)
        ensures
            r == self.spec_system_metrics(),
    {
        self.system_metrics
    }

    /// The active connections of all registered instances, summed without a
    /// bound.
    pub closed spec fn spec_active_connection_sum(self) -> int {
        spec_active_sum(self.instances@)
    }

    /// Recompute the system snapshot from the given readings: uptime and
    /// stamp as given, memory in megabytes from the kilobyte readings, the
    /// active connections summed over the registered instances, and no CPU
    /// sampler.
    pub fn refresh_system_metrics(&mut self, uptime_seconds: u64, mem_info: Option<(u64, u64)>, now: i64)
        requires
            old(self).wf(),
        ensures
            final(self).wf(),
            forall|x: u128| final(self).spec_has(x) == old(self).spec_has(x),
            forall|x: u128| old(self).spec_has(x) ==> final(self).spec_get(x) == old(self).spec_get(x),
            final(self).spec_system_metrics() == spec_system_snapshot(
                uptime_seconds,
                mem_info,
                old(self).spec_active_connection_sum(),
                now,
            ),
    {
        let (total_memory, used_memory): (u64, u64) = match mem_info {
            Some((total_kb, free_kb)) => (
                total_kb / 1024,
                if free_kb <= total_kb {
                    (total_kb - free_kb) / 1024
                } else {
                    0
                },
            ),
            None => (0, 0),
        };
        let n = self.instances.len();
        let mut active: u32 = 0;
        let mut i: usize = 0;
        while i < n
            invariant
                self == old(self),
                n == self.instances@.len(),
                0 <= i <= n,
                active == spec_clamp_u32(spec_active_sum(self.instances@.subrange(0, i as int))),
            decreases n - i,
        {
            proof {
                let prefix = self.instances@.subrange(0, i as int);
                let prefix1 = self.instances@.subrange(0, i + 1);
                assert(prefix1.drop_last() =~= prefix);
                assert(prefix1.last() == self.instances@[i as int]);
                lemma_active_sum_nonneg(prefix);
            }
            active = active.saturating_add(self.instances[i].1.connections_active);
            i = i + 1;
        }
        proof {
            assert(self.instances@.subrange(0, n as int) =~= self.instances@);
        }
        self.system_metrics = SystemMetrics {
            uptime_seconds,
            total_memory_mb: total_memory,
            used_memory_mb: used_memory,
            cpu_usage_percent: 0,
            active_connections: active,
            last_updated: now,
        };
        proof {
            assert forall|x: u128| self.spec_has(x) == old(self).spec_has(x) by {
                if old(self).spec_has(x) {
                    let k = choose|k: int| 0 <= k < old(self).instances@.len()
                        && (#[trigger] old(self).instances@[k]).0 == x;
                    assert(self.instances@[k].0 == x);
                }
                if self.spec_has(x) {
                    let k = choose|k: int| 0 <= k < self.instances@.len()
                        && (#[trigger] self.instances@[k]).0 == x;
                    assert(old(self).instances@[k].0 == x);
                }
            }
        }
    }

    /// One collector tick: read the machine's memory and recompute the
    /// snapshot. The memory readings depend on the machine, so the snapshot
    /// is pinned down only up to whatever the query returned.
    pub fn collect_system_metrics(&mut self, uptime_seconds: u64, now: i64)
        requires
            old(self).wf(),
        ensures
            final(self).wf(),
            forall|x: u128| final(self).spec_has(x) == old(self).spec_has(x),
            forall|x: u128| old(self).spec_has(x) ==> final(self).spec_get(x) == old(self).spec_get(x),
            exists|mem: Option<(u64, u64)>|
                final(self).spec_system_metrics() == #[trigger] spec_system_snapshot(
                    uptime_seconds,
                    mem,
                    old(self).spec_active_connection_sum(),
                    now,
                ),
    {
        let mem = read_memory_info();
        self.refresh_system_metrics(uptime_seconds, mem, now);
        proof {
            assert(self.spec_system_metrics() == spec_system_snapshot(
                uptime_seconds,
                mem,
                old(self).spec_active_connection_sum(),
                now,
            ));
        }
    }
}

/// An integer clamped into the unsigned 32-bit range.
pub open spec fn spec_clamp_u32(v: int) -> u32 {
    if v > u32::MAX {
        u32::MAX
    } else if v < 0 {
        0
    } else {
        v as u32
    }
}

/// The unbounded sum of the active connections of a sequence of counters.
pub open spec fn spec_active_sum(s: Seq<(u128, InstanceMetrics)>) -> int
    decreases s.len(),
{
    if s.len() == 0 {
        0
    } else {
        spec_active_sum(s.drop_last()) + s.last().1.connections_active
    }
}

/// The sum of active connections is never negative.
proof fn lemma_active_sum_nonneg(s: Seq<(u128, InstanceMetrics)>)
    ensures
        spec_active_sum(s) >= 0,
    decreases s.len(),
{
    if s.len() > 0 {
        lemma_active_sum_nonneg(s.drop_last());
    }
}

/// The system snapshot derived from one collector tick: memory readings in
/// kilobytes become megabytes, a missing reading becomes zero, the active
/// connections are clamped into range, and no CPU sampler is wired in.
pub open spec fn spec_system_snapshot(
    uptime_seconds: u64,
    mem_info: Option<(u64, u64)>,
    active_sum: int,
    now: i64,
) -> SystemMetrics {
    SystemMetrics {
        uptime_seconds,
        total_memory_mb: match mem_info {
            Some((total_kb, free_kb)) => (total_kb / 1024) as u64,
            None => 0,
        },
        used_memory_mb: match mem_info {
            Some((total_kb, free_kb)) => if free_kb <= total_kb {
                (((total_kb - free_kb) as u64) / 1024) as u64
            } else {
                0
            },
            None => 0,
        },
        cpu_usage_percent: 0,
        active_connections: spec_clamp_u32(active_sum),
        last_updated: now,
    }
}

/// The session figures reported for a TCP forwarder: the standard timing
/// bounds and the active connections standing in for sessions.
pub fn tcp_session_metrics(connections_active: u32) -> (r: SessionMetrics)
    ensures
        r == (SessionMetrics {
            session_timeout_seconds: 300,
            cleanup_interval_seconds: 60,
            active_sessions: connections_active as usize,
        }),
{
    SessionMetrics {
        session_timeout_seconds: 300,
        cleanup_interval_seconds: 60,
        active_sessions: connections_active as usize,
    }
}

/// In a sequence of uniquely keyed pairs, any index holding a key determines
/// the chosen one.
proof fn lemma_unique_get(s: Seq<(u128, InstanceMetrics)>, x: u128, k: int)
    requires
        forall|i: int, j: int| 0 <= i < j < s.len() ==> (#[trigger] s[i]).0 != (#[trigger] s[j]).0,
        0 <= k < s.len(),
        s[k].0 == x,
    ensures
        (choose|i: int| 0 <= i < s.len() && (#[trigger] s[i]).0 == x) == k,
{
    let c = choose|i: int| 0 <= i < s.len() && (#[trigger] s[i]).0 == x;
    if c < k {
        assert(s[c].0 != s[k].0);
    } else if c > k {
        assert(s[k].0 != s[c].0);
    }
}

impl InstanceMetrics {
    /// Counters all zero.
    pub open spec fn spec_zero() -> InstanceMetrics {
        InstanceMetrics {
            bytes_sent: 0,
            bytes_received: 0,
            connections_active: 0,
            connections_total: 0,
            errors: 0,
        }
    }
}

} // verus!
