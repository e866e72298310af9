//! The instance registry and its supervisor: the authoritative set of
//! instance definitions, their lifecycle transitions, and the aggregated
//! statistics. Starting and stopping are split into a decision step here and
//! the socket work of the caller: `start_instance` plans a start and moves
//! the status to Starting; the caller binds and spawns, then reports back
//! through `finish_start` or `fail_start`. Stops go through `stop_instance`
//! and `finish_stop` the same way. Persistence is a collaborator: the caller
//! saves and loads around these operations.

use vstd::prelude::*;
use crate::config::Config;
use crate::config::Protocol;
use crate::config::ValidationError;
use crate::instance::CreateInstanceRequest;
use crate::instance::InstanceStatus;
use crate::instance::ProxyInstance;
use crate::instance::ProxyInstanceView;
use crate::instance::UpdateInstanceRequest;
use crate::instance::status_step_allowed;
use crate::instance::unix_now_seconds;
use crate::metrics::InstanceMetrics;
use crate::metrics::MetricsManager;
use crate::metrics::SystemMetrics;

verus! {

/// Whether a sequence of instance views holds the id.
pub open spec fn seq_has(s: Seq<ProxyInstanceView>, id: u128) -> bool {
    exists|k: int| 0 <= k < s.len() && (#[trigger] s[k]).id == id
}

/// The instance view of the id.
pub open spec fn seq_get(s: Seq<ProxyInstanceView>, id: u128) -> ProxyInstanceView {
    s[choose|k: int| 0 <= k < s.len() && (#[trigger] s[k]).id == id]
}

/// Whether every id occurs at most once.
pub open spec fn seq_unique(s: Seq<ProxyInstanceView>) -> bool {
    forall|i: int, j: int| 0 <= i < j < s.len() ==> (#[trigger] s[i]).id != (#[trigger] s[j]).id
}

/// In a uniquely keyed sequence, any index holding an id determines the
/// chosen one.
proof fn lemma_seq_unique_get(s: Seq<ProxyInstanceView>, id: u128, k: int)
    requires
        seq_unique(s),
        0 <= k < s.len(),
        s[k].id == id,
    ensures
        (choose|i: int| 0 <= i < s.len() && (#[trigger] s[i]).id == id) == k,
{
    let c = choose|i: int| 0 <= i < s.len() && (#[trigger] s[i]).id == id;
    if c < k {
        assert(s[c].id != s[k].id);
    } else if c > k {
        assert(s[k].id != s[c].id);
    }
}

/// Replacing the entry at an index by one with the same id keeps the keys
/// unique, rebinds that id to the new view and leaves every other id alone.
proof fn lemma_seq_update(s: Seq<ProxyInstanceView>, i: int, v: ProxyInstanceView)
    requires
        seq_unique(s),
        0 <= i < s.len(),
        v.id == s[i].id,
    ensures
        seq_unique(s.update(i, v)),
        seq_has(s.update(i, v), v.id),
        seq_get(s.update(i, v), v.id) == v,
        forall|p: u128| p != v.id ==> seq_has(s.update(i, v), p) == seq_has(s, p),
        forall|p: u128| p != v.id && seq_has(s, p) ==> seq_get(s.update(i, v), p) == seq_get(s, p),
{
    let t = s.update(i, v);
    assert forall|a: int, b: int| 0 <= a < b < t.len()
        implies (#[trigger] t[a]).id != (#[trigger] t[b]).id by {
        assert(s[a].id != s[b].id);
    }
    assert(t[i].id == v.id);
    lemma_seq_unique_get(t, v.id, i);
    assert forall|p: u128| p != v.id && seq_has(s, p)
        implies seq_has(t, p) && seq_get(t, p) == seq_get(s, p) by {
        let k = choose|k: int| 0 <= k < s.len() && (#[trigger] s[k]).id == p;
        assert(t[k].id == p);
        lemma_seq_unique_get(s, p, k);
        lemma_seq_unique_get(t, p, k);
    }
    assert forall|p: u128| p != v.id && seq_has(t, p) implies seq_has(s, p) by {
        let k = choose|k: int| 0 <= k < t.len() && (#[trigger] t[k]).id == p;
        assert(s[k].id == p);
    }
}

/// Removing the entry at an index keeps the keys unique, drops its id and
/// leaves every other id alone.
proof fn lemma_seq_remove(s: Seq<ProxyInstanceView>, i: int)
    requires
        seq_unique(s),
        0 <= i < s.len(),
    ensures
        seq_unique(s.remove(i)),
        !seq_has(s.remove(i), s[i].id),
        forall|p: u128| p != s[i].id ==> seq_has(s.remove(i), p) == seq_has(s, p),
        forall|p: u128| p != s[i].id && seq_has(s, p) ==> seq_get(s.remove(i), p) == seq_get(s, p),
{
    let t = s.remove(i);
    s.remove_ensures(i);
    assert forall|a: int, b: int| 0 <= a < b < t.len()
        implies (#[trigger] t[a]).id != (#[trigger] t[b]).id by {
        let a0: int = if a < i { a } else { a + 1 };
        let b0: int = if b < i { b } else { b + 1 };
        assert(t[a] == s[a0]);
        assert(t[b] == s[b0]);
    }
    assert forall|k: int| 0 <= k < t.len() implies (#[trigger] t[k]).id != s[i].id by {
        let k0: int = if k < i { k } else { k + 1 };
        assert(t[k] == s[k0]);
        if k0 != i {
            assert(s[k0].id != s[i].id);
        }
    }
    assert forall|p: u128| p != s[i].id && seq_has(s, p)
        implies seq_has(t, p) && seq_get(t, p) == seq_get(s, p) by {
        let k0 = choose|k: int| 0 <= k < s.len() && (#[trigger] s[k]).id == p;
        let k: int = if k0 < i { k0 } else { k0 - 1 };
        assert(t[k] == s[k0]);
        assert(seq_has(t, p));
        lemma_seq_unique_get(s, p, k0);
        lemma_seq_unique_get(t, p, k);
    }
    assert forall|p: u128| p != s[i].id && seq_has(t, p) implies seq_has(s, p) by {
        let k = choose|k: int| 0 <= k < t.len() && (#[trigger] t[k]).id == p;
        let k0: int = if k < i { k } else { k + 1 };
        assert(t[k] == s[k0]);
    }
}

/// Appending an entry with a fresh id keeps the keys unique, binds its id to
/// it and leaves every other id alone.
proof fn lemma_seq_push(s: Seq<ProxyInstanceView>, v: ProxyInstanceView)
    requires
        seq_unique(s),
        !seq_has(s, v.id),
    ensures
        seq_unique(s.push(v)),
        seq_has(s.push(v), v.id),
        seq_get(s.push(v), v.id) == v,
        forall|p: u128| p != v.id ==> seq_has(s.push(v), p) == seq_has(s, p),
        forall|p: u128| p != v.id && seq_has(s, p) ==> seq_get(s.push(v), p) == seq_get(s, p),
{
    let t = s.push(v);
    let last = t.len() - 1;
    assert(t[last].id == v.id);
    assert forall|a: int, b: int| 0 <= a < b < t.len()
        implies (#[trigger] t[a]).id != (#[trigger] t[b]).id by {
        if b < last {
            assert(t[a] == s[a]);
            assert(t[b] == s[b]);
        } else {
            assert(t[a] == s[a]);
        }
    }
    lemma_seq_unique_get(t, v.id, last);
    assert forall|p: u128| p != v.id && seq_has(s, p)
        implies seq_has(t, p) && seq_get(t, p) == seq_get(s, p) by {
        let k = choose|k: int| 0 <= k < s.len() && (#[trigger] s[k]).id == p;
        assert(t[k] == s[k]);
        lemma_seq_unique_get(s, p, k);
        lemma_seq_unique_get(t, p, k);
    }
    assert forall|p: u128| p != v.id && seq_has(t, p) implies seq_has(s, p) by {
        let k = choose|k: int| 0 <= k < t.len() && (#[trigger] t[k]).id == p;
        assert(s[k] == t[k]);
    }
}

/// What `start_instance` answered.
pub enum StartOutcome {
    /// No instance has the id.
    NotFound,
    /// The instance is already running, starting or stopping: nothing to do,
    /// success.
    AlreadyActive,
    /// The instance moved to Starting; the caller performs the plan and
    /// reports back.
    Started(StartPlan),
}

/// What the caller must do to bring an instance up: a snapshot of the
/// configuration taken now, and which forwarders to spawn.
pub struct StartPlan {
    pub config: Config,
    pub spawn_tcp: bool,
    pub spawn_udp: bool,
}

/// What `stop_instance` answered.
#[derive(Clone, Copy, PartialEq, Eq, Structural, Debug)]
pub enum StopOutcome {
    /// No instance has the id.
    NotFound,
    /// The instance was not running: nothing to do, success.
    NotRunning,
    /// The instance moved to Stopping; the caller cancels its tasks and
    /// reports back through `finish_stop`.
    Stopping,
}

/// One instance's row in the statistics report.
#[derive(Debug)]
pub struct InstanceStats {
    pub id: u128,
    pub name: String,
    pub status: InstanceStatus,
    pub is_running: bool,
    pub uptime: Option<i64>,
    pub bytes_sent: u64,
    pub bytes_received: u64,
    pub connections_active: u32,
    pub bytes_sent_per_sec: u64,
    pub bytes_received_per_sec: u64,
    pub error_rate_permille: u64,
}

/// Mathematical image of a statistics row.
pub struct InstanceStatsView {
    pub id: u128,
    pub name: Seq<char>,
    pub status: InstanceStatus,
    pub is_running: bool,
    pub uptime: Option<i64>,
    pub bytes_sent: u64,
    pub bytes_received: u64,
    pub connections_active: u32,
    pub bytes_sent_per_sec: u64,
    pub bytes_received_per_sec: u64,
    pub error_rate_permille: u64,
}

impl View for InstanceStats {
    type V = InstanceStatsView;

    open spec fn view(&self) -> InstanceStatsView {
        InstanceStatsView {
            id: self.id,
            name: self.name@,
            status: self.status,
            is_running: self.is_running,
            uptime: self.uptime,
            bytes_sent: self.bytes_sent,
            bytes_received: self.bytes_received,
            connections_active: self.connections_active,
            bytes_sent_per_sec: self.bytes_sent_per_sec,
            bytes_received_per_sec: self.bytes_received_per_sec,
            error_rate_permille: self.error_rate_permille,
        }
    }
}

/// The distance between two times in seconds, clamped into the signed
/// 64-bit range.
pub open spec fn spec_abs_secs(now: i64, started: i64) -> i64 {
    let d = if now - started < 0 {
        started - now
    } else {
        now - started
    };
    if d > i64::MAX {
        i64::MAX
    } else {
        d as i64
    }
}

/// The statistics row an instance yields at the given time: its identity and
/// state, the uptime as the distance from the start time, the raw counters,
/// the integer per-second rates against the uptime, and the error rate per
/// thousand connections.
pub open spec fn spec_stats_of(v: ProxyInstanceView, now: i64) -> InstanceStatsView {
    InstanceStatsView {
        id: v.id,
        name: v.name,
        status: v.status,
        is_running: v.status == InstanceStatus::Running,
        uptime: match v.started_at {
            Some(started) => Some(spec_abs_secs(now, started)),
            None => None,
        },
        bytes_sent: v.metrics.bytes_sent,
        bytes_received: v.metrics.bytes_received,
        connections_active: v.metrics.connections_active,
        bytes_sent_per_sec: match v.started_at {
            Some(started) => (v.metrics.bytes_sent as int / InstanceMetrics::spec_uptime_seconds(
                started,
                now,
            )) as u64,
            None => 0,
        },
        bytes_received_per_sec: match v.started_at {
            Some(started) => (v.metrics.bytes_received as int / InstanceMetrics::spec_uptime_seconds(
                started,
                now,
            )) as u64,
            None => 0,
        },
        error_rate_permille: InstanceMetrics::spec_error_rate_permille(
            v.metrics.errors,
            v.metrics.connections_total,
        ) as u64,
    }
}

/// The registry of instance definitions and the per-instance counters.
pub struct InstanceService {
    instances: Vec<ProxyInstance>,
    metrics_manager: MetricsManager,
}

impl InstanceService {
    /// The registered instances, in insertion order, as views.
    pub closed spec fn views(self) -> Seq<ProxyInstanceView> {
        self.instances@.map_values(|p: ProxyInstance| p@)
    }

    /// The metrics manager of the registry.
    pub closed spec fn spec_metrics_manager(self) -> MetricsManager {
        self.metrics_manager
    }

    /// Whether an instance has the id.
    pub open spec fn spec_has(self, id: u128) -> bool {
        seq_has(self.views(), id)
    }

    /// The instance of the id.
    pub open spec fn spec_get(self, id: u128) -> ProxyInstanceView {
        seq_get(self.views(), id)
    }

    /// The number of registered instances.
    pub open spec fn spec_count(self) -> int {
        self.views().len() as int
    }

    /// Ids are unique and the metrics manager is well formed.
    pub closed spec fn wf(self) -> bool {
        seq_unique(self.views()) && self.metrics_manager.wf()
    }

    /// An empty registry: no instances, no registered counters, and a zeroed
    /// system snapshot.
    pub fn new() -> (r: InstanceService)
        ensures
            r.wf(),
            r.spec_count() == 0,
            r.spec_metrics_manager().spec_system_metrics().uptime_seconds == 0,
            r.spec_metrics_manager().spec_system_metrics().total_memory_mb == 0,
            r.spec_metrics_manager().spec_system_metrics().used_memory_mb == 0,
            r.spec_metrics_manager().spec_system_metrics().cpu_usage_percent == 0,
            r.spec_metrics_manager().spec_system_metrics().active_connections == 0,
    {
        let r = InstanceService {
            instances: Vec::new(),
            metrics_manager: MetricsManager::new(unix_now_seconds()),
        };
        proof {
            assert(r.views() =~= Seq::<ProxyInstanceView>::empty());
        }
        r
    }

    /// The index of the instance with the id.
    fn find_index(&self, id: u128) -> (r: Option<usize>)
        ensures
            match r {
                Some(i) => i < self.views().len() && self.views()[i as int].id == id,
                None => !self.spec_has(id),
            },
    {
        let n = self.instances.len();
        let mut i: usize = 0;
        while i < n
            invariant
                n == self.instances@.len(),
                n == self.views().len(),
                0 <= i <= n,
                forall|k: int| 0 <= k < i ==> (#[trigger] self.views()[k]).id != id,
            decreases n - i,
        {
            if self.instances[i].id == id {
                proof {
                    assert(self.views()[i as int] == self.instances@[i as int]@);
                }
                return Some(i);
            }
            i = i + 1;
        }
        None
    }

    /// Insert an instance, replacing any existing one with the same id.
    fn put_instance(&mut self, instance: ProxyInstance)
        requires
            old(self).wf(),
        ensures
            final(self).wf(),
            final(self).spec_has(instance@.id),
            final(self).spec_get(instance@.id) == instance@,
            forall|p: u128| p != instance@.id
                ==> final(self).spec_has(p) == old(self).spec_has(p),
            forall|p: u128| p != instance@.id && old(self).spec_has(p)
                ==> final(self).spec_get(p) == old(self).spec_get(p),
            !old(self).spec_has(instance@.id)
                ==> final(self).views() == old(self).views().push(instance@),
            final(self).spec_metrics_manager() == old(self).spec_metrics_manager(),
    {
        let ghost v = instance@;
        match self.find_index(instance.id) {
            Some(i) => {
                let ghost s_old = self.views();
                self.instances.set(i, instance);
                proof {
                    assert(self.views() =~= s_old.update(i as int, v));
                    lemma_seq_update(s_old, i as int, v);
                }
            },
            None => {
                let ghost s_old = self.views();
                self.instances.push(instance);
                proof {
                    assert(self.views() =~= s_old.push(v));
                    lemma_seq_push(s_old, v);
                }
            },
        }
    }

    /// Create an instance from a request: the denoted configuration is
    /// validated; when it passes, a fresh instance is registered, stopped,
    /// with zeroed counters, and returned. A rejected request leaves the
    /// registry untouched and reports the failing rule. Persistence and any
    /// requested automatic start are the caller's next steps.
    pub fn create_instance(&mut self, request: CreateInstanceRequest) -> (r: Result<
        ProxyInstance,
        ValidationError,
    >)
        requires
            old(self).wf(),
        ensures
            final(self).wf(),
            r is Err <==> request@.spec_to_config().spec_validate() is Err,
            r matches Err(e) ==> Err::<(), ValidationError>(e) == request@.spec_to_config().spec_validate()
                && *final(self) == *old(self),
            r matches Ok(inst) ==> {
                &&& inst@.name == request@.name
                &&& inst@.config == request@.spec_to_config()
                &&& inst@.status == InstanceStatus::Stopped
                &&& inst@.started_at is None
                &&& inst@.auto_start == request@.auto_start
                &&& inst@.metrics == InstanceMetrics::spec_zero()
                &&& final(self).spec_has(inst@.id)
                &&& final(self).spec_get(inst@.id) == inst@
                &&& forall|p: u128| p != inst@.id
                    ==> final(self).spec_has(p) == old(self).spec_has(p)
                &&& forall|p: u128| p != inst@.id && old(self).spec_has(p)
                    ==> final(self).spec_get(p) == old(self).spec_get(p)
                &&& final(self).spec_metrics_manager().spec_has(inst@.id)
            },
    {
        let config = request.to_config();
        if let Err(e) = config.validate() {
            return Err(e);
        }
        let instance = ProxyInstance::new(request.name, config, request.auto_start);
        let result = instance.duplicate();
        let id = instance.id;
        self.put_instance(instance);
        self.metrics_manager.register_instance(id);
        Ok(result)
    }

    /// Register an instance record as it is, replacing any instance with the
    /// same id; used when restoring definitions from the persistent store.
    pub fn restore_instance(&mut self, instance: ProxyInstance)
        requires
            old(self).wf(),
        ensures
            final(self).wf(),
            final(self).spec_has(instance@.id),
            final(self).spec_get(instance@.id) == instance@,
            forall|p: u128| p != instance@.id
                ==> final(self).spec_has(p) == old(self).spec_has(p),
            forall|p: u128| p != instance@.id && old(self).spec_has(p)
                ==> final(self).spec_get(p) == old(self).spec_get(p),
    {
        self.put_instance(instance);
    }

    /// All registered instances, in insertion order.
    pub fn get_instances(&self) -> (r: Vec<ProxyInstance>)
        ensures
            r@.len() == self.spec_count(),
            forall|i: int| 0 <= i < r@.len() ==> (#[trigger] r@[i])@ == self.views()[i],
    {
        let n = self.instances.len();
        let mut r: Vec<ProxyInstance> = Vec::new();
        let mut i: usize = 0;
        while i < n
            invariant
                n == self.instances@.len(),
                n == self.views().len(),
                0 <= i <= n,
                r@.len() == i,
                forall|k: int| 0 <= k < i ==> (#[trigger] r@[k])@ == self.views()[k],
            decreases n - i,
        {
            let copy = self.instances[i].duplicate();
            proof {
                assert(self.views()[i as int] == self.instances@[i as int]@);
            }
            r.push(copy);
            i = i + 1;
        }
        r
    }

    /// The instance of the id, when one is registered.
    pub fn get_instance(&self, id: u128) -> (r: Option<ProxyInstance>)
        requires
            self.wf(),
        ensures
            match r {
                Some(p) => self.spec_has(id) && p@ == self.spec_get(id),
                None => !self.spec_has(id),
            },
    {
        match self.find_index(id) {
            Some(i) => {
                proof {
                    lemma_seq_unique_get_pub(self.views(), id, i as int);
                }
                Some(self.instances[i].duplicate())
            },
            None => None,
        }
    }

    /// Remove the instance of the id, and its counters, reporting whether one
    /// was registered. The caller stops the instance first and removes it
    /// from the persistent store after.
    pub fn delete_instance(&mut self, id: u128) -> (removed: bool)
        requires
            old(self).wf(),
        ensures
            final(self).wf(),
            removed == old(self).spec_has(id),
            !final(self).spec_has(id),
            !old(self).spec_has(id) ==> *final(self) == *old(self),
            forall|p: u128| p != id ==> final(self).spec_has(p) == old(self).spec_has(p),
            forall|p: u128| p != id && old(self).spec_has(p)
                ==> final(self).spec_get(p) == old(self).spec_get(p),
            removed ==> !final(self).spec_metrics_manager().spec_has(id),
    {
        match self.find_index(id) {
            Some(i) => {
                let ghost s_old = self.views();
                self.instances.remove(i);
                proof {
                    s_old.remove_ensures(i as int);
                    assert(self.views() =~= s_old.remove(i as int));
                    lemma_seq_remove(s_old, i as int);
                }
                self.metrics_manager.unregister_instance(id);
                true
            },
            None => false,
        }
    }
}

impl InstanceService {
    /// Apply a partial update to the instance of the id. A missing id
    /// answers `Ok(None)`. The patched definition is validated first: a
    /// rejected patch leaves the instance exactly as it was and reports the
    /// failing rule; an accepted one replaces the definition and returns it.
    /// A previously running instance is the caller's to restart, so that the
    /// forwarders pick up the new snapshot.
    pub fn update_instance(&mut self, id: u128, request: UpdateInstanceRequest) -> (r: Result<
        Option<ProxyInstance>,
        ValidationError,
    >)
        requires
            old(self).wf(),
        ensures
            final(self).wf(),
            final(self).spec_metrics_manager() == old(self).spec_metrics_manager(),
            !old(self).spec_has(id) ==> (r matches Ok(o) && o is None) && *final(self) == *old(self),
            old(self).spec_has(id) ==> ({
                let patched = request@.spec_apply(old(self).spec_get(id));
                match patched.config.spec_validate() {
                    Err(e) => r matches Err(e2) && e2 == e && *final(self) == *old(self),
                    Ok(u) => {
                        &&& r matches Ok(o)
                        &&& o matches Some(p) && p@ == patched
                        &&& final(self).spec_has(id)
                        &&& final(self).spec_get(id) == patched
                        &&& forall|q: u128| q != id
                            ==> final(self).spec_has(q) == old(self).spec_has(q)
                        &&& forall|q: u128| q != id && old(self).spec_has(q)
                            ==> final(self).spec_get(q) == old(self).spec_get(q)
                    },
                }
            }),
    {
        match self.find_index(id) {
            Some(i) => {
                proof {
                    lemma_seq_unique_get(self.views(), id, i as int);
                }
                let mut patched = self.instances[i].duplicate();
                request.apply_to(&mut patched);
                if let Err(e) = patched.config.validate() {
                    return Err(e);
                }
                let result = patched.duplicate();
                let ghost s_old = self.views();
                let ghost v = patched@;
                self.instances.set(i, patched);
                proof {
                    assert(self.views() =~= s_old.update(i as int, v));
                    lemma_seq_update(s_old, i as int, v);
                }
                Ok(Some(result))
            },
            None => Ok(None),
        }
    }

    /// Plan a start. A missing id answers NotFound; a running, starting or
    /// stopping instance is left alone with success, so starting twice is a
    /// no-op. A stopped instance, or a failed one after its reset, moves to
    /// Starting, walking only edges of the lifecycle diagram, and the caller
    /// receives the snapshot to run: which forwarders to spawn for the
    /// configured protocol.
    pub fn start_instance(&mut self, id: u128) -> (r: StartOutcome)
        requires
            old(self).wf(),
        ensures
            final(self).wf(),
            final(self).spec_metrics_manager() == old(self).spec_metrics_manager(),
            !old(self).spec_has(id) ==> r is NotFound && *final(self) == *old(self),
            old(self).spec_has(id) ==> ({
                let v = old(self).spec_get(id);
                if v.status == InstanceStatus::Running || v.status == InstanceStatus::Starting
                    || v.status == InstanceStatus::Stopping {
                    r is AlreadyActive && *final(self) == *old(self)
                } else {
                    &&& r matches StartOutcome::Started(plan)
                    &&& plan.config@ == v.config
                    &&& plan.spawn_tcp == (v.config.proxy.protocol == Protocol::Tcp
                        || v.config.proxy.protocol == Protocol::Both)
                    &&& plan.spawn_udp == (v.config.proxy.protocol == Protocol::Udp
                        || v.config.proxy.protocol == Protocol::Both)
                    &&& final(self).spec_has(id)
                    &&& final(self).spec_get(id).started_at is Some
                    &&& final(self).spec_get(id) == (ProxyInstanceView {
                        status: InstanceStatus::Starting,
                        started_at: final(self).spec_get(id).started_at,
                        ..v
                    })
                    &&& (v.status == InstanceStatus::Stopped
                        ==> status_step_allowed(v.status, InstanceStatus::Starting))
                    &&& (v.status == InstanceStatus::Error
                        ==> status_step_allowed(v.status, InstanceStatus::Stopped)
                            && status_step_allowed(InstanceStatus::Stopped, InstanceStatus::Starting))
                    &&& forall|q: u128| q != id
                        ==> final(self).spec_has(q) == old(self).spec_has(q)
                    &&& forall|q: u128| q != id && old(self).spec_has(q)
                        ==> final(self).spec_get(q) == old(self).spec_get(q)
                }
            }),
    {
        match self.find_index(id) {
            Some(i) => {
                proof {
                    lemma_seq_unique_get(self.views(), id, i as int);
                }
                match self.instances[i].status {
                    InstanceStatus::Running => StartOutcome::AlreadyActive,
                    InstanceStatus::Starting => StartOutcome::AlreadyActive,
                    InstanceStatus::Stopping => StartOutcome::AlreadyActive,
                    InstanceStatus::Error => {
                        let mut inst = self.instances[i].duplicate();
                        inst.set_stopped();
                        inst.start();
                        self.commit_started(i, inst)
                    },
                    InstanceStatus::Stopped => {
                        let mut inst = self.instances[i].duplicate();
                        inst.start();
                        self.commit_started(i, inst)
                    },
                }
            },
            None => StartOutcome::NotFound,
        }
    }

    /// Record a planned start and hand back the plan.
    fn commit_started(&mut self, i: usize, inst: ProxyInstance) -> (r: StartOutcome)
        requires
            old(self).wf(),
            i < old(self).views().len(),
            inst@.id == old(self).views()[i as int].id,
            inst@.status == InstanceStatus::Starting,
        ensures
            final(self).wf(),
            final(self).spec_metrics_manager() == old(self).spec_metrics_manager(),
            r matches StartOutcome::Started(plan) && plan.config@ == inst@.config
                && plan.spawn_tcp == (inst@.config.proxy.protocol == Protocol::Tcp
                    || inst@.config.proxy.protocol == Protocol::Both)
                && plan.spawn_udp == (inst@.config.proxy.protocol == Protocol::Udp
                    || inst@.config.proxy.protocol == Protocol::Both),
            final(self).spec_has(inst@.id),
            final(self).spec_get(inst@.id) == inst@,
            forall|q: u128| q != inst@.id ==> final(self).spec_has(q) == old(self).spec_has(q),
            forall|q: u128| q != inst@.id && old(self).spec_has(q)
                ==> final(self).spec_get(q) == old(self).spec_get(q),
    {
        let spawn_tcp = match inst.config.proxy.protocol {
            Protocol::Tcp => true,
            Protocol::Both => true,
            Protocol::Udp => false,
        };
        let spawn_udp = match inst.config.proxy.protocol {
            Protocol::Udp => true,
            Protocol::Both => true,
            Protocol::Tcp => false,
        };
        let plan = StartPlan { config: inst.config.duplicate(), spawn_tcp, spawn_udp };
        let ghost s_old = self.views();
        let ghost v = inst@;
        self.instances.set(i, inst);
        proof {
            assert(self.views() =~= s_old.update(i as int, v));
            lemma_seq_update(s_old, i as int, v);
        }
        StartOutcome::Started(plan)
    }

    /// Complete a start: a Starting instance becomes Running and `true`
    /// comes back; any other state is left alone.
    pub fn finish_start(&mut self, id: u128) -> (done: bool)
        requires
            old(self).wf(),
        ensures
            final(self).wf(),
            final(self).spec_metrics_manager() == old(self).spec_metrics_manager(),
            done == (old(self).spec_has(id)
                && old(self).spec_get(id).status == InstanceStatus::Starting),
            !done ==> *final(self) == *old(self),
            done ==> ({
                let v = old(self).spec_get(id);
                &&& final(self).spec_has(id)
                &&& final(self).spec_get(id) == (ProxyInstanceView { status: InstanceStatus::Running, ..v })
                &&& status_step_allowed(v.status, InstanceStatus::Running)
                &&& forall|q: u128| q != id ==> final(self).spec_has(q) == old(self).spec_has(q)
                &&& forall|q: u128| q != id && old(self).spec_has(q)
                    ==> final(self).spec_get(q) == old(self).spec_get(q)
            }),
    {
        match self.find_index(id) {
            Some(i) => {
                proof {
                    lemma_seq_unique_get(self.views(), id, i as int);
                }
                match self.instances[i].status {
                    InstanceStatus::Starting => {
                        let mut inst = self.instances[i].duplicate();
                        inst.set_running();
                        let ghost s_old = self.views();
                        let ghost v = inst@;
                        self.instances.set(i, inst);
                        proof {
                            assert(self.views() =~= s_old.update(i as int, v));
                            lemma_seq_update(s_old, i as int, v);
                        }
                        true
                    },
                    _ => false,
                }
            },
            None => false,
        }
    }

    /// Record a failed start: a Starting instance becomes Error and `true`
    /// comes back; any other state is left alone.
    pub fn fail_start(&mut self, id: u128) -> (done: bool)
        requires
            old(self).wf(),
        ensures
            final(self).wf(),
            final(self).spec_metrics_manager() == old(self).spec_metrics_manager(),
            done == (old(self).spec_has(id)
                && old(self).spec_get(id).status == InstanceStatus::Starting),
            !done ==> *final(self) == *old(self),
            done ==> ({
                let v = old(self).spec_get(id);
                &&& final(self).spec_has(id)
                &&& final(self).spec_get(id) == (ProxyInstanceView { status: InstanceStatus::Error, ..v })
                &&& status_step_allowed(v.status, InstanceStatus::Error)
                &&& forall|q: u128| q != id ==> final(self).spec_has(q) == old(self).spec_has(q)
                &&& forall|q: u128| q != id && old(self).spec_has(q)
                    ==> final(self).spec_get(q) == old(self).spec_get(q)
            }),
    {
        match self.find_index(id) {
            Some(i) => {
                proof {
                    lemma_seq_unique_get(self.views(), id, i as int);
                }
                match self.instances[i].status {
                    InstanceStatus::Starting => {
                        let mut inst = self.instances[i].duplicate();
                        inst.set_error();
                        let ghost s_old = self.views();
                        let ghost v = inst@;
                        self.instances.set(i, inst);
                        proof {
                            assert(self.views() =~= s_old.update(i as int, v));
                            lemma_seq_update(s_old, i as int, v);
                        }
                        true
                    },
                    _ => false,
                }
            },
            None => false,
        }
    }

    /// Plan a stop. A missing id answers NotFound. An instance that is not
    /// running is left exactly as it is, with success: stopping twice is a
    /// no-op. A running instance moves to Stopping with its start time
    /// cleared; the caller cancels its tasks, waits out the grace period,
    /// aborts survivors and reports back through `finish_stop`.
    pub fn stop_instance(&mut self, id: u128) -> (r: StopOutcome)
        requires
            old(self).wf(),
        ensures
            final(self).wf(),
            final(self).spec_metrics_manager() == old(self).spec_metrics_manager(),
            !old(self).spec_has(id) ==> r == StopOutcome::NotFound && *final(self) == *old(self),
            old(self).spec_has(id) ==> ({
                let v = old(self).spec_get(id);
                if v.status != InstanceStatus::Running {
                    r == StopOutcome::NotRunning && *final(self) == *old(self)
                } else {
                    &&& r == StopOutcome::Stopping
                    &&& final(self).spec_has(id)
                    &&& final(self).spec_get(id) == (ProxyInstanceView {
                        status: InstanceStatus::Stopping,
                        started_at: None,
                        ..v
                    })
                    &&& status_step_allowed(v.status, InstanceStatus::Stopping)
                    &&& forall|q: u128| q != id ==> final(self).spec_has(q) == old(self).spec_has(q)
                    &&& forall|q: u128| q != id && old(self).spec_has(q)
                        ==> final(self).spec_get(q) == old(self).spec_get(q)
                }
            }),
    {
        match self.find_index(id) {
            Some(i) => {
                proof {
                    lemma_seq_unique_get(self.views(), id, i as int);
                }
                match self.instances[i].status {
                    InstanceStatus::Running => {
                        let mut inst = self.instances[i].duplicate();
                        inst.stop();
                        let ghost s_old = self.views();
                        let ghost v = inst@;
                        self.instances.set(i, inst);
                        proof {
                            assert(self.views() =~= s_old.update(i as int, v));
                            lemma_seq_update(s_old, i as int, v);
                        }
                        StopOutcome::Stopping
                    },
                    _ => StopOutcome::NotRunning,
                }
            },
            None => StopOutcome::NotFound,
        }
    }

    /// Complete a stop: a Stopping instance becomes Stopped and `true` comes
    /// back; any other state is left alone.
    pub fn finish_stop(&mut self, id: u128) -> (done: bool)
        requires
            old(self).wf(),
        ensures
            final(self).wf(),
            final(self).spec_metrics_manager() == old(self).spec_metrics_manager(),
            done == (old(self).spec_has(id)
                && old(self).spec_get(id).status == InstanceStatus::Stopping),
            !done ==> *final(self) == *old(self),
            done ==> ({
                let v = old(self).spec_get(id);
                &&& final(self).spec_has(id)
                &&& final(self).spec_get(id) == (ProxyInstanceView { status: InstanceStatus::Stopped, ..v })
                &&& status_step_allowed(v.status, InstanceStatus::Stopped)
                &&& forall|q: u128| q != id ==> final(self).spec_has(q) == old(self).spec_has(q)
                &&& forall|q: u128| q != id && old(self).spec_has(q)
                    ==> final(self).spec_get(q) == old(self).spec_get(q)
            }),
    {
        match self.find_index(id) {
            Some(i) => {
                proof {
                    lemma_seq_unique_get(self.views(), id, i as int);
                }
                match self.instances[i].status {
                    InstanceStatus::Stopping => {
                        let mut inst = self.instances[i].duplicate();
                        inst.set_stopped();
                        let ghost s_old = self.views();
                        let ghost v = inst@;
                        self.instances.set(i, inst);
                        proof {
                            assert(self.views() =~= s_old.update(i as int, v));
                            lemma_seq_update(s_old, i as int, v);
                        }
                        true
                    },
                    _ => false,
                }
            },
            None => false,
        }
    }

    /// The ids of every instance marked for automatic start: each returned
    /// id is registered with the flag set, and every registered instance
    /// with the flag is in the list.
    pub fn auto_start_ids(&self) -> (r: Vec<u128>)
        requires
            self.wf(),
        ensures
            forall|j: int| 0 <= j < r@.len()
                ==> self.spec_has(#[trigger] r@[j]) && self.spec_get(r@[j]).auto_start,
            forall|id: u128| self.spec_has(id) && self.spec_get(id).auto_start ==> r@.contains(id),
    {
        let n = self.instances.len();
        let mut r: Vec<u128> = Vec::new();
        let mut i: usize = 0;
        while i < n
            invariant
                self.wf(),
                n == self.instances@.len(),
                n == self.views().len(),
                0 <= i <= n,
                forall|j: int| 0 <= j < r@.len()
                    ==> self.spec_has(#[trigger] r@[j]) && self.spec_get(r@[j]).auto_start,
                forall|k: int| 0 <= k < i && (#[trigger] self.views()[k]).auto_start
                    ==> r@.contains(self.views()[k].id),
            decreases n - i,
        {
            proof {
                assert(self.views()[i as int] == self.instances@[i as int]@);
            }
            if self.instances[i].auto_start {
                proof {
                    lemma_seq_unique_get(self.views(), self.instances@[i as int]@.id, i as int);
                }
                let ghost r_old = r@;
                r.push(self.instances[i].id);
                proof {
                    assert(r@.last() == self.views()[i as int].id);
                    assert forall|k: int| 0 <= k < i + 1 && (#[trigger] self.views()[k]).auto_start
                        implies r@.contains(self.views()[k].id) by {
                        if k < i {
                            let j = choose|j: int| 0 <= j < r_old.len() && r_old[j] == self.views()[k].id;
                            assert(r@[j] == self.views()[k].id);
                        } else {
                            assert(r@[r@.len() - 1] == self.views()[k].id);
                        }
                    }
                }
            }
            i = i + 1;
        }
        r
    }

    /// Replace the whole registry by the given instances, as an import does:
    /// afterwards exactly the imported ids are registered. When the imported
    /// ids are unique, the registry is exactly the imported list, in order;
    /// a repeated id keeps its last occurrence. The caller stops every
    /// previously running instance before importing.
    pub fn import_instances(&mut self, list: Vec<ProxyInstance>)
        requires
            old(self).wf(),
        ensures
            final(self).wf(),
            final(self).spec_metrics_manager() == old(self).spec_metrics_manager(),
            forall|id: u128| final(self).spec_has(id)
                == seq_has(list@.map_values(|p: ProxyInstance| p@), id),
            seq_unique(list@.map_values(|p: ProxyInstance| p@))
                ==> final(self).views() == list@.map_values(|p: ProxyInstance| p@),
    {
        let ghost lv = list@.map_values(|p: ProxyInstance| p@);
        self.instances = Vec::new();
        proof {
            assert(self.views() =~= Seq::<ProxyInstanceView>::empty());
        }
        let n = list.len();
        let mut i: usize = 0;
        while i < n
            invariant
                self.wf(),
                self.spec_metrics_manager() == old(self).spec_metrics_manager(),
                n == list@.len(),
                n == lv.len(),
                lv == list@.map_values(|p: ProxyInstance| p@),
                0 <= i <= n,
                forall|id: u128| self.spec_has(id) == seq_has(lv.subrange(0, i as int), id),
                seq_unique(lv.subrange(0, i as int)) ==> self.views() == lv.subrange(0, i as int),
            decreases n - i,
        {
            let ghost views_before = self.views();
            let entry = list[i].duplicate();
            let ghost v = entry@;
            proof {
                assert(lv[i as int] == list@[i as int]@);
            }
            self.put_instance(entry);
            proof {
                let prefix = lv.subrange(0, i as int);
                let prefix1 = lv.subrange(0, i + 1);
                assert(prefix1.drop_last() =~= prefix);
                assert(prefix1.last() == v);
                assert forall|id: u128| self.spec_has(id) == seq_has(prefix1, id) by {
                    if id == v.id {
                        assert(prefix1[prefix1.len() - 1].id == id);
                        assert(seq_has(prefix1, id));
                    } else {
                        assert forall|k: int| 0 <= k < prefix1.len() && (#[trigger] prefix1[k]).id == id
                            implies seq_has(prefix, id) by {
                            assert(prefix[k] == prefix1[k]);
                        }
                        assert forall|k: int| 0 <= k < prefix.len() && (#[trigger] prefix[k]).id == id
                            implies seq_has(prefix1, id) by {
                            assert(prefix1[k] == prefix[k]);
                        }
                    }
                }
                if seq_unique(prefix1) {
                    assert forall|a: int, b: int| 0 <= a < b < prefix.len()
                        implies (#[trigger] prefix[a]).id != (#[trigger] prefix[b]).id by {
                        assert(prefix1[a] == prefix[a]);
                        assert(prefix1[b] == prefix[b]);
                    }
                    assert forall|k: int| 0 <= k < prefix.len()
                        implies (#[trigger] prefix[k]).id != v.id by {
                        assert(prefix1[k] == prefix[k]);
                        assert(prefix1[k].id != prefix1[prefix1.len() - 1].id);
                    }
                    assert(!seq_has(prefix, v.id));
                    assert(views_before == prefix);
                    assert(self.views() == views_before.push(v));
                    assert(self.views() =~= prefix1);
                }
            }
            i = i + 1;
        }
        proof {
            assert(lv.subrange(0, n as int) =~= lv);
        }
    }

    /// Add to an instance's bytes-sent counter, clamping at the maximum;
    /// unknown ids are a no-op.
    pub fn add_bytes_sent(&mut self, id: u128, bytes: u64)
        requires
            old(self).wf(),
        ensures
            final(self).wf(),
            final(self).spec_metrics_manager() == old(self).spec_metrics_manager(),
            !old(self).spec_has(id) ==> *final(self) == *old(self),
            old(self).spec_has(id) ==> ({
                let v = old(self).spec_get(id);
                &&& final(self).spec_has(id)
                &&& final(self).spec_get(id) == (ProxyInstanceView {
                    metrics: InstanceMetrics {
                        bytes_sent: if v.metrics.bytes_sent + bytes > u64::MAX {
                            u64::MAX
                        } else {
                            (v.metrics.bytes_sent + bytes) as u64
                        },
                        ..v.metrics
                    },
                    ..v
                })
                &&& forall|q: u128| q != id ==> final(self).spec_has(q) == old(self).spec_has(q)
                &&& forall|q: u128| q != id && old(self).spec_has(q)
                    ==> final(self).spec_get(q) == old(self).spec_get(q)
            }),
    {
        match self.find_index(id) {
            Some(i) => {
                proof {
                    lemma_seq_unique_get(self.views(), id, i as int);
                }
                let mut inst = self.instances[i].duplicate();
                inst.metrics.add_bytes_sent(bytes);
                let ghost s_old = self.views();
                let ghost v = inst@;
                self.instances.set(i, inst);
                proof {
                    assert(self.views() =~= s_old.update(i as int, v));
                    lemma_seq_update(s_old, i as int, v);
                }
            },
            None => {},
        }
    }

    /// Add to an instance's bytes-received counter, clamping at the maximum;
    /// unknown ids are a no-op.
    pub fn add_bytes_received(&mut self, id: u128, bytes: u64)
        requires
            old(self).wf(),
        ensures
            final(self).wf(),
            final(self).spec_metrics_manager() == old(self).spec_metrics_manager(),
            !old(self).spec_has(id) ==> *final(self) == *old(self),
            old(self).spec_has(id) ==> ({
                let v = old(self).spec_get(id);
                &&& final(self).spec_has(id)
                &&& final(self).spec_get(id) == (ProxyInstanceView {
                    metrics: InstanceMetrics {
                        bytes_received: if v.metrics.bytes_received + bytes > u64::MAX {
                            u64::MAX
                        } else {
                            (v.metrics.bytes_received + bytes) as u64
                        },
                        ..v.metrics
                    },
                    ..v
                })
                &&& forall|q: u128| q != id ==> final(self).spec_has(q) == old(self).spec_has(q)
                &&& forall|q: u128| q != id && old(self).spec_has(q)
                    ==> final(self).spec_get(q) == old(self).spec_get(q)
            }),
    {
        match self.find_index(id) {
            Some(i) => {
                proof {
                    lemma_seq_unique_get(self.views(), id, i as int);
                }
                let mut inst = self.instances[i].duplicate();
                inst.metrics.add_bytes_received(bytes);
                let ghost s_old = self.views();
                let ghost v = inst@;
                self.instances.set(i, inst);
                proof {
                    assert(self.views() =~= s_old.update(i as int, v));
                    lemma_seq_update(s_old, i as int, v);
                }
            },
            None => {},
        }
    }

    /// Record a failed connection attempt of an instance, clamping at the
    /// maximum; unknown ids are a no-op.
    pub fn add_error(&mut self, id: u128)
        requires
            old(self).wf(),
        ensures
            final(self).wf(),
            final(self).spec_metrics_manager() == old(self).spec_metrics_manager(),
            !old(self).spec_has(id) ==> *final(self) == *old(self),
            old(self).spec_has(id) ==> ({
                let v = old(self).spec_get(id);
                &&& final(self).spec_has(id)
                &&& final(self).spec_get(id) == (ProxyInstanceView {
                    metrics: InstanceMetrics {
                        errors: if v.metrics.errors + 1 > u32::MAX {
                            u32::MAX
                        } else {
                            (v.metrics.errors + 1) as u32
                        },
                        ..v.metrics
                    },
                    ..v
                })
                &&& forall|q: u128| q != id ==> final(self).spec_has(q) == old(self).spec_has(q)
                &&& forall|q: u128| q != id && old(self).spec_has(q)
                    ==> final(self).spec_get(q) == old(self).spec_get(q)
            }),
    {
        match self.find_index(id) {
            Some(i) => {
                proof {
                    lemma_seq_unique_get(self.views(), id, i as int);
                }
                let mut inst = self.instances[i].duplicate();
                inst.metrics.add_error();
                let ghost s_old = self.views();
                let ghost v = inst@;
                self.instances.set(i, inst);
                proof {
                    assert(self.views() =~= s_old.update(i as int, v));
                    lemma_seq_update(s_old, i as int, v);
                }
            },
            None => {},
        }
    }

    /// One statistics row per registered instance, derived against the
    /// given time, in registry order.
    pub fn get_instance_stats(&self, now: i64) -> (r: Vec<InstanceStats>)
        ensures
            r@.len() == self.spec_count(),
            forall|i: int| 0 <= i < r@.len()
                ==> (#[trigger] r@[i])@ == spec_stats_of(self.views()[i], now),
    {
        let n = self.instances.len();
        let mut r: Vec<InstanceStats> = Vec::new();
        let mut i: usize = 0;
        while i < n
            invariant
                n == self.instances@.len(),
                n == self.views().len(),
                0 <= i <= n,
                r@.len() == i,
                forall|k: int| 0 <= k < i ==> (#[trigger] r@[k])@ == spec_stats_of(self.views()[k], now),
            decreases n - i,
        {
            proof {
                assert(self.views()[i as int] == self.instances@[i as int]@);
            }
            let inst = &self.instances[i];
            let m = inst.metrics.get_stats(inst.started_at, now);
            let uptime: Option<i64> = match inst.started_at {
                Some(started) => {
                    let d: i128 = now as i128 - started as i128;
                    let a: i128 = if d < 0 {
                        -d
                    } else {
                        d
                    };
                    Some(
                        if a > i64::MAX as i128 {
                            i64::MAX
                        } else {
                            a as i64
                        },
                    )
                },
                None => None,
            };
            let is_running = match inst.status {
                InstanceStatus::Running => true,
                _ => false,
            };
            let row = InstanceStats {
                id: inst.id,
                name: inst.name.clone(),
                status: inst.status,
                is_running,
                uptime,
                bytes_sent: m.bytes_sent,
                bytes_received: m.bytes_received,
                connections_active: m.connections_active,
                bytes_sent_per_sec: m.bytes_sent_per_sec,
                bytes_received_per_sec: m.bytes_received_per_sec,
                error_rate_permille: m.error_rate_permille,
            };
            r.push(row);
            i = i + 1;
        }
        r
    }

    /// The most recent system snapshot.
    pub fn get_performance_metrics(&self) -> (r: SystemMetrics)
        ensures
            r == self.spec_metrics_manager().spec_system_metrics(),
    {
        self.metrics_manager.get_system_metrics()
    }

    /// One collector tick on the registry's metrics manager.
    pub fn collect_system_metrics(&mut self, uptime_seconds: u64, now: i64)
        requires
            old(self).wf(),
        ensures
            final(self).wf(),
            final(self).views() == old(self).views(),
            exists|mem: Option<(u64, u64)>|
                final(self).spec_metrics_manager().spec_system_metrics()
                    == #[trigger] crate::metrics::spec_system_snapshot(
                    uptime_seconds,
                    mem,
                    old(self).spec_metrics_manager().spec_active_connection_sum(),
                    now,
                ),
    {
        let ghost mm_old = self.metrics_manager;
        self.metrics_manager.collect_system_metrics(uptime_seconds, now);
        proof {
            let m = choose|mem: Option<(u64, u64)>|
                self.metrics_manager.spec_system_metrics() == #[trigger] crate::metrics::spec_system_snapshot(
                    uptime_seconds,
                    mem,
                    mm_old.spec_active_connection_sum(),
                    now,
                );
            assert(self.spec_metrics_manager().spec_system_metrics() == crate::metrics::spec_system_snapshot(
                uptime_seconds,
                m,
                old(self).spec_metrics_manager().spec_active_connection_sum(),
                now,
            ));
        }
    }
}

/// In a uniquely keyed sequence, any index holding an id determines the
/// chosen one.
proof fn lemma_seq_unique_get_pub(s: Seq<ProxyInstanceView>, id: u128, k: int)
    requires
        seq_unique(s),
        0 <= k < s.len(),
        s[k].id == id,
    ensures
        seq_has(s, id),
        seq_get(s, id) == s[k],
{
    lemma_seq_unique_get(s, id, k);
}

} // verus!
