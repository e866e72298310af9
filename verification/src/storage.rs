//! The persistent document: the record an instance is stored as, and the
//! in-memory document the persistence collaborator serialises and writes.
//! File format and I/O are the caller's; this module owns what the document
//! holds and how registry changes are reflected in it. Wall-clock stamps are
//! seconds since the Unix epoch, supplied by the caller.

use vstd::prelude::*;
use crate::config::Config;
use crate::config::ConfigView;
use crate::instance::InstanceStatus;
use crate::instance::ProxyInstance;
use crate::metrics::InstanceMetrics;

verus! {

/// The stored record of one instance: its definition without the runtime
/// counters.
#[derive(Debug)]
pub struct PersistentInstance {
    pub id: u128,
    pub name: String,
    pub config: Config,
    pub status: InstanceStatus,
    pub created_at: i64,
    pub started_at: Option<i64>,
    pub auto_start: bool,
}

/// Mathematical image of a stored record.
pub struct PersistentInstanceView {
    pub id: u128,
    pub name: Seq<char>,
    pub config: ConfigView,
    pub status: InstanceStatus,
    pub created_at: i64,
    pub started_at: Option<i64>,
    pub auto_start: bool,
}

impl View for PersistentInstance {
    type V = PersistentInstanceView;

    open spec fn view(&self) -> PersistentInstanceView {
        PersistentInstanceView {
            id: self.id,
            name: self.name@,
            config: self.config@,
            status: self.status,
            created_at: self.created_at,
            started_at: self.started_at,
            auto_start: self.auto_start,
        }
    }
}

/// The stored image of an instance: the definition with the counters
/// dropped.
pub open spec fn spec_persist(v: crate::instance::ProxyInstanceView) -> PersistentInstanceView {
    PersistentInstanceView {
        id: v.id,
        name: v.name,
        config: v.config,
        status: v.status,
        created_at: v.created_at,
        started_at: v.started_at,
        auto_start: v.auto_start,
    }
}

/// The instance a stored record denotes: the definition back, with zeroed
/// counters.
pub open spec fn spec_revive(p: PersistentInstanceView) -> crate::instance::ProxyInstanceView {
    crate::instance::ProxyInstanceView {
        id: p.id,
        name: p.name,
        config: p.config,
        status: p.status,
        created_at: p.created_at,
        started_at: p.started_at,
        auto_start: p.auto_start,
        metrics: InstanceMetrics::spec_zero(),
    }
}

impl PersistentInstance {
    /// The stored record of an instance.
    pub fn from_instance(instance: &ProxyInstance) -> (r: PersistentInstance)
        ensures
            r@ == spec_persist(instance@),
    {
        PersistentInstance {
            id: instance.id,
            name: instance.name.clone(),
            config: instance.config.duplicate(),
            status: instance.status,
            created_at: instance.created_at,
            started_at: instance.started_at,
            auto_start: instance.auto_start,
        }
    }

    /// The instance the record denotes, with zeroed counters.
    pub fn to_instance(&self) -> (r: ProxyInstance)
        ensures
            r@ == spec_revive(self@),
    {
        ProxyInstance {
            id: self.id,
            name: self.name.clone(),
            config: self.config.duplicate(),
            status: self.status,
            created_at: self.created_at,
            started_at: self.started_at,
            auto_start: self.auto_start,
            metrics: InstanceMetrics::new(),
        }
    }

    /// An exact copy of the record.
    pub fn duplicate(&self) -> (r: PersistentInstance)
        ensures
            r@ == self@,
    {
        PersistentInstance {
            id: self.id,
            name: self.name.clone(),
            config: self.config.duplicate(),
            status: self.status,
            created_at: self.created_at,
            started_at: self.started_at,
            auto_start: self.auto_start,
        }
    }
}

/// Storing an instance and reviving the record gives the definition back:
/// only the runtime counters are reset.
pub proof fn lemma_persist_round_trip(v: crate::instance::ProxyInstanceView)
    ensures
        spec_revive(spec_persist(v)) == (crate::instance::ProxyInstanceView {
            metrics: InstanceMetrics::spec_zero(),
            ..v
        }),
{
}

/// The whole persistent document.
#[derive(Debug)]
pub struct PersistentData {
    pub instances: Vec<PersistentInstance>,
    pub version: String,
    pub created_at: i64,
    pub updated_at: i64,
}

/// Mathematical image of the document.
pub struct PersistentDataView {
    pub instances: Seq<PersistentInstanceView>,
    pub version: Seq<char>,
    pub created_at: i64,
    pub updated_at: i64,
}

impl View for PersistentData {
    type V = PersistentDataView;

    open spec fn view(&self) -> PersistentDataView {
        PersistentDataView {
            instances: self.instances@.map_values(|p: PersistentInstance| p@),
            version: self.version@,
            created_at: self.created_at,
            updated_at: self.updated_at,
        }
    }
}

impl PersistentData {
    /// An empty document, stamped now.
    pub fn new(now: i64) -> (r: PersistentData)
        ensures
            r@.instances.len() == 0,
            r@.version == "1.0"@,
            r@.created_at == now,
            r@.updated_at == now,
    {
        let r = PersistentData {
            instances: Vec::new(),
            version: "1.0".to_owned(),
            created_at: now,
            updated_at: now,
        };
        proof {
            assert(r@.instances =~= Seq::<PersistentInstanceView>::empty());
        }
        r
    }

    /// Record a created instance: its record is appended and the document is
    /// restamped.
    pub fn add_instance(&mut self, instance: &ProxyInstance, now: i64)
        ensures
            final(self)@.instances == old(self)@.instances.push(spec_persist(instance@)),
            final(self)@.version == old(self)@.version,
            final(self)@.created_at == old(self)@.created_at,
            final(self)@.updated_at == now,
    {
        self.instances.push(PersistentInstance::from_instance(instance));
        self.updated_at = now;
        proof {
            assert(self@.instances =~= old(self)@.instances.push(spec_persist(instance@)));
        }
    }

    /// Record an updated instance: any record with its id is dropped, the
    /// new record is appended, and the document is restamped.
    pub fn update_instance(&mut self, instance: &ProxyInstance, now: i64)
        ensures
            final(self)@.instances == old(self)@.instances.filter(
                |p: PersistentInstanceView| p.id != instance@.id,
            ).push(spec_persist(instance@)),
            final(self)@.version == old(self)@.version,
            final(self)@.created_at == old(self)@.created_at,
            final(self)@.updated_at == now,
    {
        self.retain_other_ids(instance.id);
        self.instances.push(PersistentInstance::from_instance(instance));
        self.updated_at = now;
        proof {
            assert(self@.instances =~= old(self)@.instances.filter(
                |p: PersistentInstanceView| p.id != instance@.id,
            ).push(spec_persist(instance@)));
        }
    }

    /// Record a removed instance: every record with the id is dropped; the
    /// document is restamped only when one was present, as only then has it
    /// changed.
    pub fn remove_instance(&mut self, id: u128, now: i64) -> (removed: bool)
        ensures
            final(self)@.instances == old(self)@.instances.filter(
                |p: PersistentInstanceView| p.id != id,
            ),
            removed == (final(self)@.instances.len() < old(self)@.instances.len()),
            final(self)@.version == old(self)@.version,
            final(self)@.created_at == old(self)@.created_at,
            final(self)@.updated_at == if removed {
                now
            } else {
                old(self)@.updated_at
            },
    {
        let before = self.instances.len();
        self.retain_other_ids(id);
        proof {
            broadcast use vstd::prelude::Seq::lemma_filter_len;
        }
        let removed = self.instances.len() < before;
        if removed {
            self.updated_at = now;
        }
        removed
    }

    /// Drop every record whose id is the given one, keeping the rest in
    /// order.
    fn retain_other_ids(&mut self, id: u128)
        ensures
            final(self)@.instances == old(self)@.instances.filter(
                |p: PersistentInstanceView| p.id != id,
            ),
            final(self).instances@.len() <= old(self).instances@.len(),
            final(self)@.version == old(self)@.version,
            final(self)@.created_at == old(self)@.created_at,
            final(self)@.updated_at == old(self)@.updated_at,
    {
        let ghost pred = |p: PersistentInstanceView| p.id != id;
        let n = self.instances.len();
        let mut kept: Vec<PersistentInstance> = Vec::new();
        let mut i: usize = 0;
        while i < n
            invariant
                self == old(self),
                n == self.instances@.len(),
                0 <= i <= n,
                kept@.len() <= i,
                kept@.map_values(|p: PersistentInstance| p@)
                    == self@.instances.subrange(0, i as int).filter(pred),
                pred == (|p: PersistentInstanceView| p.id != id),
            decreases n - i,
        {
            let entry = self.instances[i].duplicate();
            let ghost kept_views = kept@.map_values(|p: PersistentInstance| p@);
            if entry.id != id {
                kept.push(entry);
            }
            proof {
                reveal(Seq::filter);
                let prefix = self@.instances.subrange(0, i as int);
                let prefix1 = self@.instances.subrange(0, i + 1);
                assert(prefix1.drop_last() =~= prefix);
                assert(prefix1.last() == self@.instances[i as int]);
                assert(self@.instances[i as int] == self.instances@[i as int]@);
                assert(kept@.map_values(|p: PersistentInstance| p@) =~= prefix1.filter(pred));
            }
            i = i + 1;
        }
        proof {
            assert(self@.instances.subrange(0, n as int) =~= self@.instances);
        }
        self.instances = kept;
    }

    /// Replace the document wholesale, as an import does, restamping it.
    pub fn import_data(&mut self, imported: PersistentData, now: i64)
        ensures
            final(self)@.instances == imported@.instances,
            final(self)@.version == imported@.version,
            final(self)@.created_at == imported@.created_at,
            final(self)@.updated_at == now,
    {
        let PersistentData { instances, version, created_at, updated_at } = imported;
        self.instances = instances;
        self.version = version;
        self.created_at = created_at;
        self.updated_at = now;
    }

    /// The instances the document holds, revived with zeroed counters, in
    /// order.
    pub fn load_instances(&self) -> (r: Vec<ProxyInstance>)
        ensures
            r@.len() == self@.instances.len(),
            forall|i: int| 0 <= i < r@.len()
                ==> (#[trigger] r@[i])@ == spec_revive(self@.instances[i]),
    {
        let n = self.instances.len();
        let mut r: Vec<ProxyInstance> = Vec::new();
        let mut i: usize = 0;
        while i < n
            invariant
                n == self.instances@.len(),
                0 <= i <= n,
                r@.len() == i,
                forall|k: int| 0 <= k < i ==> (#[trigger] r@[k])@ == spec_revive(self@.instances[k]),
            decreases n - i,
        {
            proof {
                assert(self@.instances[i as int] == self.instances@[i as int]@);
            }
            r.push(self.instances[i].to_instance());
            i = i + 1;
        }
        r
    }
}

} // verus!
