//! A deterministic in-memory backend.
use vstd::prelude::*;
use crate::backend::{InstanceId, KvsBackend, SnapshotId, KVS_MAX_SNAPSHOTS, check_restore, rotate};
use crate::error::ErrorCode;
use crate::value::{KvsMap, Val};

verus! {

/// A backend that keeps the generations of one instance in memory.
#[derive(Debug)]
pub struct MockBackend {
    instance_id: InstanceId,
    working_dir: String,
    generations: Vec<KvsMap>,
    defaults: Option<KvsMap>,
}

impl MockBackend {
    /// Every stored map is well formed.
    #[verifier::type_invariant]
    spec fn inv(&self) -> bool {
        &&& forall|i: int| 0 <= i < self.generations@.len() ==> (#[trigger] self.generations@[i]).wf()
        &&& self.defaults matches Some(d) ==> d.wf()
    }

    /// A backend of `instance_id` under `working_dir` that stores `defaults`
    /// as its defaults map and no generation.
    pub fn with_defaults(instance_id: InstanceId, working_dir: &str, defaults: KvsMap) -> (r: Self)
        requires
            defaults.wf(),
        ensures
            r.modelled(),
            r.instance() == instance_id.0,
            r.dir() == working_dir@,
            r.generations() == Seq::<Map<Seq<char>, Val>>::empty(),
            r.has_defaults(),
            r.stored_defaults() == defaults@,
    {
        MockBackend {
            instance_id,
            working_dir: working_dir.to_string(),
            generations: Vec::new(),
            defaults: Some(defaults),
        }
    }

    /// A copy of this backend holding the same stored maps.
    pub fn duplicate(&self) -> (r: Self)
        ensures
            r.modelled(),
            r.instance() == self.instance(),
            r.dir() == self.dir(),
            r.generations() == self.generations(),
            r.has_defaults() == self.has_defaults(),
            r.stored_defaults() == self.stored_defaults(),
    {
        proof { use_type_invariant(self); }
        let mut g: Vec<KvsMap> = Vec::new();
        let mut i: usize = 0;
        while i < self.generations.len()
            invariant
                i <= self.generations@.len(),
                g@.len() == i,
                forall|j: int| 0 <= j < i ==> (#[trigger] g@[j]).wf() && g@[j]@ == self.generations@[j]@,
                forall|j: int| 0 <= j < self.generations@.len() ==> (#[trigger] self.generations@[j]).wf(),
            decreases self.generations@.len() - i,
        {
            g.push(self.generations[i].clone());
            i = i + 1;
        }
        let d = self.defaults_map();
        proof {
            assert(g@.map_values(|m: KvsMap| m@) =~= self.generations@.map_values(|m: KvsMap| m@));
        }
        MockBackend {
            instance_id: self.instance_id,
            working_dir: self.working_dir.clone(),
            generations: g,
            defaults: d,
        }
    }

    /// The stored defaults map, if any.
    pub fn defaults_map(&self) -> (r: Option<KvsMap>)
        ensures
            r is Some == self.has_defaults(),
            r matches Some(m) ==> m.wf() && m@ == self.stored_defaults(),
    {
        proof { use_type_invariant(self); }
        match &self.defaults {
            Some(d) => Some(d.clone()),
            None => None,
        }
    }
}

impl KvsBackend for MockBackend {
    open spec fn modelled(&self) -> bool {
        true
    }

    closed spec fn generations(&self) -> Seq<Map<Seq<char>, Val>> {
        self.generations@.map_values(|m: KvsMap| m@)
    }

    closed spec fn has_defaults(&self) -> bool {
        self.defaults is Some
    }

    closed spec fn stored_defaults(&self) -> Map<Seq<char>, Val> {
        match self.defaults {
            Some(d) => d@,
            None => Map::empty(),
        }
    }

    closed spec fn instance(&self) -> nat {
        self.instance_id.0 as nat
    }

    closed spec fn dir(&self) -> Seq<char> {
        self.working_dir@
    }

    fn new(instance_id: InstanceId, working_dir: &str) -> (r: Self) {
        MockBackend { instance_id, working_dir: working_dir.to_string(), generations: Vec::new(), defaults: None }
    }

    fn load_kvs(&self, snapshot_id: SnapshotId) -> (r: Result<KvsMap, ErrorCode>) {
        proof { use_type_invariant(self); }
        if snapshot_id.0 < self.generations.len() {
            Ok(self.generations[snapshot_id.0].clone())
        } else {
            Err(ErrorCode::FileNotFound)
        }
    }

    fn load_defaults(&self) -> (r: Result<KvsMap, ErrorCode>) {
        proof { use_type_invariant(self); }
        match &self.defaults {
            Some(d) => Ok(d.clone()),
            None => Err(ErrorCode::FileNotFound),
        }
    }

    fn kvs_exists(&self) -> (r: bool) {
        self.generations.len() > 0
    }

    fn defaults_exist(&self) -> (r: bool) {
        self.defaults.is_some()
    }

    fn flush(&mut self, kvs_map: &KvsMap) -> (r: Result<(), ErrorCode>) {
        proof { use_type_invariant(&*self); }
        let ghost before = self.generations@;
        let keep: usize = if self.generations.len() <= KVS_MAX_SNAPSHOTS { self.generations.len() } else { KVS_MAX_SNAPSHOTS };
        let mut g: Vec<KvsMap> = Vec::new();
        g.push(kvs_map.clone());
        let mut i: usize = 0;
        while i < keep
            invariant
                keep <= self.generations@.len(),
                i <= keep,
                g@.len() == i + 1,
                g@[0].wf() && g@[0]@ == kvs_map@,
                forall|j: int| 1 <= j <= i ==> (#[trigger] g@[j]).wf() && g@[j]@ == self.generations@[j - 1]@,
                forall|j: int| 0 <= j < self.generations@.len() ==> (#[trigger] self.generations@[j]).wf(),
            decreases keep - i,
        {
            g.push(self.generations[i].clone());
            i = i + 1;
        }
        self.generations = g;
        proof {
            assert(self.generations@.map_values(|m: KvsMap| m@) =~= rotate(before.map_values(|m: KvsMap| m@), kvs_map@, KVS_MAX_SNAPSHOTS as nat));
        }
        Ok(())
    }

    fn snapshot_count(&self) -> (r: usize) {
        if self.generations.len() <= KVS_MAX_SNAPSHOTS {
            self.generations.len()
        } else {
            KVS_MAX_SNAPSHOTS
        }
    }

    fn snapshot_max_count() -> (r: usize) {
        KVS_MAX_SNAPSHOTS
    }

    fn snapshot_restore(&self, snapshot_id: SnapshotId) -> (r: Result<KvsMap, ErrorCode>) {
        let count = self.snapshot_count();
        match check_restore(snapshot_id, count) {
            Ok(()) => self.load_kvs(snapshot_id),
            Err(e) => Err(e),
        }
    }
}

} // verus!
