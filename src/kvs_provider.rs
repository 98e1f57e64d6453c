//! The instance pool and the handles through which an instance is used.
//!
//! The pool owns the state of every initialized instance in a fixed table of
//! slots. A handle names its slot; every operation goes through the pool, so
//! all handles to one instance see the same state at once.
use vstd::prelude::*;
use crate::backend::{InstanceId, KvsBackend, SnapshotId, KVS_MAX_SNAPSHOTS, count_of, defaults_outcome, load_kvs_outcome, restore_outcome, rotate};
use crate::error::ErrorCode;
use crate::value::{KvsMap, KvsValue, TryFromKvsValue, Val};

verus! {

/// Maximum number of instances.
pub const KVS_MAX_INSTANCES: usize = 10;

/// How the defaults map is loaded.
#[derive(Debug, Clone, Copy, PartialEq, Eq, Structural)]
pub enum Defaults {
    /// Defaults are not loaded: the defaults map is empty.
    Ignored,
    /// Defaults are loaded if stored, else the defaults map is empty.
    Optional,
    /// Defaults must be stored and are loaded.
    Required,
}

/// How the live map is loaded.
#[derive(Debug, Clone, Copy, PartialEq, Eq, Structural)]
pub enum KvsLoad {
    /// The live map starts empty.
    Ignored,
    /// The current generation is loaded if stored, else the live map starts empty.
    Optional,
    /// The current generation must be stored and is loaded.
    Required,
}

/// Whether an instance is flushed when the pool is dropped.
#[derive(Debug, Clone, Copy, PartialEq, Eq, Structural)]
pub enum FlushOnExit {
    Yes,
    No,
}

/// Parameters of an instance.
#[derive(Debug, Clone, Copy, PartialEq, Eq, Structural)]
pub struct KvsParameters {
    /// Instance ID.
    pub instance_id: InstanceId,
    /// Defaults handling mode.
    pub defaults: Defaults,
    /// KVS load mode.
    pub kvs_load: KvsLoad,
    /// Flush on exit mode.
    pub flush_on_exit: FlushOnExit,
}

impl KvsParameters {
    /// Parameters of `instance_id`: optional defaults, optional load, flush on exit.
    pub fn new(instance_id: InstanceId) -> (r: Self)
        ensures
            r == (KvsParameters {
                instance_id,
                defaults: Defaults::Optional,
                kvs_load: KvsLoad::Optional,
                flush_on_exit: FlushOnExit::Yes,
            }),
    {
        KvsParameters {
            instance_id,
            defaults: Defaults::Optional,
            kvs_load: KvsLoad::Optional,
            flush_on_exit: FlushOnExit::Yes,
        }
    }

    /// The same parameters with defaults mode `flag`.
    pub fn defaults(self, flag: Defaults) -> (r: Self)
        ensures
            r == (KvsParameters { defaults: flag, ..self }),
    {
        KvsParameters { defaults: flag, ..self }
    }

    /// The same parameters with load mode `flag`.
    pub fn kvs_load(self, flag: KvsLoad) -> (r: Self)
        ensures
            r == (KvsParameters { kvs_load: flag, ..self }),
    {
        KvsParameters { kvs_load: flag, ..self }
    }

    /// The same parameters with flush-on-exit mode `flag`.
    pub fn flush_on_exit(self, flag: FlushOnExit) -> (r: Self)
        ensures
            r == (KvsParameters { flush_on_exit: flag, ..self }),
    {
        KvsParameters { flush_on_exit: flag, ..self }
    }
}

/// The state of one instance, as its handles see it.
pub struct InstanceView {
    /// The live map.
    pub live: Map<Seq<char>, Val>,
    /// The defaults map.
    pub defaults: Map<Seq<char>, Val>,
    /// Flush-on-exit mode.
    pub flush_on_exit: FlushOnExit,
}

/// `s` with live map `live`.
pub open spec fn with_live(s: InstanceView, live: Map<Seq<char>, Val>) -> InstanceView {
    InstanceView { live, ..s }
}

/// What key `k` reads as: its live value, else its default, else nothing.
pub open spec fn lookup(s: InstanceView, k: Seq<char>) -> Option<Val> {
    if s.live.contains_key(k) {
        Some(s.live[k])
    } else if s.defaults.contains_key(k) {
        Some(s.defaults[k])
    } else {
        None
    }
}

/// The shared state of one instance.
struct InstanceState {
    kvs_map: KvsMap,
    defaults_map: KvsMap,
    flush_on_exit: FlushOnExit,
}

/// One occupied slot of the pool.
struct Slot<B> {
    state: InstanceState,
    backend: B,
}

/// The instance pool: a fixed table of slots indexed by instance ID.
pub struct GenericKvsProvider<B: KvsBackend> {
    slots: Vec<Option<Slot<B>>>,
    working_dir: String,
}

/// A handle to an initialized instance of a pool.
#[derive(Debug, Clone, Copy, PartialEq, Eq, Structural)]
pub struct GenericKvs {
    instance_id: InstanceId,
}

impl GenericKvs {
    /// The instance this handle names.
    pub closed spec fn id(&self) -> int {
        self.instance_id.0 as int
    }

    /// The instance this handle names.
    pub fn instance_id(&self) -> (r: InstanceId)
        ensures
            r.0 == self.id(),
    {
        self.instance_id
    }
}

impl<B: KvsBackend> GenericKvsProvider<B> {
    /// The table has one slot per instance ID and every stored map is well formed.
    pub closed spec fn wf(&self) -> bool {
        &&& self.slots@.len() == KVS_MAX_INSTANCES
        &&& forall|i: int| 0 <= i < self.slots@.len() ==> match #[trigger] self.slots@[i] {
            Some(s) => s.state.kvs_map.wf() && s.state.defaults_map.wf(),
            None => true,
        }
    }

    /// The state of instance `i`, if it is initialized.
    pub closed spec fn instance(&self, i: int) -> Option<InstanceView> {
        if 0 <= i < self.slots@.len() {
            match self.slots@[i] {
                Some(s) => Some(InstanceView {
                    live: s.state.kvs_map@,
                    defaults: s.state.defaults_map@,
                    flush_on_exit: s.state.flush_on_exit,
                }),
                None => None,
            }
        } else {
            None
        }
    }

    /// The backend of instance `i`, if it is initialized.
    pub closed spec fn backend(&self, i: int) -> Option<B> {
        if 0 <= i < self.slots@.len() {
            match self.slots@[i] {
                Some(s) => Some(s.backend),
                None => None,
            }
        } else {
            None
        }
    }

    /// The working directory.
    pub closed spec fn dir(&self) -> Seq<char> {
        self.working_dir@
    }

    /// Whether `other` differs from `self` in slot `i` at most.
    pub open spec fn same_except(&self, other: &Self, i: int) -> bool {
        &&& other.wf()
        &&& other.dir() == self.dir()
        &&& forall|j: int| j != i ==> #[trigger] other.instance(j) == self.instance(j) && other.backend(j) == self.backend(j)
    }

    /// An empty pool whose backends keep their files under `working_dir`.
    pub fn new(working_dir: String) -> (r: Self)
        ensures
            r.wf(),
            r.dir() == working_dir@,
            forall|i: int| #[trigger] r.instance(i) is None,
    {
        let mut slots: Vec<Option<Slot<B>>> = Vec::new();
        let mut i: usize = 0;
        while i < KVS_MAX_INSTANCES
            invariant
                i <= KVS_MAX_INSTANCES,
                slots@.len() == i,
                forall|j: int| 0 <= j < i ==> #[trigger] slots@[j] is None,
            decreases KVS_MAX_INSTANCES - i,
        {
            slots.push(None);
            i = i + 1;
        }
        GenericKvsProvider { slots, working_dir }
    }

    /// Maximum number of instances.
    pub fn max_instances() -> (r: usize)
        ensures
            r == KVS_MAX_INSTANCES,
    {
        KVS_MAX_INSTANCES
    }

    /// The working directory.
    pub fn working_dir(&self) -> (r: &String)
        ensures
            r@ == self.dir(),
    {
        &self.working_dir
    }

    /// Number of slots of the table.
    pub fn slot_count(&self) -> (r: usize)
        requires
            self.wf(),
        ensures
            r == KVS_MAX_INSTANCES,
    {
        self.slots.len()
    }

    /// Whether instance `instance_id` is initialized.
    pub fn is_initialized(&self, instance_id: InstanceId) -> (r: bool)
        requires
            self.wf(),
        ensures
            r == self.instance(instance_id.0 as int) is Some,
    {
        instance_id.0 < self.slots.len() && self.slots[instance_id.0].is_some()
    }

    /// Initialize instance `params.instance_id` with its backend created for
    /// the working directory, as `init_with_backend` does.
    pub fn init(&mut self, params: KvsParameters) -> (r: Result<GenericKvs, ErrorCode>)
        requires
            old(self).wf(),
        ensures
            init_outcome(*old(self), *final(self), params, r),
            r is Ok ==> init_placed(*old(self), *final(self), params, r),
    {
        let backend = B::new(params.instance_id, self.working_dir.as_str());
        self.init_with_backend(params, backend)
    }

    /// Initialize instance `params.instance_id` with `backend` as its backend.
    ///
    /// Fails with `InvalidInstanceId` for an ID out of range and with
    /// `InstanceAlreadyInitialized` for one in use. Otherwise the defaults map
    /// and then the live map are loaded as the modes say (an `Ignored` map is
    /// empty, an `Optional` one is loaded if stored and else empty, a
    /// `Required` one is loaded) and handed to `init_with_maps`, so that a
    /// failed load leaves the pool unchanged and its error is returned as it came.
    pub fn init_with_backend(&mut self, params: KvsParameters, backend: B) -> (r: Result<GenericKvs, ErrorCode>)
        requires
            old(self).wf(),
        ensures
            init_outcome(*old(self), *final(self), params, r),
            r is Ok ==> final(self).backend(params.instance_id.0 as int) == Some(backend),
            backend.modelled() && params.instance_id.0 < KVS_MAX_INSTANCES
                && old(self).instance(params.instance_id.0 as int) is None ==> init_from(*old(self), *final(self), params, backend,
                    defaults_loaded(params.defaults, backend), live_loaded(params.kvs_load, backend), r),
    {
        let id = params.instance_id.0;
        if id >= self.slots.len() {
            return Err(ErrorCode::InvalidInstanceId);
        }
        if self.slots[id].is_some() {
            return Err(ErrorCode::InstanceAlreadyInitialized);
        }
        let defaults_map: Result<KvsMap, ErrorCode> = match params.defaults {
            Defaults::Ignored => Ok(KvsMap::new()),
            Defaults::Optional => {
                if backend.defaults_exist() {
                    backend.load_defaults()
                } else {
                    Ok(KvsMap::new())
                }
            },
            Defaults::Required => backend.load_defaults(),
        };
        let kvs_map: Result<KvsMap, ErrorCode> = if defaults_map.is_err() {
            Ok(KvsMap::new())
        } else {
            match params.kvs_load {
                KvsLoad::Ignored => Ok(KvsMap::new()),
                KvsLoad::Optional => {
                    if backend.kvs_exists() {
                        backend.load_kvs(SnapshotId(0))
                    } else {
                        Ok(KvsMap::new())
                    }
                },
                KvsLoad::Required => backend.load_kvs(SnapshotId(0)),
            }
        };
        self.init_with_maps(params, backend, defaults_map, kvs_map)
    }

    /// Initialize instance `params.instance_id` with `backend` as its backend
    /// from the outcomes of loading its defaults map and its live map: the
    /// first failed load's error is returned as it came and leaves the pool
    /// unchanged; otherwise the instance holds the loaded maps.
    pub fn init_with_maps(
        &mut self,
        params: KvsParameters,
        backend: B,
        defaults_map: Result<KvsMap, ErrorCode>,
        kvs_map: Result<KvsMap, ErrorCode>,
    ) -> (r: Result<GenericKvs, ErrorCode>)
        requires
            old(self).wf(),
            defaults_map matches Ok(m) ==> m.wf(),
            kvs_map matches Ok(m) ==> m.wf(),
        ensures
            params.instance_id.0 >= KVS_MAX_INSTANCES ==> r == Err::<GenericKvs, ErrorCode>(ErrorCode::InvalidInstanceId)
                && *final(self) == *old(self),
            params.instance_id.0 < KVS_MAX_INSTANCES && old(self).instance(params.instance_id.0 as int) is Some
                ==> r == Err::<GenericKvs, ErrorCode>(ErrorCode::InstanceAlreadyInitialized) && *final(self) == *old(self),
            params.instance_id.0 < KVS_MAX_INSTANCES && old(self).instance(params.instance_id.0 as int) is None
                ==> init_from(*old(self), *final(self), params, backend, result_view(defaults_map), result_view(kvs_map), r),
    {
        let id = params.instance_id.0;
        if id >= self.slots.len() {
            return Err(ErrorCode::InvalidInstanceId);
        }
        if self.slots[id].is_some() {
            return Err(ErrorCode::InstanceAlreadyInitialized);
        }
        let defaults_map = match defaults_map {
            Ok(m) => m,
            Err(e) => return Err(e),
        };
        let kvs_map = match kvs_map {
            Ok(m) => m,
            Err(e) => return Err(e),
        };
        let ghost before = *self;
        let state = InstanceState { kvs_map, defaults_map, flush_on_exit: params.flush_on_exit };
        self.slots.set(id, Some(Slot { state, backend }));
        proof {
            assert forall|j: int| j != id implies #[trigger] self.instance(j) == before.instance(j) && self.backend(j) == before.backend(j) by {
                if 0 <= j < self.slots@.len() {
                    assert(self.slots@[j] == before.slots@[j]);
                }
            }
        }
        Ok(GenericKvs { instance_id: params.instance_id })
    }

    /// A new handle to the initialized instance `instance_id`; fails with
    /// `InvalidInstanceId` for an ID out of range and `InstanceNotInitialized`
    /// for one not initialized.
    pub fn get(&self, instance_id: InstanceId) -> (r: Result<GenericKvs, ErrorCode>)
        requires
            self.wf(),
        ensures
            instance_id.0 >= KVS_MAX_INSTANCES ==> r == Err::<GenericKvs, ErrorCode>(ErrorCode::InvalidInstanceId),
            instance_id.0 < KVS_MAX_INSTANCES && self.instance(instance_id.0 as int) is None
                ==> r == Err::<GenericKvs, ErrorCode>(ErrorCode::InstanceNotInitialized),
            self.instance(instance_id.0 as int) is Some ==> (r matches Ok(h) && h.id() == instance_id.0),
    {
        if instance_id.0 >= self.slots.len() {
            Err(ErrorCode::InvalidInstanceId)
        } else if self.slots[instance_id.0].is_none() {
            Err(ErrorCode::InstanceNotInitialized)
        } else {
            Ok(GenericKvs { instance_id })
        }
    }

    /// Take the slot of instance `i` out of the table.
    fn take_slot(&mut self, i: usize) -> (r: Slot<B>)
        requires
            old(self).wf(),
            old(self).instance(i as int) is Some,
        ensures
            final(self).slots@ == old(self).slots@.update(i as int, None),
            final(self).working_dir == old(self).working_dir,
            old(self).slots@[i as int] == Some(r),
            r.state.kvs_map.wf() && r.state.defaults_map.wf(),
    {
        let ghost before = self.slots@;
        self.slots.push(None);
        let s = self.slots.swap_remove(i);
        proof {
            assert(self.slots@ =~= before.update(i as int, None));
        }
        s.unwrap()
    }

    /// Put slot `s` back as the slot of instance `i`.
    fn put_slot(&mut self, i: usize, s: Slot<B>)
        requires
            i < old(self).slots@.len(),
        ensures
            final(self).slots@ == old(self).slots@.update(i as int, Some(s)),
            final(self).working_dir == old(self).working_dir,
    {
        self.slots.set(i, Some(s));
    }

    /// Flush every instance whose flush-on-exit mode is `Yes`, as best
    /// effort: a failed flush does not stop the others and is not reported.
    /// Instances with mode `No` keep their backend untouched.
    pub fn flush_all_on_exit(&mut self)
        requires
            old(self).wf(),
        ensures
            final(self).wf(),
            final(self).dir() == old(self).dir(),
            forall|i: int| #[trigger] final(self).instance(i) == old(self).instance(i),
            forall|i: int| #[trigger] exit_flushed(*old(self), *final(self), i),
    {
        let mut i: usize = 0;
        while i < self.slots.len()
            invariant
                self.wf(),
                self.dir() == old(self).dir(),
                forall|j: int| #[trigger] self.instance(j) == old(self).instance(j),
                forall|j: int| 0 <= j < i ==> #[trigger] exit_flushed(*old(self), *self, j),
                forall|j: int| !(0 <= j < i) ==> #[trigger] self.backend(j) == old(self).backend(j),
            decreases KVS_MAX_INSTANCES - i,
        {
            if self.slots[i].is_some() {
                let ghost before = *self;
                let mut s = self.take_slot(i);
                let ghost b0 = s.backend;
                let ghost st = s.state;
                if s.state.flush_on_exit == FlushOnExit::Yes {
                    let _ = s.backend.flush(&s.state.kvs_map);
                }
                let ghost b1 = s.backend;
                self.put_slot(i, s);
                proof {
                    lemma_slot_updated(before, *self, i as int);
                    assert(before.backend(i as int) == Some(b0));
                    assert(self.backend(i as int) == Some(b1));
                    assert(before.instance(i as int) == Some(state_view(st)));
                    assert(st.flush_on_exit == FlushOnExit::No ==> b1 == b0);
                    assert(exit_flushed(*old(self), *self, i as int));
                    assert forall|j: int| 0 <= j < i + 1 implies #[trigger] exit_flushed(*old(self), *self, j) by {
                        if j != i {
                            assert(exit_flushed(*old(self), before, j));
                            assert(self.backend(j) == before.backend(j));
                        }
                    }
                    assert forall|j: int| !(0 <= j < i + 1) implies #[trigger] self.backend(j) == old(self).backend(j) by {
                        assert(self.backend(j) == before.backend(j));
                    }
                }
            } else {
                proof {
                    assert(exit_flushed(*old(self), *self, i as int));
                }
            }
            i = i + 1;
        }
        proof {
            assert forall|j: int| #[trigger] exit_flushed(*old(self), *self, j) by {
                if !(0 <= j < i) {
                    assert(self.backend(j) == old(self).backend(j));
                }
            }
        }
    }
}

/// What the flush on exit did to slot `i`: an instance with mode `Yes` was
/// flushed (as `flushed` says for a modelled backend); any other slot kept
/// its backend.
pub open spec fn exit_flushed<B: KvsBackend>(before: GenericKvsProvider<B>, after: GenericKvsProvider<B>, i: int) -> bool {
    match before.instance(i) {
        Some(s) => if s.flush_on_exit == FlushOnExit::Yes {
            after.backend(i) is Some && flushed(before.backend(i)->Some_0, after.backend(i)->Some_0, s.live)
        } else {
            after.backend(i) == before.backend(i)
        },
        None => after.backend(i) == before.backend(i),
    }
}

/// What `init` guarantees: the outcome for an ID out of range or in use, and
/// that on success only the slot of the instance changed, now holding an
/// instance with the requested flush-on-exit mode; on failure nothing changed.
/// With both maps ignored, success is certain for a free ID in range.
pub open spec fn init_outcome<B: KvsBackend>(
    before: GenericKvsProvider<B>,
    after: GenericKvsProvider<B>,
    params: KvsParameters,
    r: Result<GenericKvs, ErrorCode>,
) -> bool {
    let i = params.instance_id.0 as int;
    &&& after.wf()
    &&& params.instance_id.0 >= KVS_MAX_INSTANCES ==> r == Err::<GenericKvs, ErrorCode>(ErrorCode::InvalidInstanceId)
    &&& params.instance_id.0 < KVS_MAX_INSTANCES && before.instance(i) is Some
        ==> r == Err::<GenericKvs, ErrorCode>(ErrorCode::InstanceAlreadyInitialized)
    &&& r is Err ==> after == before
    &&& r matches Ok(h) ==> {
        &&& h.id() == i
        &&& before.instance(i) is None
        &&& before.same_except(&after, i)
        &&& (after.instance(i) matches Some(s) && s.flush_on_exit == params.flush_on_exit)
        &&& params.defaults == Defaults::Ignored ==> after.instance(i)->Some_0.defaults == Map::<Seq<char>, Val>::empty()
        &&& params.kvs_load == KvsLoad::Ignored ==> after.instance(i)->Some_0.live == Map::<Seq<char>, Val>::empty()
    }
    &&& (params.instance_id.0 < KVS_MAX_INSTANCES && before.instance(i) is None
        && params.defaults == Defaults::Ignored && params.kvs_load == KvsLoad::Ignored) ==> r is Ok
}

/// After a successful `init`, the slot holds a backend; a modelled one was
/// created for the instance and the working directory, and the instance holds
/// what it loaded.
pub open spec fn init_placed<B: KvsBackend>(
    before: GenericKvsProvider<B>,
    after: GenericKvsProvider<B>,
    params: KvsParameters,
    r: Result<GenericKvs, ErrorCode>,
) -> bool {
    let i = params.instance_id.0 as int;
    &&& after.backend(i) is Some
    &&& after.backend(i)->Some_0.modelled() ==> {
        let b = after.backend(i)->Some_0;
        &&& b.instance() == params.instance_id.0
        &&& b.dir() == before.dir()
        &&& init_from(before, after, params, b, defaults_loaded(params.defaults, b), live_loaded(params.kvs_load, b), r)
    }
}

/// The contents of a loaded map, or the error of its load.
pub open spec fn result_view(r: Result<KvsMap, ErrorCode>) -> Result<Map<Seq<char>, Val>, ErrorCode> {
    match r {
        Ok(m) => Ok(m@),
        Err(e) => Err(e),
    }
}

/// The defaults map that an instance starts with under `mode`, from a
/// modelled backend: empty when ignored or (optionally) not stored, else the
/// outcome of loading the stored defaults.
pub open spec fn defaults_loaded<B: KvsBackend>(mode: Defaults, b: B) -> Result<Map<Seq<char>, Val>, ErrorCode> {
    match mode {
        Defaults::Ignored => Ok(Map::empty()),
        Defaults::Optional => if b.has_defaults() { Ok(b.stored_defaults()) } else { Ok(Map::empty()) },
        Defaults::Required => defaults_outcome(b.has_defaults(), b.stored_defaults()),
    }
}

/// The live map that an instance starts with under `mode`, from a modelled
/// backend: empty when ignored or (optionally) not stored, else the outcome
/// of loading generation 0.
pub open spec fn live_loaded<B: KvsBackend>(mode: KvsLoad, b: B) -> Result<Map<Seq<char>, Val>, ErrorCode> {
    match mode {
        KvsLoad::Ignored => Ok(Map::empty()),
        KvsLoad::Optional => if b.generations().len() > 0 { load_kvs_outcome(b.generations(), 0) } else { Ok(Map::empty()) },
        KvsLoad::Required => load_kvs_outcome(b.generations(), 0),
    }
}

/// Initializing a free slot from the load outcomes `d` (defaults) and `k`
/// (live map): the first error is returned as it came with the pool
/// unchanged; else only the slot changed, now holding the loaded maps, the
/// requested flush-on-exit mode and `backend`.
pub open spec fn init_from<B: KvsBackend>(
    before: GenericKvsProvider<B>,
    after: GenericKvsProvider<B>,
    params: KvsParameters,
    backend: B,
    d: Result<Map<Seq<char>, Val>, ErrorCode>,
    k: Result<Map<Seq<char>, Val>, ErrorCode>,
    r: Result<GenericKvs, ErrorCode>,
) -> bool {
    let i = params.instance_id.0 as int;
    match d {
        Err(e) => r == Err::<GenericKvs, ErrorCode>(e) && after == before,
        Ok(dm) => match k {
            Err(e) => r == Err::<GenericKvs, ErrorCode>(e) && after == before,
            Ok(km) => {
                &&& r matches Ok(h) && h.id() == i
                &&& before.same_except(&after, i)
                &&& after.backend(i) == Some(backend)
                &&& after.instance(i) == Some(InstanceView { live: km, defaults: dm, flush_on_exit: params.flush_on_exit })
            },
        },
    }
}


/// The view of a stored instance state.
spec fn state_view(st: InstanceState) -> InstanceView {
    InstanceView { live: st.kvs_map@, defaults: st.defaults_map@, flush_on_exit: st.flush_on_exit }
}

proof fn lemma_slot_updated<B: KvsBackend>(before: GenericKvsProvider<B>, after: GenericKvsProvider<B>, i: int)
    requires
        before.wf(),
        0 <= i < before.slots@.len(),
        after.slots@.len() == before.slots@.len(),
        after.working_dir == before.working_dir,
        forall|j: int| 0 <= j < after.slots@.len() && j != i ==> after.slots@[j] == before.slots@[j],
        after.slots@[i] matches Some(s) && s.state.kvs_map.wf() && s.state.defaults_map.wf(),
    ensures
        before.same_except(&after, i),
{
    assert forall|j: int| 0 <= j < after.slots@.len() implies match #[trigger] after.slots@[j] {
        Some(s) => s.state.kvs_map.wf() && s.state.defaults_map.wf(),
        None => true,
    } by {
        if j != i {
            assert(after.slots@[j] == before.slots@[j]);
        }
    }
    assert forall|j: int| j != i implies #[trigger] after.instance(j) == before.instance(j) && after.backend(j) == before.backend(j) by {
        if 0 <= j < after.slots@.len() {
            assert(after.slots@[j] == before.slots@[j]);
        }
    }
}

impl GenericKvs {
    /// The state of this handle's instance.
    fn state<'a, B: KvsBackend>(&self, pool: &'a GenericKvsProvider<B>) -> (r: Result<&'a InstanceState, ErrorCode>)
        requires
            pool.wf(),
        ensures
            match pool.instance(self.id()) {
                Some(s) => r matches Ok(st) && state_view(*st) == s && st.kvs_map.wf() && st.defaults_map.wf(),
                None => r == Err::<&InstanceState, ErrorCode>(ErrorCode::InstanceNotInitialized),
            },
    {
        let i = self.instance_id.0;
        if i < pool.slots.len() {
            match &pool.slots[i] {
                Some(slot) => Ok(&slot.state),
                None => Err(ErrorCode::InstanceNotInitialized),
            }
        } else {
            Err(ErrorCode::InstanceNotInitialized)
        }
    }

    /// The value of `key`: its live value, else its default; fails with
    /// `KeyNotFound` if it has neither.
    pub fn get_value<B: KvsBackend>(&self, pool: &GenericKvsProvider<B>, key: &str) -> (r: Result<KvsValue, ErrorCode>)
        requires
            pool.wf(),
        ensures
            match pool.instance(self.id()) {
                None => r == Err::<KvsValue, ErrorCode>(ErrorCode::InstanceNotInitialized),
                Some(s) => match lookup(s, key@) {
                    Some(v) => r matches Ok(x) && x@ == v,
                    None => r == Err::<KvsValue, ErrorCode>(ErrorCode::KeyNotFound),
                },
            },
    {
        let st = match self.state(pool) {
            Ok(st) => st,
            Err(e) => return Err(e),
        };
        match st.kvs_map.get(key) {
            Some(v) => Ok(v.clone()),
            None => match st.defaults_map.get(key) {
                Some(v) => Ok(v.clone()),
                None => Err(ErrorCode::KeyNotFound),
            },
        }
    }

    /// The value of `key` read as a `T`; fails with `KeyNotFound` if the key
    /// has neither a live value nor a default, and with `ConversionFailed` if
    /// its value is not a `T`.
    pub fn get_value_as<T: TryFromKvsValue, B: KvsBackend>(&self, pool: &GenericKvsProvider<B>, key: &str) -> (r: Result<T, ErrorCode>)
        requires
            pool.wf(),
        ensures
            match pool.instance(self.id()) {
                None => r == Err::<T, ErrorCode>(ErrorCode::InstanceNotInitialized),
                Some(s) => match lookup(s, key@) {
                    Some(v) => if T::accepts(v) {
                        r matches Ok(x) && T::reads_as(v, x)
                    } else {
                        r == Err::<T, ErrorCode>(ErrorCode::ConversionFailed)
                    },
                    None => r == Err::<T, ErrorCode>(ErrorCode::KeyNotFound),
                },
            },
    {
        let st = match self.state(pool) {
            Ok(st) => st,
            Err(e) => return Err(e),
        };
        match st.kvs_map.get(key) {
            Some(v) => T::try_from_kvs_value(v),
            None => match st.defaults_map.get(key) {
                Some(v) => T::try_from_kvs_value(v),
                None => Err(ErrorCode::KeyNotFound),
            },
        }
    }

    /// The default value of `key`; fails with `KeyNotFound` if it has none.
    pub fn get_default_value<B: KvsBackend>(&self, pool: &GenericKvsProvider<B>, key: &str) -> (r: Result<KvsValue, ErrorCode>)
        requires
            pool.wf(),
        ensures
            match pool.instance(self.id()) {
                None => r == Err::<KvsValue, ErrorCode>(ErrorCode::InstanceNotInitialized),
                Some(s) => if s.defaults.contains_key(key@) {
                    r matches Ok(x) && x@ == s.defaults[key@]
                } else {
                    r == Err::<KvsValue, ErrorCode>(ErrorCode::KeyNotFound)
                },
            },
    {
        let st = match self.state(pool) {
            Ok(st) => st,
            Err(e) => return Err(e),
        };
        match st.defaults_map.get(key) {
            Some(v) => Ok(v.clone()),
            None => Err(ErrorCode::KeyNotFound),
        }
    }

    /// Whether `key` reads its default: `false` if it has a live value,
    /// `true` if it has only a default, `KeyNotFound` if it has neither.
    pub fn is_value_default<B: KvsBackend>(&self, pool: &GenericKvsProvider<B>, key: &str) -> (r: Result<bool, ErrorCode>)
        requires
            pool.wf(),
        ensures
            match pool.instance(self.id()) {
                None => r == Err::<bool, ErrorCode>(ErrorCode::InstanceNotInitialized),
                Some(s) => if s.live.contains_key(key@) {
                    r == Ok::<bool, ErrorCode>(false)
                } else if s.defaults.contains_key(key@) {
                    r == Ok::<bool, ErrorCode>(true)
                } else {
                    r == Err::<bool, ErrorCode>(ErrorCode::KeyNotFound)
                },
            },
    {
        let st = match self.state(pool) {
            Ok(st) => st,
            Err(e) => return Err(e),
        };
        if st.kvs_map.contains_key(key) {
            Ok(false)
        } else if st.defaults_map.contains_key(key) {
            Ok(true)
        } else {
            Err(ErrorCode::KeyNotFound)
        }
    }

    /// Whether `key` has a live value.
    pub fn key_exists<B: KvsBackend>(&self, pool: &GenericKvsProvider<B>, key: &str) -> (r: Result<bool, ErrorCode>)
        requires
            pool.wf(),
        ensures
            match pool.instance(self.id()) {
                None => r == Err::<bool, ErrorCode>(ErrorCode::InstanceNotInitialized),
                Some(s) => r == Ok::<bool, ErrorCode>(s.live.contains_key(key@)),
            },
    {
        let st = match self.state(pool) {
            Ok(st) => st,
            Err(e) => return Err(e),
        };
        Ok(st.kvs_map.contains_key(key))
    }

    /// The keys that have a live value.
    pub fn get_all_keys<B: KvsBackend>(&self, pool: &GenericKvsProvider<B>) -> (r: Result<Vec<String>, ErrorCode>)
        requires
            pool.wf(),
        ensures
            match pool.instance(self.id()) {
                None => r == Err::<Vec<String>, ErrorCode>(ErrorCode::InstanceNotInitialized),
                Some(s) => r matches Ok(keys) && keys@.len() == s.live.dom().len()
                    && forall|k: Seq<char>| s.live.contains_key(k) <==> (exists|i: int| 0 <= i < keys@.len() && #[trigger] keys@[i]@ == k),
            },
    {
        let st = match self.state(pool) {
            Ok(st) => st,
            Err(e) => return Err(e),
        };
        Ok(st.kvs_map.keys())
    }

    /// The flush-on-exit mode.
    pub fn flush_on_exit<B: KvsBackend>(&self, pool: &GenericKvsProvider<B>) -> (r: Result<FlushOnExit, ErrorCode>)
        requires
            pool.wf(),
        ensures
            match pool.instance(self.id()) {
                None => r == Err::<FlushOnExit, ErrorCode>(ErrorCode::InstanceNotInitialized),
                Some(s) => r == Ok::<FlushOnExit, ErrorCode>(s.flush_on_exit),
            },
    {
        let st = match self.state(pool) {
            Ok(st) => st,
            Err(e) => return Err(e),
        };
        Ok(st.flush_on_exit)
    }

    /// Take this handle's slot out of the pool.
    fn take<B: KvsBackend>(&self, pool: &mut GenericKvsProvider<B>) -> (r: Result<Slot<B>, ErrorCode>)
        requires
            old(pool).wf(),
        ensures
            match old(pool).instance(self.id()) {
                None => r == Err::<Slot<B>, ErrorCode>(ErrorCode::InstanceNotInitialized) && *final(pool) == *old(pool),
                Some(s) => r matches Ok(slot) && state_view(slot.state) == s
                    && slot.state.kvs_map.wf() && slot.state.defaults_map.wf()
                    && old(pool).backend(self.id()) == Some(slot.backend)
                    && final(pool).slots@ == old(pool).slots@.update(self.id(), None)
                    && final(pool).working_dir == old(pool).working_dir,
            },
    {
        let i = self.instance_id.0;
        if i < pool.slots.len() && pool.slots[i].is_some() {
            Ok(pool.take_slot(i))
        } else {
            Err(ErrorCode::InstanceNotInitialized)
        }
    }

    /// Set the flush-on-exit mode.
    pub fn set_flush_on_exit<B: KvsBackend>(&self, pool: &mut GenericKvsProvider<B>, flag: FlushOnExit) -> (r: Result<(), ErrorCode>)
        requires
            old(pool).wf(),
        ensures
            final(pool).wf(),
            match old(pool).instance(self.id()) {
                None => r == Err::<(), ErrorCode>(ErrorCode::InstanceNotInitialized) && *final(pool) == *old(pool),
                Some(s) => r is Ok && old(pool).same_except(&*final(pool), self.id())
                    && final(pool).backend(self.id()) == old(pool).backend(self.id())
                    && final(pool).instance(self.id()) == Some((InstanceView { flush_on_exit: flag, ..s })),
            },
    {
        let ghost before = *pool;
        let mut slot = match self.take(pool) {
            Ok(s) => s,
            Err(e) => return Err(e),
        };
        slot.state.flush_on_exit = flag;
        pool.put_slot(self.instance_id.0, slot);
        proof { lemma_slot_updated(before, *pool, self.id()); }
        Ok(())
    }

    /// Set `key` to `value` in the live map; the defaults are untouched.
    pub fn set_value<B: KvsBackend>(&self, pool: &mut GenericKvsProvider<B>, key: &str, value: KvsValue) -> (r: Result<(), ErrorCode>)
        requires
            old(pool).wf(),
        ensures
            final(pool).wf(),
            match old(pool).instance(self.id()) {
                None => r == Err::<(), ErrorCode>(ErrorCode::InstanceNotInitialized) && *final(pool) == *old(pool),
                Some(s) => r is Ok && old(pool).same_except(&*final(pool), self.id())
                    && final(pool).backend(self.id()) == old(pool).backend(self.id())
                    && final(pool).instance(self.id()) == Some(with_live(s, s.live.insert(key@, value@))),
            },
    {
        let ghost before = *pool;
        let mut slot = match self.take(pool) {
            Ok(s) => s,
            Err(e) => return Err(e),
        };
        slot.state.kvs_map.insert(key.to_string(), value);
        pool.put_slot(self.instance_id.0, slot);
        proof { lemma_slot_updated(before, *pool, self.id()); }
        Ok(())
    }

    /// Remove the live value of `key`, so that it reads its default again if
    /// it has one; fails with `KeyNotFound` if it has no live value.
    pub fn remove_key<B: KvsBackend>(&self, pool: &mut GenericKvsProvider<B>, key: &str) -> (r: Result<(), ErrorCode>)
        requires
            old(pool).wf(),
        ensures
            final(pool).wf(),
            match old(pool).instance(self.id()) {
                None => r == Err::<(), ErrorCode>(ErrorCode::InstanceNotInitialized) && *final(pool) == *old(pool),
                Some(s) => if s.live.contains_key(key@) {
                    r is Ok && old(pool).same_except(&*final(pool), self.id())
                        && final(pool).backend(self.id()) == old(pool).backend(self.id())
                        && final(pool).instance(self.id()) == Some(with_live(s, s.live.remove(key@)))
                } else {
                    r == Err::<(), ErrorCode>(ErrorCode::KeyNotFound) && old(pool).same_except(&*final(pool), self.id())
                        && final(pool).backend(self.id()) == old(pool).backend(self.id())
                        && final(pool).instance(self.id()) == Some(s)
                },
            },
    {
        let ghost before = *pool;
        let mut slot = match self.take(pool) {
            Ok(s) => s,
            Err(e) => return Err(e),
        };
        let ghost live = slot.state.kvs_map@;
        let removed = slot.state.kvs_map.remove(key);
        proof {
            if removed is None {
                assert(live.remove(key@) =~= live);
            }
        }
        pool.put_slot(self.instance_id.0, slot);
        proof { lemma_slot_updated(before, *pool, self.id()); }
        match removed {
            Some(_) => Ok(()),
            None => Err(ErrorCode::KeyNotFound),
        }
    }

    /// Empty the live map: every key with a default reads it again, every
    /// other key is gone.
    pub fn reset<B: KvsBackend>(&self, pool: &mut GenericKvsProvider<B>) -> (r: Result<(), ErrorCode>)
        requires
            old(pool).wf(),
        ensures
            final(pool).wf(),
            match old(pool).instance(self.id()) {
                None => r == Err::<(), ErrorCode>(ErrorCode::InstanceNotInitialized) && *final(pool) == *old(pool),
                Some(s) => r is Ok && old(pool).same_except(&*final(pool), self.id())
                    && final(pool).backend(self.id()) == old(pool).backend(self.id())
                    && final(pool).instance(self.id()) == Some(with_live(s, Map::empty())),
            },
    {
        let ghost before = *pool;
        let mut slot = match self.take(pool) {
            Ok(s) => s,
            Err(e) => return Err(e),
        };
        slot.state.kvs_map = KvsMap::new();
        pool.put_slot(self.instance_id.0, slot);
        proof { lemma_slot_updated(before, *pool, self.id()); }
        Ok(())
    }

    /// Remove the live value of `key`, which must have a default; fails with
    /// `KeyDefaultNotFound` if it has none.
    pub fn reset_key<B: KvsBackend>(&self, pool: &mut GenericKvsProvider<B>, key: &str) -> (r: Result<(), ErrorCode>)
        requires
            old(pool).wf(),
        ensures
            final(pool).wf(),
            match old(pool).instance(self.id()) {
                None => r == Err::<(), ErrorCode>(ErrorCode::InstanceNotInitialized) && *final(pool) == *old(pool),
                Some(s) => if s.defaults.contains_key(key@) {
                    r is Ok && old(pool).same_except(&*final(pool), self.id())
                        && final(pool).backend(self.id()) == old(pool).backend(self.id())
                        && final(pool).instance(self.id()) == Some(with_live(s, s.live.remove(key@)))
                } else {
                    r == Err::<(), ErrorCode>(ErrorCode::KeyDefaultNotFound) && *final(pool) == *old(pool)
                },
            },
    {
        let ghost before = *pool;
        match self.state(pool) {
            Ok(st) => {
                if !st.defaults_map.contains_key(key) {
                    return Err(ErrorCode::KeyDefaultNotFound);
                }
            },
            Err(e) => return Err(e),
        }
        let mut slot = match self.take(pool) {
            Ok(s) => s,
            Err(e) => return Err(e),
        };
        let _ = slot.state.kvs_map.remove(key);
        pool.put_slot(self.instance_id.0, slot);
        proof { lemma_slot_updated(before, *pool, self.id()); }
        Ok(())
    }

    /// Persist the live map through the backend: the generations rotate and
    /// the live map becomes the current one. A backend error is returned unchanged.
    pub fn flush<B: KvsBackend>(&self, pool: &mut GenericKvsProvider<B>) -> (r: Result<(), ErrorCode>)
        requires
            old(pool).wf(),
        ensures
            final(pool).wf(),
            match old(pool).instance(self.id()) {
                None => r == Err::<(), ErrorCode>(ErrorCode::InstanceNotInitialized) && *final(pool) == *old(pool),
                Some(s) => old(pool).same_except(&*final(pool), self.id())
                    && final(pool).instance(self.id()) == Some(s)
                    && (old(pool).backend(self.id())->Some_0.modelled() ==> r is Ok
                        && flushed(old(pool).backend(self.id())->Some_0, final(pool).backend(self.id())->Some_0, s.live)),
            },
    {
        let ghost before = *pool;
        let mut slot = match self.take(pool) {
            Ok(s) => s,
            Err(e) => return Err(e),
        };
        let r = slot.backend.flush(&slot.state.kvs_map);
        pool.put_slot(self.instance_id.0, slot);
        proof { lemma_slot_updated(before, *pool, self.id()); }
        r
    }

    /// Flush if the flush-on-exit mode is `Yes`: the fallible counterpart of
    /// the best-effort flush when the pool is dropped.
    pub fn close<B: KvsBackend>(&self, pool: &mut GenericKvsProvider<B>) -> (r: Result<(), ErrorCode>)
        requires
            old(pool).wf(),
        ensures
            final(pool).wf(),
            match old(pool).instance(self.id()) {
                None => r == Err::<(), ErrorCode>(ErrorCode::InstanceNotInitialized) && *final(pool) == *old(pool),
                Some(s) => old(pool).same_except(&*final(pool), self.id())
                    && final(pool).instance(self.id()) == Some(s)
                    && (s.flush_on_exit == FlushOnExit::No ==> r is Ok && *final(pool) == *old(pool))
                    && (s.flush_on_exit == FlushOnExit::Yes && old(pool).backend(self.id())->Some_0.modelled()
                        ==> r is Ok && flushed(old(pool).backend(self.id())->Some_0, final(pool).backend(self.id())->Some_0, s.live)),
            },
    {
        match self.flush_on_exit(pool) {
            Ok(FlushOnExit::Yes) => self.flush(pool),
            Ok(FlushOnExit::No) => Ok(()),
            Err(e) => Err(e),
        }
    }

    /// Number of snapshots of this handle's instance (0 if it is not initialized).
    pub fn snapshot_count<B: KvsBackend>(&self, pool: &GenericKvsProvider<B>) -> (r: usize)
        requires
            pool.wf(),
        ensures
            r <= KVS_MAX_SNAPSHOTS,
            match pool.backend(self.id()) {
                Some(b) => b.modelled() ==> r == count_of(b.generations(), KVS_MAX_SNAPSHOTS as nat),
                None => r == 0,
            },
    {
        let i = self.instance_id.0;
        if i < pool.slots.len() {
            match &pool.slots[i] {
                Some(slot) => slot.backend.snapshot_count(),
                None => 0,
            }
        } else {
            0
        }
    }

    /// Maximum number of snapshots.
    pub fn snapshot_max_count() -> (r: usize)
        ensures
            r == KVS_MAX_SNAPSHOTS,
    {
        KVS_MAX_SNAPSHOTS
    }

    /// Replace the live map by snapshot `snapshot_id`. Fails with
    /// `InvalidSnapshotId` for snapshot 0 and for one beyond the snapshot
    /// count; a failure leaves the instance unchanged.
    pub fn snapshot_restore<B: KvsBackend>(&self, pool: &mut GenericKvsProvider<B>, snapshot_id: SnapshotId) -> (r: Result<(), ErrorCode>)
        requires
            old(pool).wf(),
        ensures
            final(pool).wf(),
            match old(pool).instance(self.id()) {
                None => r == Err::<(), ErrorCode>(ErrorCode::InstanceNotInitialized) && *final(pool) == *old(pool),
                Some(s) => {
                    let b = old(pool).backend(self.id())->Some_0;
                    let gens = b.generations();
                    &&& old(pool).same_except(&*final(pool), self.id())
                    &&& final(pool).backend(self.id()) == old(pool).backend(self.id())
                    &&& snapshot_id.0 == 0 ==> r == Err::<(), ErrorCode>(ErrorCode::InvalidSnapshotId)
                    &&& snapshot_id.0 > KVS_MAX_SNAPSHOTS ==> r == Err::<(), ErrorCode>(ErrorCode::InvalidSnapshotId)
                    &&& r is Err ==> final(pool).instance(self.id()) == Some(s)
                    &&& b.modelled() ==> match restore_outcome(gens, snapshot_id.0 as nat) {
                        Ok(m) => r is Ok && final(pool).instance(self.id()) == Some(with_live(s, m)),
                        Err(e) => r == Err::<(), ErrorCode>(e),
                    }
                },
            },
    {
        let ghost before = *pool;
        let mut slot = match self.take(pool) {
            Ok(s) => s,
            Err(e) => return Err(e),
        };
        let r = match slot.backend.snapshot_restore(snapshot_id) {
            Ok(m) => {
                slot.state.kvs_map = m;
                Ok(())
            },
            Err(e) => Err(e),
        };
        pool.put_slot(self.instance_id.0, slot);
        proof { lemma_slot_updated(before, *pool, self.id()); }
        r
    }
}


/// A flush of `live` took backend `before` to `after`: for a modelled
/// backend, the generations rotated with `live` as the current one and
/// nothing else changed.
pub open spec fn flushed<B: KvsBackend>(before: B, after: B, live: Map<Seq<char>, Val>) -> bool {
    before.modelled() ==> {
        &&& after.modelled()
        &&& after.generations() == rotate(before.generations(), live, KVS_MAX_SNAPSHOTS as nat)
        &&& after.has_defaults() == before.has_defaults()
        &&& after.stored_defaults() == before.stored_defaults()
        &&& after.instance() == before.instance()
        &&& after.dir() == before.dir()
    }
}

/// An initialized instance has a backend, and only an initialized one has.
pub broadcast proof fn lemma_instance_has_backend<B: KvsBackend>(pool: GenericKvsProvider<B>, i: int)
    ensures
        #[trigger] pool.instance(i) is Some <==> pool.backend(i) is Some,
{
}

/// Reopening after a flush: from a modelled backend that flushed `live`, a
/// new instance loads `live` back as its live map (whether the load is
/// `Optional` or `Required`) and the same defaults as before the flush.
pub proof fn lemma_reopen_after_flush<B: KvsBackend>(before: B, after: B, live: Map<Seq<char>, Val>, mode: Defaults)
    requires
        before.modelled(),
        flushed(before, after, live),
    ensures
        live_loaded(KvsLoad::Required, after) == Ok::<Map<Seq<char>, Val>, ErrorCode>(live),
        live_loaded(KvsLoad::Optional, after) == Ok::<Map<Seq<char>, Val>, ErrorCode>(live),
        defaults_loaded(mode, after) == defaults_loaded(mode, before),
{
}

/// Defaults fallback: a key with a default and no live value reads its
/// default and counts as default; once a value is set for it, it reads that
/// value and no longer counts as default, whatever the default was.
pub proof fn lemma_defaults_fallback(s: InstanceView, k: Seq<char>, v: Val)
    requires
        s.defaults.contains_key(k),
        !s.live.contains_key(k),
    ensures
        lookup(s, k) == Some(s.defaults[k]),
        lookup(with_live(s, s.live.insert(k, v)), k) == Some(v),
        with_live(s, s.live.insert(k, v)).live.contains_key(k),
{
}

/// Reset: with the live map emptied, every key with a default reads it and
/// every other key reads nothing.
pub proof fn lemma_reset_reverts(s: InstanceView, k: Seq<char>)
    ensures
        lookup(with_live(s, Map::empty()), k)
            == if s.defaults.contains_key(k) { Some(s.defaults[k]) } else { None::<Val> },
{
}

/// Shared visibility: a value set through one handle is read through every
/// other handle to the same instance, with no flush in between.
pub proof fn lemma_shared_visibility<B: KvsBackend>(
    before: GenericKvsProvider<B>,
    after: GenericKvsProvider<B>,
    writer: GenericKvs,
    reader: GenericKvs,
    k: Seq<char>,
    v: Val,
)
    requires
        writer.id() == reader.id(),
        before.instance(writer.id()) matches Some(s)
            && after.instance(writer.id()) == Some(with_live(s, s.live.insert(k, v))),
    ensures
        after.instance(reader.id()) matches Some(t) && lookup(t, k) == Some(v),
{
}

impl<B: KvsBackend> GenericKvsProvider<B> {
    /// The backend of instance `instance_id`, if it is initialized.
    pub fn backend_of(&self, instance_id: InstanceId) -> (r: Option<&B>)
        requires
            self.wf(),
        ensures
            match self.backend(instance_id.0 as int) {
                Some(b) => r == Some(&b),
                None => r is None,
            },
    {
        if instance_id.0 < self.slots.len() {
            match &self.slots[instance_id.0] {
                Some(slot) => Some(&slot.backend),
                None => None,
            }
        } else {
            None
        }
    }
}

} // verus!
