//! The persistence-backend contract and the storage rules of the file backend:
//! file naming, checksum framing and verification, snapshot rotation and counting.
use vstd::prelude::*;
use crate::error::ErrorCode;
use crate::json::{JsonTree, dec_map, decode_map};
use crate::value::{KvsMap, Val};

verus! {

/// Number of older generations kept beside the current one.
pub const KVS_MAX_SNAPSHOTS: usize = 3;

/// Instance ID.
#[derive(Debug, Clone, Copy, PartialEq, Eq, Structural)]
pub struct InstanceId(pub usize);

/// Snapshot ID: 0 is the current generation, 1 the most recent older one.
#[derive(Debug, Clone, Copy, PartialEq, Eq, Structural)]
pub struct SnapshotId(pub usize);

impl InstanceId {
    /// Create a new instance ID.
    pub fn new(id: usize) -> (r: Self)
        ensures
            r.0 == id,
    {
        InstanceId(id)
    }
}

impl SnapshotId {
    /// Create a new snapshot ID.
    pub fn new(id: usize) -> (r: Self)
        ensures
            r.0 == id,
    {
        SnapshotId(id)
    }
}

// ---------------------------------------------------------------------------
// Generations

/// The generations after a flush of `m`: `m` becomes the current one and the
/// older ones move down by one; at most `max` older generations are kept.
pub open spec fn rotate<T>(gens: Seq<T>, m: T, max: nat) -> Seq<T> {
    seq![m] + gens.take(if gens.len() <= max { gens.len() as int } else { max as int })
}

/// Number of snapshots among `gens`: the generations present, at most `max`.
pub open spec fn count_of<T>(gens: Seq<T>, max: nat) -> nat {
    if gens.len() <= max { gens.len() } else { max }
}

/// The generations after flushing each of `ms` in turn onto `gens`.
pub open spec fn flush_all<T>(gens: Seq<T>, ms: Seq<T>, max: nat) -> Seq<T>
    decreases ms.len(),
{
    if ms.len() == 0 {
        gens
    } else {
        rotate(flush_all(gens, ms.drop_last(), max), ms.last(), max)
    }
}

/// Snapshot rotation: starting with no stored generation, after flushing the
/// maps `ms` one by one there are `min(ms.len(), max)` snapshots; generation
/// `i` holds the map flushed `i` flushes ago, and nothing older than `max`
/// flushes ago is kept.
pub proof fn lemma_snapshot_rotation<T>(ms: Seq<T>, max: nat)
    ensures
        count_of(flush_all(Seq::<T>::empty(), ms, max), max) == if ms.len() <= max { ms.len() } else { max },
        flush_all(Seq::<T>::empty(), ms, max).len() == if ms.len() <= max + 1 { ms.len() } else { max + 1 },
        forall|i: int| 0 <= i < flush_all(Seq::<T>::empty(), ms, max).len() ==>
            #[trigger] flush_all(Seq::<T>::empty(), ms, max)[i] == ms[ms.len() - 1 - i],
    decreases ms.len(),
{
    if ms.len() > 0 {
        lemma_snapshot_rotation(ms.drop_last(), max);
        let prev = flush_all(Seq::<T>::empty(), ms.drop_last(), max);
        let now = flush_all(Seq::<T>::empty(), ms, max);
        assert forall|i: int| 0 <= i < now.len() implies #[trigger] now[i] == ms[ms.len() - 1 - i] by {
            if i > 0 {
                assert(now[i] == prev[i - 1]);
                assert(ms.drop_last()[ms.len() - 1 - i] == ms[ms.len() - 1 - i]);
            }
        }
    }
}

/// The persistence backend: loads and stores the generations of one instance.
///
/// A backend may describe its storage through the spec functions below by
/// answering `modelled()` with `true`; the clauses guarded by `modelled()`
/// then bind it exactly. A backend that does not (one whose storage lives
/// outside the program) is bound only by the unguarded clauses.
pub trait KvsBackend: Sized {
    /// Whether this backend describes its storage through the spec functions below.
    open spec fn modelled(&self) -> bool {
        false
    }

    /// The stored generations, current one first.
    open spec fn generations(&self) -> Seq<Map<Seq<char>, Val>> {
        Seq::empty()
    }

    /// Whether a defaults map is stored.
    open spec fn has_defaults(&self) -> bool {
        false
    }

    /// The stored defaults map.
    open spec fn stored_defaults(&self) -> Map<Seq<char>, Val> {
        Map::empty()
    }

    /// The instance whose storage this backend holds.
    open spec fn instance(&self) -> nat {
        0
    }

    /// The working directory of this backend.
    open spec fn dir(&self) -> Seq<char> {
        Seq::empty()
    }

    /// Create the backend of `instance_id` with its files under `working_dir`.
    fn new(instance_id: InstanceId, working_dir: &str) -> (r: Self)
        ensures
            r.modelled() ==> r.instance() == instance_id.0 && r.dir() == working_dir@;

    /// Load generation `snapshot_id` after verifying its checksum; a modelled
    /// backend fails with `FileNotFound` exactly when that generation is not stored.
    fn load_kvs(&self, snapshot_id: SnapshotId) -> (r: Result<KvsMap, ErrorCode>)
        ensures
            r matches Ok(m) ==> m.wf(),
            self.modelled() ==> outcome_matches(load_kvs_outcome(self.generations(), snapshot_id.0 as nat), r);

    /// Load the defaults map; a modelled backend fails with `FileNotFound`
    /// exactly when no defaults map is stored.
    fn load_defaults(&self) -> (r: Result<KvsMap, ErrorCode>)
        ensures
            r matches Ok(m) ==> m.wf(),
            self.modelled() ==> outcome_matches(defaults_outcome(self.has_defaults(), self.stored_defaults()), r);

    /// Whether the current generation is stored.
    fn kvs_exists(&self) -> (r: bool)
        ensures
            self.modelled() ==> r == (self.generations().len() > 0);

    /// Whether a defaults map is stored.
    fn defaults_exist(&self) -> (r: bool)
        ensures
            self.modelled() ==> r == self.has_defaults();

    /// Rotate the generations and store `kvs_map` as the current one; a
    /// modelled backend always succeeds.
    fn flush(&mut self, kvs_map: &KvsMap) -> (r: Result<(), ErrorCode>)
        requires
            kvs_map.wf(),
        ensures
            old(self).modelled() ==> final(self).modelled()
                && r is Ok
                && final(self).has_defaults() == old(self).has_defaults()
                && final(self).stored_defaults() == old(self).stored_defaults()
                && final(self).instance() == old(self).instance()
                && final(self).dir() == old(self).dir()
                && final(self).generations() == rotate(old(self).generations(), kvs_map@, KVS_MAX_SNAPSHOTS as nat);

    /// Number of snapshots available.
    fn snapshot_count(&self) -> (r: usize)
        ensures
            r <= KVS_MAX_SNAPSHOTS,
            self.modelled() ==> r == count_of(self.generations(), KVS_MAX_SNAPSHOTS as nat);

    /// Maximum number of snapshots.
    fn snapshot_max_count() -> (r: usize)
        ensures
            r == KVS_MAX_SNAPSHOTS;

    /// Load snapshot `snapshot_id` so that it can become the current map;
    /// snapshot 0 is the current generation and cannot be restored, nor can
    /// one beyond the snapshot count.
    fn snapshot_restore(&self, snapshot_id: SnapshotId) -> (r: Result<KvsMap, ErrorCode>)
        ensures
            snapshot_id.0 == 0 ==> r == Err::<KvsMap, ErrorCode>(ErrorCode::InvalidSnapshotId),
            snapshot_id.0 > KVS_MAX_SNAPSHOTS ==> r == Err::<KvsMap, ErrorCode>(ErrorCode::InvalidSnapshotId),
            r matches Ok(m) ==> m.wf(),
            self.modelled() ==> outcome_matches(restore_outcome(self.generations(), snapshot_id.0 as nat), r);
}

/// What loading generation `id` of `gens` gives: its map, or `FileNotFound`.
pub open spec fn load_kvs_outcome(gens: Seq<Map<Seq<char>, Val>>, id: nat) -> Result<Map<Seq<char>, Val>, ErrorCode> {
    if id < gens.len() {
        Ok(gens[id as int])
    } else {
        Err(ErrorCode::FileNotFound)
    }
}

/// What restoring snapshot `id` of `gens` gives: `InvalidSnapshotId` for 0
/// or beyond the count, else the load of that generation.
pub open spec fn restore_outcome(gens: Seq<Map<Seq<char>, Val>>, id: nat) -> Result<Map<Seq<char>, Val>, ErrorCode> {
    if id == 0 || id > count_of(gens, KVS_MAX_SNAPSHOTS as nat) {
        Err(ErrorCode::InvalidSnapshotId)
    } else {
        load_kvs_outcome(gens, id)
    }
}

/// What loading the defaults gives: the stored map, or `FileNotFound`.
pub open spec fn defaults_outcome(has: bool, stored: Map<Seq<char>, Val>) -> Result<Map<Seq<char>, Val>, ErrorCode> {
    if has {
        Ok(stored)
    } else {
        Err(ErrorCode::FileNotFound)
    }
}

/// Whether the executable result `r` is the outcome `o`: the same error, or a
/// map with the same contents.
pub open spec fn outcome_matches(o: Result<Map<Seq<char>, Val>, ErrorCode>, r: Result<KvsMap, ErrorCode>) -> bool {
    match o {
        Ok(m) => r matches Ok(x) && x@ == m,
        Err(e) => r == Err::<KvsMap, ErrorCode>(e),
    }
}

/// Whether snapshot `id` may be restored when `count` snapshots exist.
pub fn check_restore(id: SnapshotId, count: usize) -> (r: Result<(), ErrorCode>)
    ensures
        r is Ok <==> (id.0 != 0 && id.0 <= count),
        r is Err ==> r == Err::<(), ErrorCode>(ErrorCode::InvalidSnapshotId),
{
    if id.0 == 0 {
        Err(ErrorCode::InvalidSnapshotId)
    } else if count < id.0 {
        Err(ErrorCode::InvalidSnapshotId)
    } else {
        Ok(())
    }
}

/// Number of snapshots, given for each of the generations `0..max` whether
/// its data file is present: the length of the unbroken run from the start.
pub fn count_snapshots(present: &Vec<bool>) -> (r: usize)
    ensures
        r <= present@.len(),
        forall|i: int| 0 <= i < r ==> present@[i],
        r < present@.len() ==> !present@[r as int],
{
    let mut i: usize = 0;
    while i < present.len() && present[i]
        invariant
            i <= present@.len(),
            forall|j: int| 0 <= j < i ==> present@[j],
        decreases present@.len() - i,
    {
        i = i + 1;
    }
    i
}

/// The renames of one rotation, oldest first: generation `g - 1` moves to `g`
/// for `g` from `max` down to 1.
pub fn rotation_pairs() -> (r: Vec<(SnapshotId, SnapshotId)>)
    ensures
        r@.len() == KVS_MAX_SNAPSHOTS,
        forall|i: int| 0 <= i < r@.len() ==> (#[trigger] r@[i]).1.0 == KVS_MAX_SNAPSHOTS - i && r@[i].0.0 == KVS_MAX_SNAPSHOTS - i - 1,
{
    let mut out: Vec<(SnapshotId, SnapshotId)> = Vec::new();
    let mut g: usize = KVS_MAX_SNAPSHOTS;
    while g > 0
        invariant
            g <= KVS_MAX_SNAPSHOTS,
            out@.len() == KVS_MAX_SNAPSHOTS - g,
            forall|i: int| 0 <= i < out@.len() ==> (#[trigger] out@[i]).1.0 == KVS_MAX_SNAPSHOTS - i && out@[i].0.0 == KVS_MAX_SNAPSHOTS - i - 1,
        decreases g,
    {
        out.push((SnapshotId(g - 1), SnapshotId(g)));
        g = g - 1;
    }
    out
}

/// What happened to one rename of a rotation.
#[derive(Debug, Clone, Copy, PartialEq, Eq, Structural)]
pub enum RenameOutcome {
    /// The file was moved.
    Done,
    /// There was no file to move.
    Missing,
    /// The rename failed otherwise.
    Failed(ErrorCode),
}

/// What a rotation does after renaming the checksum file of one generation.
#[derive(Debug, Clone, Copy, PartialEq, Eq, Structural)]
pub enum RotationStep {
    /// Move the data file of the same generation.
    MoveData,
    /// Nothing to rotate for this generation: go on with the next one.
    Skip,
    /// Stop the rotation with this error.
    Fail(ErrorCode),
}

/// A missing checksum file means nothing to rotate; any other failure ends
/// the rotation.
pub fn rotation_step(hash_rename: RenameOutcome) -> (r: RotationStep)
    ensures
        hash_rename == RenameOutcome::Done ==> r == RotationStep::MoveData,
        hash_rename == RenameOutcome::Missing ==> r == RotationStep::Skip,
        hash_rename matches RenameOutcome::Failed(e) ==> r == RotationStep::Fail(e),
{
    match hash_rename {
        RenameOutcome::Done => RotationStep::MoveData,
        RenameOutcome::Missing => RotationStep::Skip,
        RenameOutcome::Failed(e) => RotationStep::Fail(e),
    }
}

/// The result of moving the data file of a generation whose checksum file was moved.
pub fn data_rename_result(data_rename: RenameOutcome) -> (r: Result<(), ErrorCode>)
    ensures
        data_rename == RenameOutcome::Done ==> r is Ok,
        data_rename == RenameOutcome::Missing ==> r == Err::<(), ErrorCode>(ErrorCode::FileNotFound),
        data_rename matches RenameOutcome::Failed(e) ==> r == Err::<(), ErrorCode>(e),
{
    match data_rename {
        RenameOutcome::Done => Ok(()),
        RenameOutcome::Missing => Err(ErrorCode::FileNotFound),
        RenameOutcome::Failed(e) => Err(e),
    }
}

// ---------------------------------------------------------------------------
// Checksums

/// The Adler-32 checksum of `b`.
pub uninterp spec fn adler32_of(b: Seq<u8>) -> u32;

/// Relies on `adler32::RollingAdler32::from_buffer(..).hash()`: the Adler-32
/// checksum of the bytes, a function of the bytes alone; of no bytes it is 1.
#[verifier::external_body]
fn adler32_checksum(data: &[u8]) -> (r: u32)
    ensures
        r == adler32_of(data@),
        data@.len() == 0 ==> r == 1,
{
    adler32::RollingAdler32::from_buffer(data).hash()
}

/// The four bytes of `x`, most significant first.
pub open spec fn be_bytes(x: u32) -> Seq<u8> {
    seq![(x / 0x1000000) as u8, ((x / 0x10000) % 0x100) as u8, ((x / 0x100) % 0x100) as u8, (x % 0x100) as u8]
}

/// The number whose bytes, most significant first, are `b`.
pub open spec fn be_value(b: Seq<u8>) -> int {
    b[0] * 0x1000000 + b[1] * 0x10000 + b[2] * 0x100 + b[3]
}

/// Whether `hash_file` is the checksum file of `data`.
pub open spec fn hash_matches(data: Seq<u8>, hash_file: Seq<u8>) -> bool {
    hash_file.len() == 4 && be_value(hash_file) == adler32_of(data) as int
}

/// The checksum file content for `data`: its Adler-32 checksum, big-endian.
pub fn hash_bytes(data: &[u8]) -> (r: Vec<u8>)
    ensures
        r@ == be_bytes(adler32_of(data@)),
{
    let h = adler32_checksum(data);
    let mut out: Vec<u8> = Vec::new();
    out.push((h >> 24u32) as u8);
    out.push(((h >> 16u32) & 0xffu32) as u8);
    out.push(((h >> 8u32) & 0xffu32) as u8);
    out.push((h & 0xffu32) as u8);
    proof {
        assert((h >> 24u32) == h / 0x1000000u32) by (bit_vector);
        assert(((h >> 16u32) & 0xffu32) == (h / 0x10000u32) % 0x100u32) by (bit_vector);
        assert(((h >> 8u32) & 0xffu32) == (h / 0x100u32) % 0x100u32) by (bit_vector);
        assert((h & 0xffu32) == h % 0x100u32) by (bit_vector);
        assert(out@ =~= be_bytes(h));
    }
    out
}

/// Verify `data` against its checksum file; a file of other than four bytes
/// or with another checksum fails with `ValidationFailed`.
pub fn verify_hash(data: &[u8], hash_file: &[u8]) -> (r: Result<(), ErrorCode>)
    ensures
        r is Ok <==> hash_matches(data@, hash_file@),
        r is Err ==> r == Err::<(), ErrorCode>(ErrorCode::ValidationFailed),
{
    if hash_file.len() != 4 {
        return Err(ErrorCode::ValidationFailed);
    }
    let h = adler32_checksum(data);
    let stored: u32 = (hash_file[0] as u32) * 0x1000000 + (hash_file[1] as u32) * 0x10000
        + (hash_file[2] as u32) * 0x100 + (hash_file[3] as u32);
    if stored == h {
        Ok(())
    } else {
        Err(ErrorCode::ValidationFailed)
    }
}

/// The written checksum file is accepted, and any change to one of its bytes
/// makes verification fail.
pub proof fn lemma_hash_detects_corruption(data: Seq<u8>, i: int, b: u8)
    requires
        0 <= i < 4,
        b != be_bytes(adler32_of(data))[i],
    ensures
        hash_matches(data, be_bytes(adler32_of(data))),
        !hash_matches(data, be_bytes(adler32_of(data)).update(i, b)),
{
    let h = adler32_of(data);
    let f = be_bytes(h);
    let g = f.update(i, b);
    assert(be_value(f) == h as int);
    assert(be_value(g) != h as int) by {
        assert(0 <= g[0] < 256 && 0 <= g[1] < 256 && 0 <= g[2] < 256 && 0 <= g[3] < 256);
        if be_value(g) == h as int {
            assert(g[3] == be_value(g) % 256);
            assert(g[2] == (be_value(g) / 256) % 256);
            assert(g[1] == (be_value(g) / 65536) % 256);
            assert(g[0] == be_value(g) / 16777216);
        }
    }
}

// ---------------------------------------------------------------------------
// Loading

/// The outcome of loading a stored document, from what was read: `parsed` is
/// the document parsed from `data` (or the parse error), and `hash_file` the
/// checksum file when verification is asked for (or the error reading it).
/// A parse error wins; then a checksum file that cannot be read fails with
/// `KvsHashFileReadError`, a wrong one with `ValidationFailed`; a document
/// that is not an object fails with `JsonParserError`.
pub fn finish_load(
    data: &[u8],
    parsed: Result<JsonTree, ErrorCode>,
    hash_file: Option<Result<Vec<u8>, ErrorCode>>,
) -> (r: Result<KvsMap, ErrorCode>)
    ensures
        parsed matches Err(e) ==> r == Err::<KvsMap, ErrorCode>(e),
        parsed matches Ok(j) ==> match hash_file {
            Some(Err(_)) => r == Err::<KvsMap, ErrorCode>(ErrorCode::KvsHashFileReadError),
            Some(Ok(h)) if !hash_matches(data@, h@) => r == Err::<KvsMap, ErrorCode>(ErrorCode::ValidationFailed),
            _ => match dec_map(j@) {
                Some(m) => r matches Ok(x) && x.wf() && x@ == m,
                None => r == Err::<KvsMap, ErrorCode>(ErrorCode::JsonParserError),
            },
        },
{
    let j = match parsed {
        Ok(j) => j,
        Err(e) => return Err(e),
    };
    match hash_file {
        Some(Err(_)) => return Err(ErrorCode::KvsHashFileReadError),
        Some(Ok(h)) => {
            match verify_hash(data, h.as_slice()) {
                Ok(()) => {},
                Err(e) => return Err(e),
            }
        },
        None => {},
    }
    decode_map(&j)
}

} // verus!
