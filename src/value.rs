use vstd::prelude::*;
use crate::error::ErrorCode;

verus! {

broadcast use vstd::std_specs::vec::group_vec_axioms;

/// The meaning of a stored value, independent of how it is held in memory.
///
/// A 64-bit float is held as its IEEE-754 bit pattern, so equality is
/// structural and tells a float apart from an integer of the same magnitude.
pub enum Val {
    I32(i32),
    U32(u32),
    I64(i64),
    U64(u64),
    F64(u64),
    Boolean(bool),
    Str(Seq<char>),
    Null,
    Array(Seq<Val>),
    Object(Map<Seq<char>, Val>),
}

/// Key-value-storage value.
#[derive(Debug)]
pub enum KvsValue {
    /// 32-bit signed integer
    I32(i32),
    /// 32-bit unsigned integer
    U32(u32),
    /// 64-bit signed integer
    I64(i64),
    /// 64-bit unsigned integer
    U64(u64),
    /// 64-bit float, held as its IEEE-754 bit pattern
    F64(u64),
    /// Boolean
    Boolean(bool),
    /// String
    String(String),
    /// Null
    Null,
    /// Array
    Array(Vec<KvsValue>),
    /// Object
    Object(KvsMap),
}

/// Mapping from string keys to values; keys are unique, order carries no meaning.
#[derive(Debug)]
pub struct KvsMap {
    pub(crate) entries: Vec<(String, KvsValue)>,
}

/// The meaning of a value.
pub open(crate) spec fn value_view(v: KvsValue) -> Val
    decreases v, 0int,
{
    match v {
        KvsValue::I32(n) => Val::I32(n),
        KvsValue::U32(n) => Val::U32(n),
        KvsValue::I64(n) => Val::I64(n),
        KvsValue::U64(n) => Val::U64(n),
        KvsValue::F64(b) => Val::F64(b),
        KvsValue::Boolean(b) => Val::Boolean(b),
        KvsValue::String(s) => Val::Str(s@),
        KvsValue::Null => Val::Null,
        KvsValue::Array(a) => Val::Array(items_view(a, a@.len() as int)),
        KvsValue::Object(m) => Val::Object(entries_view(m.entries, m.entries@.len() as int)),
    }
}

/// The meanings of the first `n` items of `a`.
pub open(crate) spec fn items_view(a: Vec<KvsValue>, n: int) -> Seq<Val>
    decreases a, n,
{
    if n <= 0 || n > a@.len() {
        Seq::empty()
    } else {
        items_view(a, n - 1).push(value_view(a@[n - 1]))
    }
}

/// The mapping held by the first `n` entries of `e`.
pub open(crate) spec fn entries_view(e: Vec<(String, KvsValue)>, n: int) -> Map<Seq<char>, Val>
    decreases e, n,
{
    if n <= 0 || n > e@.len() {
        Map::empty()
    } else {
        entries_view(e, n - 1).insert(e@[n - 1].0@, value_view(e@[n - 1].1))
    }
}

impl View for KvsValue {
    type V = Val;

    closed spec fn view(&self) -> Val {
        value_view(*self)
    }
}

/// A value's meaning is given by `value_view`.
pub(crate) broadcast proof fn lemma_value_view(v: KvsValue)
    ensures
        #[trigger] v@ == value_view(v),
{
}

/// The meaning of a value, variant by variant.
pub broadcast proof fn lemma_view_cases(v: KvsValue)
    ensures
        #[trigger] v@ == match v {
            KvsValue::I32(n) => Val::I32(n),
            KvsValue::U32(n) => Val::U32(n),
            KvsValue::I64(n) => Val::I64(n),
            KvsValue::U64(n) => Val::U64(n),
            KvsValue::F64(b) => Val::F64(b),
            KvsValue::Boolean(b) => Val::Boolean(b),
            KvsValue::String(s) => Val::Str(s@),
            KvsValue::Null => Val::Null,
            KvsValue::Array(a) => Val::Array(a@.map_values(|e: KvsValue| e@)),
            KvsValue::Object(m) => Val::Object(m@),
        },
{
    if let KvsValue::Array(a) = v {
        lemma_items_view(a);
    }
}

impl View for KvsMap {
    type V = Map<Seq<char>, Val>;

    closed spec fn view(&self) -> Map<Seq<char>, Val> {
        entries_view(self.entries, self.entries@.len() as int)
    }
}

proof fn lemma_items_view_len(a: Vec<KvsValue>, n: int)
    requires
        0 <= n <= a@.len(),
    ensures
        items_view(a, n).len() == n,
        forall|i: int| 0 <= i < n ==> #[trigger] items_view(a, n)[i] == value_view(a@[i]),
    decreases n,
{
    if n > 0 {
        lemma_items_view_len(a, n - 1);
    }
}

/// No key occurs twice.
spec fn unique_keys(e: Seq<(String, KvsValue)>) -> bool {
    forall|i: int, j: int| 0 <= i < e.len() && 0 <= j < e.len() && i != j ==> e[i].0@ != e[j].0@
}

proof fn lemma_entries_view(e: Vec<(String, KvsValue)>, n: int)
    requires
        0 <= n <= e@.len(),
        unique_keys(e@),
    ensures
        forall|k: Seq<char>| #[trigger] entries_view(e, n).contains_key(k) <==> (exists|i: int| 0 <= i < n && e@[i].0@ == k),
        forall|i: int| 0 <= i < n ==> #[trigger] entries_view(e, n)[e@[i].0@] == value_view(e@[i].1),
    decreases n,
{
    if n > 0 {
        lemma_entries_view(e, n - 1);
        assert forall|k: Seq<char>| #[trigger] entries_view(e, n).contains_key(k) <==> (exists|i: int| 0 <= i < n && e@[i].0@ == k) by {
            if entries_view(e, n).contains_key(k) && k != e@[n - 1].0@ {
                let i = choose|i: int| 0 <= i < n - 1 && e@[i].0@ == k;
                assert(0 <= i < n && e@[i].0@ == k);
            }
            if exists|i: int| 0 <= i < n && e@[i].0@ == k {
                let i = choose|i: int| 0 <= i < n && e@[i].0@ == k;
                if i < n - 1 {
                    assert(entries_view(e, n - 1).contains_key(k));
                }
            }
        }
        assert forall|i: int| 0 <= i < n implies #[trigger] entries_view(e, n)[e@[i].0@] == value_view(e@[i].1) by {
            if i < n - 1 {
                assert(e@[i].0@ != e@[n - 1].0@);
            }
        }
    }
}

/// The entry of `e` that holds key `k`, if any.
spec fn holds_at(e: Seq<(String, KvsValue)>, k: Seq<char>, i: int) -> bool {
    0 <= i < e.len() && e[i].0@ == k
}

impl KvsMap {
    /// Keys are unique.
    pub closed spec fn wf(&self) -> bool {
        unique_keys(self.entries@)
    }

    proof fn lemma_view(&self)
        requires
            self.wf(),
        ensures
            forall|k: Seq<char>| #[trigger] self@.contains_key(k) <==> (exists|i: int| holds_at(self.entries@, k, i)),
            forall|i: int| 0 <= i < self.entries@.len() ==> #[trigger] self@[self.entries@[i].0@] == value_view(self.entries@[i].1),
    {
        lemma_entries_view(self.entries, self.entries@.len() as int);
        assert forall|k: Seq<char>| #[trigger] self@.contains_key(k) <==> (exists|i: int| holds_at(self.entries@, k, i)) by {
            if self@.contains_key(k) {
                let i = choose|i: int| 0 <= i < self.entries@.len() && self.entries@[i].0@ == k;
                assert(holds_at(self.entries@, k, i));
            }
        }
    }

    /// An empty map.
    pub fn new() -> (r: KvsMap)
        ensures
            r.wf(),
            r@ == Map::<Seq<char>, Val>::empty(),
    {
        KvsMap { entries: Vec::new() }
    }

    /// Number of keys.
    pub fn len(&self) -> (r: usize)
        requires
            self.wf(),
        ensures
            r == self@.dom().len(),
    {
        proof { self.lemma_len(); }
        self.entries.len()
    }

    proof fn lemma_len(&self)
        requires
            self.wf(),
        ensures
            self@.dom().len() == self.entries@.len(),
            self@.dom().finite(),
    {
        lemma_entries_len(self.entries, self.entries@.len() as int);
    }

    /// Position of `key`, if present.
    fn find(&self, key: &str) -> (r: Option<usize>)
        requires
            self.wf(),
        ensures
            match r {
                Some(i) => holds_at(self.entries@, key@, i as int),
                None => !self@.contains_key(key@),
            },
    {
        proof { self.lemma_view(); }
        let k = key.to_string();
        let mut i: usize = 0;
        while i < self.entries.len()
            invariant
                i <= self.entries@.len(),
                k@ == key@,
                forall|j: int| 0 <= j < i ==> self.entries@[j].0@ != key@,
            decreases self.entries@.len() - i,
        {
            if self.entries[i].0 == k {
                return Some(i);
            }
            i = i + 1;
        }
        None
    }

    /// Whether `key` is present.
    pub fn contains_key(&self, key: &str) -> (r: bool)
        requires
            self.wf(),
        ensures
            r == self@.contains_key(key@),
    {
        proof { self.lemma_view(); }
        self.find(key).is_some()
    }

    /// The value of `key`, if present.
    pub fn get(&self, key: &str) -> (r: Option<&KvsValue>)
        requires
            self.wf(),
        ensures
            match r {
                Some(v) => self@.contains_key(key@) && v@ == self@[key@],
                None => !self@.contains_key(key@),
            },
    {
        proof { self.lemma_view(); }
        match self.find(key) {
            Some(i) => Some(&self.entries[i].1),
            None => None,
        }
    }

    /// Sets `key` to `value`, replacing any earlier value.
    pub fn insert(&mut self, key: String, value: KvsValue)
        requires
            old(self).wf(),
        ensures
            final(self).wf(),
            final(self)@ == old(self)@.insert(key@, value@),
    {
        proof { self.lemma_view(); }
        let ghost k = key@;
        let ghost v = value@;
        match self.find(key.as_str()) {
            Some(i) => {
                let ghost before = self.entries@;
                self.entries.set(i, (key, value));
                proof {
                    assert(unique_keys(self.entries@));
                    self.lemma_view();
                    assert(self@ =~= old(self)@.insert(k, v)) by {
                        assert forall|q: Seq<char>| self@.contains_key(q) <==> old(self)@.insert(k, v).contains_key(q) by {
                            if self@.contains_key(q) {
                                let j = choose|j: int| holds_at(self.entries@, q, j);
                                if j != i { assert(holds_at(before, q, j)); }
                            }
                            if old(self)@.contains_key(q) {
                                let j = choose|j: int| holds_at(before, q, j);
                                if j != i { assert(holds_at(self.entries@, q, j)); }
                                else { assert(holds_at(self.entries@, q, i as int)); }
                            }
                            if q == k { assert(holds_at(self.entries@, q, i as int)); }
                        }
                        assert forall|q: Seq<char>| #[trigger] self@.contains_key(q) implies self@[q] == old(self)@.insert(k, v)[q] by {
                            let j = choose|j: int| holds_at(self.entries@, q, j);
                            if j != i { assert(before[j] == self.entries@[j]); }
                        }
                    }
                }
            },
            None => {
                let ghost before = self.entries@;
                self.entries.push((key, value));
                proof {
                    let n = before.len() as int;
                    assert(self.entries@[n].0@ == k);
                    assert forall|a: int, b: int| 0 <= a < self.entries@.len() && 0 <= b < self.entries@.len() && a != b implies self.entries@[a].0@ != self.entries@[b].0@ by {
                        if a == n { assert(holds_at(before, self.entries@[b].0@, b) ==> old(self)@.contains_key(self.entries@[b].0@)); }
                        if b == n { assert(holds_at(before, self.entries@[a].0@, a) ==> old(self)@.contains_key(self.entries@[a].0@)); }
                        if a != n && b != n { assert(before[a] == self.entries@[a] && before[b] == self.entries@[b]); }
                    }
                    assert(self.entries@.drop_last() == before);
                    assert(entries_view(self.entries, n) == entries_view(old(self).entries, n)) by {
                        lemma_entries_prefix(old(self).entries, self.entries, n);
                    }
                }
            },
        }
    }

    /// Removes `key`, returning its value if it was present.
    pub fn remove(&mut self, key: &str) -> (r: Option<KvsValue>)
        requires
            old(self).wf(),
        ensures
            final(self).wf(),
            final(self)@ == old(self)@.remove(key@),
            match r {
                Some(v) => old(self)@.contains_key(key@) && v@ == old(self)@[key@],
                None => !old(self)@.contains_key(key@),
            },
    {
        proof { self.lemma_view(); }
        match self.find(key) {
            Some(i) => {
                let ghost before = self.entries@;
                let (_k, v) = self.entries.remove(i);
                proof {
                    assert forall|a: int, b: int| 0 <= a < self.entries@.len() && 0 <= b < self.entries@.len() && a != b implies self.entries@[a].0@ != self.entries@[b].0@ by {
                        let a2 = if a < i { a } else { a + 1 };
                        let b2 = if b < i { b } else { b + 1 };
                        assert(self.entries@[a] == before[a2]);
                        assert(self.entries@[b] == before[b2]);
                    }
                    self.lemma_view();
                    let k = key@;
                    assert(self@ =~= old(self)@.remove(k)) by {
                        assert forall|q: Seq<char>| self@.contains_key(q) <==> old(self)@.remove(k).contains_key(q) by {
                            if self@.contains_key(q) {
                                let j = choose|j: int| holds_at(self.entries@, q, j);
                                let j2 = if j < i { j } else { j + 1 };
                                assert(self.entries@[j] == before[j2]);
                                assert(holds_at(before, q, j2));
                            }
                            if old(self)@.contains_key(q) && q != k {
                                let j = choose|j: int| holds_at(before, q, j);
                                let j2 = if j < i { j } else { j - 1 };
                                assert(self.entries@[j2] == before[j]);
                                assert(holds_at(self.entries@, q, j2));
                            }
                        }
                        assert forall|q: Seq<char>| #[trigger] self@.contains_key(q) implies self@[q] == old(self)@.remove(k)[q] by {
                            let j = choose|j: int| holds_at(self.entries@, q, j);
                            let j2 = if j < i { j } else { j + 1 };
                            assert(self.entries@[j] == before[j2]);
                        }
                    }
                }
                Some(v)
            },
            None => {
                proof {
                    assert(old(self)@.remove(key@) =~= old(self)@);
                }
                None
            },
        }
    }

    /// All keys, in storage order.
    pub fn keys(&self) -> (r: Vec<String>)
        requires
            self.wf(),
        ensures
            r@.len() == self@.dom().len(),
            forall|k: Seq<char>| self@.contains_key(k) <==> (exists|i: int| 0 <= i < r@.len() && #[trigger] r@[i]@ == k),
    {
        proof { self.lemma_view(); self.lemma_len(); }
        let mut out: Vec<String> = Vec::new();
        let mut i: usize = 0;
        while i < self.entries.len()
            invariant
                i <= self.entries@.len(),
                out@.len() == i,
                forall|j: int| 0 <= j < i ==> #[trigger] out@[j]@ == self.entries@[j].0@,
            decreases self.entries@.len() - i,
        {
            out.push(self.entries[i].0.clone());
            i = i + 1;
        }
        proof {
            assert forall|k: Seq<char>| self@.contains_key(k) <==> (exists|i: int| 0 <= i < out@.len() && #[trigger] out@[i]@ == k) by {
                if self@.contains_key(k) {
                    let j = choose|j: int| holds_at(self.entries@, k, j);
                    assert(out@[j]@ == k);
                }
                if exists|i: int| 0 <= i < out@.len() && #[trigger] out@[i]@ == k {
                    let j = choose|j: int| 0 <= j < out@.len() && #[trigger] out@[j]@ == k;
                    assert(holds_at(self.entries@, k, j));
                }
            }
        }
        out
    }
}

proof fn lemma_entries_prefix(a: Vec<(String, KvsValue)>, b: Vec<(String, KvsValue)>, n: int)
    requires
        0 <= n <= a@.len(),
        n <= b@.len(),
        forall|i: int| 0 <= i < n ==> a@[i] == b@[i],
    ensures
        entries_view(a, n) == entries_view(b, n),
    decreases n,
{
    if n > 0 {
        lemma_entries_prefix(a, b, n - 1);
    }
}

pub(crate) proof fn lemma_items_prefix(a: Vec<KvsValue>, b: Vec<KvsValue>, n: int)
    requires
        0 <= n <= a@.len(),
        n <= b@.len(),
        forall|i: int| 0 <= i < n ==> value_view(a@[i]) == value_view(b@[i]),
    ensures
        items_view(a, n) == items_view(b, n),
    decreases n,
{
    if n > 0 {
        lemma_items_prefix(a, b, n - 1);
    }
}

proof fn lemma_entries_len(e: Vec<(String, KvsValue)>, n: int)
    requires
        0 <= n <= e@.len(),
        unique_keys(e@),
    ensures
        entries_view(e, n).dom().finite(),
        entries_view(e, n).dom().len() == n,
    decreases n,
{
    if n > 0 {
        lemma_entries_len(e, n - 1);
        lemma_entries_view(e, n - 1);
        assert(!entries_view(e, n - 1).contains_key(e@[n - 1].0@));
    }
}


/// The items of `a` are given by their views.
pub(crate) proof fn lemma_items_view(a: Vec<KvsValue>)
    ensures
        items_view(a, a@.len() as int) == a@.map_values(|e: KvsValue| e@),
{
    lemma_items_view_len(a, a@.len() as int);
    assert(items_view(a, a@.len() as int) =~= a@.map_values(|e: KvsValue| e@));
}

/// A deep copy of `v`.
fn clone_value(v: &KvsValue) -> (r: KvsValue)
    ensures
        r@ == v@,
    decreases v,
{
    match v {
        KvsValue::I32(n) => KvsValue::I32(*n),
        KvsValue::U32(n) => KvsValue::U32(*n),
        KvsValue::I64(n) => KvsValue::I64(*n),
        KvsValue::U64(n) => KvsValue::U64(*n),
        KvsValue::F64(b) => KvsValue::F64(*b),
        KvsValue::Boolean(b) => KvsValue::Boolean(*b),
        KvsValue::String(s) => KvsValue::String(s.clone()),
        KvsValue::Null => KvsValue::Null,
        KvsValue::Array(a) => {
            let mut out: Vec<KvsValue> = Vec::new();
            let mut i: usize = 0;
            while i < a.len()
                invariant
                    *v == KvsValue::Array(*a),
                    i <= a@.len(),
                    out@.len() == i,
                    forall|j: int| 0 <= j < i ==> #[trigger] value_view(out@[j]) == value_view(a@[j]),
                decreases a@.len() - i,
            {
                assert(decreases_to!(*v => a[i as int])) by {
                    assert(decreases_to!(*v => v->Array_0));
                    assert(decreases_to!(*a => a[i as int]));
                }
                let c = clone_value(&a[i]);
                out.push(c);
                i = i + 1;
            }
            proof {
                lemma_items_prefix(out, *a, i as int);
            }
            KvsValue::Array(out)
        },
        KvsValue::Object(m) => {
            let e = clone_entries(&m.entries);
            proof {
                lemma_entries_prefix2(e, m.entries, m.entries@.len() as int);
            }
            KvsValue::Object(KvsMap { entries: e })
        },
    }
}

/// A deep copy of the entries of a map.
fn clone_entries(e: &Vec<(String, KvsValue)>) -> (r: Vec<(String, KvsValue)>)
    ensures
        r@.len() == e@.len(),
        forall|j: int| 0 <= j < e@.len() ==> (#[trigger] r@[j]).0@ == e@[j].0@ && value_view(r@[j].1) == value_view(e@[j].1),
    decreases e,
{
    let mut out: Vec<(String, KvsValue)> = Vec::new();
    let mut i: usize = 0;
    while i < e.len()
        invariant
            i <= e@.len(),
            out@.len() == i,
            forall|j: int| 0 <= j < i ==> (#[trigger] out@[j]).0@ == e@[j].0@ && value_view(out@[j].1) == value_view(e@[j].1),
        decreases e@.len() - i,
    {
        assert(decreases_to!(e => e[i as int]));
        let c = clone_value(&e[i].1);
        out.push((e[i].0.clone(), c));
        i = i + 1;
    }
    out
}

impl Clone for KvsValue {
    /// A deep copy.
    fn clone(&self) -> (r: Self)
        ensures
            r@ == self@,
    {
        clone_value(self)
    }
}

impl Clone for KvsMap {
    /// A deep copy.
    fn clone(&self) -> (r: Self)
        ensures
            r@ == self@,
            self.wf() ==> r.wf(),
    {
        let e = clone_entries(&self.entries);
        proof {
            lemma_entries_prefix2(e, self.entries, self.entries@.len() as int);
        }
        KvsMap { entries: e }
    }
}

proof fn lemma_entries_prefix2(a: Vec<(String, KvsValue)>, b: Vec<(String, KvsValue)>, n: int)
    requires
        0 <= n <= a@.len(),
        n <= b@.len(),
        forall|i: int| 0 <= i < n ==> (#[trigger] a@[i]).0@ == b@[i].0@ && value_view(a@[i].1) == value_view(b@[i].1),
    ensures
        entries_view(a, n) == entries_view(b, n),
    decreases n,
{
    if n > 0 {
        lemma_entries_prefix2(a, b, n - 1);
    }
}


/// A 64-bit float read out of a value, as its IEEE-754 bit pattern.
#[derive(Debug, Clone, Copy, PartialEq, Eq, Structural)]
pub struct F64Bits(pub u64);

/// Typed reading of a value: succeeds exactly on the matching variant.
pub trait TryFromKvsValue: Sized {
    /// Whether a value of meaning `v` can be read as this type.
    spec fn accepts(v: Val) -> bool;

    /// Whether `x` is the reading of a value of meaning `v`.
    spec fn reads_as(v: Val, x: Self) -> bool;

    fn try_from_kvs_value(val: &KvsValue) -> (r: Result<Self, ErrorCode>)
        ensures
            match r {
                Ok(x) => Self::accepts(val@) && Self::reads_as(val@, x),
                Err(e) => !Self::accepts(val@) && e == ErrorCode::ConversionFailed,
            };
}

impl TryFromKvsValue for i32 {
    open spec fn accepts(v: Val) -> bool { v is I32 }
    open spec fn reads_as(v: Val, x: i32) -> bool { v == Val::I32(x) }

    fn try_from_kvs_value(val: &KvsValue) -> (r: Result<i32, ErrorCode>) {
        match val {
            KvsValue::I32(n) => Ok(*n),
            _ => Err(ErrorCode::ConversionFailed),
        }
    }
}

impl TryFromKvsValue for u32 {
    open spec fn accepts(v: Val) -> bool { v is U32 }
    open spec fn reads_as(v: Val, x: u32) -> bool { v == Val::U32(x) }

    fn try_from_kvs_value(val: &KvsValue) -> (r: Result<u32, ErrorCode>) {
        match val {
            KvsValue::U32(n) => Ok(*n),
            _ => Err(ErrorCode::ConversionFailed),
        }
    }
}

impl TryFromKvsValue for i64 {
    open spec fn accepts(v: Val) -> bool { v is I64 }
    open spec fn reads_as(v: Val, x: i64) -> bool { v == Val::I64(x) }

    fn try_from_kvs_value(val: &KvsValue) -> (r: Result<i64, ErrorCode>) {
        match val {
            KvsValue::I64(n) => Ok(*n),
            _ => Err(ErrorCode::ConversionFailed),
        }
    }
}

impl TryFromKvsValue for u64 {
    open spec fn accepts(v: Val) -> bool { v is U64 }
    open spec fn reads_as(v: Val, x: u64) -> bool { v == Val::U64(x) }

    fn try_from_kvs_value(val: &KvsValue) -> (r: Result<u64, ErrorCode>) {
        match val {
            KvsValue::U64(n) => Ok(*n),
            _ => Err(ErrorCode::ConversionFailed),
        }
    }
}

impl TryFromKvsValue for F64Bits {
    open spec fn accepts(v: Val) -> bool { v is F64 }
    open spec fn reads_as(v: Val, x: F64Bits) -> bool { v == Val::F64(x.0) }

    fn try_from_kvs_value(val: &KvsValue) -> (r: Result<F64Bits, ErrorCode>) {
        match val {
            KvsValue::F64(b) => Ok(F64Bits(*b)),
            _ => Err(ErrorCode::ConversionFailed),
        }
    }
}

impl TryFromKvsValue for bool {
    open spec fn accepts(v: Val) -> bool { v is Boolean }
    open spec fn reads_as(v: Val, x: bool) -> bool { v == Val::Boolean(x) }

    fn try_from_kvs_value(val: &KvsValue) -> (r: Result<bool, ErrorCode>) {
        match val {
            KvsValue::Boolean(b) => Ok(*b),
            _ => Err(ErrorCode::ConversionFailed),
        }
    }
}

impl TryFromKvsValue for String {
    open spec fn accepts(v: Val) -> bool { v is Str }
    open spec fn reads_as(v: Val, x: String) -> bool { v == Val::Str(x@) }

    fn try_from_kvs_value(val: &KvsValue) -> (r: Result<String, ErrorCode>) {
        match val {
            KvsValue::String(s) => Ok(s.clone()),
            _ => Err(ErrorCode::ConversionFailed),
        }
    }
}

impl TryFromKvsValue for () {
    open spec fn accepts(v: Val) -> bool { v is Null }
    open spec fn reads_as(v: Val, x: ()) -> bool { v == Val::Null }

    fn try_from_kvs_value(val: &KvsValue) -> (r: Result<(), ErrorCode>) {
        match val {
            KvsValue::Null => Ok(()),
            _ => Err(ErrorCode::ConversionFailed),
        }
    }
}

impl TryFromKvsValue for Vec<KvsValue> {
    open spec fn accepts(v: Val) -> bool { v is Array }
    open spec fn reads_as(v: Val, x: Vec<KvsValue>) -> bool { v == Val::Array(x@.map_values(|e: KvsValue| e@)) }

    fn try_from_kvs_value(val: &KvsValue) -> (r: Result<Vec<KvsValue>, ErrorCode>) {
        match val {
            KvsValue::Array(_) => {
                let c = clone_value(val);
                match c {
                    KvsValue::Array(a) => {
                        proof { lemma_items_view(a); }
                        Ok(a)
                    },
                    _ => Err(ErrorCode::ConversionFailed),
                }
            },
            _ => Err(ErrorCode::ConversionFailed),
        }
    }
}

impl TryFromKvsValue for KvsMap {
    open spec fn accepts(v: Val) -> bool { v is Object }
    open spec fn reads_as(v: Val, x: KvsMap) -> bool { v == Val::Object(x@) }

    fn try_from_kvs_value(val: &KvsValue) -> (r: Result<KvsMap, ErrorCode>) {
        match val {
            KvsValue::Object(m) => Ok(m.clone()),
            _ => Err(ErrorCode::ConversionFailed),
        }
    }
}

impl TryFromKvsValue for KvsValue {
    open spec fn accepts(v: Val) -> bool { true }
    open spec fn reads_as(v: Val, x: KvsValue) -> bool { v == x@ }

    fn try_from_kvs_value(val: &KvsValue) -> (r: Result<KvsValue, ErrorCode>) {
        Ok(val.clone())
    }
}


/// A map's meaning is given by its entries.
pub(crate) broadcast proof fn lemma_map_view(m: KvsMap)
    ensures
        #[trigger] m@ == entries_view(m.entries, m.entries@.len() as int),
{
}


impl From<i32> for KvsValue {
    fn from(v: i32) -> (r: KvsValue) {
        KvsValue::I32(v)
    }
}

impl vstd::std_specs::convert::FromSpecImpl<i32> for KvsValue {
    open spec fn obeys_from_spec() -> bool {
        true
    }

    open spec fn from_spec(v: i32) -> KvsValue {
        KvsValue::I32(v)
    }
}

impl From<u32> for KvsValue {
    fn from(v: u32) -> (r: KvsValue) {
        KvsValue::U32(v)
    }
}

impl vstd::std_specs::convert::FromSpecImpl<u32> for KvsValue {
    open spec fn obeys_from_spec() -> bool {
        true
    }

    open spec fn from_spec(v: u32) -> KvsValue {
        KvsValue::U32(v)
    }
}

impl From<i64> for KvsValue {
    fn from(v: i64) -> (r: KvsValue) {
        KvsValue::I64(v)
    }
}

impl vstd::std_specs::convert::FromSpecImpl<i64> for KvsValue {
    open spec fn obeys_from_spec() -> bool {
        true
    }

    open spec fn from_spec(v: i64) -> KvsValue {
        KvsValue::I64(v)
    }
}

impl From<u64> for KvsValue {
    fn from(v: u64) -> (r: KvsValue) {
        KvsValue::U64(v)
    }
}

impl vstd::std_specs::convert::FromSpecImpl<u64> for KvsValue {
    open spec fn obeys_from_spec() -> bool {
        true
    }

    open spec fn from_spec(v: u64) -> KvsValue {
        KvsValue::U64(v)
    }
}

impl From<F64Bits> for KvsValue {
    fn from(v: F64Bits) -> (r: KvsValue) {
        KvsValue::F64(v.0)
    }
}

impl vstd::std_specs::convert::FromSpecImpl<F64Bits> for KvsValue {
    open spec fn obeys_from_spec() -> bool {
        true
    }

    open spec fn from_spec(v: F64Bits) -> KvsValue {
        KvsValue::F64(v.0)
    }
}

impl From<bool> for KvsValue {
    fn from(v: bool) -> (r: KvsValue) {
        KvsValue::Boolean(v)
    }
}

impl vstd::std_specs::convert::FromSpecImpl<bool> for KvsValue {
    open spec fn obeys_from_spec() -> bool {
        true
    }

    open spec fn from_spec(v: bool) -> KvsValue {
        KvsValue::Boolean(v)
    }
}

impl From<String> for KvsValue {
    fn from(v: String) -> (r: KvsValue) {
        KvsValue::String(v)
    }
}

impl vstd::std_specs::convert::FromSpecImpl<String> for KvsValue {
    open spec fn obeys_from_spec() -> bool {
        true
    }

    open spec fn from_spec(v: String) -> KvsValue {
        KvsValue::String(v)
    }
}

impl From<()> for KvsValue {
    fn from(_v: ()) -> (r: KvsValue) {
        KvsValue::Null
    }
}

impl vstd::std_specs::convert::FromSpecImpl<()> for KvsValue {
    open spec fn obeys_from_spec() -> bool {
        true
    }

    open spec fn from_spec(_v: ()) -> KvsValue {
        KvsValue::Null
    }
}

impl From<Vec<KvsValue>> for KvsValue {
    fn from(v: Vec<KvsValue>) -> (r: KvsValue) {
        KvsValue::Array(v)
    }
}

impl vstd::std_specs::convert::FromSpecImpl<Vec<KvsValue>> for KvsValue {
    open spec fn obeys_from_spec() -> bool {
        true
    }

    open spec fn from_spec(v: Vec<KvsValue>) -> KvsValue {
        KvsValue::Array(v)
    }
}

impl From<KvsMap> for KvsValue {
    fn from(v: KvsMap) -> (r: KvsValue) {
        KvsValue::Object(v)
    }
}

impl vstd::std_specs::convert::FromSpecImpl<KvsMap> for KvsValue {
    open spec fn obeys_from_spec() -> bool {
        true
    }

    open spec fn from_spec(v: KvsMap) -> KvsValue {
        KvsValue::Object(v)
    }
}

} // verus!
