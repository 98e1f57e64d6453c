//! The tagged wire encoding: each value is written as `{"t": <tag>, "v": <payload>}`.
use vstd::prelude::*;
use vstd::arithmetic::power2::*;
use vstd::bits::*;
use crate::error::ErrorCode;
use crate::value::{KvsMap, KvsValue, Val, lemma_map_view, lemma_value_view};

verus! {

broadcast use vstd::std_specs::vec::group_vec_axioms, vstd::seq::group_seq_axioms, lemma_value_view, lemma_map_view;

/// A JSON number as the tree holds it.
#[derive(Debug, Clone, Copy, PartialEq, Eq, Structural)]
pub enum JsonNumber {
    /// A number written from an integer; the text writer renders it as the nearest double.
    Int(i128),
    /// A double, given by its IEEE-754 bit pattern (every number read from text is one).
    Double(u64),
}

/// A JSON document tree; an object lists its members.
#[derive(Debug)]
pub enum JsonTree {
    Null,
    Boolean(bool),
    Number(JsonNumber),
    String(String),
    Array(Vec<JsonTree>),
    Object(Vec<(String, JsonTree)>),
}

/// The meaning of a JSON tree.
pub enum Json {
    Null,
    Boolean(bool),
    Number(JsonNumber),
    Str(Seq<char>),
    Array(Seq<Json>),
    Object(Seq<(Seq<char>, Json)>),
}

pub open spec fn json_view(j: JsonTree) -> Json
    decreases j, 0int,
{
    match j {
        JsonTree::Null => Json::Null,
        JsonTree::Boolean(b) => Json::Boolean(b),
        JsonTree::Number(n) => Json::Number(n),
        JsonTree::String(s) => Json::Str(s@),
        JsonTree::Array(a) => Json::Array(json_items(a, a@.len() as int)),
        JsonTree::Object(e) => Json::Object(json_members(e, e@.len() as int)),
    }
}

pub open spec fn json_items(a: Vec<JsonTree>, n: int) -> Seq<Json>
    decreases a, n,
{
    if n <= 0 || n > a@.len() {
        Seq::empty()
    } else {
        json_items(a, n - 1).push(json_view(a@[n - 1]))
    }
}

pub open spec fn json_members(e: Vec<(String, JsonTree)>, n: int) -> Seq<(Seq<char>, Json)>
    decreases e, n,
{
    if n <= 0 || n > e@.len() {
        Seq::empty()
    } else {
        json_members(e, n - 1).push((e@[n - 1].0@, json_view(e@[n - 1].1)))
    }
}

impl View for JsonTree {
    type V = Json;

    open spec fn view(&self) -> Json {
        json_view(*self)
    }
}

// ---------------------------------------------------------------------------
// Numbers

/// 2^52: the weight of the lowest exponent bit of a double.
pub open spec fn two52() -> int {
    0x10000000000000
}

/// Whether the double with bit pattern `b` is a NaN.
pub open spec fn double_is_nan(b: u64) -> bool {
    (b as int / two52()) % 2048 == 2047 && b as int % two52() != 0
}

/// The double with bit pattern `b`, truncated toward zero; an infinity
/// stands as a magnitude beyond every finite double.
pub open spec fn double_whole(b: u64) -> int {
    let exp = (b as int / two52()) % 2048;
    let mant = b as int % two52() + two52();
    let mag = if exp < 1023 {
        0
    } else if exp >= 1075 {
        mant * pow2((exp - 1075) as nat)
    } else {
        mant / (pow2((1075 - exp) as nat) as int)
    };
    if b >= 0x8000000000000000 { -mag } else { mag }
}

pub open spec fn clamp(x: int, lo: int, hi: int) -> int {
    if x < lo { lo } else if x > hi { hi } else { x }
}

/// A double converted to an integer type with range `lo..=hi` the way `as`
/// does it: truncated toward zero, saturated at the bounds, NaN to zero.
pub open spec fn double_as_int(b: u64, lo: int, hi: int) -> int {
    if double_is_nan(b) { 0 } else { clamp(double_whole(b), lo, hi) }
}

/// A JSON number read into an integer type with range `lo..=hi`.
pub open spec fn number_as_int(n: JsonNumber, lo: int, hi: int) -> int {
    match n {
        JsonNumber::Int(i) => clamp(i as int, lo, hi),
        JsonNumber::Double(b) => double_as_int(b, lo, hi),
    }
}

fn double_to_int(b: u64, lo: i128, hi: i128) -> (r: i128)
    requires
        -0x10000000000000000 < lo <= 0 <= hi < 0x10000000000000000,
    ensures
        r == double_as_int(b, lo as int, hi as int),
{
    let exp: u64 = (b >> 52u64) & 0x7ffu64;
    let frac: u64 = b & 0xfffffffffffffu64;
    let neg: bool = (b >> 63u64) == 1u64;
    proof {
        assert(((b >> 52u64) & 0x7ffu64) == (b / 0x10000000000000u64) % 2048u64) by (bit_vector);
        assert((b & 0xfffffffffffffu64) == b % 0x10000000000000u64) by (bit_vector);
        assert(((b >> 63u64) == 1u64) == (b >= 0x8000000000000000u64)) by (bit_vector);
    }
    if exp == 2047 && frac != 0 {
        return 0;
    }
    let mant: u64 = frac + 0x10000000000000u64;
    let mag: u64;
    if exp < 1023 {
        mag = 0;
    } else if exp >= 1087 {
        proof {
            let s = (exp - 1075) as nat;
            lemma_pow2_adds(12, (s - 12) as nat);
            lemma2_to64();
            lemma_pow2_pos((s - 12) as nat);
            assert(mant * pow2(s) >= 0x10000000000000 * 4096) by (nonlinear_arith)
                requires mant >= 0x10000000000000, pow2(s) == 4096 * pow2((s - 12) as nat), pow2((s - 12) as nat) >= 1;
        }
        if neg { return lo; } else { return hi; }
    } else if exp >= 1075 {
        let s: u64 = exp - 1075;
        proof {
            if s < 11 {
                lemma_pow2_strictly_increases(s as nat, 11);
            }
            lemma2_to64();
            assert(mant * pow2(s as nat) <= u64::MAX) by (nonlinear_arith)
                requires mant < 0x20000000000000, pow2(s as nat) <= 2048;
            lemma_u64_shl_is_mul(mant, s);
        }
        mag = mant << s;
    } else {
        let s: u64 = 1075 - exp;
        proof {
            lemma_u64_shr_is_div(mant, s);
        }
        mag = mant >> s;
    }
    let m: i128 = mag as i128;
    if neg {
        if -m < lo { lo } else { -m }
    } else {
        if m > hi { hi } else { m }
    }
}

fn number_to_int(n: JsonNumber, lo: i128, hi: i128) -> (r: i128)
    requires
        -0x10000000000000000 < lo <= 0 <= hi < 0x10000000000000000,
    ensures
        r == number_as_int(n, lo as int, hi as int),
{
    match n {
        JsonNumber::Int(i) => if i < lo { lo } else if i > hi { hi } else { i },
        JsonNumber::Double(b) => double_to_int(b, lo, hi),
    }
}


// ---------------------------------------------------------------------------
// Encoding

/// `{"t": tag, "v": payload}`.
pub open spec fn tagged(tag: Seq<char>, payload: Json) -> Json {
    Json::Object(seq![("t"@, Json::Str(tag)), ("v"@, payload)])
}

/// The tree that encodes `v`.
pub open(crate) spec fn enc_value(v: KvsValue) -> Json
    decreases v, 0int,
{
    match v {
        KvsValue::I32(n) => tagged("i32"@, Json::Number(JsonNumber::Int(n as i128))),
        KvsValue::U32(n) => tagged("u32"@, Json::Number(JsonNumber::Int(n as i128))),
        KvsValue::I64(n) => tagged("i64"@, Json::Number(JsonNumber::Int(n as i128))),
        KvsValue::U64(n) => tagged("u64"@, Json::Number(JsonNumber::Int(n as i128))),
        KvsValue::F64(b) => tagged("f64"@, Json::Number(JsonNumber::Double(b))),
        KvsValue::Boolean(b) => tagged("bool"@, Json::Boolean(b)),
        KvsValue::String(s) => tagged("str"@, Json::Str(s@)),
        KvsValue::Null => tagged("null"@, Json::Null),
        KvsValue::Array(a) => tagged("arr"@, Json::Array(enc_items(a, a@.len() as int))),
        KvsValue::Object(m) => tagged("obj"@, Json::Object(enc_members(m.entries, m.entries@.len() as int))),
    }
}

pub open(crate) spec fn enc_items(a: Vec<KvsValue>, n: int) -> Seq<Json>
    decreases a, n,
{
    if n <= 0 || n > a@.len() {
        Seq::empty()
    } else {
        enc_items(a, n - 1).push(enc_value(a@[n - 1]))
    }
}

pub open(crate) spec fn enc_members(e: Vec<(String, KvsValue)>, n: int) -> Seq<(Seq<char>, Json)>
    decreases e, n,
{
    if n <= 0 || n > e@.len() {
        Seq::empty()
    } else {
        enc_members(e, n - 1).push((e@[n - 1].0@, enc_value(e@[n - 1].1)))
    }
}

/// The tree that encodes a whole map: an object of encoded values.
pub open(crate) spec fn enc_map(m: KvsMap) -> Json {
    Json::Object(enc_members(m.entries, m.entries@.len() as int))
}

// ---------------------------------------------------------------------------
// Decoding

/// Index of the last member named `k`, or -1 if there is none.
pub open spec fn last_member(e: Seq<(Seq<char>, Json)>, k: Seq<char>) -> int
    decreases e.len(),
{
    if e.len() == 0 {
        -1
    } else if e.last().0 == k {
        e.len() - 1
    } else {
        last_member(e.drop_last(), k)
    }
}

/// The value a tree decodes to: a tagged object decodes by its tag; an
/// unknown tag or a payload of the wrong kind gives `Null`; an object
/// without tag decodes member by member (dropping members `t` and `v`);
/// anything else is `Null`.
pub open spec fn dec(j: Json) -> Val
    decreases j, 0int,
{
    match j {
        Json::Object(e) => {
            let it = last_member(e, "t"@);
            let iv = last_member(e, "v"@);
            if 0 <= it < e.len() && 0 <= iv < e.len() && e[it].1 is Str {
                dec_tagged(e[it].1->Str_0, e[iv].1)
            } else {
                Val::Object(dec_members(e, true))
            }
        },
        _ => Val::Null,
    }
}

/// The value with tag `tag` and payload `p`.
pub open spec fn dec_tagged(tag: Seq<char>, p: Json) -> Val
    decreases p, 1int,
{
    if tag == "i32"@ {
        match p {
            Json::Number(n) => Val::I32(number_as_int(n, i32::MIN as int, i32::MAX as int) as i32),
            _ => Val::Null,
        }
    } else if tag == "u32"@ {
        match p {
            Json::Number(n) => Val::U32(number_as_int(n, 0, u32::MAX as int) as u32),
            _ => Val::Null,
        }
    } else if tag == "i64"@ {
        match p {
            Json::Number(n) => Val::I64(number_as_int(n, i64::MIN as int, i64::MAX as int) as i64),
            _ => Val::Null,
        }
    } else if tag == "u64"@ {
        match p {
            Json::Number(n) => Val::U64(number_as_int(n, 0, u64::MAX as int) as u64),
            _ => Val::Null,
        }
    } else if tag == "f64"@ {
        match p {
            Json::Number(JsonNumber::Double(b)) => Val::F64(b),
            _ => Val::Null,
        }
    } else if tag == "bool"@ {
        match p {
            Json::Boolean(b) => Val::Boolean(b),
            _ => Val::Null,
        }
    } else if tag == "str"@ {
        match p {
            Json::Str(s) => Val::Str(s),
            _ => Val::Null,
        }
    } else if tag == "null"@ {
        Val::Null
    } else if tag == "arr"@ {
        match p {
            Json::Array(s) => Val::Array(dec_items(s)),
            _ => Val::Null,
        }
    } else if tag == "obj"@ {
        match p {
            Json::Object(e) => Val::Object(dec_members(e, false)),
            _ => Val::Null,
        }
    } else {
        Val::Null
    }
}

pub open spec fn dec_items(s: Seq<Json>) -> Seq<Val>
    decreases s, 0int,
{
    if s.len() == 0 {
        Seq::empty()
    } else {
        dec_items(s.drop_last()).push(dec(s.last()))
    }
}

/// The members of an object decoded into a map; a later member wins over an
/// earlier one of the same name. With `skip_tags`, members `t` and `v` are left out.
pub open spec fn dec_members(e: Seq<(Seq<char>, Json)>, skip_tags: bool) -> Map<Seq<char>, Val>
    decreases e, 0int,
{
    if e.len() == 0 {
        Map::empty()
    } else {
        let rest = dec_members(e.drop_last(), skip_tags);
        let k = e.last().0;
        if skip_tags && (k == "t"@ || k == "v"@) {
            rest
        } else {
            rest.insert(k, dec(e.last().1))
        }
    }
}

/// What a stored document decodes to: the map of its members, or nothing
/// if it is not an object.
pub open spec fn dec_map(j: Json) -> Option<Map<Seq<char>, Val>> {
    match j {
        Json::Object(e) => Some(dec_members(e, false)),
        _ => None,
    }
}


// ---------------------------------------------------------------------------
// Round trip

proof fn lemma_tags_distinct()
    ensures
        "t"@ != "v"@,
        "i32"@ != "u32"@, "i32"@ != "i64"@, "i32"@ != "u64"@, "i32"@ != "f64"@, "i32"@ != "bool"@,
        "i32"@ != "str"@, "i32"@ != "null"@, "i32"@ != "arr"@, "i32"@ != "obj"@,
        "u32"@ != "i64"@, "u32"@ != "u64"@, "u32"@ != "f64"@, "u32"@ != "bool"@, "u32"@ != "str"@,
        "u32"@ != "null"@, "u32"@ != "arr"@, "u32"@ != "obj"@,
        "i64"@ != "u64"@, "i64"@ != "f64"@, "i64"@ != "bool"@, "i64"@ != "str"@, "i64"@ != "null"@,
        "i64"@ != "arr"@, "i64"@ != "obj"@,
        "u64"@ != "f64"@, "u64"@ != "bool"@, "u64"@ != "str"@, "u64"@ != "null"@, "u64"@ != "arr"@,
        "u64"@ != "obj"@,
        "f64"@ != "bool"@, "f64"@ != "str"@, "f64"@ != "null"@, "f64"@ != "arr"@, "f64"@ != "obj"@,
        "bool"@ != "str"@, "bool"@ != "null"@, "bool"@ != "arr"@, "bool"@ != "obj"@,
        "str"@ != "null"@, "str"@ != "arr"@, "str"@ != "obj"@,
        "null"@ != "arr"@, "null"@ != "obj"@,
        "arr"@ != "obj"@,
{
    reveal_strlit("t");
    reveal_strlit("v");
    reveal_strlit("i32");
    reveal_strlit("u32");
    reveal_strlit("i64");
    reveal_strlit("u64");
    reveal_strlit("f64");
    reveal_strlit("bool");
    reveal_strlit("str");
    reveal_strlit("null");
    reveal_strlit("arr");
    reveal_strlit("obj");
    assert("t"@[0] != "v"@[0]);
    assert("i32"@[0] != "u32"@[0]);
    assert("i32"@[1] != "i64"@[1]);
    assert("i32"@[0] != "u64"@[0]);
    assert("i32"@[0] != "f64"@[0]);
    assert("i32"@.len() != "bool"@.len());
    assert("i32"@[0] != "str"@[0]);
    assert("i32"@.len() != "null"@.len());
    assert("i32"@[0] != "arr"@[0]);
    assert("i32"@[0] != "obj"@[0]);
    assert("u32"@[0] != "i64"@[0]);
    assert("u32"@[1] != "u64"@[1]);
    assert("u32"@[0] != "f64"@[0]);
    assert("u32"@.len() != "bool"@.len());
    assert("u32"@[0] != "str"@[0]);
    assert("u32"@.len() != "null"@.len());
    assert("u32"@[0] != "arr"@[0]);
    assert("u32"@[0] != "obj"@[0]);
    assert("i64"@[0] != "u64"@[0]);
    assert("i64"@[0] != "f64"@[0]);
    assert("i64"@.len() != "bool"@.len());
    assert("i64"@[0] != "str"@[0]);
    assert("i64"@.len() != "null"@.len());
    assert("i64"@[0] != "arr"@[0]);
    assert("i64"@[0] != "obj"@[0]);
    assert("u64"@[0] != "f64"@[0]);
    assert("u64"@.len() != "bool"@.len());
    assert("u64"@[0] != "str"@[0]);
    assert("u64"@.len() != "null"@.len());
    assert("u64"@[0] != "arr"@[0]);
    assert("u64"@[0] != "obj"@[0]);
    assert("f64"@.len() != "bool"@.len());
    assert("f64"@[0] != "str"@[0]);
    assert("f64"@.len() != "null"@.len());
    assert("f64"@[0] != "arr"@[0]);
    assert("f64"@[0] != "obj"@[0]);
    assert("bool"@.len() != "str"@.len());
    assert("bool"@[0] != "null"@[0]);
    assert("bool"@.len() != "arr"@.len());
    assert("bool"@.len() != "obj"@.len());
    assert("str"@.len() != "null"@.len());
    assert("str"@[0] != "arr"@[0]);
    assert("str"@[0] != "obj"@[0]);
    assert("null"@.len() != "arr"@.len());
    assert("null"@.len() != "obj"@.len());
    assert("arr"@[0] != "obj"@[0]);
}

/// A tagged object decodes by its tag.
proof fn lemma_dec_tagged(tag: Seq<char>, p: Json)
    ensures
        dec(tagged(tag, p)) == dec_tagged(tag, p),
{
    lemma_tags_distinct();
    let e = seq![("t"@, Json::Str(tag)), ("v"@, p)];
    assert(e.drop_last() =~= seq![("t"@, Json::Str(tag))]);
    assert(e.drop_last().drop_last() =~= Seq::<(Seq<char>, Json)>::empty());
    assert(last_member(e.drop_last(), "t"@) == 0);
    assert(last_member(e, "t"@) == 0);
    assert(last_member(e, "v"@) == 1);
}

/// Decoding what was encoded gives back the value that was encoded.
pub proof fn lemma_value_round_trip(v: KvsValue)
    ensures
        dec(enc_value(v)) == v@,
    decreases v, 0int,
{
    lemma_tags_distinct();
    match v {
        KvsValue::I32(n) => lemma_dec_tagged("i32"@, Json::Number(JsonNumber::Int(n as i128))),
        KvsValue::U32(n) => lemma_dec_tagged("u32"@, Json::Number(JsonNumber::Int(n as i128))),
        KvsValue::I64(n) => lemma_dec_tagged("i64"@, Json::Number(JsonNumber::Int(n as i128))),
        KvsValue::U64(n) => lemma_dec_tagged("u64"@, Json::Number(JsonNumber::Int(n as i128))),
        KvsValue::F64(b) => lemma_dec_tagged("f64"@, Json::Number(JsonNumber::Double(b))),
        KvsValue::Boolean(b) => lemma_dec_tagged("bool"@, Json::Boolean(b)),
        KvsValue::String(s) => lemma_dec_tagged("str"@, Json::Str(s@)),
        KvsValue::Null => lemma_dec_tagged("null"@, Json::Null),
        KvsValue::Array(a) => {
            lemma_dec_tagged("arr"@, Json::Array(enc_items(a, a@.len() as int)));
            lemma_items_round_trip(a, a@.len() as int);
        },
        KvsValue::Object(m) => {
            lemma_dec_tagged("obj"@, Json::Object(enc_members(m.entries, m.entries@.len() as int)));
            lemma_members_round_trip(m.entries, m.entries@.len() as int);
        },
    }
}

proof fn lemma_items_round_trip(a: Vec<KvsValue>, n: int)
    requires
        0 <= n <= a@.len(),
    ensures
        enc_items(a, n).len() == n,
        dec_items(enc_items(a, n)) == crate::value::items_view(a, n),
    decreases a, n,
{
    if n > 0 {
        lemma_items_round_trip(a, n - 1);
        assert(enc_items(a, n).drop_last() =~= enc_items(a, n - 1));
        lemma_value_round_trip(a@[n - 1]);
    }
}

proof fn lemma_members_round_trip(e: Vec<(String, KvsValue)>, n: int)
    requires
        0 <= n <= e@.len(),
    ensures
        enc_members(e, n).len() == n,
        dec_members(enc_members(e, n), false) == crate::value::entries_view(e, n),
    decreases e, n,
{
    if n > 0 {
        lemma_members_round_trip(e, n - 1);
        assert(enc_members(e, n).drop_last() =~= enc_members(e, n - 1));
        lemma_value_round_trip(e@[n - 1].1);
    }
}

/// Decoding an encoded map gives back the map.
pub proof fn lemma_map_round_trip(m: KvsMap)
    ensures
        dec_map(enc_map(m)) == Some(m@),
{
    lemma_members_round_trip(m.entries, m.entries@.len() as int);
}


// ---------------------------------------------------------------------------
// Executable encoding and decoding

proof fn lemma_json_items(a: Vec<JsonTree>, n: int)
    requires
        0 <= n <= a@.len(),
    ensures
        json_items(a, n).len() == n,
        forall|j: int| 0 <= j < n ==> #[trigger] json_items(a, n)[j] == json_view(a@[j]),
    decreases n,
{
    if n > 0 {
        lemma_json_items(a, n - 1);
    }
}

proof fn lemma_json_members(e: Vec<(String, JsonTree)>, n: int)
    requires
        0 <= n <= e@.len(),
    ensures
        json_members(e, n).len() == n,
        forall|j: int| 0 <= j < n ==> #[trigger] json_members(e, n)[j] == (e@[j].0@, json_view(e@[j].1)),
        n > 0 ==> json_members(e, n).drop_last() == json_members(e, n - 1),
    decreases n,
{
    if n > 0 {
        lemma_json_members(e, n - 1);
        assert(json_members(e, n).drop_last() =~= json_members(e, n - 1));
    }
}

proof fn lemma_json_items_prefix(a: Vec<JsonTree>, b: Vec<JsonTree>, n: int)
    requires
        0 <= n <= a@.len(),
        n <= b@.len(),
        forall|i: int| 0 <= i < n ==> json_view(a@[i]) == json_view(b@[i]),
    ensures
        json_items(a, n) == json_items(b, n),
    decreases n,
{
    if n > 0 {
        lemma_json_items_prefix(a, b, n - 1);
    }
}

proof fn lemma_json_members_prefix(a: Vec<(String, JsonTree)>, b: Vec<(String, JsonTree)>, n: int)
    requires
        0 <= n <= a@.len(),
        n <= b@.len(),
        forall|i: int| 0 <= i < n ==> (#[trigger] a@[i]).0@ == b@[i].0@ && json_view(a@[i].1) == json_view(b@[i].1),
    ensures
        json_members(a, n) == json_members(b, n),
    decreases n,
{
    if n > 0 {
        lemma_json_members_prefix(a, b, n - 1);
    }
}

/// Whether `s` holds the text `lit`.
fn str_is(s: &String, lit: &str) -> (r: bool)
    ensures
        r == (s@ == lit@),
{
    let l = lit.to_string();
    *s == l
}

/// `{"t": tag, "v": payload}`.
fn tag_tree(tag: &str, payload: JsonTree) -> (r: JsonTree)
    ensures
        r@ == tagged(tag@, payload@),
{
    let ghost p = payload@;
    let mut e: Vec<(String, JsonTree)> = Vec::new();
    e.push(("t".to_string(), JsonTree::String(tag.to_string())));
    e.push(("v".to_string(), payload));
    proof {
        lemma_json_members(e, 2);
        assert(json_members(e, 2) =~= seq![("t"@, Json::Str(tag@)), ("v"@, p)]);
    }
    JsonTree::Object(e)
}

/// The tree that encodes `v`.
pub fn encode_value(v: &KvsValue) -> (r: JsonTree)
    ensures
        r@ == enc_value(*v),
    decreases v,
{
    match v {
        KvsValue::I32(n) => tag_tree("i32", JsonTree::Number(JsonNumber::Int(*n as i128))),
        KvsValue::U32(n) => tag_tree("u32", JsonTree::Number(JsonNumber::Int(*n as i128))),
        KvsValue::I64(n) => tag_tree("i64", JsonTree::Number(JsonNumber::Int(*n as i128))),
        KvsValue::U64(n) => tag_tree("u64", JsonTree::Number(JsonNumber::Int(*n as i128))),
        KvsValue::F64(b) => tag_tree("f64", JsonTree::Number(JsonNumber::Double(*b))),
        KvsValue::Boolean(b) => tag_tree("bool", JsonTree::Boolean(*b)),
        KvsValue::String(s) => tag_tree("str", JsonTree::String(s.clone())),
        KvsValue::Null => tag_tree("null", JsonTree::Null),
        KvsValue::Array(a) => {
            let mut out: Vec<JsonTree> = Vec::new();
            let mut i: usize = 0;
            while i < a.len()
                invariant
                    *v == KvsValue::Array(*a),
                    i <= a@.len(),
                    out@.len() == i,
                    json_items(out, i as int) == enc_items(*a, i as int),
                decreases a@.len() - i,
            {
                assert(decreases_to!(*v => a[i as int])) by {
                    assert(decreases_to!(*v => v->Array_0));
                }
                let x = encode_value(&a[i]);
                let ghost before = out;
                out.push(x);
                proof {
                    lemma_json_items_prefix(before, out, i as int);
                }
                i = i + 1;
            }
            tag_tree("arr", JsonTree::Array(out))
        },
        KvsValue::Object(m) => {
            let e = encode_members(&m.entries);
            tag_tree("obj", JsonTree::Object(e))
        },
    }
}

fn encode_members(e: &Vec<(String, KvsValue)>) -> (r: Vec<(String, JsonTree)>)
    ensures
        json_members(r, r@.len() as int) == enc_members(*e, e@.len() as int),
    decreases e,
{
    let mut out: Vec<(String, JsonTree)> = Vec::new();
    let mut i: usize = 0;
    while i < e.len()
        invariant
            i <= e@.len(),
            out@.len() == i,
            json_members(out, i as int) == enc_members(*e, i as int),
        decreases e@.len() - i,
    {
        assert(decreases_to!(e => e[i as int]));
        let x = encode_value(&e[i].1);
        let ghost before = out;
        out.push((e[i].0.clone(), x));
        proof {
            lemma_json_members_prefix(before, out, i as int);
        }
        i = i + 1;
    }
    out
}

/// The document that stores map `m`: an object of encoded values.
pub fn encode_map(m: &KvsMap) -> (r: JsonTree)
    ensures
        r@ == enc_map(*m),
{
    JsonTree::Object(encode_members(&m.entries))
}

/// Index of the last member named `k`.
fn find_last(e: &Vec<(String, JsonTree)>, k: &str) -> (r: Option<usize>)
    ensures
        match r {
            Some(i) => i < e@.len() && last_member(json_members(*e, e@.len() as int), k@) == i,
            None => last_member(json_members(*e, e@.len() as int), k@) == -1,
        },
{
    let key = k.to_string();
    let mut i: usize = e.len();
    while i > 0
        invariant
            i <= e@.len(),
            key@ == k@,
            last_member(json_members(*e, e@.len() as int), k@) == last_member(json_members(*e, i as int), k@),
        decreases i,
    {
        proof { lemma_json_members(*e, i as int); }
        if e[i - 1].0 == key {
            return Some(i - 1);
        }
        i = i - 1;
    }
    None
}

/// The value that tree `j` decodes to.
pub fn decode_value(j: &JsonTree) -> (r: KvsValue)
    ensures
        r@ == dec(j@),
    decreases j,
{
    match j {
        JsonTree::Object(e) => {
            proof { lemma_json_members(*e, e@.len() as int); }
            let it = find_last(e, "t");
            let iv = find_last(e, "v");
            match (it, iv) {
                (Some(a), Some(b)) => {
                    match &e[a].1 {
                        JsonTree::String(tag) => {
                            assert(decreases_to!(*j => e[b as int].1)) by {
                                assert(decreases_to!(*j => j->Object_0));
                                assert(decreases_to!(j->Object_0 => e[b as int]));
                            }
                            return decode_tagged(tag, &e[b].1);
                        },
                        _ => {},
                    }
                },
                _ => {},
            }
            KvsValue::Object(decode_members(e, true))
        },
        _ => KvsValue::Null,
    }
}

/// The value with tag `tag` and payload `p`.
fn decode_tagged(tag: &String, p: &JsonTree) -> (r: KvsValue)
    ensures
        r@ == dec_tagged(tag@, p@),
    decreases p,
{
    if str_is(tag, "i32") {
        match p {
            JsonTree::Number(n) => KvsValue::I32(number_to_int(*n, i32::MIN as i128, i32::MAX as i128) as i32),
            _ => KvsValue::Null,
        }
    } else if str_is(tag, "u32") {
        match p {
            JsonTree::Number(n) => KvsValue::U32(number_to_int(*n, 0, u32::MAX as i128) as u32),
            _ => KvsValue::Null,
        }
    } else if str_is(tag, "i64") {
        match p {
            JsonTree::Number(n) => KvsValue::I64(number_to_int(*n, i64::MIN as i128, i64::MAX as i128) as i64),
            _ => KvsValue::Null,
        }
    } else if str_is(tag, "u64") {
        match p {
            JsonTree::Number(n) => KvsValue::U64(number_to_int(*n, 0, u64::MAX as i128) as u64),
            _ => KvsValue::Null,
        }
    } else if str_is(tag, "f64") {
        match p {
            JsonTree::Number(JsonNumber::Double(b)) => KvsValue::F64(*b),
            _ => KvsValue::Null,
        }
    } else if str_is(tag, "bool") {
        match p {
            JsonTree::Boolean(b) => KvsValue::Boolean(*b),
            _ => KvsValue::Null,
        }
    } else if str_is(tag, "str") {
        match p {
            JsonTree::String(s) => KvsValue::String(s.clone()),
            _ => KvsValue::Null,
        }
    } else if str_is(tag, "null") {
        KvsValue::Null
    } else if str_is(tag, "arr") {
        match p {
            JsonTree::Array(a) => KvsValue::Array(decode_items(a)),
            _ => KvsValue::Null,
        }
    } else if str_is(tag, "obj") {
        match p {
            JsonTree::Object(e) => KvsValue::Object(decode_members(e, false)),
            _ => KvsValue::Null,
        }
    } else {
        KvsValue::Null
    }
}

fn decode_items(a: &Vec<JsonTree>) -> (r: Vec<KvsValue>)
    ensures
        crate::value::items_view(r, r@.len() as int) == dec_items(json_items(*a, a@.len() as int)),
    decreases a,
{
    let mut out: Vec<KvsValue> = Vec::new();
    let mut i: usize = 0;
    while i < a.len()
        invariant
            i <= a@.len(),
            out@.len() == i,
            crate::value::items_view(out, i as int) == dec_items(json_items(*a, i as int)),
        decreases a@.len() - i,
    {
        assert(decreases_to!(a => a[i as int]));
        let x = decode_value(&a[i]);
        let ghost before = out;
        out.push(x);
        proof {
            crate::value::lemma_items_prefix(before, out, i as int);
            lemma_json_items(*a, i as int + 1);
            assert(json_items(*a, i as int + 1).drop_last() =~= json_items(*a, i as int));
        }
        i = i + 1;
    }
    out
}

fn decode_members(e: &Vec<(String, JsonTree)>, skip_tags: bool) -> (r: KvsMap)
    ensures
        r.wf(),
        r@ == dec_members(json_members(*e, e@.len() as int), skip_tags),
    decreases e,
{
    let mut m = KvsMap::new();
    let mut i: usize = 0;
    while i < e.len()
        invariant
            i <= e@.len(),
            m.wf(),
            m@ == dec_members(json_members(*e, i as int), skip_tags),
        decreases e@.len() - i,
    {
        proof { lemma_json_members(*e, i as int + 1); }
        let k = &e[i].0;
        if skip_tags && (str_is(k, "t") || str_is(k, "v")) {
        } else {
            assert(decreases_to!(e => e[i as int]));
            let x = decode_value(&e[i].1);
            m.insert(k.clone(), x);
        }
        i = i + 1;
    }
    m
}

/// The map stored in document `j`; fails with `JsonParserError` if `j` is not an object.
pub fn decode_map(j: &JsonTree) -> (r: Result<KvsMap, ErrorCode>)
    ensures
        match dec_map(j@) {
            Some(m) => r matches Ok(x) && x.wf() && x@ == m,
            None => r == Err::<KvsMap, ErrorCode>(ErrorCode::JsonParserError),
        },
{
    match j {
        JsonTree::Object(e) => Ok(decode_members(e, false)),
        _ => Err(ErrorCode::JsonParserError),
    }
}

} // verus!
