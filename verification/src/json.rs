//! JSON document model.
//!
//! The executable tree [`JsonValue`] carries numbers as their decimal literal
//! text, so no floating point enters the library and field copies preserve
//! the exact digits. Its view is the mathematical [`JsonModel`], which every
//! contract in the converter and transcoder modules speaks about.
//!
//! Reading bytes into a tree and rendering a tree back to text are the only
//! places where serde_json is involved; both calls sit behind trusted
//! wrappers at the end of this file.

use vstd::prelude::*;

use crate::text::str_eq;

verus! {

/// An executable JSON tree. Object members keep their order of insertion.
pub enum JsonValue {
    Null,
    Bool(bool),
    Num(String),
    Str(String),
    Arr(Vec<JsonValue>),
    Obj(Vec<(String, JsonValue)>),
}

/// The mathematical shape of a JSON document: what contracts talk about.
#[verifier::ext_equal]
pub enum JsonModel {
    Null,
    Bool(bool),
    Num(Seq<char>),
    Str(Seq<char>),
    Arr(Seq<JsonModel>),
    Obj(Seq<(Seq<char>, JsonModel)>),
}

pub open spec fn json_model_seq(s: Seq<JsonValue>) -> Seq<JsonModel>
    decreases s,
{
    if s.len() == 0 {
        Seq::empty()
    } else {
        seq![json_model(s[0])] + json_model_seq(s.skip(1))
    }
}

pub open spec fn json_model_pairs(s: Seq<(String, JsonValue)>) -> Seq<(Seq<char>, JsonModel)>
    decreases s,
{
    if s.len() == 0 {
        Seq::empty()
    } else {
        seq![(s[0].0@, json_model(s[0].1))] + json_model_pairs(s.skip(1))
    }
}

pub open spec fn json_model(v: JsonValue) -> JsonModel
    decreases v,
{
    match v {
        JsonValue::Null => JsonModel::Null,
        JsonValue::Bool(b) => JsonModel::Bool(b),
        JsonValue::Num(s) => JsonModel::Num(s@),
        JsonValue::Str(s) => JsonModel::Str(s@),
        JsonValue::Arr(a) => JsonModel::Arr(json_model_seq(a@)),
        JsonValue::Obj(m) => JsonModel::Obj(json_model_pairs(m@)),
    }
}

pub broadcast proof fn lemma_json_model_seq(s: Seq<JsonValue>)
    ensures
        #![trigger json_model_seq(s)]
        json_model_seq(s).len() == s.len() && (forall|i: int|
            0 <= i < s.len() ==> json_model_seq(s)[i] == json_model(s[i])),
    decreases s,
{
    if s.len() > 0 {
        lemma_json_model_seq(s.skip(1));
    }
}

pub broadcast proof fn lemma_json_model_pairs(s: Seq<(String, JsonValue)>)
    ensures
        #![trigger json_model_pairs(s)]
        json_model_pairs(s).len() == s.len() && (forall|i: int|
            0 <= i < s.len() ==> json_model_pairs(s)[i] == (s[i].0@, json_model(s[i].1))),
    decreases s,
{
    if s.len() > 0 {
        lemma_json_model_pairs(s.skip(1));
    }
}

impl View for JsonValue {
    type V = JsonModel;

    open spec fn view(&self) -> JsonModel {
        json_model(*self)
    }
}

/// Index of the first member named `key`, or -1 when there is none.
pub open spec fn member_idx(ps: Seq<(Seq<char>, JsonModel)>, key: Seq<char>) -> int
    decreases ps.len(),
{
    if ps.len() == 0 {
        -1
    } else if ps[0].0 == key {
        0
    } else if member_idx(ps.skip(1), key) == -1 {
        -1
    } else {
        1 + member_idx(ps.skip(1), key)
    }
}

/// When `i` is the first index whose member is named `key`, `member_idx`
/// finds exactly `i`.
pub proof fn lemma_member_idx_at(ps: Seq<(Seq<char>, JsonModel)>, key: Seq<char>, i: int)
    requires
        0 <= i < ps.len(),
        ps[i].0 == key,
        forall|j: int| 0 <= j < i ==> ps[j].0 != key,
    ensures
        member_idx(ps, key) == i,
    decreases ps.len(),
{
    if i == 0 {
    } else {
        assert(forall|j: int| 1 <= j < ps.len() ==> ps[j] == ps.skip(1)[j - 1]);
        lemma_member_idx_at(ps.skip(1), key, i - 1);
    }
}

/// When no member is named `key`, `member_idx` finds nothing.
pub proof fn lemma_member_idx_none(ps: Seq<(Seq<char>, JsonModel)>, key: Seq<char>)
    requires
        forall|i: int| 0 <= i < ps.len() ==> (#[trigger] ps[i]).0 != key,
    ensures
        member_idx(ps, key) == -1,
    decreases ps.len(),
{
    if ps.len() > 0 {
        assert(forall|i: int| 1 <= i < ps.len() ==> ps[i] == ps.skip(1)[i - 1]);
        lemma_member_idx_none(ps.skip(1), key);
    }
}

pub proof fn lemma_member_idx(ps: Seq<(Seq<char>, JsonModel)>, key: Seq<char>)
    ensures
        member_idx(ps, key) == -1 ==> forall|i: int| 0 <= i < ps.len() ==> ps[i].0 != key,
        member_idx(ps, key) != -1 ==> {
            let x = member_idx(ps, key);
            &&& 0 <= x < ps.len()
            &&& ps[x].0 == key
            &&& forall|i: int| 0 <= i < x ==> ps[i].0 != key
        },
    decreases ps.len(),
{
    if ps.len() > 0 {
        lemma_member_idx(ps.skip(1), key);
        assert(forall|i: int| 1 <= i < ps.len() ==> ps[i] == ps.skip(1)[i - 1]);
    }
}

/// The value of the member named `key` of an object, or `None` when the
/// document is not an object or has no such member. The first member wins,
/// as in a map that keeps the earliest insertion.
pub open spec fn obj_get(m: JsonModel, key: Seq<char>) -> Option<JsonModel> {
    match m {
        JsonModel::Obj(ps) => {
            let x = member_idx(ps, key);
            if x == -1 {
                None
            } else {
                Some(ps[x].1)
            }
        },
        _ => None,
    }
}

/// An object with the member named `key` set to `v`: an existing member is
/// replaced in place, a new one is appended at the end.
pub open spec fn obj_set(ps: Seq<(Seq<char>, JsonModel)>, key: Seq<char>, v: JsonModel) -> Seq<
    (Seq<char>, JsonModel),
> {
    let x = member_idx(ps, key);
    if x == -1 {
        ps.push((key, v))
    } else {
        ps.update(x, (key, v))
    }
}

impl JsonValue {
    /// The member named `key`, when this is an object that has one.
    #[verifier::loop_isolation(false)]
    pub fn get<'a>(&'a self, key: &str) -> (r: Option<&'a JsonValue>)
        ensures
            match r {
                Some(v) => obj_get(self@, key@) == Some(v@),
                None => obj_get(self@, key@) is None,
            },
    {
        broadcast use lemma_json_model_pairs;

        match self {
            JsonValue::Obj(ps) => {
                let ghost psv = json_model_pairs(ps@);
                let mut i: usize = 0;
                while i < ps.len()
                    invariant
                        i <= ps.len(),
                        psv == json_model_pairs(ps@),
                        forall|j: int| 0 <= j < i ==> psv[j].0 != key@,
                    decreases ps.len() - i,
                {
                    if str_eq(ps[i].0.as_str(), key) {
                        proof {
                            assert(psv[i as int].0 == key@);
                            lemma_member_idx_at(psv, key@, i as int);
                        }
                        return Some(&ps[i].1);
                    }
                    i += 1;
                }
                proof {
                    lemma_member_idx(psv, key@);
                }
                None
            },
            _ => None,
        }
    }

    /// The text of a string document.
    pub fn as_str<'a>(&'a self) -> (r: Option<&'a String>)
        ensures
            match r {
                Some(s) => self@ == JsonModel::Str(s@),
                None => !(self@ is Str),
            },
    {
        match self {
            JsonValue::Str(s) => Some(s),
            _ => None,
        }
    }

    /// The value of a boolean document.
    pub fn as_bool(&self) -> (r: Option<bool>)
        ensures
            match r {
                Some(b) => self@ == JsonModel::Bool(b),
                None => !(self@ is Bool),
            },
    {
        match self {
            JsonValue::Bool(b) => Some(*b),
            _ => None,
        }
    }

    /// The elements of an array document.
    pub fn as_arr<'a>(&'a self) -> (r: Option<&'a Vec<JsonValue>>)
        ensures
            match r {
                Some(a) => self@ is Arr && a@.len() == self@->Arr_0.len() && forall|i: int|
                    0 <= i < a@.len() ==> a@[i]@ == self@->Arr_0[i],
                None => !(self@ is Arr),
            },
    {
        broadcast use lemma_json_model_seq;

        match self {
            JsonValue::Arr(a) => {
                proof {
                    assert(self@->Arr_0 == json_model_seq(a@));
                    assert(json_model_seq(a@).len() == a@.len());
                    assert(forall|i: int|
                        0 <= i < a@.len() ==> json_model_seq(a@)[i] == json_model(a@[i]));
                }
                Some(a)
            },
            _ => None,
        }
    }

    pub fn is_null(&self) -> (r: bool)
        ensures
            r == (self@ is Null),
    {
        match self {
            JsonValue::Null => true,
            _ => false,
        }
    }

    /// Set the member named `key` of an object, replacing an existing member
    /// in place and appending a new one at the end.
    #[verifier::loop_isolation(false)]
    pub fn set(&mut self, key: &str, v: JsonValue)
        requires
            old(self)@ is Obj,
        ensures
            final(self)@ == JsonModel::Obj(obj_set(old(self)@->Obj_0, key@, v@)),
    {
        broadcast use lemma_json_model_pairs;

        let ghost psv = json_model_pairs(self->Obj_0@);
        match self {
            JsonValue::Obj(ps) => {
                let mut i: usize = 0;
                while i < ps.len()
                    invariant
                        i <= ps.len(),
                        psv == json_model_pairs(ps@),
                        forall|j: int| 0 <= j < i ==> psv[j].0 != key@,
                    decreases ps.len() - i,
                {
                    if str_eq(ps[i].0.as_str(), key) {
                        proof {
                            assert(psv[i as int].0 == key@);
                            lemma_member_idx_at(psv, key@, i as int);
                        }
                        let prev = ps.remove(i);
                        ps.insert(i, (prev.0, v));
                        assert(json_model_pairs(ps@) =~= obj_set(psv, key@, v@));
                        return ;
                    }
                    i += 1;
                }
                proof {
                    lemma_member_idx(psv, key@);
                }
                ps.push((key.to_owned(), v));
                assert(json_model_pairs(ps@) =~= obj_set(psv, key@, v@));
            },
            _ => {
                proof {
                    assert(false);
                }
            },
        }
    }
}

/// A structurally equal copy of a document.
#[verifier::loop_isolation(false)]
pub fn json_clone(v: &JsonValue) -> (r: JsonValue)
    ensures
        r@ == v@,
    decreases v,
{
    broadcast use {lemma_json_model_seq, lemma_json_model_pairs};

    match v {
        JsonValue::Null => JsonValue::Null,
        JsonValue::Bool(b) => JsonValue::Bool(*b),
        JsonValue::Num(s) => JsonValue::Num(s.clone()),
        JsonValue::Str(s) => JsonValue::Str(s.clone()),
        JsonValue::Arr(a) => {
            let mut out: Vec<JsonValue> = Vec::new();
            let mut i: usize = 0;
            while i < a.len()
                invariant
                    i <= a.len(),
                    out.len() == i,
                    forall|j: int| 0 <= j < i ==> out[j]@ == a[j]@,
                decreases a.len() - i,
            {
                proof {
                    assert(decreases_to!(*v => *a));
                    assert(decreases_to!(*a => a@));
                    assert(decreases_to!(a@ => a@[i as int]));
                    assert(decreases_to!(*v => a@[i as int]));
                }
                let c = json_clone(&a[i]);
                out.push(c);
                i += 1;
            }
            let r = JsonValue::Arr(out);
            assert(json_model_seq(out@) =~= json_model_seq(a@));
            r
        },
        JsonValue::Obj(m) => {
            let mut out: Vec<(String, JsonValue)> = Vec::new();
            let mut i: usize = 0;
            while i < m.len()
                invariant
                    i <= m.len(),
                    out.len() == i,
                    forall|j: int| 0 <= j < i ==> out[j].0@ == m[j].0@ && out[j].1@ == m[j].1@,
                decreases m.len() - i,
            {
                proof {
                    assert(decreases_to!(*v => *m));
                    assert(decreases_to!(*m => m@));
                    assert(decreases_to!(m@ => m@[i as int]));
                    assert(decreases_to!(m@[i as int] => m@[i as int].1));
                    assert(decreases_to!(*v => m@[i as int].1));
                }
                let c = json_clone(&m[i].1);
                out.push((m[i].0.clone(), c));
                i += 1;
            }
            let r = JsonValue::Obj(out);
            assert(json_model_pairs(out@) =~= json_model_pairs(m@));
            r
        },
    }
}

/// A member list of one optional entry: present values contribute a single
/// member, absent ones nothing.
pub open spec fn opt_member(name: Seq<char>, v: Option<JsonModel>) -> Seq<(Seq<char>, JsonModel)> {
    match v {
        Some(x) => seq![(name, x)],
        None => Seq::empty(),
    }
}

/// A value with a fallback for the absent case.
pub open spec fn or_default(v: Option<JsonModel>, d: JsonModel) -> JsonModel {
    match v {
        Some(x) => x,
        None => d,
    }
}

/// What `serde_json` reads from a byte body: `None` when the bytes are not
/// well-formed JSON.
pub uninterp spec fn json_parse_spec(b: Seq<u8>) -> Option<JsonModel>;

/// The text `serde_json` renders for a document.
pub uninterp spec fn json_text_spec(v: JsonModel) -> Seq<char>;

/// The text that lossy UTF-8 decoding yields for a byte sequence: invalid
/// sequences become replacement characters, never a failure.
pub uninterp spec fn lossy_utf8(b: Seq<u8>) -> Seq<char>;

#[verifier::external_type_specification]
#[verifier::external_body]
pub struct ExValue(serde_json::Value);

/// Carries a parsed `serde_json` tree over into the library's own,
/// variant by variant; trusted alongside [`json_parse`], whose call it
/// converts.
#[verifier::external_body]
fn value_to_json(v: serde_json::Value) -> JsonValue {
    match v {
        serde_json::Value::Null => JsonValue::Null,
        serde_json::Value::Bool(b) => JsonValue::Bool(b),
        serde_json::Value::Number(n) => JsonValue::Num(n.to_string()),
        serde_json::Value::String(s) => JsonValue::Str(s),
        serde_json::Value::Array(a) => JsonValue::Arr(a.into_iter().map(value_to_json).collect()),
        serde_json::Value::Object(m) => JsonValue::Obj(
            m.into_iter().map(|(k, x)| (k, value_to_json(x))).collect(),
        ),
    }
}

/// Rebuilds a `serde_json` tree from the library's own, variant by
/// variant; trusted alongside [`json_to_string`], whose call it feeds. A
/// number whose text does not parse back is rendered as null.
#[verifier::external_body]
fn json_to_value(v: &JsonValue) -> serde_json::Value {
    match v {
        JsonValue::Null => serde_json::Value::Null,
        JsonValue::Bool(b) => serde_json::Value::Bool(*b),
        JsonValue::Num(s) => s.parse::<serde_json::Number>().map(serde_json::Value::Number).unwrap_or(serde_json::Value::Null),
        JsonValue::Str(s) => serde_json::Value::String(s.clone()),
        JsonValue::Arr(a) => serde_json::Value::Array(a.iter().map(json_to_value).collect()),
        JsonValue::Obj(m) => serde_json::Value::Object(
            m.iter().map(|(k, x)| (k.clone(), json_to_value(x))).collect(),
        ),
    }
}

/// Relies on `serde_json::from_slice::<serde_json::Value>`: strict JSON
/// parsing of a byte body, `Err` exactly on malformed input, a pure function
/// of the bytes. The tree is carried over member by member by
/// `value_to_json`, numbers as the literal text `serde_json` prints for them.
#[verifier::external_body]
pub fn json_parse(b: &[u8]) -> (r: Option<JsonValue>)
    ensures
        match r {
            Some(v) => json_parse_spec(b@) == Some(v@),
            None => json_parse_spec(b@) is None,
        },
{
    match serde_json::from_slice::<serde_json::Value>(b) {
        Ok(v) => Some(value_to_json(v)),
        Err(_) => None,
    }
}

/// Relies on `serde_json::to_string`: the canonical one-line rendering of a
/// document, a pure function of the tree, which `json_to_value` rebuilds
/// member by member in the same order.
#[verifier::external_body]
pub fn json_to_string(v: &JsonValue) -> (r: String)
    ensures
        r@ == json_text_spec(v@),
{
    serde_json::to_string(&json_to_value(v)).unwrap_or_else(|_| String::new())
}

/// Relies on `String::from_utf8_lossy`: total decoding of bytes to text,
/// replacing invalid sequences, a pure function of the bytes.
#[verifier::external_body]
pub fn bytes_to_string_lossy(b: &[u8]) -> (r: String)
    ensures
        r@ == lossy_utf8(b@),
{
    String::from_utf8_lossy(b).into_owned()
}

} // verus!
