//! JSON values as plain data, and the reading of a JSON text into one.

use vstd::prelude::*;
use crate::order::{lemma_with_key_at, with_key};
use crate::text::{before, lemma_lt_irreflexive, lt, same};

verus! {

/// A JSON value. Numbers are told apart as `serde_json` tells them apart: a natural number
/// that fits 64 bits, a negative integer that does, and any other number, kept as it is
/// written out. The entries of an object stand in the order of their keys.
#[derive(Debug)]
pub enum Json {
    Null,
    Bool(bool),
    Unsigned(u64),
    Negative(i64),
    Real(String),
    Text(String),
    List(Vec<Json>),
    Object(Vec<(String, Json)>),
}

/// What a JSON value holds.
pub enum JsonView {
    Null,
    Bool(bool),
    Unsigned(u64),
    Negative(i64),
    Real(Seq<char>),
    Text(Seq<char>),
    List(Seq<JsonView>),
    Object(Seq<(Seq<char>, JsonView)>),
}

impl View for Json {
    type V = JsonView;

    open spec fn view(&self) -> JsonView {
        json_view(*self)
    }
}

pub open spec fn json_view(j: Json) -> JsonView
    decreases j,
{
    match j {
        Json::Null => JsonView::Null,
        Json::Bool(b) => JsonView::Bool(b),
        Json::Unsigned(n) => JsonView::Unsigned(n),
        Json::Negative(n) => JsonView::Negative(n),
        Json::Real(s) => JsonView::Real(s@),
        Json::Text(s) => JsonView::Text(s@),
        Json::List(v) => JsonView::List(
            Seq::new(
                v@.len(),
                |i: int|
                    if 0 <= i < v@.len() {
                        json_view(v@[i])
                    } else {
                        JsonView::Null
                    },
            ),
        ),
        Json::Object(v) => JsonView::Object(
            Seq::new(
                v@.len(),
                |i: int|
                    if 0 <= i < v@.len() {
                        (v@[i].0@, json_view(v@[i].1))
                    } else {
                        (Seq::empty(), JsonView::Null)
                    },
            ),
        ),
    }
}

impl JsonView {
    /// The value under `key`: of an object, the first entry of that key.
    pub open spec fn get(self, key: Seq<char>) -> Option<JsonView> {
        match self {
            JsonView::Object(e) => lookup(e, key),
            _ => None,
        }
    }

    /// The value at index `i`, of a list that is that long.
    pub open spec fn at(self, i: int) -> Option<JsonView> {
        match self {
            JsonView::List(v) => if 0 <= i < v.len() {
                Some(v[i])
            } else {
                None
            },
            _ => None,
        }
    }

    pub open spec fn is_null(self) -> bool {
        self is Null
    }

    pub open spec fn as_u64(self) -> Option<u64> {
        match self {
            JsonView::Unsigned(n) => Some(n),
            _ => None,
        }
    }

    pub open spec fn as_bool(self) -> Option<bool> {
        match self {
            JsonView::Bool(b) => Some(b),
            _ => None,
        }
    }

    pub open spec fn as_str(self) -> Option<Seq<char>> {
        match self {
            JsonView::Text(s) => Some(s),
            _ => None,
        }
    }

    pub open spec fn as_array(self) -> Option<Seq<JsonView>> {
        match self {
            JsonView::List(v) => Some(v),
            _ => None,
        }
    }

    pub open spec fn as_object(self) -> Option<Seq<(Seq<char>, JsonView)>> {
        match self {
            JsonView::Object(v) => Some(v),
            _ => None,
        }
    }
}

pub open spec fn lookup(e: Seq<(Seq<char>, JsonView)>, key: Seq<char>) -> Option<JsonView>
    decreases e.len(),
{
    if e.len() == 0 {
        None
    } else if e[0].0 == key {
        Some(e[0].1)
    } else {
        lookup(e.drop_first(), key)
    }
}

pub open spec fn opt_json(o: Option<&Json>) -> Option<JsonView> {
    match o {
        Some(j) => Some(j@),
        None => None,
    }
}

impl Json {
    pub fn get(&self, key: &str) -> (r: Option<&Json>)
        ensures
            opt_json(r) == self@.get(key@),
    {
        match self {
            Json::Object(v) => {
                let ghost e = self@->Object_0;
                let mut i: usize = 0;
                assert(e.skip(0) =~= e);
                while i < v.len()
                    invariant
                        i <= v.len(),
                        self@ == JsonView::Object(e),
                        e.len() == v@.len(),
                        forall|j: int|
                            0 <= j < v@.len() ==> #[trigger] e[j] == (v@[j].0@, v@[j].1@),
                        lookup(e, key@) == lookup(e.skip(i as int), key@),
                    decreases v.len() - i,
                {
                    assert(e.skip(i as int)[0] == e[i as int]);
                    if same(v[i].0.as_str(), key) {
                        return Some(&v[i].1);
                    }
                    assert(e.skip(i as int).drop_first() =~= e.skip(i + 1));
                    i = i + 1;
                }
                None
            },
            _ => None,
        }
    }

    pub fn at(&self, i: usize) -> (r: Option<&Json>)
        ensures
            opt_json(r) == self@.at(i as int),
    {
        match self {
            Json::List(v) => if i < v.len() {
                Some(&v[i])
            } else {
                None
            },
            _ => None,
        }
    }

    pub fn is_null(&self) -> (r: bool)
        ensures
            r == self@.is_null(),
    {
        match self {
            Json::Null => true,
            _ => false,
        }
    }

    pub fn as_u64(&self) -> (r: Option<u64>)
        ensures
            r == self@.as_u64(),
    {
        match self {
            Json::Unsigned(n) => Some(*n),
            _ => None,
        }
    }

    pub fn as_bool(&self) -> (r: Option<bool>)
        ensures
            r == self@.as_bool(),
    {
        match self {
            Json::Bool(b) => Some(*b),
            _ => None,
        }
    }

    pub fn as_str(&self) -> (r: Option<&str>)
        ensures
            match r {
                Some(s) => self@.as_str() == Some(s@),
                None => self@.as_str() is None,
            },
    {
        match self {
            Json::Text(s) => Some(s.as_str()),
            _ => None,
        }
    }

    pub fn as_array(&self) -> (r: Option<&Vec<Json>>)
        ensures
            match r {
                Some(v) => self@.as_array() is Some && self@.as_array()->0.len() == v@.len()
                    && forall|i: int|
                    0 <= i < v@.len() ==> #[trigger] self@.as_array()->0[i] == v@[i]@,
                None => self@.as_array() is None,
            },
    {
        match self {
            Json::List(v) => Some(v),
            _ => None,
        }
    }

    pub fn as_object(&self) -> (r: Option<&Vec<(String, Json)>>)
        ensures
            match r {
                Some(v) => self@.as_object() is Some && self@.as_object()->0.len() == v@.len()
                    && forall|i: int|
                    0 <= i < v@.len() ==> #[trigger] self@.as_object()->0[i] == (
                        v@[i].0@,
                        v@[i].1@,
                    ),
                None => self@.as_object() is None,
            },
    {
        match self {
            Json::Object(v) => Some(v),
            _ => None,
        }
    }
}

// ---------------------------------------------------------------- entries

/// The entries of an object.
pub open spec fn entries(v: Seq<(String, Json)>) -> Seq<(Seq<char>, JsonView)> {
    Seq::new(v.len(), |i: int| (v[i].0@, v[i].1@))
}

pub proof fn lemma_object_view(v: Vec<(String, Json)>)
    ensures
        Json::Object(v)@ == JsonView::Object(entries(v@)),
{
    assert(Json::Object(v)@->Object_0 =~= entries(v@));
}

/// `e` with `v` under `key`: in place of the entry of that key, or where the order of keys
/// puts it.
pub open spec fn with_entry(
    e: Seq<(Seq<char>, JsonView)>,
    key: Seq<char>,
    v: JsonView,
) -> Seq<(Seq<char>, JsonView)> {
    with_key(e, key, v)
}

/// `e` without what stands under `key`.
pub open spec fn without_entry(e: Seq<(Seq<char>, JsonView)>, key: Seq<char>) -> Seq<
    (Seq<char>, JsonView),
>
    decreases e.len(),
{
    if e.len() == 0 {
        e
    } else if e[0].0 == key {
        without_entry(e.drop_first(), key)
    } else {
        seq![e[0]] + without_entry(e.drop_first(), key)
    }
}

/// What is read under a key once a value was put under another, or under it.
pub proof fn lemma_with_entry(
    e: Seq<(Seq<char>, JsonView)>,
    key: Seq<char>,
    v: JsonView,
    other: Seq<char>,
)
    ensures
        lookup(with_entry(e, key, v), other) == (if other == key {
            Some(v)
        } else {
            lookup(e, other)
        }),
    decreases e.len(),
{
    let r = with_entry(e, key, v);
    if e.len() == 0 || lt(key, e[0].0) {
        assert(r.drop_first() =~= e);
    } else if e[0].0 == key {
        assert(r.drop_first() =~= e.drop_first());
    } else {
        lemma_with_entry(e.drop_first(), key, v, other);
        assert(r.drop_first() =~= with_key(e.drop_first(), key, v));
    }
}

/// What is read under a key once another, or it, was removed.
pub proof fn lemma_without_entry(
    e: Seq<(Seq<char>, JsonView)>,
    key: Seq<char>,
    other: Seq<char>,
)
    ensures
        lookup(without_entry(e, key), other) == (if other == key {
            None
        } else {
            lookup(e, other)
        }),
    decreases e.len(),
{
    if e.len() > 0 {
        lemma_without_entry(e.drop_first(), key, other);
        let r = without_entry(e, key);
        if e[0].0 != key {
            assert(r.drop_first() =~= without_entry(e.drop_first(), key));
        }
    }
}

/// Put a value under a key, or replace the one there.
pub fn put_entry(v: &mut Vec<(String, Json)>, key: &str, value: Json)
    ensures
        entries(final(v)@) == with_entry(entries(old(v)@), key@, value@),
{
    let ghost e = entries(v@);
    let mut i: usize = 0;
    while i < v.len() && !same(v[i].0.as_str(), key) && !before(key, v[i].0.as_str())
        invariant
            i <= v.len(),
            e == entries(v@),
            forall|j: int| 0 <= j < i ==> (#[trigger] e[j]).0 != key@ && !lt(key@, e[j].0),
        decreases v.len() - i,
    {
        assert(e[i as int].0 == v@[i as int].0@);
        i = i + 1;
    }
    proof {
        if i < v.len() {
            assert(e[i as int].0 == v@[i as int].0@);
            lemma_lt_irreflexive(key@);
        }
        lemma_with_key_at(e, key@, value@, i as int);
    }
    let entry = (key.to_owned(), value);
    if i < v.len() && same(v[i].0.as_str(), key) {
        v.set(i, entry);
        assert(entries(v@) =~= e.update(i as int, (key@, value@)));
    } else {
        v.insert(i, entry);
        assert(entries(v@) =~= e.insert(i as int, (key@, value@)));
    }
}

/// Remove what stands under a key.
pub fn drop_entry(v: &mut Vec<(String, Json)>, key: &str)
    ensures
        entries(final(v)@) == without_entry(entries(old(v)@), key@),
{
    let ghost all = entries(v@);
    let ghost mut kept: Seq<(Seq<char>, JsonView)> = Seq::empty();
    let mut i: usize = 0;
    assert(entries(v@).skip(0) =~= all);
    assert(kept + without_entry(all, key@) =~= without_entry(all, key@));
    while i < v.len()
        invariant
            i <= v.len(),
            kept.len() == i,
            entries(v@).take(i as int) =~= kept,
            without_entry(all, key@) == kept + without_entry(entries(v@).skip(i as int), key@),
        decreases v.len() - i,
    {
        let ghost now = entries(v@);
        let ghost tail = now.skip(i as int);
        assert(tail[0] == (v@[i as int].0@, v@[i as int].1@));
        assert(tail.drop_first() =~= now.skip(i + 1));
        if same(v[i].0.as_str(), key) {
            let _ = v.remove(i);
            assert(entries(v@) =~= now.remove(i as int));
            assert(entries(v@).skip(i as int) =~= now.skip(i + 1));
        } else {
            proof {
                let more = without_entry(now.skip(i + 1), key@);
                assert(kept + (seq![tail[0]] + more) =~= kept.push(tail[0]) + more);
                kept = kept.push(tail[0]);
            }
            i = i + 1;
        }
    }
    assert(entries(v@).skip(i as int) =~= Seq::<(Seq<char>, JsonView)>::empty());
    assert(entries(v@) =~= kept);
    assert(without_entry(all, key@) =~= kept);
}

// ---------------------------------------------------------------- reading

#[verifier::external_type_specification]
#[verifier::external_body]
pub struct ExValue(serde_json::Value);

/// What `serde_json::from_str` makes of a text: the value it holds, or the message of the
/// error.
pub uninterp spec fn json_of(text: Seq<char>) -> Result<JsonView, Seq<char>>;

/// A `serde_json::Value` as plain data, variant for variant.
#[verifier::external_body]
fn plain(value: serde_json::Value) -> Json {
    match value {
        serde_json::Value::Null => Json::Null,
        serde_json::Value::Bool(b) => Json::Bool(b),
        serde_json::Value::Number(n) => match (n.as_u64(), n.as_i64()) {
            (Some(u), _) => Json::Unsigned(u),
            (_, Some(i)) => Json::Negative(i),
            _ => Json::Real(n.to_string()),
        },
        serde_json::Value::String(s) => Json::Text(s),
        serde_json::Value::Array(a) => Json::List(a.into_iter().map(plain).collect()),
        serde_json::Value::Object(o) => Json::Object(o.into_iter().map(|(k, v)| (k, plain(v))).collect()),
    }
}

/// `serde_json::from_str`, read into plain data: the value of the text, which depends on
/// the text alone, or the message that the error displays.
#[verifier::external_body]
pub(crate) fn parse_json(text: &str) -> (r: Result<Json, String>)
    ensures
        json_of(text@) == (match r {
            Ok(j) => Ok(j@),
            Err(e) => Err(e@),
        }),
{
    match serde_json::from_str::<serde_json::Value>(text) {
        Ok(value) => Ok(plain(value)),
        Err(e) => Err(e.to_string()),
    }
}

/// What `serde_json::from_slice` makes of the bytes of a JSON text: the value they hold, or
/// the message of the error.
pub uninterp spec fn json_of_bytes(bytes: Seq<u8>) -> Result<JsonView, Seq<char>>;

/// `serde_json::from_slice`, read into plain data: the value of the bytes, which depends on
/// the bytes alone, or the message that the error displays.
#[verifier::external_body]
pub(crate) fn parse_json_bytes(bytes: &Vec<u8>) -> (r: Result<Json, String>)
    ensures
        json_of_bytes(bytes@) == (match r {
            Ok(j) => Ok(j@),
            Err(e) => Err(e@),
        }),
{
    match serde_json::from_slice::<serde_json::Value>(bytes) {
        Ok(value) => Ok(plain(value)),
        Err(e) => Err(e.to_string()),
    }
}

// ---------------------------------------------------------------- writing

/// What `serde_json::to_string_pretty` writes for a value.
pub uninterp spec fn pretty_of(value: JsonView) -> Seq<char>;

/// Plain data as a `serde_json::Value`, variant for variant.
#[verifier::external_body]
fn outside(value: &Json) -> serde_json::Value {
    match value {
        Json::Null => serde_json::Value::Null,
        Json::Bool(b) => serde_json::Value::from(*b),
        Json::Unsigned(n) => serde_json::Value::from(*n),
        Json::Negative(n) => serde_json::Value::from(*n),
        Json::Real(s) => serde_json::from_str(s).unwrap_or_default(),
        Json::Text(s) => serde_json::Value::from(s.as_str()),
        Json::List(v) => serde_json::Value::Array(v.iter().map(outside).collect()),
        Json::Object(v) => serde_json::Value::Object(v.iter().map(|(k, v)| (k.clone(), outside(v))).collect()),
    }
}

/// `serde_json::to_string_pretty`: the value as indented text, which depends on the value
/// alone. How it is laid out is not stated.
#[verifier::external_body]
pub(crate) fn pretty(value: &Json) -> (r: String)
    ensures
        r@ == pretty_of(value@),
{
    serde_json::to_string_pretty(&outside(value)).unwrap_or_default()
}

} // verus!
