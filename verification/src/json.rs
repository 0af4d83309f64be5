//! The JSON values that travel between the HTTP side and the extension.
//!
//! Arrays and objects sit behind an `Arc`, so a value is copied in constant
//! time and a copy is the very same value; objects keep their entries in order.
use serde_json::Value;
use std::sync::Arc;
use vstd::prelude::*;

use crate::text::same_text;

verus! {

/// A JSON number, held as serde_json holds one: a non-negative integer, a
/// negative integer, or a floating-point number, which is kept here by the
/// decimal text that serde_json writes for it.
#[derive(Debug, Clone, PartialEq)]
pub enum JsonNumber {
    PosInt(u64),
    NegInt(i64),
    Float(String),
}

/// A JSON value.
#[derive(Debug, Clone, PartialEq)]
pub enum Json {
    Null,
    Bool(bool),
    Number(JsonNumber),
    String(String),
    Array(Arc<Vec<Json>>),
    Object(Arc<Vec<(String, Json)>>),
}

/// The position of the first entry named `key`.
pub open spec fn find_key(pairs: Seq<(Seq<char>, Json)>, key: Seq<char>) -> Option<int>
    decreases pairs.len(),
{
    if pairs.len() == 0 {
        None
    } else if pairs[0].0 == key {
        Some(0)
    } else {
        match find_key(pairs.drop_first(), key) {
            Some(i) => Some(i + 1),
            None => None,
        }
    }
}

/// The value of the first entry named `key`.
pub open spec fn lookup(pairs: Seq<(Seq<char>, Json)>, key: Seq<char>) -> Option<Json> {
    match find_key(pairs, key) {
        Some(i) => Some(pairs[i].1),
        None => None,
    }
}

pub proof fn lemma_find_key_at(pairs: Seq<(Seq<char>, Json)>, key: Seq<char>, i: int)
    requires
        0 <= i < pairs.len(),
        pairs[i].0 == key,
        forall|j: int| 0 <= j < i ==> pairs[j].0 != key,
    ensures
        find_key(pairs, key) == Some(i),
    decreases i,
{
    if i > 0 {
        lemma_find_key_at(pairs.drop_first(), key, i - 1);
    }
}

pub proof fn lemma_find_key_none(pairs: Seq<(Seq<char>, Json)>, key: Seq<char>)
    requires
        forall|j: int| 0 <= j < pairs.len() ==> pairs[j].0 != key,
    ensures
        find_key(pairs, key) is None,
    decreases pairs.len(),
{
    if pairs.len() > 0 {
        lemma_find_key_none(pairs.drop_first(), key);
    }
}

/// The entries of an object, each name taken by its characters.
pub open spec fn pairs_of(fields: Seq<(String, Json)>) -> Seq<(Seq<char>, Json)> {
    fields.map_values(|p: (String, Json)| (p.0@, p.1))
}

impl Json {
    /// The entries of an object, in order.
    pub open spec fn pairs(self) -> Option<Seq<(Seq<char>, Json)>> {
        match self {
            Json::Object(fields) => Some(pairs_of(fields@)),
            _ => None,
        }
    }

    /// What `get(key)` gives: the value of the first entry named `key` of an object.
    pub open spec fn field(self, key: Seq<char>) -> Option<Json> {
        match self.pairs() {
            Some(p) => lookup(p, key),
            None => None,
        }
    }

    /// What `as_str` gives.
    pub open spec fn text(self) -> Option<Seq<char>> {
        match self {
            Json::String(s) => Some(s@),
            _ => None,
        }
    }

    /// What `as_bool` gives.
    pub open spec fn flag(self) -> Option<bool> {
        match self {
            Json::Bool(b) => Some(b),
            _ => None,
        }
    }

    /// What `as_u64` gives: only a non-negative integer has one.
    pub open spec fn unsigned(self) -> Option<u64> {
        match self {
            Json::Number(JsonNumber::PosInt(n)) => Some(n),
            _ => None,
        }
    }

    /// What `as_array` gives.
    pub open spec fn elements(self) -> Option<Seq<Json>> {
        match self {
            Json::Array(items) => Some(items@),
            _ => None,
        }
    }

    /// `self.field(key)`, read as a string.
    pub open spec fn text_field(self, key: Seq<char>) -> Option<Seq<char>> {
        match self.field(key) {
            Some(v) => v.text(),
            None => None,
        }
    }

    /// `self.field(key)`, read as an unsigned integer.
    pub open spec fn unsigned_field(self, key: Seq<char>) -> Option<u64> {
        match self.field(key) {
            Some(v) => v.unsigned(),
            None => None,
        }
    }

    /// A copy of the value; arrays and objects are shared, not copied.
    pub fn duplicate(&self) -> (r: Json)
        ensures
            r == *self,
    {
        match self {
            Json::Null => Json::Null,
            Json::Bool(b) => Json::Bool(*b),
            Json::Number(n) => Json::Number(
                match n {
                    JsonNumber::PosInt(u) => JsonNumber::PosInt(*u),
                    JsonNumber::NegInt(i) => JsonNumber::NegInt(*i),
                    JsonNumber::Float(s) => JsonNumber::Float(s.clone()),
                },
            ),
            Json::String(s) => Json::String(s.clone()),
            Json::Array(items) => Json::Array(items.clone()),
            Json::Object(fields) => Json::Object(fields.clone()),
        }
    }

    /// The string `s`.
    pub fn string(s: &str) -> (r: Json)
        ensures
            r.text() == Some(s@),
    {
        Json::String(s.to_owned())
    }

    /// The array of `items`.
    pub fn array(items: Vec<Json>) -> (r: Json)
        ensures
            r.elements() == Some(items@),
    {
        Json::Array(Arc::new(items))
    }

    /// The object with the entries `fields`, in that order.
    pub fn object_of(fields: Vec<(String, Json)>) -> (r: Json)
        ensures
            r.pairs() == Some(pairs_of(fields@)),
    {
        Json::Object(Arc::new(fields))
    }

    /// The object without entries.
    pub fn empty_object() -> (r: Json)
        ensures
            r.pairs() == Some(Seq::<(Seq<char>, Json)>::empty()),
    {
        let fields: Vec<(String, Json)> = Vec::new();
        let r = Json::Object(Arc::new(fields));
        assert(pairs_of(fields@) =~= Seq::<(Seq<char>, Json)>::empty());
        r
    }

    fn find_index(fields: &Vec<(String, Json)>, key: &str) -> (r: Option<usize>)
        ensures
            match r {
                Some(i) => i < fields@.len() && find_key(pairs_of(fields@), key@) == Some(
                    i as int,
                ),
                None => find_key(pairs_of(fields@), key@) is None,
            },
    {
        let ghost p = pairs_of(fields@);
        let mut i: usize = 0;
        while i < fields.len()
            invariant
                p == pairs_of(fields@),
                i <= fields@.len(),
                forall|j: int| 0 <= j < i ==> p[j].0 != key@,
            decreases fields@.len() - i,
        {
            if same_text(fields[i].0.as_str(), key) {
                proof {
                    lemma_find_key_at(p, key@, i as int);
                }
                return Some(i);
            }
            i = i + 1;
        }
        proof {
            lemma_find_key_none(p, key@);
        }
        None
    }

    /// The value of the first entry named `key`, when `self` is an object
    /// that has one; as `serde_json::Value::get` with a string key.
    pub fn get(&self, key: &str) -> (r: Option<&Json>)
        ensures
            match r {
                Some(v) => self.field(key@) == Some(*v),
                None => self.field(key@) is None,
            },
    {
        match self {
            Json::Object(fields) => {
                let fields: &Vec<(String, Json)> = &**fields;
                match Json::find_index(fields, key) {
                    Some(i) => Some(&fields[i].1),
                    None => None,
                }
            },
            _ => None,
        }
    }

    /// The text of a string value.
    pub fn as_str(&self) -> (r: Option<&str>)
        ensures
            match r {
                Some(s) => self.text() == Some(s@),
                None => self.text() is None,
            },
    {
        match self {
            Json::String(s) => Some(s.as_str()),
            _ => None,
        }
    }

    /// The truth value of a boolean value.
    pub fn as_bool(&self) -> (r: Option<bool>)
        ensures
            r == self.flag(),
    {
        match self {
            Json::Bool(b) => Some(*b),
            _ => None,
        }
    }

    /// The number of a non-negative integer value.
    pub fn as_u64(&self) -> (r: Option<u64>)
        ensures
            r == self.unsigned(),
    {
        match self {
            Json::Number(JsonNumber::PosInt(n)) => Some(*n),
            _ => None,
        }
    }

    /// The elements of an array value.
    pub fn as_array(&self) -> (r: Option<&Vec<Json>>)
        ensures
            match r {
                Some(v) => self.elements() == Some(v@),
                None => self.elements() is None,
            },
    {
        match self {
            Json::Array(items) => Some(&**items),
            _ => None,
        }
    }
}

/// A copy of the elements of an array.
pub fn clone_items(items: &Vec<Json>) -> (r: Vec<Json>)
    ensures
        r@ == items@,
{
    let mut r: Vec<Json> = Vec::new();
    let mut i: usize = 0;
    while i < items.len()
        invariant
            i <= items@.len(),
            r@ == items@.take(i as int),
        decreases items@.len() - i,
    {
        r.push(items[i].duplicate());
        assert(items@.take(i + 1) =~= items@.take(i as int).push(items@[i as int]));
        i = i + 1;
    }
    assert(items@.take(items@.len() as int) =~= items@);
    r
}


#[verifier::external_type_specification]
#[verifier::external_body]
pub struct ExSerdeValue(serde_json::Value);

/// The value that serde_json reads from the text `raw`, when `raw` is one
/// JSON value (with white space around it at most).
pub uninterp spec fn json_of_text(raw: Seq<char>) -> Option<Json>;

/// What serde_json says of the text `raw` when it is not one JSON value: the
/// message of its error, with line and column.
pub uninterp spec fn json_error_of_text(raw: Seq<char>) -> Seq<char>;

/// Calls `serde_json::from_str::<serde_json::Value>` on `raw` and takes the
/// result over into `Json`: the value that serde_json reads, or its error's
/// message. Which texts serde_json accepts, and what it reads from them, is
/// named and not stated.
#[verifier::external_body]
pub(crate) fn parse_json_text(raw: &str) -> (r: Result<Json, String>)
    ensures
        match r {
            Ok(j) => json_of_text(raw@) == Some(j),
            Err(e) => json_of_text(raw@) is None && e@ == json_error_of_text(raw@),
        },
{
    match serde_json::from_str::<serde_json::Value>(raw) {
        Ok(value) => Ok(json_from_value(value)),
        Err(error) => Err(error.to_string()),
    }
}

/// Takes a serde_json value over into `Json`, variant by variant; a number
/// keeps the integer that serde_json holds, or else its decimal text. It is
/// called from the body of `parse_json_text` alone.
#[verifier::external_body]
fn json_from_value(value: Value) -> Json {
    match value {
        Value::Null => Json::Null,
        Value::Bool(b) => Json::Bool(b),
        Value::Number(n) => Json::Number(match (n.as_u64(), n.as_i64()) {
            (Some(u), _) => JsonNumber::PosInt(u),
            (None, Some(i)) => JsonNumber::NegInt(i),
            (None, None) => JsonNumber::Float(n.to_string()),
        }),
        Value::String(s) => Json::String(s),
        Value::Array(items) => Json::Array(Arc::new(items.into_iter().map(json_from_value).collect())),
        Value::Object(map) => Json::Object(Arc::new(map.into_iter().map(|(k, v)| (k, json_from_value(v))).collect())),
    }
}

} // verus!
