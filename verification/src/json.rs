//! A plain-data JSON tree, read through serde_json.
//!
//! The Java status payload is JSON.  Parsing is done by serde_json; the
//! parsed tree is copied into [`JsonNode`], a type of this crate that the
//! verified decoder can examine.  Only the parse itself is trusted: what
//! the tree means for the poller is decided by verified code.

use vstd::prelude::*;
use vstd::string::*;

verus! {

/// A JSON value as plain data.
///
/// Numbers that fit an `i64` are `Num`; any other number (a fraction, or
/// one out of range) is `NumOther`, which the status decoder treats as an
/// unusable value.  Object fields keep the order serde_json reports, with
/// duplicate keys already collapsed by its map.
pub enum JsonNode {
    Null,
    Bool(bool),
    Num(i64),
    NumOther,
    Str(String),
    Arr(Vec<JsonNode>),
    Obj(Vec<(String, JsonNode)>),
}

/// The tree that parsing a given text yields, if any: the result of
/// serde_json's parse, copied into `JsonNode` shape.
pub uninterp spec fn json_node_of(s: Seq<char>) -> Option<JsonNode>;

/// serde_json's parsed value, declared so that the copy below may take
/// one; nothing of its insides is visible here.
#[verifier::external_type_specification]
#[verifier::external_body]
pub struct ExValue(serde_json::Value);

/// Copy a parsed serde_json tree into plain data, variant for variant.
/// Relies on serde_json::Value's public variants and on
/// serde_json::Number::as_i64; the copy adds nothing and drops nothing
/// but the distinction among non-`i64` numbers.
#[verifier::external_body]
fn node_of_value(v: &serde_json::Value) -> JsonNode {
    match v {
        serde_json::Value::Null => JsonNode::Null,
        serde_json::Value::Bool(b) => JsonNode::Bool(*b),
        serde_json::Value::Number(n) => match n.as_i64() {
            Some(i) => JsonNode::Num(i),
            None => JsonNode::NumOther,
        },
        serde_json::Value::String(s) => JsonNode::Str(s.clone()),
        serde_json::Value::Array(a) => JsonNode::Arr(a.iter().map(node_of_value).collect()),
        serde_json::Value::Object(o) => JsonNode::Obj(
            o.iter().map(|(k, val)| (k.clone(), node_of_value(val))).collect(),
        ),
    }
}

/// Relies on serde_json::from_str: deterministic in the input text alone;
/// returns `Ok` exactly on well-formed JSON, whose parse `node_of_value`
/// then copies.  `json_node_of` names that combined result.
#[verifier::external_body]
pub fn parse_json(s: &str) -> (r: Option<JsonNode>)
    ensures
        r == json_node_of(s@),
{
    match serde_json::from_str::<serde_json::Value>(s) {
        Ok(v) => Some(node_of_value(&v)),
        Err(_) => None,
    }
}

/// The value under `key` in an object's field list, if any: the first
/// binding with that key.
pub open spec fn lookup(fs: Seq<(String, JsonNode)>, key: Seq<char>) -> Option<JsonNode>
    decreases fs.len(),
{
    if fs.len() == 0 {
        None
    } else if fs[0].0@ == key {
        Some(fs[0].1)
    } else {
        lookup(fs.drop_first(), key)
    }
}

/// Look a key up in an object's field list.
pub fn obj_get<'a>(fs: &'a Vec<(String, JsonNode)>, key: &str) -> (r: Option<&'a JsonNode>)
    ensures
        match r {
            Some(n) => lookup(fs@, key@) == Some(*n),
            None => lookup(fs@, key@) is None,
        },
{
    let k = String::from_str(key);
    let mut i: usize = 0;
    while i < fs.len()
        invariant
            i <= fs@.len(),
            k@ == key@,
            forall|j: int| 0 <= j < i ==> fs@[j].0@ != key@,
        decreases fs@.len() - i,
    {
        if fs[i].0.eq(&k) {
            proof {
                lemma_lookup_hit(fs@, key@, i as int);
            }
            return Some(&fs[i].1);
        }
        i += 1;
    }
    proof {
        lemma_lookup_miss(fs@, key@);
    }
    None
}

proof fn lemma_lookup_hit(fs: Seq<(String, JsonNode)>, key: Seq<char>, i: int)
    requires
        0 <= i < fs.len(),
        fs[i].0@ == key,
        forall|j: int| 0 <= j < i ==> fs[j].0@ != key,
    ensures
        lookup(fs, key) == Some(fs[i].1),
    decreases i,
{
    if i > 0 {
        let t = fs.drop_first();
        assert(forall|j: int| 0 <= j < i - 1 ==> t[j].0@ != key);
        lemma_lookup_hit(t, key, i - 1);
    }
}

proof fn lemma_lookup_miss(fs: Seq<(String, JsonNode)>, key: Seq<char>)
    requires
        forall|j: int| 0 <= j < fs.len() ==> fs[j].0@ != key,
    ensures
        lookup(fs, key) is None,
    decreases fs.len(),
{
    if fs.len() > 0 {
        let t = fs.drop_first();
        assert(forall|j: int| 0 <= j < t.len() ==> t[j].0@ != key);
        lemma_lookup_miss(t, key);
    }
}

} // verus!
