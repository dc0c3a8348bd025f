//! A plain-value image of a JSON document, and the conversion of text into it.
//!
//! Numbers keep what the decoder reads of them: the value as an unsigned
//! integer when it is one, and the value as an IEEE-754 double, held as its
//! bit pattern.
use vstd::prelude::*;

verus! {

/// An IEEE-754 double, held as its 64-bit pattern.
#[derive(Clone, Copy, Debug, PartialEq, Eq, Structural)]
pub struct Real {
    pub bits: u64,
}

/// Position of a double on the number line, for every value that is not NaN:
/// a positive pattern grows with its value, a negative one (sign bit set)
/// shrinks with its magnitude, and the two zeros share rank 0.
pub open spec fn real_rank(r: Real) -> int {
    if r.bits >= 0x8000_0000_0000_0000 {
        -((r.bits - 0x8000_0000_0000_0000) as int)
    } else {
        r.bits as int
    }
}

/// What a JSON number is taken to be: `uint` when it is an unsigned integer
/// that fits in 64 bits, `real` when its double is known.
#[derive(Clone, Copy, Debug, PartialEq, Eq, Structural)]
pub struct Num {
    pub uint: Option<u64>,
    pub real: Option<Real>,
}

#[derive(Debug)]
pub enum Json {
    Null,
    Bool(bool),
    Number(Num),
    Str(String),
    Array(Vec<Json>),
    Object(Vec<(String, Json)>),
}

/// The value stored under `key` among `entries`; the first entry wins.
pub open spec fn entry_get(entries: Seq<(String, Json)>, key: Seq<char>) -> Option<Json>
    decreases entries.len(),
{
    if entries.len() == 0 {
        None
    } else if entries[0].0@ == key {
        Some(entries[0].1)
    } else {
        entry_get(entries.drop_first(), key)
    }
}

/// The member `key` of `j`, when `j` is an object that has one.
pub open spec fn member(j: Json, key: Seq<char>) -> Option<Json> {
    match j {
        Json::Object(entries) => entry_get(entries@, key),
        _ => None,
    }
}

proof fn lemma_entry_get_step(entries: Seq<(String, Json)>, key: Seq<char>, i: int)
    requires
        0 <= i < entries.len(),
        forall|k: int| 0 <= k < i ==> entries[k].0@ != key,
    ensures
        entry_get(entries, key) == entry_get(entries.subrange(i, entries.len() as int), key),
    decreases i,
{
    if i > 0 {
        let rest = entries.drop_first();
        assert(entries[0].0@ != key);
        assert forall|k: int| 0 <= k < i - 1 implies rest[k].0@ != key by {
            assert(rest[k] == entries[k + 1]);
        }
        lemma_entry_get_step(rest, key, i - 1);
        assert(rest.subrange(i - 1, rest.len() as int) =~= entries.subrange(i, entries.len() as int));
    } else {
        assert(entries.subrange(0, entries.len() as int) =~= entries);
    }
}

proof fn lemma_entry_get_absent(entries: Seq<(String, Json)>, key: Seq<char>)
    requires
        forall|k: int| 0 <= k < entries.len() ==> entries[k].0@ != key,
    ensures
        entry_get(entries, key) == None::<Json>,
    decreases entries.len(),
{
    if entries.len() > 0 {
        lemma_entry_get_absent(entries.drop_first(), key);
    }
}

/// Looks `key` up among the members of `j`.
pub fn get_member<'a>(j: &'a Json, key: &str) -> (r: Option<&'a Json>)
    ensures
        match r {
            Some(v) => member(*j, key@) == Some(*v),
            None => member(*j, key@) == None::<Json>,
        },
{
    match j {
        Json::Object(entries) => {
            let wanted = String::from_str(key);
            let mut i: usize = 0;
            while i < entries.len()
                invariant
                    0 <= i <= entries.len(),
                    wanted@ == key@,
                    member(*j, key@) == entry_get(entries@, key@),
                    forall|k: int| 0 <= k < i ==> entries@[k].0@ != key@,
                decreases entries.len() - i,
            {
                if entries[i].0 == wanted {
                    proof {
                        lemma_entry_get_step(entries@, key@, i as int);
                        let sub = entries@.subrange(i as int, entries@.len() as int);
                        assert(sub[0] == entries@[i as int]);
                    }
                    return Some(&entries[i].1);
                }
                i = i + 1;
            }
            proof {
                lemma_entry_get_absent(entries@, key@);
            }
            None
        },
        _ => None,
    }
}

/// The document that serde_json reads from a text, in the library's image;
/// `None` when serde_json refuses the text.
pub uninterp spec fn json_of_text(text: Seq<char>) -> Option<Json>;

#[verifier::external_type_specification]
#[verifier::external_body]
pub struct ExValue(serde_json::Value);

/// Relies on serde_json::from_str into a Value, which depends on the text
/// alone; the value read is carried over, one for one, into the library's
/// image by `json_of_value`.
#[verifier::external_body]
fn parse_value(text: &str) -> (r: Option<Json>)
    ensures
        r == json_of_text(text@),
{
    serde_json::from_str::<serde_json::Value>(text).ok().and_then(|v| json_of_value(&v, MAX_DEPTH))
}

/// Relies on serde_json::Value::is_null.
#[verifier::external_body]
fn value_is_null(v: &serde_json::Value) -> bool {
    v.is_null()
}

/// Relies on serde_json::Value::as_bool.
#[verifier::external_body]
fn value_bool(v: &serde_json::Value) -> Option<bool> {
    v.as_bool()
}

/// Relies on serde_json::Value::as_str, copied into an owned string.
#[verifier::external_body]
fn value_str(v: &serde_json::Value) -> Option<String> {
    v.as_str().map(|s| s.to_string())
}

/// Relies on serde_json::Value::as_u64.
#[verifier::external_body]
fn value_uint(v: &serde_json::Value) -> Option<u64> {
    v.as_u64()
}

/// Relies on serde_json::Value::as_f64: the double of a number, handed on as
/// its bit pattern.
#[verifier::external_body]
fn value_real_bits(v: &serde_json::Value) -> Option<u64> {
    v.as_f64().map(|x| x.to_bits())
}

/// Relies on serde_json::Value::as_array, copied.
#[verifier::external_body]
fn value_items(v: &serde_json::Value) -> Option<Vec<serde_json::Value>> {
    v.as_array().cloned()
}

/// Relies on serde_json::Value::as_object, copied into a list of members.
#[verifier::external_body]
fn value_members(v: &serde_json::Value) -> Option<Vec<(String, serde_json::Value)>> {
    v.as_object().map(|m| m.iter().map(|(k, x)| (k.clone(), x.clone())).collect())
}

/// Deepest nesting that the conversion follows; serde_json's parser itself
/// refuses documents nested this deep, so every document it reads is carried
/// over whole.
pub const MAX_DEPTH: u32 = 128;

fn json_of_value(v: &serde_json::Value, depth: u32) -> (r: Option<Json>)
    decreases depth,
{
    if value_is_null(v) {
        return Some(Json::Null);
    }
    if let Some(b) = value_bool(v) {
        return Some(Json::Bool(b));
    }
    if let Some(s) = value_str(v) {
        return Some(Json::Str(s));
    }
    if let Some(bits) = value_real_bits(v) {
        return Some(Json::Number(Num { uint: value_uint(v), real: Some(Real { bits }) }));
    }
    if depth == 0 {
        return None;
    }
    if let Some(items) = value_items(v) {
        let mut out: Vec<Json> = Vec::new();
        let mut i: usize = 0;
        while i < items.len()
            invariant
                0 <= i <= items.len(),
                depth > 0,
            decreases items.len() - i,
        {
            match json_of_value(&items[i], depth - 1) {
                Some(j) => out.push(j),
                None => return None,
            }
            i = i + 1;
        }
        return Some(Json::Array(out));
    }
    if let Some(members) = value_members(v) {
        let mut out: Vec<(String, Json)> = Vec::new();
        let mut i: usize = 0;
        while i < members.len()
            invariant
                0 <= i <= members.len(),
                depth > 0,
            decreases members.len() - i,
        {
            match json_of_value(&members[i].1, depth - 1) {
                Some(j) => out.push((members[i].0.clone(), j)),
                None => return None,
            }
            i = i + 1;
        }
        return Some(Json::Object(out));
    }
    None
}

/// Reads one JSON document; `None` when serde_json refuses the text.
pub fn parse_json(text: &str) -> (r: Option<Json>)
    ensures
        r == json_of_text(text@),
{
    parse_value(text)
}

} // verus!

verus! {

/// Looking up a key after a member was appended.
pub proof fn lemma_entry_get_push(es: Seq<(String, Json)>, e: (String, Json), key: Seq<char>)
    ensures
        entry_get(es.push(e), key) == (if entry_get(es, key) is Some {
            entry_get(es, key)
        } else if e.0@ == key {
            Some(e.1)
        } else {
            None
        }),
    decreases es.len(),
{
    if es.len() > 0 {
        assert(es.push(e).drop_first() =~= es.drop_first().push(e));
        lemma_entry_get_push(es.drop_first(), e, key);
    } else {
        assert(es.push(e).drop_first() =~= es);
    }
}

} // verus!
