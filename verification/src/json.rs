//! JSON documents as the response parser reads them, and the calls into
//! `serde_json` that produce them.

use vstd::prelude::*;
use crate::text::str_eq;

verus! {

/// `serde_json::Error`, carried as an opaque value.
#[verifier::external_type_specification]
#[verifier::external_body]
pub struct ExSerdeJsonError(serde_json::Error);

/// `serde_json::Value`, which only the copy into `JsonValue` takes apart.
#[verifier::external_type_specification]
#[verifier::external_body]
pub struct ExSerdeJsonValue(serde_json::Value);

/// A parsed JSON value.
///
/// Objects keep their members in the order `serde_json` hands them out
/// (sorted by key, each key once); numbers keep what the parser reads of
/// them: the `u64` they denote when they are non-negative integers that fit
/// in a `u64`, and `None` for every other number.
pub enum JsonValue {
    Null,
    Bool(bool),
    Number(Option<u64>),
    String(String),
    Array(Vec<JsonValue>),
    Object(Vec<(String, JsonValue)>),
}

/// The value of the first member of `members` whose key is `key`.
pub open spec fn lookup<V>(members: Seq<(String, V)>, key: Seq<char>) -> Option<V>
    decreases members.len(),
{
    if members.len() == 0 {
        None
    } else if members[0].0@ == key {
        Some(members[0].1)
    } else {
        lookup(members.drop_first(), key)
    }
}

/// The position of the first member of `members` whose key is `key`.
pub fn find_key<V>(members: &Vec<(String, V)>, key: &str) -> (r: Option<usize>)
    ensures
        match r {
            Some(i) => {
                &&& i < members@.len()
                &&& members@[i as int].0@ == key@
                &&& forall|j: int| 0 <= j < i ==> members@[j].0@ != key@
                &&& lookup(members@, key@) == Some(members@[i as int].1)
            },
            None => {
                &&& lookup(members@, key@) is None
                &&& forall|j: int| 0 <= j < members@.len() ==> members@[j].0@ != key@
            },
        },
{
    let mut i: usize = 0;
    assert(members@.skip(0) =~= members@);
    while i < members.len()
        invariant
            i <= members@.len(),
            lookup(members@, key@) == lookup(members@.skip(i as int), key@),
            forall|j: int| 0 <= j < i ==> members@[j].0@ != key@,
        decreases members.len() - i,
    {
        if str_eq(members[i].0.as_str(), key) {
            return Some(i);
        }
        assert(members@.skip(i as int).drop_first() =~= members@.skip(i + 1));
        i = i + 1;
    }
    None
}

/// Looking a key up after appending a member finds what it found before,
/// or else the appended member.
pub proof fn lemma_lookup_push<V>(members: Seq<(String, V)>, m: (String, V), key: Seq<char>)
    ensures
        lookup(members.push(m), key) == if lookup(members, key) is Some {
            lookup(members, key)
        } else if m.0@ == key {
            Some(m.1)
        } else {
            None
        },
    decreases members.len(),
{
    if members.len() == 0 {
        assert(members.push(m).drop_first() =~= Seq::<(String, V)>::empty());
        assert(lookup(members.push(m).drop_first(), key) is None);
        assert(members.push(m)[0] == m);
    } else {
        assert(members.push(m)[0] == members[0]);
        assert(members.push(m).drop_first() =~= members.drop_first().push(m));
        lemma_lookup_push(members.drop_first(), m, key);
    }
}

/// Replacing the first member with some key by another member with that key
/// changes what a lookup of that key finds, and nothing else.
pub proof fn lemma_lookup_update<V>(members: Seq<(String, V)>, i: int, m: (String, V), key: Seq<char>)
    requires
        0 <= i < members.len(),
        members[i].0@ == m.0@,
        forall|j: int| 0 <= j < i ==> members[j].0@ != m.0@,
    ensures
        lookup(members.update(i, m), key) == if key == m.0@ {
            Some(m.1)
        } else {
            lookup(members, key)
        },
    decreases i,
{
    if i == 0 {
        assert(members.update(i, m).drop_first() =~= members.drop_first());
    } else {
        assert(members.update(i, m).drop_first() =~= members.drop_first().update(i - 1, m));
        lemma_lookup_update(members.drop_first(), i - 1, m, key);
    }
}

impl JsonValue {
    /// The member `key` of an object; `None` for a missing member and for
    /// every value that is not an object (`serde_json::Value::get`).
    pub open spec fn member(self, key: Seq<char>) -> Option<JsonValue> {
        match self {
            JsonValue::Object(members) => lookup(members@, key),
            _ => None,
        }
    }

    /// The member `key` of an object.
    pub fn get(&self, key: &str) -> (r: Option<&JsonValue>)
        ensures
            match r {
                Some(v) => self.member(key@) == Some(*v),
                None => self.member(key@) is None,
            },
    {
        match self {
            JsonValue::Object(members) => match find_key(members, key) {
                Some(i) => Some(&members[i].1),
                None => None,
            },
            _ => None,
        }
    }

    /// Copies a `serde_json::Value` variant by variant, keeping of each
    /// number its `serde_json::Number::as_u64`. No contract: what the copy
    /// holds is stated through `serde_json_value` by `serde_json_parse`,
    /// the only caller.
    #[verifier::external_body]
    fn copied_from(value: serde_json::Value) -> JsonValue {
        match value {
            serde_json::Value::Null => JsonValue::Null,
            serde_json::Value::Bool(b) => JsonValue::Bool(b),
            serde_json::Value::Number(n) => JsonValue::Number(n.as_u64()),
            serde_json::Value::String(s) => JsonValue::String(s),
            serde_json::Value::Array(a) => JsonValue::Array(a.into_iter().map(JsonValue::copied_from).collect()),
            serde_json::Value::Object(m) => JsonValue::Object(m.into_iter().map(|(k, v)| (k, JsonValue::copied_from(v))).collect()),
        }
    }
}

/// The value that `serde_json` parses `text` into, or `None` where it
/// reports an error.
pub uninterp spec fn serde_json_value(text: Seq<char>) -> Option<JsonValue>;

/// The text that `serde_json::to_string_pretty` makes of the value that
/// `serde_json` parses `text` into, or `None` where parsing fails.
pub uninterp spec fn serde_json_pretty(text: Seq<char>) -> Option<Seq<char>>;

/// `serde_json::from_str::<serde_json::Value>`: parses `s` as one JSON
/// document and copies the value into a `JsonValue`. The contract claims that
/// the call fails exactly where the name `serde_json_value` is `None`, and that
/// the result is a function of `s` alone; what value a text denotes is left
/// to `serde_json`.
#[verifier::external_body]
pub(crate) fn serde_json_parse(s: &str) -> (r: Result<JsonValue, serde_json::Error>)
    ensures
        r is Ok <==> serde_json_value(s@) is Some,
        r matches Ok(v) ==> serde_json_value(s@) == Some(v),
{
    serde_json::from_str::<serde_json::Value>(s).map(JsonValue::copied_from)
}

/// `serde_json::to_string_pretty` on the `serde_json::Value` that `s` parses
/// into. The contract claims:
/// - the call fails exactly where parsing `s` fails (serialising a
///   `serde_json::Value` into memory does not fail: its object keys are
///   strings);
/// - the text is a function of `s` alone, and is not empty;
/// - parsing the text again gives the same `JsonValue`: strings are written
///   escaped and read back unchanged, objects are written in their (sorted)
///   order, integers are written in decimal, and floating-point numbers are
///   written with a `.` or an exponent, so they read back as numbers that
///   are not `u64`s, which is all a `JsonValue` keeps of them.
/// What the text looks like is left to `serde_json`.
#[verifier::external_body]
pub(crate) fn serde_json_reformat_pretty(s: &str) -> (r: Result<String, serde_json::Error>)
    ensures
        r is Ok <==> serde_json_value(s@) is Some,
        r matches Ok(p) ==> serde_json_pretty(s@) == Some(p@),
        r matches Ok(p) ==> p@.len() > 0 && serde_json_value(p@) == serde_json_value(s@),
{
    let value = serde_json::from_str::<serde_json::Value>(s)?;
    serde_json::to_string_pretty(&value)
}

/// The message of a `serde_json::Error` (its `Display`). Nothing is claimed
/// of the text. Public because the contract of `R34Error::to_string` names
/// it.
#[verifier::external_body]
pub fn serde_json_error_text(e: &serde_json::Error) -> String {
    e.to_string()
}

} // verus!
