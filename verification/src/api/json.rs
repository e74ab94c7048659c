//! JSON, by the `serde_json` crate, and MessagePack, by `rmp_serde`.
use crate::text;
use serde_json::Value;
use vstd::prelude::*;

verus! {

/// A JSON value of the `serde_json` crate.
#[verifier::external_type_specification]
#[verifier::external_body]
pub struct ExValue(serde_json::Value);

/// A JSON object of the `serde_json` crate.
#[verifier::external_type_specification]
#[verifier::external_body]
#[verifier::reject_recursive_types(K)]
#[verifier::reject_recursive_types(V)]
pub struct ExObject<K, V>(serde_json::Map<K, V>);

/// The compact text of a value.
pub uninterp spec fn json(v: Value) -> Seq<u8>;

/// The compact text of each member of an object.
pub uninterp spec fn members(m: serde_json::Map<String, Value>) -> Map<Seq<char>, Seq<u8>>;

/// The compact text of what some bytes parse as; `None` when they do not.
pub uninterp spec fn reparsed(b: Seq<u8>) -> Option<Seq<u8>>;

/// The compact text of a string.
pub uninterp spec fn string_text(s: Seq<char>) -> Seq<u8>;

/// The compact text of an object with these members.
pub uninterp spec fn object_text(m: Map<Seq<char>, Seq<u8>>) -> Seq<u8>;

/// The MessagePack form of a map from text to bytes or nothing.
pub uninterp spec fn packed(m: Map<Seq<char>, Option<Seq<u8>>>) -> Seq<u8>;

/// No members.
pub open spec fn no_members() -> Map<Seq<char>, Seq<u8>> {
    Map::empty()
}

/// `serde_json::from_slice`.
#[verifier::external_body]
pub(crate) fn parse(b: &[u8]) -> (r: Option<Value>)
    ensures
        match r {
            Some(v) => reparsed(b@) == Some(json(v)),
            None => reparsed(b@) is None,
        },
{
    serde_json::from_slice(b).ok()
}

/// `Value::Null`.
#[verifier::external_body]
pub(crate) fn null() -> (r: Value)
    ensures
        json(r) == text::bytes_of("null"),
{
    Value::Null
}

/// `Value::String`.
#[verifier::external_body]
pub(crate) fn string(s: String) -> (r: Value)
    ensures
        json(r) == string_text(s@),
{
    Value::String(s)
}

/// `Value::Object`: an object is written the same as a value and by itself.
#[verifier::external_body]
pub(crate) fn object(m: serde_json::Map<String, Value>) -> (r: Value)
    ensures
        json(r) == object_text(members(m)),
{
    Value::Object(m)
}

/// `serde_json::Map::new`: an object without members.
#[verifier::external_body]
pub(crate) fn new_object() -> (m: serde_json::Map<String, Value>)
    ensures
        members(m) == no_members(),
{
    serde_json::Map::new()
}

/// `serde_json::Map::insert`: the member of a name, whatever it was before.
#[verifier::external_body]
pub(crate) fn set_member(m: &mut serde_json::Map<String, Value>, name: String, v: Value)
    ensures
        members(*final(m)) == members(*old(m)).insert(name@, json(v)),
{
    m.insert(name, v);
}

/// `serde_json::to_vec` of an object. It fails only on names that are not text
/// and on values that refuse to be written, and an object has neither.
#[verifier::external_body]
pub(crate) fn write_object(m: &serde_json::Map<String, Value>) -> (r: Option<Vec<u8>>)
    ensures
        r is Some,
        r->0@ == object_text(members(*m)),
{
    serde_json::to_vec(m).ok()
}

/// What an entry holds, as mathematics sees it.
pub open spec fn entry(e: (&str, Option<&[u8]>)) -> (Seq<char>, Option<Seq<u8>>) {
    (
        e.0@,
        match e.1 {
            Some(b) => Some(b@),
            None => None,
        },
    )
}

/// The map that entries make: later ones win.
pub open spec fn table(s: Seq<(Seq<char>, Option<Seq<u8>>)>) -> Map<Seq<char>, Option<Seq<u8>>>
    decreases s.len(),
{
    if s.len() == 0 {
        Map::empty()
    } else {
        table(s.drop_last()).insert(s.last().0, s.last().1)
    }
}

/// `rmp_serde::to_vec_named` of an ordered map of entries with different names.
/// `None` where memory for the result cannot be had, of which nothing more is
/// said.
#[verifier::external_body]
pub(crate) fn pack(entries: &Vec<(&str, Option<&[u8]>)>) -> (r: Option<Vec<u8>>)
    requires
        forall|i: int, j: int|
            0 <= i < j < entries@.len() ==> (#[trigger] entries@[i]).0@ != (#[trigger]
            entries@[j]).0@,
    ensures
        r is Some ==> r->0@ == packed(
            table(entries@.map_values(|e: (&str, Option<&[u8]>)| entry(e)))
        ),
{
    let map: std::collections::BTreeMap<&str, Option<&[u8]>> = entries.iter().copied().collect();
    rmp_serde::to_vec_named(&map).ok()
}

/// The map holds exactly the names that entries have.
pub proof fn lemma_table_names(s: Seq<(Seq<char>, Option<Seq<u8>>)>, k: Seq<char>)
    ensures
        table(s).contains_key(k) <==> exists|i: int| 0 <= i < s.len() && (#[trigger] s[i]).0 == k,
    decreases s.len(),
{
    if s.len() > 0 {
        let t = s.drop_last();
        lemma_table_names(t, k);
        if s.last().0 == k {
            assert(s[s.len() - 1].0 == k);
        } else {
            if exists|i: int| 0 <= i < s.len() && (#[trigger] s[i]).0 == k {
                let i = choose|i: int| 0 <= i < s.len() && (#[trigger] s[i]).0 == k;
                assert(t[i].0 == k);
            }
            if table(t).contains_key(k) {
                let i = choose|i: int| 0 <= i < t.len() && (#[trigger] t[i]).0 == k;
                assert(s[i].0 == k);
            }
        }
    }
}

/// What the map holds under a name is what the last entry of that name gives.
pub proof fn lemma_table_value(s: Seq<(Seq<char>, Option<Seq<u8>>)>, i: int)
    requires
        0 <= i < s.len(),
        forall|j: int| i < j < s.len() ==> (#[trigger] s[j]).0 != s[i].0,
    ensures
        table(s)[s[i].0] == s[i].1,
    decreases s.len(),
{
    if i < s.len() - 1 {
        let t = s.drop_last();
        assert(s[s.len() - 1].0 != s[i].0);
        assert forall|j: int| i < j < t.len() implies (#[trigger] t[j]).0 != t[i].0 by {
            assert(s[j].0 != s[i].0);
        }
        lemma_table_value(t, i);
    }
}

} // verus!
