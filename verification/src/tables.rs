//! Hash tables of outside crates, as types that verified code can hold.
//!
//! What a map holds has a name of its own beside each use of it. Sets of strings
//! and of tickers are used in many places, so what concerns them is here.
use crate::text;
use crate::wire;
use ahash::AHashSet;
use bytes::Bytes;
use vstd::prelude::*;

verus! {

/// The hash map of the `ahash` crate.
#[verifier::external_type_specification]
#[verifier::external_body]
#[verifier::reject_recursive_types(K)]
#[verifier::reject_recursive_types(V)]
#[verifier::reject_recursive_types(S)]
pub struct ExAHashMap<K, V, S>(ahash::AHashMap<K, V, S>);

/// The hash set of the `ahash` crate.
#[verifier::external_type_specification]
#[verifier::external_body]
#[verifier::reject_recursive_types(T)]
#[verifier::reject_recursive_types(S)]
pub struct ExAHashSet<T, S>(ahash::AHashSet<T, S>);

/// The concurrent hash map of the `dashmap` crate.
#[verifier::external_type_specification]
#[verifier::external_body]
#[verifier::reject_recursive_types(K)]
#[verifier::reject_recursive_types(V)]
#[verifier::reject_recursive_types(S)]
pub struct ExDashMap<K, V, S>(dashmap::DashMap<K, V, S>);

/// The hasher state of the `ahash` crate.
#[verifier::external_type_specification]
#[verifier::external_body]
pub struct ExRandomState(ahash::RandomState);

/// The strings in a set.
pub uninterp spec fn texts(s: AHashSet<String>) -> Set<Seq<char>>;

/// `AHashSet::new`: an empty set.
#[verifier::external_body]
pub(crate) fn new_texts() -> (s: AHashSet<String>)
    ensures
        texts(s) == Set::<Seq<char>>::empty(),
{
    AHashSet::new()
}

/// `AHashSet::insert`: the set has the string now.
#[verifier::external_body]
pub(crate) fn add_text(s: &mut AHashSet<String>, text: String)
    ensures
        texts(*final(s)) == texts(*old(s)).insert(text@),
{
    s.insert(text);
}

/// `AHashSet::contains`.
#[verifier::external_body]
pub(crate) fn has_text(s: &AHashSet<String>, text: &str) -> (r: bool)
    ensures
        r == texts(*s).contains(text@),
{
    s.contains(text)
}

/// `AHashSet::clone`: a set of the same strings.
#[verifier::external_body]
pub(crate) fn copy_texts(s: &AHashSet<String>) -> (r: AHashSet<String>)
    ensures
        texts(r) == texts(*s),
{
    s.clone()
}

/// `AHashSet::iter`, collected: every string once, in no set order.
#[verifier::external_body]
pub(crate) fn list_texts(s: &AHashSet<String>) -> (r: Vec<String>)
    ensures
        text::texts_of(r@).to_set() == texts(*s),
        text::texts_of(r@).no_duplicates(),
{
    s.iter().cloned().collect()
}

/// The tickers in a set.
pub uninterp spec fn members(s: AHashSet<Bytes>) -> Set<Seq<u8>>;

/// `AHashSet::new`: an empty set of tickers.
#[verifier::external_body]
pub(crate) fn new_names() -> (s: AHashSet<Bytes>)
    ensures
        members(s) == Set::<Seq<u8>>::empty(),
{
    AHashSet::new()
}

/// `AHashSet::insert`: the set has the ticker now.
#[verifier::external_body]
pub(crate) fn add_name(s: &mut AHashSet<Bytes>, name: Bytes)
    ensures
        members(*final(s)) == members(*old(s)).insert(wire::content(name)),
{
    s.insert(name);
}

/// `AHashSet::contains`, for a ticker.
#[verifier::external_body]
pub(crate) fn is_member(s: &AHashSet<Bytes>, ticker: &[u8]) -> (r: bool)
    ensures
        r == members(*s).contains(ticker@),
{
    s.contains(ticker)
}

} // verus!
