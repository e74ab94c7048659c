//! The table from order ids to places in a book.
use crate::protocol::enums::Side;
use crate::wire;
use ahash::AHashMap;
use bytes::Bytes;
use vstd::prelude::*;

verus! {

/// Where each order id of the table points.
pub uninterp spec fn places(m: AHashMap<Bytes, (Side, usize)>) -> Map<Seq<u8>, (Side, nat)>;

/// No id points anywhere.
pub open spec fn no_places() -> Map<Seq<u8>, (Side, nat)> {
    Map::empty()
}

/// `AHashMap::new`: an empty table.
#[verifier::external_body]
pub(crate) fn new_index() -> (m: AHashMap<Bytes, (Side, usize)>)
    ensures
        places(m) == no_places(),
{
    AHashMap::new()
}

/// `AHashMap::get`, with the value copied out. Handles are equal, and hash
/// alike, when their bytes are.
#[verifier::external_body]
pub(crate) fn look_up(m: &AHashMap<Bytes, (Side, usize)>, id: &[u8]) -> (r: Option<(Side, usize)>)
    ensures
        match r {
            Some((side, i)) => places(*m).contains_key(id@) && places(*m)[id@] == (side, i as nat),
            None => !places(*m).contains_key(id@),
        },
{
    m.get(id).copied()
}

/// `AHashMap::insert`: the id points to `place` now, whatever it did before.
#[verifier::external_body]
pub(crate) fn set_place(m: &mut AHashMap<Bytes, (Side, usize)>, id: Bytes, place: (Side, usize))
    ensures
        places(*final(m)) == places(*old(m)).insert(
            wire::content(id),
            (place.0, place.1 as nat),
        ),
{
    m.insert(id, place);
}

/// `AHashMap::remove`: the id is gone.
#[verifier::external_body]
pub(crate) fn forget(m: &mut AHashMap<Bytes, (Side, usize)>, id: &[u8])
    ensures
        places(*final(m)) == places(*old(m)).remove(id@),
{
    m.remove(id);
}

/// `AHashMap::clear`: the table is empty.
#[verifier::external_body]
pub(crate) fn forget_all(m: &mut AHashMap<Bytes, (Side, usize)>)
    ensures
        places(*final(m)) == no_places(),
{
    m.clear();
}

/// `AHashMap::len`: how many ids the table holds.
#[verifier::external_body]
pub(crate) fn count(m: &AHashMap<Bytes, (Side, usize)>) -> (r: usize)
    ensures
        r == places(*m).len(),
{
    m.len()
}

/// `AHashMap::keys`, collected: every id of the table once, in no set order.
#[verifier::external_body]
pub(crate) fn ids(m: &AHashMap<Bytes, (Side, usize)>) -> (r: Vec<Bytes>)
    ensures
        forall|i: int|
            0 <= i < r@.len() ==> places(*m).contains_key(wire::content(#[trigger] r@[i])),
        forall|k: Seq<u8>| #[trigger]
            places(*m).contains_key(k) ==> exists|i: int|
                0 <= i < r@.len() && wire::content(#[trigger] r@[i]) == k,
        forall|i: int, j: int|
            0 <= i < j < r@.len() ==> wire::content(#[trigger] r@[i]) != wire::content(
                #[trigger] r@[j],
            ),
{
    m.keys().cloned().collect()
}

} // verus!
