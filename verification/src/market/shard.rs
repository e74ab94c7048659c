//! Which shard a ticker belongs to.
//!
//! The hash is `ahash` under fixed seeds: fast, the same in every run, and in no
//! need to withstand an adversary, as tickers come from the feed alone. Which
//! algorithm it is gets settled when the program is built, for the processor it
//! is built for, so no contract says what a hash is: only that the seeds and the
//! bytes fix it.
use ahash::RandomState;
use std::hash::{BuildHasher, Hasher};
use vstd::prelude::*;

verus! {

/// The hasher state that routing uses.
pub type FastHasher = RandomState;

/// The hasher state that `RandomState::with_seeds` makes of four seeds.
pub uninterp spec fn seeded(k0: u64, k1: u64, k2: u64, k3: u64) -> RandomState;

/// What a hasher of a state finishes with after these bytes were written to it.
pub uninterp spec fn hashed(state: RandomState, bytes: Seq<u8>) -> u64;

/// The hash of some bytes. Wraps `RandomState::build_hasher`, and `write` and
/// `finish` of the hasher that it makes: all hashers of one state are alike, and
/// the bytes alone decide what such a hasher finishes with.
#[verifier::external_body]
fn hash_bytes(builder: &FastHasher, bytes: &[u8]) -> (r: u64)
    ensures
        r == hashed(*builder, bytes@),
{
    let mut h = builder.build_hasher();
    h.write(bytes);
    h.finish()
}

/// `RandomState::with_seeds`: the seeds alone decide which hasher state it is.
pub assume_specification[ ahash::RandomState::with_seeds ](
    k0: u64,
    k1: u64,
    k2: u64,
    k3: u64,
) -> (r: RandomState)
    ensures
        r == seeded(k0, k1, k2, k3),
;

/// The hasher state that tickers are routed by.
pub open spec fn routing_state() -> FastHasher {
    seeded(0x243f_6a88_85a3_08d3, 0x1319_8a2e_0370_7344, 0xa409_3822_299f_31d0, 0x082e_fa98_ec4e_6c89)
}

/// The shard that a hasher state routes a ticker to.
pub open spec fn shard_under(state: FastHasher, ticker: Seq<u8>, n_shards: usize) -> usize {
    (hashed(state, ticker) as usize) % n_shards
}

/// The hasher state of [`shard_for`], to hash many tickers with.
#[must_use]
pub fn build_hasher() -> (r: FastHasher)
    ensures
        r == routing_state(),
{
    RandomState::with_seeds(
        0x243f_6a88_85a3_08d3,
        0x1319_8a2e_0370_7344,
        0xa409_3822_299f_31d0,
        0x082e_fa98_ec4e_6c89,
    )
}

/// The shard of a hash, of `n_shards`: what is left of it after division.
pub fn shard_of_hash(hash: u64, n_shards: usize) -> (r: usize)
    requires
        n_shards > 0,
    ensures
        r == (hash as usize) % n_shards,
        r < n_shards,
{
    #[verifier::truncate]
    let h: usize = hash as usize;
    h % n_shards
}

/// Routes a ticker to one of `n_shards` shards. A ticker always lands in the
/// same one.
pub fn shard_for(ticker: &[u8], n_shards: usize) -> (r: usize)
    requires
        n_shards > 0,
    ensures
        r == shard_under(routing_state(), ticker@, n_shards),
        r < n_shards,
{
    shard_with(&build_hasher(), ticker, n_shards)
}

/// As [`shard_for`], with a hasher state at hand.
#[must_use]
pub fn shard_with(builder: &FastHasher, ticker: &[u8], n_shards: usize) -> (r: usize)
    requires
        n_shards > 0,
    ensures
        r == shard_under(*builder, ticker@, n_shards),
        r < n_shards,
{
    shard_of_hash(hash_bytes(builder, ticker), n_shards)
}

/// The shard is the remainder of the hash under the four seeds, so that every
/// ticker has a shard and equal hashes share it.
pub proof fn law_shard_is_the_remainder(ticker: Seq<u8>, other: Seq<u8>, n_shards: usize)
    requires
        n_shards > 0,
    ensures
        shard_under(routing_state(), ticker, n_shards) < n_shards,
        (hashed(
            seeded(
                0x243f_6a88_85a3_08d3,
                0x1319_8a2e_0370_7344,
                0xa409_3822_299f_31d0,
                0x082e_fa98_ec4e_6c89,
            ),
            ticker,
        ) as usize - shard_under(routing_state(), ticker, n_shards)) % (n_shards as int) == 0,
        hashed(routing_state(), ticker) == hashed(routing_state(), other) ==> shard_under(
            routing_state(),
            ticker,
            n_shards,
        ) == shard_under(routing_state(), other, n_shards),
{
    let h = hashed(routing_state(), ticker) as usize as int;
    let n = n_shards as int;
    vstd::arithmetic::div_mod::lemma_fundamental_div_mod(h, n);
    vstd::arithmetic::div_mod::lemma_mod_multiples_basic(h / n, n);
    assert(h - h % n == (h / n) * n) by (nonlinear_arith)
        requires
            h == n * (h / n) + h % n,
    ;
}

/// A ticker is routed by its bytes alone, with the hasher state at hand as
/// without it.
pub proof fn law_routing_is_the_same_everywhere(
    ticker: &[u8],
    n_shards: usize,
    state: FastHasher,
    a: usize,
    b: usize,
)
    requires
        n_shards > 0,
        call_ensures(build_hasher, (), state),
        call_ensures(shard_for, (ticker, n_shards), a),
        call_ensures(shard_with, (&state, ticker, n_shards), b),
    ensures
        a == b,
        a < n_shards,
{
}

} // verus!
