use cedro::market::shard::{build_hasher, shard_for, shard_with};

#[test]
fn same_ticker_always_maps_to_same_shard() {
    for n in [1, 2, 4, 8, 16, 64] {
        let a = shard_for(b"PETR4", n);
        let b = shard_for(b"PETR4", n);
        assert_eq!(a, b, "non-deterministic for n_shards={n}");
        assert!(a < n);
    }
}

#[test]
fn different_tickers_can_share_a_shard() {
    // No assertion on distribution — just sanity that the function
    // handles many distinct tickers without panicking.
    let mut hits = vec![0usize; 8];
    for t in [
        "PETR4", "VALE3", "ITUB4", "BBDC4", "ABEV3", "ITSA4", "B3SA3", "WEGE3",
        "PRIO3", "RAIL3", "MGLU3", "VAMO3", "WDOZ25", "WINZ25",
    ] {
        hits[shard_for(t.as_bytes(), 8)] += 1;
    }
    // We trust ahash enough not to dump everything into one bucket;
    // require at least 3 of the 8 buckets to have content.
    let used = hits.iter().filter(|&&c| c > 0).count();
    assert!(used >= 3, "ahash distribution looked degenerate: {hits:?}");
}

#[test]
fn shard_with_matches_shard_for() {
    let b = build_hasher();
    assert_eq!(shard_with(&b, b"PETR4", 16), shard_for(b"PETR4", 16));
    assert_eq!(shard_with(&b, b"WDOZ25", 8), shard_for(b"WDOZ25", 8));
}
