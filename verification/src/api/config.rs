//! Configuration of the interface.
use crate::tables;
use crate::text;
use crate::time;
use crate::time::Nanos;
use ahash::AHashSet;
use vstd::prelude::*;

verus! {

/// Configuration of the interface.
#[derive(Debug)]
pub struct ApiConfig {
    /// Where snapshots are read from.
    pub redis_url: String,
    /// Where live updates come from.
    pub nats_url: String,
    /// Tokens that may ask.
    pub valid_tokens: AHashSet<String>,
    /// Tickers known to have a book; `None` for all.
    pub book_universe: Option<AHashSet<String>>,
    /// Requests per second and token; `None` for no limit.
    pub rate_limit_per_second: Option<u32>,
    /// How long computed entity tags are kept.
    pub etag_cache_ttl: Nanos,
    /// Origins that browsers may ask from; none for any.
    pub cors_allowed_origins: Vec<String>,
}

impl Default for ApiConfig {
    fn default() -> (r: Self)
        ensures
            r.redis_url@ == "redis://127.0.0.1/"@,
            r.nats_url@ == "nats://127.0.0.1:4222"@,
            tables::texts(r.valid_tokens) == Set::<Seq<char>>::empty(),
            r.book_universe is None,
            r.rate_limit_per_second == Some(100u32),
            r.etag_cache_ttl == 5 * time::SECOND,
            r.cors_allowed_origins@.len() == 0,
    {
        ApiConfig {
            redis_url: "redis://127.0.0.1/".to_owned(),
            nats_url: "nats://127.0.0.1:4222".to_owned(),
            valid_tokens: tables::new_texts(),
            book_universe: None,
            rate_limit_per_second: Some(100),
            etag_cache_ttl: 5 * time::SECOND,
            cors_allowed_origins: Vec::new(),
        }
    }
}

impl Clone for ApiConfig {
    fn clone(&self) -> (r: Self)
        ensures
            r.redis_url@ == self.redis_url@,
            r.nats_url@ == self.nats_url@,
            tables::texts(r.valid_tokens) == tables::texts(self.valid_tokens),
            match self.book_universe {
                Some(s) => r.book_universe matches Some(c) && tables::texts(c) == tables::texts(s),
                None => r.book_universe is None,
            },
            r.rate_limit_per_second == self.rate_limit_per_second,
            r.etag_cache_ttl == self.etag_cache_ttl,
            text::texts_of(r.cors_allowed_origins@) == text::texts_of(self.cors_allowed_origins@),
    {
        let cors_allowed_origins = self.cors_allowed_origins.clone();
        assert(text::texts_of(cors_allowed_origins@) =~= text::texts_of(
            self.cors_allowed_origins@,
        ));
        ApiConfig {
            redis_url: self.redis_url.clone(),
            nats_url: self.nats_url.clone(),
            valid_tokens: tables::copy_texts(&self.valid_tokens),
            book_universe: match &self.book_universe {
                Some(s) => Some(tables::copy_texts(s)),
                None => None,
            },
            rate_limit_per_second: self.rate_limit_per_second,
            etag_cache_ttl: self.etag_cache_ttl,
            cors_allowed_origins,
        }
    }
}

impl ApiConfig {
    /// Browsers may ask from any origin.
    pub fn allows_any_origin(&self) -> (r: bool)
        ensures
            r == (self.cors_allowed_origins@.len() == 0),
    {
        self.cors_allowed_origins.len() == 0
    }
}

/// The tokens of a comma-separated list.
pub fn parse_tokens(list: &str) -> (r: AHashSet<String>)
    ensures
        tables::texts(r) == text::listed(list@).to_set(),
{
    let tokens = text::split_list(list);
    let ghost t = text::texts_of(tokens@);
    let mut out = tables::new_texts();
    let mut i: usize = 0;
    assert(tables::texts(out) =~= t.take(0).to_set());
    while i < tokens.len()
        invariant
            i <= tokens@.len(),
            t == text::texts_of(tokens@),
            tables::texts(out) == t.take(i as int).to_set(),
        decreases tokens@.len() - i,
    {
        tables::add_text(&mut out, tokens[i].clone());
        proof {
            let a = t.take(i as int);
            let b = t.take(i + 1);
            assert(b =~= a.push(t[i as int]));
            assert forall|x: Seq<char>|
                b.to_set().contains(x) == a.to_set().insert(t[i as int]).contains(x) by {
                if a.contains(x) {
                    let j = choose|j: int| 0 <= j < a.len() && a[j] == x;
                    assert(b[j] == x);
                }
                assert(b[i as int] == t[i as int]);
            }
            assert(b.to_set() =~= a.to_set().insert(t[i as int]));
        }
        i += 1;
    }
    assert(t.take(i as int) =~= t);
    out
}

/// The origins of a comma-separated list, in order.
pub fn parse_cors_origins(list: &str) -> (r: Vec<String>)
    ensures
        text::texts_of(r@) == text::listed(list@),
{
    text::split_list(list)
}

/// Lists are cut at commas: the tokens are its items, and so are the origins, in
/// order. Every origin is allowed where none is named.
pub proof fn law_lists_of_tokens_and_origins(
    list: &str,
    tokens: AHashSet<String>,
    origins: Vec<String>,
    c: ApiConfig,
    any: bool,
    i: int,
)
    requires
        call_ensures(parse_tokens, (list,), tokens),
        call_ensures(parse_cors_origins, (list,), origins),
        call_ensures(ApiConfig::allows_any_origin, (&c,), any),
        0 <= i < text::listed(list@).len(),
    ensures
        tables::texts(tokens).contains(text::listed(list@)[i]),
        origins@.len() == text::listed(list@).len(),
        origins@[i]@ == text::listed(list@)[i],
        any <==> c.cors_allowed_origins@.len() == 0,
{
    assert(text::listed(list@).to_set().contains(text::listed(list@)[i]));
    assert(text::texts_of(origins@)[i] == origins@[i]@);
}

} // verus!
