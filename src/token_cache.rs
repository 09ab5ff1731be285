//! Cached cluster authentication tokens, each valid until its expiration.
//! Reading and writing the cache file happens outside the library.

use vstd::prelude::*;
use crate::text::str_eq;

verus! {

/// How long a stored token is kept, in seconds.
pub const TOKEN_CACHE_TTL_SECS: u64 = 300;

/// A token is no longer handed out this many seconds before it expires.
pub const EXPIRY_MARGIN_SECS: u64 = 30;

/// Relies on `SystemTime::now`: the current Unix time in whole seconds (zero
/// for a clock set before the epoch). Nothing is known of its value.
#[verifier::external_body]
fn unix_now() -> (r: u64) {
    std::time::SystemTime::now().duration_since(std::time::UNIX_EPOCH).unwrap_or_default().as_secs()
}

/// A cached token.
#[derive(Clone, Debug)]
pub struct CachedToken {
    pub token: String,
    /// Unix time, in seconds, after which the token is no longer used.
    pub expiration_timestamp: u64,
}

/// Whether a token expiring at `exp` may still be used at time `now`.
pub open spec fn valid_at(exp: u64, now: u64) -> bool {
    exp > now + EXPIRY_MARGIN_SECS
}

impl CachedToken {
    /// A copy of the token.
    pub fn duplicate(&self) -> (r: Self)
        ensures
            r == *self,
    {
        CachedToken { token: self.token.clone(), expiration_timestamp: self.expiration_timestamp }
    }

    /// Whether the token may still be used now: the answer of
    /// [`CachedToken::is_valid_at`] for the time read from the clock.
    pub fn is_valid(&self) -> (r: bool)
        ensures
            exists|now: u64| r == #[trigger] valid_at(self.expiration_timestamp, now),
    {
        self.is_valid_at(unix_now())
    }

    /// Whether the token may still be used at time `now`.
    pub fn is_valid_at(&self, now: u64) -> (r: bool)
        ensures
            r == valid_at(self.expiration_timestamp, now),
    {
        if now > u64::MAX - EXPIRY_MARGIN_SECS {
            false
        } else {
            self.expiration_timestamp > now + EXPIRY_MARGIN_SECS
        }
    }
}

/// The cached tokens as a list of (cluster, token) pairs.
pub open spec fn tokens_view(t: Seq<(String, CachedToken)>) -> Seq<(Seq<char>, CachedToken)> {
    t.map_values(|p: (String, CachedToken)| (p.0@, p.1))
}

/// No two entries of `t` share a cluster name.
pub open spec fn unique_names(t: Seq<(String, CachedToken)>) -> bool {
    forall|i: int, j: int| 0 <= i < j < t.len() ==> #[trigger] t[i].0@ != #[trigger] t[j].0@
}

/// The tokens of a list of (cluster, token) pairs, by cluster name.
pub open spec fn tokens_map(t: Seq<(String, CachedToken)>) -> Map<Seq<char>, CachedToken> {
    Map::new(
        |k: Seq<char>| exists|i: int| 0 <= i < t.len() && #[trigger] t[i].0@ == k,
        |k: Seq<char>| t[choose|i: int| 0 <= i < t.len() && #[trigger] t[i].0@ == k].1,
    )
}

proof fn lemma_tokens_map_at(t: Seq<(String, CachedToken)>, i: int)
    requires
        unique_names(t),
        0 <= i < t.len(),
    ensures
        tokens_map(t).contains_key(t[i].0@),
        tokens_map(t)[t[i].0@] == t[i].1,
{
    let k = t[i].0@;
    assert(tokens_map(t).dom().contains(k));
    let j = choose|j: int| 0 <= j < t.len() && #[trigger] t[j].0@ == k;
    if j != i {
        if j < i {
            assert(t[j].0@ != t[i].0@);
        } else {
            assert(t[i].0@ != t[j].0@);
        }
    }
}

/// `r` is what a lookup of `name` at time `now` gives: the stored token when
/// it is still valid then, else nothing.
pub open spec fn found_at(m: Map<Seq<char>, CachedToken>, name: Seq<char>, now: u64, r: Option<&CachedToken>) -> bool {
    match r {
        Some(t) => m.contains_key(name) && m[name] == *t && valid_at(t.expiration_timestamp, now),
        None => !m.contains_key(name) || !valid_at(m[name].expiration_timestamp, now),
    }
}

/// `after` holds exactly the tokens of `before` that are valid at `now`.
pub open spec fn cleaned_at(before: Seq<(String, CachedToken)>, after: Seq<(String, CachedToken)>, now: u64) -> bool {
    &&& forall|a: int| 0 <= a < after.len() ==> before.contains(#[trigger] after[a])
        && valid_at(after[a].1.expiration_timestamp, now)
    &&& forall|j: int| 0 <= j < before.len() && valid_at(before[j].1.expiration_timestamp, now)
        ==> after.contains(#[trigger] before[j])
}

/// Cached tokens, one per cluster name.
#[derive(Clone, Debug)]
pub struct TokenCache {
    pub tokens: Vec<(String, CachedToken)>,
}

impl TokenCache {
    /// The tokens by cluster name.
    pub open spec fn view(&self) -> Map<Seq<char>, CachedToken> {
        tokens_map(self.tokens@)
    }

    /// Each cluster name appears once.
    pub open spec fn wf(&self) -> bool {
        unique_names(self.tokens@)
    }

    /// An empty cache.
    pub fn new() -> (r: Self)
        ensures
            r.wf(),
            r.tokens@.len() == 0,
    {
        TokenCache { tokens: Vec::new() }
    }

    /// Where `cluster_name` is stored.
    fn position(&self, cluster_name: &str) -> (r: Option<usize>)
        ensures
            match r {
                Some(i) => i < self.tokens@.len() && self.tokens@[i as int].0@ == cluster_name@,
                None => forall|i: int| 0 <= i < self.tokens@.len() ==> self.tokens@[i].0@ != cluster_name@,
            },
    {
        let mut i: usize = 0;
        while i < self.tokens.len()
            invariant
                i <= self.tokens@.len(),
                forall|k: int| 0 <= k < i ==> self.tokens@[k].0@ != cluster_name@,
            decreases self.tokens@.len() - i,
        {
            if str_eq(self.tokens[i].0.as_str(), cluster_name) {
                return Some(i);
            }
            i = i + 1;
        }
        None
    }

    /// The token for `cluster_name`, if one is stored and still valid now.
    pub fn get(&self, cluster_name: &str) -> (r: Option<&CachedToken>)
        requires
            self.wf(),
        ensures
            exists|now: u64| #[trigger] found_at(self.view(), cluster_name@, now, r),
    {
        let now = unix_now();
        let r = self.get_at(cluster_name, now);
        assert(found_at(self.view(), cluster_name@, now, r));
        r
    }

    /// The token for `cluster_name`, if one is stored and valid at `now`.
    pub fn get_at(&self, cluster_name: &str, now: u64) -> (r: Option<&CachedToken>)
        requires
            self.wf(),
        ensures
            found_at(self.view(), cluster_name@, now, r),
    {
        match self.position(cluster_name) {
            Some(i) => {
                proof {
                    self.lemma_view_at(i as int);
                }
                let t = &self.tokens[i].1;
                if t.is_valid_at(now) {
                    Some(t)
                } else {
                    None
                }
            },
            None => None,
        }
    }

    proof fn lemma_view_at(&self, i: int)
        requires
            self.wf(),
            0 <= i < self.tokens@.len(),
        ensures
            self.view().contains_key(self.tokens@[i].0@),
            self.view()[self.tokens@[i].0@] == self.tokens@[i].1,
    {
        lemma_tokens_map_at(self.tokens@, i);
    }

    /// Stores `token` for `cluster_name`, valid for the cache's time to live
    /// from now.
    pub fn set(&mut self, cluster_name: String, token: String)
        requires
            old(self).wf(),
        ensures
            final(self).wf(),
            final(self).view().contains_key(cluster_name@),
            final(self).view()[cluster_name@].token == token,
            forall|k: Seq<char>| k != cluster_name@ ==> (final(self).view().contains_key(k) == old(self).view().contains_key(k)),
            forall|k: Seq<char>| k != cluster_name@ && #[trigger] final(self).view().contains_key(k) ==> final(self).view()[k] == old(self).view()[k],
    {
        let now = unix_now();
        let exp = if now > u64::MAX - TOKEN_CACHE_TTL_SECS { u64::MAX } else { now + TOKEN_CACHE_TTL_SECS };
        self.set_at(cluster_name, token, exp);
    }

    /// Stores `token` for `cluster_name`, expiring at `expiration_timestamp`.
    pub fn set_at(&mut self, cluster_name: String, token: String, expiration_timestamp: u64)
        requires
            old(self).wf(),
        ensures
            final(self).wf(),
            final(self).view().contains_key(cluster_name@),
            final(self).view().contains_key(cluster_name@),
            final(self).view()[cluster_name@] == (CachedToken { token, expiration_timestamp }),
            forall|k: Seq<char>| k != cluster_name@ ==> (final(self).view().contains_key(k) == old(self).view().contains_key(k)),
            forall|k: Seq<char>| k != cluster_name@ && #[trigger] final(self).view().contains_key(k) ==> final(self).view()[k] == old(self).view()[k],
    {
        let entry = CachedToken { token, expiration_timestamp };
        let ghost old_tokens = self.tokens@;
        match self.position(cluster_name.as_str()) {
            Some(i) => {
                self.tokens.set(i, (cluster_name, entry));
                proof {
                    assert forall|a: int, b: int| 0 <= a < b < self.tokens@.len() implies
                        #[trigger] self.tokens@[a].0@ != #[trigger] self.tokens@[b].0@ by {
                        assert(old_tokens[a].0@ != old_tokens[b].0@);
                    }
                    self.lemma_view_at(i as int);
                    assert forall|k: Seq<char>|
                        #![trigger self.view().contains_key(k)]
                        #![trigger old(self).view().contains_key(k)]
                        k != cluster_name@ implies
                        (self.view().contains_key(k) == old(self).view().contains_key(k)) && (
                        self.view().contains_key(k) ==> self.view()[k] == old(self).view()[k]) by {
                        if old(self).view().contains_key(k) {
                            let j = choose|j: int| 0 <= j < old_tokens.len() && #[trigger] old_tokens[j].0@ == k;
                            assert(self.tokens@[j].0@ == k);
                            lemma_tokens_map_at(old_tokens, j);
                            self.lemma_view_at(j);
                        }
                        if self.view().contains_key(k) {
                            let j = choose|j: int| 0 <= j < self.tokens@.len() && #[trigger] self.tokens@[j].0@ == k;
                            assert(old_tokens[j].0@ == k);
                            lemma_tokens_map_at(old_tokens, j);
                            self.lemma_view_at(j);
                        }
                    }
                }
            },
            None => {
                self.tokens.push((cluster_name, entry));
                proof {
                    let n = old_tokens.len() as int;
                    assert forall|a: int, b: int| 0 <= a < b < self.tokens@.len() implies
                        #[trigger] self.tokens@[a].0@ != #[trigger] self.tokens@[b].0@ by {
                        if b < n {
                            assert(old_tokens[a].0@ != old_tokens[b].0@);
                        }
                    }
                    self.lemma_view_at(n);
                    assert forall|k: Seq<char>|
                        #![trigger self.view().contains_key(k)]
                        #![trigger old(self).view().contains_key(k)]
                        k != cluster_name@ implies
                        (self.view().contains_key(k) == old(self).view().contains_key(k)) && (
                        self.view().contains_key(k) ==> self.view()[k] == old(self).view()[k]) by {
                        if old(self).view().contains_key(k) {
                            let j = choose|j: int| 0 <= j < old_tokens.len() && #[trigger] old_tokens[j].0@ == k;
                            assert(self.tokens@[j].0@ == k);
                            lemma_tokens_map_at(old_tokens, j);
                            self.lemma_view_at(j);
                        }
                        if self.view().contains_key(k) {
                            let j = choose|j: int| 0 <= j < self.tokens@.len() && #[trigger] self.tokens@[j].0@ == k;
                            assert(old_tokens[j].0@ == k);
                            lemma_tokens_map_at(old_tokens, j);
                            self.lemma_view_at(j);
                        }
                    }
                }
            },
        }
    }

    /// Drops every token that is no longer valid now: the result is that of
    /// [`TokenCache::cleanup_at`] for the time read from the clock.
    pub fn cleanup(&mut self)
        requires
            old(self).wf(),
        ensures
            final(self).wf(),
            exists|now: u64| #[trigger] cleaned_at(old(self).tokens@, final(self).tokens@, now),
    {
        let now = unix_now();
        self.cleanup_at(now);
        assert(cleaned_at(old(self).tokens@, self.tokens@, now));
    }

    /// Drops every token that is not valid at `now`, keeping the others in
    /// order.
    pub fn cleanup_at(&mut self, now: u64)
        requires
            old(self).wf(),
        ensures
            final(self).wf(),
            cleaned_at(old(self).tokens@, final(self).tokens@, now),
    {
        let kept = still_valid(&self.tokens, now);
        self.tokens = kept;
    }
}

/// The tokens of `src` that are valid at `now`, in order.
fn still_valid(src_v: &Vec<(String, CachedToken)>, now: u64) -> (kept: Vec<(String, CachedToken)>)
    requires
        unique_names(src_v@),
    ensures
        unique_names(kept@),
        cleaned_at(src_v@, kept@, now),
{
    let mut kept: Vec<(String, CachedToken)> = Vec::new();
    let ghost src = src_v@;
    let ghost mut idx: Seq<int> = Seq::empty();
    let n = src_v.len();
    let mut i: usize = 0;
    while i < n
        invariant
            n == src.len(),
            src == src_v@,
            src_v@ == src,
            unique_names(src_v@),
            i <= n,
            idx.len() == kept@.len(),
            forall|a: int| 0 <= a < idx.len() ==> 0 <= #[trigger] idx[a] < i && kept@[a] == src[idx[a]]
                && valid_at(src[idx[a]].1.expiration_timestamp, now),
            forall|a: int, b: int| 0 <= a < b < idx.len() ==> #[trigger] idx[a] < #[trigger] idx[b],
            forall|j: int| 0 <= j < i && valid_at(#[trigger] src[j].1.expiration_timestamp, now) ==>
                exists|a: int| 0 <= a < idx.len() && #[trigger] idx[a] == j,
        decreases n - i,
    {
        if src_v[i].1.is_valid_at(now) {
            let name = src_v[i].0.clone();
            let tok = src_v[i].1.duplicate();
            kept.push((name, tok));
            proof {
                let a_new = idx.len() as int;
                let old_idx = idx;
                idx = idx.push(i as int);
                assert(idx[a_new] == i as int);
                assert forall|j: int| 0 <= j < i + 1 && valid_at(#[trigger] src[j].1.expiration_timestamp, now)
                    implies exists|a: int| 0 <= a < idx.len() && #[trigger] idx[a] == j by {
                    if j == i {
                        assert(idx[a_new] == j);
                    } else {
                        let a = choose|a: int| 0 <= a < old_idx.len() && #[trigger] old_idx[a] == j;
                        assert(idx[a] == j);
                    }
                }
            }
        }
        i = i + 1;
    }
    proof {
        assert forall|a: int, b: int| 0 <= a < b < kept@.len() implies
            #[trigger] kept@[a].0@ != #[trigger] kept@[b].0@ by {
            assert(idx[a] < idx[b]);
            assert(src_v@[idx[a]].0@ != src_v@[idx[b]].0@);
        }
        assert forall|a: int| 0 <= a < kept@.len() implies src_v@.contains(#[trigger] kept@[a])
            && valid_at(kept@[a].1.expiration_timestamp, now) by {
            assert(src_v@[idx[a]] == kept@[a]);
        }
        assert forall|j: int| 0 <= j < src_v@.len() && valid_at(src_v@[j].1.expiration_timestamp, now)
            implies kept@.contains(#[trigger] src_v@[j]) by {
            assert(valid_at(src_v@[j].1.expiration_timestamp, now));
            let a = choose|a: int| 0 <= a < idx.len() && #[trigger] idx[a] == j;
            assert(kept@[a] == src_v@[j]);
        }
    }
    kept
}


} // verus!
