//! Per-identity token-bucket admission control.
//!
//! Each identity owns a bucket of `capacity` tokens refilled at
//! `refill_per_sec` tokens per second; an admitted request consumes one
//! token and an empty bucket yields a rejection with a computed retry-after
//! interval.  Tokens are accounted in thousandths, which makes the refill
//! arithmetic exact for millisecond timestamps and whole-token rates.

use vstd::prelude::*;

verus! {

/// Capacity and refill rate of one admission scope.
#[derive(Clone, Copy, Debug, PartialEq, Eq, Structural)]
pub struct RateLimitConfig {
    /// Bucket capacity in tokens; at least one.
    pub capacity: u32,
    /// Refill rate in tokens per second; at least one.
    pub refill_per_sec: u32,
}

/// What an admitted request learns.
#[derive(Clone, Copy, Debug, PartialEq, Eq, Structural)]
pub struct RateLimitStatus {
    /// Whole tokens left after this admission.
    pub remaining: u32,
    /// The scope's capacity.
    pub limit: u32,
}

/// Why a request was refused.
#[derive(Clone, Copy, Debug, PartialEq, Eq, Structural)]
pub struct RateLimitError {
    /// Milliseconds until a token will be available.
    pub retry_after_ms: u64,
}

/// Outcome of one admission check.
#[derive(Clone, Copy, Debug, PartialEq, Eq, Structural)]
pub enum RateLimitResult {
    Allowed(RateLimitStatus),
    Rejected(RateLimitError),
}

/// One identity's bucket: tokens in thousandths, and when they were last
/// brought up to date.
#[derive(Clone, Copy, Debug, PartialEq, Eq, Structural)]
pub struct Bucket {
    pub identity: u64,
    pub milli_tokens: u64,
    pub last_refill_ms: u64,
}

/// Bucket capacity in thousandths of a token.
pub open spec fn cap_milli(cfg: RateLimitConfig) -> int {
    cfg.capacity as int * 1000
}

/// The bucket a previously unseen identity starts from: full, as of now.
pub open spec fn initial_bucket(cfg: RateLimitConfig, identity: u64, now_ms: u64) -> Bucket {
    Bucket { identity, milli_tokens: cap_milli(cfg) as u64, last_refill_ms: now_ms }
}

/// Credit the time elapsed since the last refill, capped at capacity.  A
/// clock reading at or before the last refill credits nothing.
pub open spec fn refill_spec(b: Bucket, cfg: RateLimitConfig, now_ms: u64) -> Bucket {
    if now_ms <= b.last_refill_ms {
        b
    } else {
        let filled = b.milli_tokens as int + (now_ms - b.last_refill_ms) as int
            * cfg.refill_per_sec as int;
        Bucket {
            milli_tokens: (if filled >= cap_milli(cfg) {
                cap_milli(cfg)
            } else {
                filled
            }) as u64,
            last_refill_ms: now_ms,
            ..b
        }
    }
}

/// Some bucket in `s` belongs to this identity.
pub open spec fn has_bucket(s: Seq<Bucket>, identity: u64) -> bool {
    exists|i: int| 0 <= i < s.len() && s[i].identity == identity
}

/// The index of this identity's bucket.
pub open spec fn bucket_index(s: Seq<Bucket>, identity: u64) -> int {
    choose|i: int| 0 <= i < s.len() && s[i].identity == identity
}

/// This identity's bucket.
pub open spec fn bucket_of(s: Seq<Bucket>, identity: u64) -> Bucket {
    s[bucket_index(s, identity)]
}

/// No two buckets share an identity.
pub open spec fn unique_identities(s: Seq<Bucket>) -> bool {
    forall|i: int, j: int| 0 <= i < j < s.len() ==> s[i].identity != s[j].identity
}

/// The bucket the check works on: the stored one, or a fresh full one.
pub open spec fn pre_bucket(s: Seq<Bucket>, cfg: RateLimitConfig, identity: u64, now_ms: u64)
    -> Bucket {
    if has_bucket(s, identity) {
        bucket_of(s, identity)
    } else {
        initial_bucket(cfg, identity, now_ms)
    }
}

/// Whether the request is admitted: after the refill, a whole token is in
/// the bucket.
pub open spec fn admitted(s: Seq<Bucket>, cfg: RateLimitConfig, identity: u64, now_ms: u64)
    -> bool {
    refill_spec(pre_bucket(s, cfg, identity, now_ms), cfg, now_ms).milli_tokens >= 1000
}

/// The bucket after the check: refilled, and one token poorer if admitted.
pub open spec fn post_bucket(s: Seq<Bucket>, cfg: RateLimitConfig, identity: u64, now_ms: u64)
    -> Bucket {
    let b1 = refill_spec(pre_bucket(s, cfg, identity, now_ms), cfg, now_ms);
    if b1.milli_tokens >= 1000 {
        Bucket { milli_tokens: (b1.milli_tokens - 1000) as u64, ..b1 }
    } else {
        b1
    }
}

/// Milliseconds until the refilled bucket will hold a whole token.
pub open spec fn retry_after_spec(s: Seq<Bucket>, cfg: RateLimitConfig, identity: u64,
    now_ms: u64) -> int {
    let b1 = refill_spec(pre_bucket(s, cfg, identity, now_ms), cfg, now_ms);
    (1000 - b1.milli_tokens as int + cfg.refill_per_sec as int - 1) / cfg.refill_per_sec as int
}

/// With unique identities, any index holding `identity` is the index
/// `bucket_index` picks.
pub proof fn lemma_bucket_index_unique(s: Seq<Bucket>, i: int, identity: u64)
    requires
        unique_identities(s),
        0 <= i < s.len(),
        s[i].identity == identity,
    ensures
        has_bucket(s, identity),
        bucket_index(s, identity) == i,
        bucket_of(s, identity) == s[i],
{
    assert(has_bucket(s, identity));
    let k = bucket_index(s, identity);
    if k < i {
        assert(s[k].identity != s[i].identity);
    } else if i < k {
        assert(s[i].identity != s[k].identity);
    }
}

/// Token-bucket admission control for one scope.  Distinct scopes carry
/// their own `RateLimiter` with independent configuration.
#[derive(Debug)]
pub struct RateLimiter {
    config: RateLimitConfig,
    buckets: Vec<Bucket>,
}

impl View for RateLimiter {
    type V = Seq<Bucket>;

    closed spec fn view(&self) -> Seq<Bucket> {
        self.buckets@
    }
}

impl RateLimiter {
    /// The scope's capacity and refill rate.
    pub closed spec fn spec_config(&self) -> RateLimitConfig {
        self.config
    }

    /// Read the scope's configuration.
    pub fn config(&self) -> (c: RateLimitConfig)
        ensures
            c == self.spec_config(),
    {
        self.config
    }

    /// Limiter invariant: one bucket per identity, none above capacity,
    /// and a usable configuration.
    pub open spec fn wf(self) -> bool {
        &&& self.spec_config().capacity >= 1
        &&& self.spec_config().refill_per_sec >= 1
        &&& unique_identities(self@)
        &&& forall|i: int| 0 <= i < self@.len() ==> (#[trigger] self@[i].milli_tokens)
            <= cap_milli(self.spec_config())
    }

    /// A limiter with no buckets yet.
    pub fn new(config: RateLimitConfig) -> (r: RateLimiter)
        requires
            config.capacity >= 1,
            config.refill_per_sec >= 1,
        ensures
            r.spec_config() == config,
            r@ == Seq::<Bucket>::empty(),
            r.wf(),
    {
        let r = RateLimiter { config, buckets: Vec::new() };
        proof {
            assert(r@ =~= Seq::<Bucket>::empty());
        }
        r
    }

    /// Check and consume atomically: refill this identity's bucket for the
    /// elapsed time, then either take one token or compute when to retry.
    pub fn check(&mut self, identity: u64, now_ms: u64) -> (r: RateLimitResult)
        requires
            old(self).wf(),
        ensures
            final(self).wf(),
            final(self).spec_config() == old(self).spec_config(),
            (r matches RateLimitResult::Allowed(_)) == admitted(old(self)@,
                old(self).spec_config(), identity, now_ms),
            r matches RateLimitResult::Allowed(st) ==> st.limit
                == old(self).spec_config().capacity && st.remaining == post_bucket(old(self)@,
                old(self).spec_config(), identity, now_ms).milli_tokens / 1000,
            r matches RateLimitResult::Rejected(e) ==> e.retry_after_ms == retry_after_spec(
                old(self)@, old(self).spec_config(), identity, now_ms),
            has_bucket(old(self)@, identity) ==> final(self)@ == old(self)@.update(
                bucket_index(old(self)@, identity), post_bucket(old(self)@,
                old(self).spec_config(), identity, now_ms)),
            !has_bucket(old(self)@, identity) ==> final(self)@ == old(self)@.push(post_bucket(
                old(self)@, old(self).spec_config(), identity, now_ms)),
    {
        let cap_mt: u64 = (self.config.capacity as u64) * 1000;
        let rate: u64 = self.config.refill_per_sec as u64;

        // Locate the bucket, creating a full one for a new identity.
        let mut idx: usize = 0;
        let mut found = false;
        while idx < self.buckets.len() && !found
            invariant
                old(self) == self,
                self.wf(),
                0 <= idx <= self@.len(),
                !found ==> forall|k: int| 0 <= k < idx ==> self@[k].identity != identity,
                found ==> 0 <= idx < self@.len() && self@[idx as int].identity == identity,
            decreases self@.len() - idx + if found {
                0int
            } else {
                1int
            },
        {
            if self.buckets[idx].identity == identity {
                found = true;
            } else {
                idx += 1;
            }
        }
        let ghost s0 = self@;
        if !found {
            let fresh = Bucket { identity, milli_tokens: cap_mt, last_refill_ms: now_ms };
            self.buckets.push(fresh);
            proof {
                if has_bucket(s0, identity) {
                    let w = bucket_index(s0, identity);
                    assert(s0[w].identity == identity);
                }
            }
        } else {
            proof {
                lemma_bucket_index_unique(s0, idx as int, identity);
            }
        }
        let i = if found {
            idx
        } else {
            self.buckets.len() - 1
        };
        let b0 = self.buckets[i];
        proof {
            assert(b0 == pre_bucket(s0, self.config, identity, now_ms));
        }

        // Refill for the elapsed time, capped at capacity.
        let mut mt: u64 = b0.milli_tokens;
        let mut last: u64 = b0.last_refill_ms;
        if now_ms > b0.last_refill_ms {
            let elapsed = now_ms - b0.last_refill_ms;
            proof {
                assert(elapsed as int * rate as int <= 0xffff_ffff_ffff_ffff * 0xffff_ffff)
                    by (nonlinear_arith)
                    requires
                        elapsed <= 0xffff_ffff_ffff_ffffu64,
                        rate <= 0xffff_ffffu64,
                ;
            }
            let filled: u128 = (mt as u128) + (elapsed as u128) * (rate as u128);
            mt = if filled >= cap_mt as u128 {
                cap_mt
            } else {
                filled as u64
            };
            last = now_ms;
        }
        let ghost b1 = refill_spec(b0, self.config, now_ms);
        proof {
            assert(b1.milli_tokens == mt && b1.last_refill_ms == last && b1.identity
                == identity);
        }

        // Consume one token, or compute the retry interval.
        if mt >= 1000 {
            let mt2 = mt - 1000;
            self.buckets.set(i, Bucket { identity, milli_tokens: mt2, last_refill_ms: last });
            let remaining_u64 = mt2 / 1000;
            proof {
                assert(mt2 / 1000 <= self.config.capacity) by (nonlinear_arith)
                    requires
                        mt2 <= self.config.capacity as u64 * 1000,
                ;
                let post = post_bucket(s0, self.config, identity, now_ms);
                assert(post == (Bucket { identity, milli_tokens: mt2, last_refill_ms: last }));
                if !found {
                    assert(self@ =~= s0.push(post));
                }
                self.lemma_post_state(s0, identity, now_ms, found, i as int);
            }
            RateLimitResult::Allowed(
                RateLimitStatus { remaining: remaining_u64 as u32, limit: self.config.capacity },
            )
        } else {
            let retry = (1000 - mt + rate - 1) / rate;
            self.buckets.set(i, Bucket { identity, milli_tokens: mt, last_refill_ms: last });
            proof {
                let post = post_bucket(s0, self.config, identity, now_ms);
                assert(post == (Bucket { identity, milli_tokens: mt, last_refill_ms: last }));
                if !found {
                    assert(self@ =~= s0.push(post));
                }
                self.lemma_post_state(s0, identity, now_ms, found, i as int);
            }
            RateLimitResult::Rejected(RateLimitError { retry_after_ms: retry })
        }
    }

    /// After writing the post bucket back at `i`, the registry reads as one
    /// update (known identity) or one push (new identity), and the
    /// invariant holds.
    proof fn lemma_post_state(&self, s0: Seq<Bucket>, identity: u64, now_ms: u64, found: bool,
        i: int)
        requires
            self.config.capacity >= 1,
            self.config.refill_per_sec >= 1,
            unique_identities(s0),
            forall|k: int| 0 <= k < s0.len() ==> (#[trigger] s0[k].milli_tokens) <= cap_milli(
                self.config),
            found ==> 0 <= i < s0.len() && s0[i].identity == identity && self@ == s0.update(i,
                post_bucket(s0, self.config, identity, now_ms)),
            !found ==> !has_bucket(s0, identity) && i == s0.len() && self@ == s0.push(
                post_bucket(s0, self.config, identity, now_ms)),
        ensures
            self.wf(),
            has_bucket(s0, identity) ==> self@ == s0.update(bucket_index(s0, identity),
                post_bucket(s0, self.config, identity, now_ms)),
            !has_bucket(s0, identity) ==> self@ == s0.push(post_bucket(s0, self.config,
                identity, now_ms)),
    {
        let post = post_bucket(s0, self.config, identity, now_ms);
        assert(post.identity == identity);
        assert(post.milli_tokens <= cap_milli(self.config));
        if found {
            lemma_bucket_index_unique(s0, i, identity);
        }
        assert forall|a: int, b: int| 0 <= a < b < self@.len() implies self@[a].identity
            != self@[b].identity by {
            if b < s0.len() {
                assert(s0[a].identity != s0[b].identity);
            } else {
                if self@[a].identity == identity && a < s0.len() {
                    assert(has_bucket(s0, identity));
                }
            }
        }
        assert forall|k: int| 0 <= k < self@.len() implies (#[trigger] self@[k].milli_tokens)
            <= cap_milli(self.config) by {
            if k < s0.len() && k != i {
                assert(s0[k].milli_tokens <= cap_milli(self.config));
            }
        }
    }
}

} // verus!
