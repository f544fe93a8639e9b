//! Token-bucket rate limiting. A bucket holds at most `bucket_size` tokens;
//! every whole second that passes adds `refill_rate` tokens, up to that
//! limit, and every admitted request takes one.
use vstd::prelude::*;

use std::sync::Arc;
use std::time::{Duration, Instant};

verus! {

#[verifier::external_type_specification]
#[verifier::external_body]
pub struct ExInstant(Instant);

/// `Instant::now`: the current reading of the monotonic clock.
#[verifier::external_body]
fn instant_now() -> (t: Instant) {
    Instant::now()
}

/// `Instant::elapsed`: the time passed since `origin` (depends on the clock).
#[verifier::external_body]
fn instant_elapsed(origin: &Instant) -> (d: Duration) {
    origin.elapsed()
}

/// `Duration::as_secs`: the whole seconds of a duration (the duration is opaque here).
#[verifier::external_body]
fn duration_as_secs(d: &Duration) -> (s: u64) {
    d.as_secs()
}

/// `Arc::clone`: another pointer to the same value.
#[verifier::external_body]
fn arc_clone<T>(a: &Arc<T>) -> (r: Arc<T>)
    ensures
        *r == **a,
{
    Arc::clone(a)
}

/// A rate limiter that could not be configured.
pub struct RateLimitError {
    pub msg: String,
}

pub open spec fn bad_config_message() -> Seq<char> {
    "Size and Rate must be > 0"@
}

/// The smaller of two numbers.
pub open spec fn min_int(a: int, b: int) -> int {
    if a <= b { a } else { b }
}

/// The tokens after `elapsed` whole seconds: `rate` more for each second,
/// capped at `size`.
pub open spec fn refilled(tokens: u64, elapsed: nat, rate: u64, size: u64) -> u64 {
    min_int(tokens + elapsed * rate, size as int) as u64
}

/// The whole seconds from `last` to `now`; none if the clock reads earlier.
pub open spec fn elapsed_secs(last: u64, now: u64) -> nat {
    if now >= last { (now - last) as nat } else { 0 }
}

/// A bucket's tokens and the clock reading, in whole seconds since the
/// bucket's origin, up to which they have been refilled.
pub struct TokenBucketState {
    origin: Instant,
    last_update: u64,
    tokens: u64,
}

impl TokenBucketState {
    pub closed spec fn last_update_of(&self) -> u64 {
        self.last_update
    }

    pub closed spec fn tokens_of(&self) -> u64 {
        self.tokens
    }

    /// Whole seconds since the bucket's origin, as the clock reads now.
    fn now_secs(&self) -> (s: u64) {
        let d = instant_elapsed(&self.origin);
        duration_as_secs(&d)
    }

    /// The tokens held.
    pub fn tokens(&self) -> (t: u64)
        ensures
            t == self.tokens_of(),
    {
        self.tokens
    }

    /// Refills the bucket up to the clock reading `now` (whole seconds since the
    /// origin). The time of the last refill advances by whole seconds only, so
    /// a fraction of a second is never lost.
    pub fn refill_at(&mut self, now: u64, refill_rate: u64, bucket_size: u64)
        ensures
            final(self).tokens_of() == refilled(
                old(self).tokens_of(),
                elapsed_secs(old(self).last_update_of(), now),
                refill_rate,
                bucket_size,
            ),
            final(self).last_update_of() == old(self).last_update_of() + elapsed_secs(
                old(self).last_update_of(),
                now,
            ),
        no_unwind
    {
        let elapsed = if now >= self.last_update {
            now - self.last_update
        } else {
            0
        };
        let e = elapsed as u128;
        let r = refill_rate as u128;
        assert(e * r <= 0xffff_ffff_ffff_ffffu128 * 0xffff_ffff_ffff_ffffu128) by (nonlinear_arith)
            requires
                e <= 0xffff_ffff_ffff_ffffu128,
                r <= 0xffff_ffff_ffff_ffffu128,
        ;
        let total = e * r + self.tokens as u128;
        let new_tokens = if total < bucket_size as u128 {
            total as u64
        } else {
            bucket_size
        };
        self.tokens = new_tokens;
        self.last_update = self.last_update + elapsed;
    }

    /// Refills the bucket up to the current clock reading: for some number of
    /// whole seconds passed since the last refill, the bucket gains `refill_rate`
    /// tokens per second, up to `bucket_size`.
    pub fn refill(&mut self, refill_rate: u64, bucket_size: u64)
        ensures
            final(self).last_update_of() >= old(self).last_update_of(),
            final(self).tokens_of() == refilled(
                old(self).tokens_of(),
                (final(self).last_update_of() - old(self).last_update_of()) as nat,
                refill_rate,
                bucket_size,
            ),
    {
        let now = self.now_secs();
        self.refill_at(now, refill_rate, bucket_size);
    }
}

/// A token bucket: at most `bucket_size` tokens, refilled at `refill_rate`
/// tokens per second.
pub struct TokenBucket {
    inner: TokenBucketState,
    bucket_size: u64,
    refill_rate: u64,
}

impl TokenBucket {
    #[verifier::type_invariant]
    closed spec fn well_formed(self) -> bool {
        &&& self.bucket_size > 0
        &&& self.refill_rate > 0
        &&& self.inner.tokens <= self.bucket_size
    }

    pub closed spec fn size_of(&self) -> u64 {
        self.bucket_size
    }

    pub closed spec fn rate_of(&self) -> u64 {
        self.refill_rate
    }

    pub closed spec fn state_of(&self) -> TokenBucketState {
        self.inner
    }

    /// The tokens held.
    pub closed spec fn tokens_of(&self) -> u64 {
        self.inner.tokens
    }

    /// The tokens held; never more than the bucket's size.
    pub fn tokens(&self) -> (t: u64)
        ensures
            t == self.tokens_of(),
            t <= self.size_of(),
            self.size_of() > 0,
            self.rate_of() > 0,
    {
        proof { use_type_invariant(self); }
        self.inner.tokens
    }

    fn make(size: u64, rate: u64, tokens: u64) -> (r: Result<TokenBucket, RateLimitError>)
        requires
            tokens == 0 || tokens == size,
        ensures
            (size == 0 || rate == 0) ==> (r matches Err(e) && e.msg@ == bad_config_message()),
            (size > 0 && rate > 0) ==> (r matches Ok(b) && b.size_of() == size && b.rate_of() == rate
                && b.tokens_of() == tokens && b.state_of().last_update_of() == 0),
    {
        if size == 0 || rate == 0 {
            return Err(RateLimitError { msg: "Size and Rate must be > 0".to_string() });
        }
        let inner = TokenBucketState { origin: instant_now(), last_update: 0, tokens };
        Ok(TokenBucket { inner, bucket_size: size, refill_rate: rate })
    }

    /// An empty bucket; refused unless size and rate are positive.
    pub fn new_empty(size: u64, rate: u64) -> (r: Result<TokenBucket, RateLimitError>)
        ensures
            (size == 0 || rate == 0) ==> (r matches Err(e) && e.msg@ == bad_config_message()),
            (size > 0 && rate > 0) ==> (r matches Ok(b) && b.size_of() == size && b.rate_of() == rate
                && b.tokens_of() == 0 && b.state_of().last_update_of() == 0),
    {
        Self::make(size, rate, 0)
    }

    /// A full bucket; refused unless size and rate are positive.
    pub fn new(size: u64, rate: u64) -> (r: Result<TokenBucket, RateLimitError>)
        ensures
            (size == 0 || rate == 0) ==> (r matches Err(e) && e.msg@ == bad_config_message()),
            (size > 0 && rate > 0) ==> (r matches Ok(b) && b.size_of() == size && b.rate_of() == rate
                && b.tokens_of() == size && b.state_of().last_update_of() == 0),
    {
        Self::make(size, rate, size)
    }

    /// Refills the bucket as of clock reading `now`, then takes a token if there
    /// is one; true when a token was taken.
    pub fn try_acquire_at(&mut self, now: u64) -> (acquired: bool)
        ensures
            final(self).size_of() == old(self).size_of(),
            final(self).rate_of() == old(self).rate_of(),
            ({
                let t = refilled(
                    old(self).tokens_of(),
                    elapsed_secs(old(self).state_of().last_update_of(), now),
                    old(self).rate_of(),
                    old(self).size_of(),
                );
                &&& acquired == (t > 0)
                &&& final(self).tokens_of() == if t > 0 { (t - 1) as u64 } else { t }
            }),
            final(self).state_of().last_update_of() == old(self).state_of().last_update_of()
                + elapsed_secs(old(self).state_of().last_update_of(), now),
            (acquired, final(self).tokens_of(), final(self).state_of().last_update_of())
                == acquire_step(
                old(self).tokens_of(),
                old(self).state_of().last_update_of(),
                now,
                old(self).rate_of(),
                old(self).size_of(),
            ),
    {
        proof { use_type_invariant(&*self); }
        let rate = self.refill_rate;
        let size = self.bucket_size;
        self.inner.refill_at(now, rate, size);
        if self.inner.tokens > 0 {
            self.inner.tokens = self.inner.tokens - 1;
            true
        } else {
            false
        }
    }

    /// Refills the bucket as the clock reads now, then takes a token if there is
    /// one; true when a token was taken.
    pub fn try_acquire_one(&mut self, _n: u64) -> (acquired: bool)
        ensures
            final(self).size_of() == old(self).size_of(),
            final(self).rate_of() == old(self).rate_of(),
            final(self).state_of().last_update_of() >= old(self).state_of().last_update_of(),
            ({
                let t = refilled(
                    old(self).tokens_of(),
                    (final(self).state_of().last_update_of() - old(self).state_of().last_update_of()) as nat,
                    old(self).rate_of(),
                    old(self).size_of(),
                );
                &&& acquired == (t > 0)
                &&& final(self).tokens_of() == if t > 0 { (t - 1) as u64 } else { t }
            }),
    {
        let now = self.inner.now_secs();
        self.try_acquire_at(now)
    }

    /// Refills the bucket as of clock reading `now` and returns how many tokens
    /// it holds.
    pub fn available_tokens_at(&mut self, now: u64) -> (n: u64)
        ensures
            final(self).size_of() == old(self).size_of(),
            final(self).rate_of() == old(self).rate_of(),
            n == refilled(
                old(self).tokens_of(),
                elapsed_secs(old(self).state_of().last_update_of(), now),
                old(self).rate_of(),
                old(self).size_of(),
            ),
            final(self).tokens_of() == n,
            final(self).state_of().last_update_of() == old(self).state_of().last_update_of()
                + elapsed_secs(old(self).state_of().last_update_of(), now),
    {
        proof { use_type_invariant(&*self); }
        let rate = self.refill_rate;
        let size = self.bucket_size;
        self.inner.refill_at(now, rate, size);
        self.inner.tokens
    }

    /// Refills the bucket as the clock reads now and returns how many tokens it holds.
    pub fn available_tokens(&mut self) -> (n: u64)
        ensures
            final(self).size_of() == old(self).size_of(),
            final(self).rate_of() == old(self).rate_of(),
            final(self).state_of().last_update_of() >= old(self).state_of().last_update_of(),
            n == refilled(
                old(self).tokens_of(),
                (final(self).state_of().last_update_of() - old(self).state_of().last_update_of()) as nat,
                old(self).rate_of(),
                old(self).size_of(),
            ),
            final(self).tokens_of() == n,
    {
        let now = self.inner.now_secs();
        self.available_tokens_at(now)
    }

    /// The bucket's size.
    pub fn bucket_size(&self) -> (s: u64)
        ensures
            s == self.size_of(),
    {
        self.bucket_size
    }

    /// The bucket's refill rate, in tokens per second.
    pub fn refill_rate(&self) -> (r: u64)
        ensures
            r == self.rate_of(),
    {
        self.refill_rate
    }
}

/// Refilling never takes tokens away from a bucket that is within its size,
/// and never fills it beyond its size.
pub proof fn law_refill_bounded(tokens: u64, elapsed: nat, rate: u64, size: u64)
    requires
        tokens <= size,
    ensures
        tokens <= refilled(tokens, elapsed, rate, size) <= size,
{
    vstd::arithmetic::mul::lemma_mul_nonnegative(elapsed as int, rate as int);
}

/// Refilling in two steps gives what one refill over the whole time gives.
pub proof fn law_refill_in_steps(tokens: u64, e1: nat, e2: nat, rate: u64, size: u64)
    requires
        tokens <= size,
    ensures
        refilled(refilled(tokens, e1, rate, size), e2, rate, size)
            == refilled(tokens, e1 + e2, rate, size),
{
    vstd::arithmetic::mul::lemma_mul_nonnegative(e1 as int, rate as int);
    vstd::arithmetic::mul::lemma_mul_nonnegative(e2 as int, rate as int);
    vstd::arithmetic::mul::lemma_mul_is_distributive_add_other_way(rate as int, e1 as int, e2 as int);
}

/// A refill with no time passed leaves the tokens as they are.
pub proof fn law_refill_no_time(tokens: u64, rate: u64, size: u64)
    requires
        tokens <= size,
    ensures
        refilled(tokens, 0, rate, size) == tokens,
{
}

/// One `try_acquire_at` at clock reading `now` on a bucket of `size` tokens
/// refilled at `rate` per second, holding `tokens` refilled up to `last`:
/// whether a request was admitted, the tokens left, and the new refill time.
pub open spec fn acquire_step(tokens: u64, last: u64, now: u64, rate: u64, size: u64) -> (bool, u64, u64) {
    let t = refilled(tokens, elapsed_secs(last, now), rate, size);
    (t > 0, if t > 0 { (t - 1) as u64 } else { t }, (last + elapsed_secs(last, now)) as u64)
}

/// `try_acquire_at` at each of the clock `readings` in turn: how many requests
/// were admitted, the tokens left, and the last refill time.
pub open spec fn acquire_run(tokens: u64, last: u64, readings: Seq<u64>, rate: u64, size: u64) -> (nat, u64, u64)
    decreases readings.len(),
{
    if readings.len() == 0 {
        (0, tokens, last)
    } else {
        let (admitted, t2, l2) = acquire_step(tokens, last, readings[0], rate, size);
        let (n, t3, l3) = acquire_run(t2, l2, readings.drop_first(), rate, size);
        (if admitted { n + 1 } else { n }, t3, l3)
    }
}

proof fn lemma_acquire_run_bound(tokens: u64, last: u64, readings: Seq<u64>, rate: u64, size: u64, end: u64)
    requires
        tokens <= size,
        last <= end,
        forall|i: int| 0 <= i < readings.len() ==> #[trigger] readings[i] <= end,
    ensures
        ({
            let (n, t, l) = acquire_run(tokens, last, readings, rate, size);
            &&& last <= l <= end
            &&& t <= size
            &&& n + t <= tokens + rate * (l - last)
        }),
    decreases readings.len(),
{
    if readings.len() > 0 {
        let now = readings[0];
        let e = elapsed_secs(last, now);
        let (admitted, t2, l2) = acquire_step(tokens, last, now, rate, size);
        let rest = readings.drop_first();
        assert forall|i: int| 0 <= i < rest.len() implies #[trigger] rest[i] <= end by {
            assert(rest[i] == readings[i + 1]);
        }
        vstd::arithmetic::mul::lemma_mul_nonnegative(e as int, rate as int);
        assert(l2 == last + e);
        assert((if admitted { 1int } else { 0int }) + t2 <= tokens + e * rate);
        lemma_acquire_run_bound(t2, l2, rest, rate, size, end);
        let (n, t3, l3) = acquire_run(t2, l2, rest, rate, size);
        assert(rate * (l3 - last) == rate * (l3 - l2) + rate * e) by (nonlinear_arith)
            requires
                l2 == last + e,
        ;
        assert(e * rate == rate * e) by (nonlinear_arith);
    }
}

/// A bucket never admits more requests than it held plus `rate` for every
/// whole second its refill time advanced; so a full bucket made at clock
/// reading 0 admits at most `size + rate * end` requests at readings up to
/// `end`, whatever their order.
pub proof fn law_admissions_bounded(tokens: u64, last: u64, readings: Seq<u64>, rate: u64, size: u64, end: u64)
    requires
        tokens <= size,
        last <= end,
        forall|i: int| 0 <= i < readings.len() ==> #[trigger] readings[i] <= end,
    ensures
        acquire_run(tokens, last, readings, rate, size).0 <= tokens + rate * (end - last),
        acquire_run(size, 0, readings, rate, size).0 <= size + rate * end,
{
    lemma_acquire_run_bound(tokens, last, readings, rate, size, end);
    lemma_acquire_run_bound(size, 0, readings, rate, size, end);
    let (n, t, l) = acquire_run(tokens, last, readings, rate, size);
    assert(rate * (l - last) <= rate * (end - last)) by (nonlinear_arith)
        requires
            last <= l <= end,
    ;
    let (n2, t2, l2) = acquire_run(size, 0, readings, rate, size);
    assert(rate * l2 <= rate * end) by (nonlinear_arith)
        requires
            0 <= l2 <= end,
    ;
}

/// Something that decides whether a request may pass.
pub trait RateLimitAlgorithm {
    /// Whether one more request may pass now.
    fn try_acquire(&mut self) -> bool;
}

impl RateLimitAlgorithm for TokenBucket {
    /// Refills the bucket as the clock reads now, then takes a token if there
    /// is one; true when a token was taken.
    fn try_acquire(&mut self) -> (acquired: bool)
        ensures
            final(self).size_of() == old(self).size_of(),
            final(self).rate_of() == old(self).rate_of(),
            final(self).state_of().last_update_of() >= old(self).state_of().last_update_of(),
            ({
                let t = refilled(
                    old(self).tokens_of(),
                    (final(self).state_of().last_update_of() - old(self).state_of().last_update_of()) as nat,
                    old(self).rate_of(),
                    old(self).size_of(),
                );
                &&& acquired == (t > 0)
                &&& final(self).tokens_of() == if t > 0 { (t - 1) as u64 } else { t }
            }),
    {
        self.try_acquire_one(1)
    }
}

/// A middleware layer that puts the shared algorithm in front of a service.
pub struct RateLimiterLayer<A> {
    pub algorithm: Arc<A>,
}

impl<A> RateLimiterLayer<A> {
    /// A layer that shares `algorithm` among all the services it wraps.
    pub fn new(algorithm: A) -> (l: RateLimiterLayer<A>)
        ensures
            *l.algorithm == algorithm,
    {
        RateLimiterLayer { algorithm: Arc::new(algorithm) }
    }

    /// Wraps `inner` in a service guarded by this layer's algorithm.
    pub fn layer<S>(&self, inner: S) -> (s: RateLimiterService<S, A>)
        ensures
            s.inner_of() == inner,
            *s.algorithm_of() == *self.algorithm,
    {
        RateLimiterService { inner, algorithm: arc_clone(&self.algorithm) }
    }

    /// Another handle on this layer, sharing its algorithm.
    pub fn share(&self) -> (l: RateLimiterLayer<A>)
        ensures
            *l.algorithm == *self.algorithm,
    {
        RateLimiterLayer { algorithm: arc_clone(&self.algorithm) }
    }
}

/// A service guarded by a rate-limiting algorithm.
pub struct RateLimiterService<S, A> {
    inner: S,
    algorithm: Arc<A>,
}

impl<S, A> RateLimiterService<S, A> {
    pub closed spec fn inner_of(&self) -> S {
        self.inner
    }

    pub closed spec fn algorithm_of(&self) -> Arc<A> {
        self.algorithm
    }

    /// The guarded service.
    pub fn inner(&self) -> (s: &S)
        ensures
            *s == self.inner_of(),
    {
        &self.inner
    }

    /// The shared algorithm.
    pub fn algorithm(&self) -> (a: &Arc<A>)
        ensures
            *a == self.algorithm_of(),
    {
        &self.algorithm
    }
}

// ---------------------------------------------------------------------------
// One bucket per client

/// The bucket of one client, by the client's key (its address).
pub struct ClientBucket {
    pub key: String,
    pub bucket: TokenBucket,
}

/// Whether no two entries share a key.
pub open spec fn distinct_keys(s: Seq<ClientBucket>) -> bool {
    forall|i: int, j: int| 0 <= i < s.len() && 0 <= j < s.len() && i != j ==> #[trigger] s[i].key@ != #[trigger] s[j].key@
}

/// The bucket of the client with key `k`, if it has one.
pub open spec fn lookup(s: Seq<ClientBucket>, k: Seq<char>) -> Option<TokenBucket> {
    if exists|i: int| 0 <= i < s.len() && #[trigger] s[i].key@ == k {
        Some(s[choose|i: int| 0 <= i < s.len() && #[trigger] s[i].key@ == k].bucket)
    } else {
        None
    }
}

proof fn lemma_lookup_at(s: Seq<ClientBucket>, i: int)
    requires
        distinct_keys(s),
        0 <= i < s.len(),
    ensures
        lookup(s, s[i].key@) == Some(s[i].bucket),
{
    let k = s[i].key@;
    assert(s[i].key@ == k);
    let j = choose|j: int| 0 <= j < s.len() && #[trigger] s[j].key@ == k;
    assert(i == j);
}

proof fn lemma_update_distinct(s: Seq<ClientBucket>, i: int, e: ClientBucket)
    requires
        distinct_keys(s),
        0 <= i < s.len(),
        e.key@ == s[i].key@,
    ensures
        distinct_keys(s.update(i, e)),
{
    let t = s.update(i, e);
    assert forall|a: int, b: int| 0 <= a < t.len() && 0 <= b < t.len() && a != b implies #[trigger] t[a].key@ != #[trigger] t[b].key@ by {
        assert(t[a].key@ == s[a].key@);
        assert(t[b].key@ == s[b].key@);
        assert(s[a].key@ != s[b].key@);
    }
}

proof fn lemma_lookup_update(s: Seq<ClientBucket>, i: int, e: ClientBucket, k: Seq<char>)
    requires
        distinct_keys(s),
        0 <= i < s.len(),
        e.key@ == s[i].key@,
        k != s[i].key@,
    ensures
        lookup(s.update(i, e), k) == lookup(s, k),
{
    let t = s.update(i, e);
    if exists|j: int| 0 <= j < s.len() && #[trigger] s[j].key@ == k {
        let j = choose|j: int| 0 <= j < s.len() && #[trigger] s[j].key@ == k;
        assert(t[j].key@ == k);
        let j2 = choose|j: int| 0 <= j < t.len() && #[trigger] t[j].key@ == k;
        assert(s[j2].key@ == t[j2].key@);
        assert(j2 == j);
    } else {
        assert forall|j: int| 0 <= j < t.len() implies #[trigger] t[j].key@ != k by {
            assert(t[j].key@ == s[j].key@);
        }
    }
}

proof fn lemma_push_distinct(s: Seq<ClientBucket>, e: ClientBucket)
    requires
        distinct_keys(s),
        forall|j: int| 0 <= j < s.len() ==> #[trigger] s[j].key@ != e.key@,
    ensures
        distinct_keys(s.push(e)),
{
    let t = s.push(e);
    assert forall|a: int, b: int| 0 <= a < t.len() && 0 <= b < t.len() && a != b implies #[trigger] t[a].key@ != #[trigger] t[b].key@ by {
        if a < s.len() && b < s.len() {
            assert(t[a] == s[a] && t[b] == s[b]);
        } else if a < s.len() {
            assert(t[a] == s[a]);
        } else {
            assert(t[b] == s[b]);
        }
    }
}

proof fn lemma_lookup_push(s: Seq<ClientBucket>, e: ClientBucket, k: Seq<char>)
    requires
        distinct_keys(s),
        forall|j: int| 0 <= j < s.len() ==> #[trigger] s[j].key@ != e.key@,
        k != e.key@,
    ensures
        lookup(s.push(e), k) == lookup(s, k),
{
    let t = s.push(e);
    if exists|j: int| 0 <= j < s.len() && #[trigger] s[j].key@ == k {
        let j = choose|j: int| 0 <= j < s.len() && #[trigger] s[j].key@ == k;
        assert(t[j] == s[j]);
        let j2 = choose|j: int| 0 <= j < t.len() && #[trigger] t[j].key@ == k;
        assert(j2 < s.len());
        assert(t[j2] == s[j2]);
        assert(j2 == j);
    } else {
        assert forall|j: int| 0 <= j < t.len() implies #[trigger] t[j].key@ != k by {
            if j < s.len() {
                assert(t[j] == s[j]);
            }
        }
    }
}

/// A token bucket for every client, each of the same size and refill rate,
/// made full when the client is first seen. One client's requests never touch
/// another client's bucket.
pub struct ClientRateLimiter {
    entries: Vec<ClientBucket>,
    bucket_size: u64,
    refill_rate: u64,
}

impl ClientRateLimiter {
    #[verifier::type_invariant]
    closed spec fn well_formed(self) -> bool {
        &&& self.bucket_size > 0
        &&& self.refill_rate > 0
        &&& distinct_keys(self.entries@)
        &&& forall|i: int| 0 <= i < self.entries@.len() ==> {
            &&& (#[trigger] self.entries@[i]).bucket.size_of() == self.bucket_size
            &&& self.entries@[i].bucket.rate_of() == self.refill_rate
        }
    }

    pub closed spec fn size_of(&self) -> u64 {
        self.bucket_size
    }

    pub closed spec fn rate_of(&self) -> u64 {
        self.refill_rate
    }

    /// The bucket of the client with key `k`, if it has been seen.
    pub closed spec fn bucket_for(&self, k: Seq<char>) -> Option<TokenBucket> {
        lookup(self.entries@, k)
    }

    /// A limiter with no client seen yet; refused unless size and rate are positive.
    pub fn new(size: u64, rate: u64) -> (r: Result<ClientRateLimiter, RateLimitError>)
        ensures
            (size == 0 || rate == 0) ==> (r matches Err(e) && e.msg@ == bad_config_message()),
            (size > 0 && rate > 0) ==> (r matches Ok(l) && l.size_of() == size && l.rate_of() == rate
                && forall|k: Seq<char>| #[trigger] l.bucket_for(k) is None),
    {
        if size == 0 || rate == 0 {
            return Err(RateLimitError { msg: "Size and Rate must be > 0".to_string() });
        }
        let l = ClientRateLimiter { entries: Vec::new(), bucket_size: size, refill_rate: rate };
        assert forall|k: Seq<char>| #[trigger] l.bucket_for(k) is None by {
            assert(l.entries@.len() == 0);
        }
        Ok(l)
    }

    /// Admits or refuses one request of the client with key `client`, on that
    /// client's bucket alone (a full one if the client is new), as
    /// `TokenBucket::try_acquire_one` does; every other client's bucket is
    /// left as it was.
    pub fn try_acquire_for(&mut self, client: &str) -> (acquired: bool)
        ensures
            final(self).size_of() == old(self).size_of(),
            final(self).rate_of() == old(self).rate_of(),
            forall|k: Seq<char>| k != client@ ==> #[trigger] final(self).bucket_for(k) == old(self).bucket_for(k),
            match old(self).bucket_for(client@) {
                None => acquired && (final(self).bucket_for(client@) matches Some(b)
                    && b.size_of() == old(self).size_of() && b.rate_of() == old(self).rate_of()
                    && b.tokens_of() == old(self).size_of() - 1),
                Some(b0) => final(self).bucket_for(client@) matches Some(b)
                    && b.size_of() == b0.size_of() && b.rate_of() == b0.rate_of()
                    && b.state_of().last_update_of() >= b0.state_of().last_update_of()
                    && ({
                        let t = refilled(
                            b0.tokens_of(),
                            (b.state_of().last_update_of() - b0.state_of().last_update_of()) as nat,
                            b0.rate_of(),
                            b0.size_of(),
                        );
                        &&& acquired == (t > 0)
                        &&& b.tokens_of() == if t > 0 { (t - 1) as u64 } else { t }
                    }),
            },
    {
        proof { use_type_invariant(&*self); }
        let size = self.bucket_size;
        let rate = self.refill_rate;
        let mut entries: Vec<ClientBucket> = Vec::new();
        std::mem::swap(&mut entries, &mut self.entries);
        let ghost s = entries@;
        let key = client.to_string();
        let n = entries.len();
        let mut i: usize = 0;
        while i < n && !(entries[i].key == key)
            invariant
                entries@ == s,
                n == s.len(),
                i <= n,
                key@ == client@,
                forall|j: int| 0 <= j < i ==> #[trigger] s[j].key@ != client@,
            decreases n - i,
        {
            i = i + 1;
        }
        if i < n {
            proof { lemma_lookup_at(s, i as int); }
            let mut e = entries.remove(i);
            let acquired = e.bucket.try_acquire_one(1);
            entries.insert(i, e);
            proof {
                assert(entries@ =~= s.update(i as int, e));
                assert forall|k: Seq<char>| k != client@ implies lookup(entries@, k) == lookup(s, k) by {
                    lemma_lookup_update(s, i as int, e, k);
                }
                lemma_update_distinct(s, i as int, e);
                lemma_lookup_at(entries@, i as int);
                assert forall|j: int| 0 <= j < entries@.len() implies {
                    &&& (#[trigger] entries@[j]).bucket.size_of() == size
                    &&& entries@[j].bucket.rate_of() == rate
                } by {
                    if j != i {
                        assert(entries@[j] == s[j]);
                    }
                }
            }
            self.entries = entries;
            acquired
        } else {
            proof {
                assert forall|j: int| 0 <= j < s.len() implies !(#[trigger] s[j].key@ == client@) by {}
            }
            let mut bucket = match TokenBucket::new(size, rate) {
                Ok(b) => b,
                Err(_) => return false,
            };
            let acquired = bucket.try_acquire_one(1);
            proof {
                vstd::arithmetic::mul::lemma_mul_nonnegative(
                    (bucket.state_of().last_update_of() - 0) as int,
                    rate as int,
                );
            }
            let e = ClientBucket { key, bucket };
            entries.push(e);
            proof {
                assert(entries@ =~= s.push(e));
                assert forall|k: Seq<char>| k != client@ implies lookup(entries@, k) == lookup(s, k) by {
                    lemma_lookup_push(s, e, k);
                }
                lemma_push_distinct(s, e);
                lemma_lookup_at(entries@, s.len() as int);
                assert(entries@[s.len() as int] == e);
                assert forall|j: int| 0 <= j < entries@.len() implies {
                    &&& (#[trigger] entries@[j]).bucket.size_of() == size
                    &&& entries@[j].bucket.rate_of() == rate
                } by {
                    if j < s.len() {
                        assert(entries@[j] == s[j]);
                    }
                }
            }
            self.entries = entries;
            acquired
        }
    }
}

/// Rate-limiting algorithms the service may offer besides the token bucket.
pub struct LeakyBucket {}

pub struct FixedWindowCounter {}

pub struct SlidingWindowLog {}

pub struct SlidingWindowCounter {}

} // verus!
