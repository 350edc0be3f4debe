//! Rate limiting per provider endpoint with token buckets.
//!
//! Time is counted in nanoseconds since the semaphore was created. A token is
//! `UNITS_PER_TOKEN` units, the number of nanoseconds in a minute, so a bucket that allows
//! `rpm` requests per minute regains exactly `rpm` units per nanosecond and every
//! quantity stays an integer.

use vstd::prelude::*;
use crate::config::{ModelKind, ModelProvider};
use crate::sys::{elapsed_nanos, instant_now};
use crate::text::concat3;

verus! {

/// Units of one token: the nanoseconds in a minute.
pub const UNITS_PER_TOKEN: u128 = 60_000_000_000;

/// Abstract value of a [`TokenBucket`].
pub struct BucketView {
    pub units: int,
    pub max_units: int,
    /// Units regained per nanosecond: the requests allowed per minute.
    pub rate: int,
    /// Time of the last refill.
    pub last: int,
}

/// A full bucket for `rpm` requests per minute, created at `now`.
pub open spec fn spec_new_bucket(rpm: int, now: int) -> BucketView {
    BucketView {
        units: rpm * UNITS_PER_TOKEN,
        max_units: rpm * UNITS_PER_TOKEN,
        rate: rpm,
        last: now,
    }
}

/// The bucket refilled at `now`: it regains `rate` units per nanosecond since the last
/// refill, up to its capacity. A time before the last refill counts as no time.
pub open spec fn spec_refill(b: BucketView, now: int) -> BucketView {
    let elapsed = if now >= b.last { now - b.last } else { 0 };
    let grown = b.units + elapsed * b.rate;
    BucketView { units: if grown < b.max_units { grown } else { b.max_units }, last: now, ..b }
}

/// Refill at `now`, then take one token if there is one: whether it was taken, and the bucket.
pub open spec fn spec_try_consume(b: BucketView, now: int) -> (bool, BucketView) {
    let r = spec_refill(b, now);
    if r.units >= UNITS_PER_TOKEN {
        (true, BucketView { units: r.units - UNITS_PER_TOKEN, ..r })
    } else {
        (false, r)
    }
}

/// Nanoseconds until the bucket holds a token, counted without refilling it: the deficit
/// divided by the rate, rounded up.
pub open spec fn spec_wait(b: BucketView) -> int {
    if b.units >= UNITS_PER_TOKEN {
        0
    } else {
        (UNITS_PER_TOKEN - b.units + b.rate - 1) / b.rate
    }
}

/// The bucket after `k` attempts, all at `now`.
pub open spec fn spec_burst(b: BucketView, now: int, k: nat) -> BucketView
    decreases k,
{
    if k == 0 {
        b
    } else {
        spec_try_consume(spec_burst(b, now, (k - 1) as nat), now).1
    }
}

/// A well-formed bucket: a positive rate of at most `u32::MAX`, a capacity of `rate`
/// tokens, and no more units than that.
pub open spec fn bucket_wf(b: BucketView) -> bool {
    &&& 1 <= b.rate <= u32::MAX
    &&& b.max_units == b.rate * UNITS_PER_TOKEN
    &&& 0 <= b.units <= b.max_units
    &&& 0 <= b.last <= u128::MAX
}

/// Law: a full bucket for `rpm` requests per minute lets exactly `rpm` requests through
/// at one instant; after `k <= rpm` of them it holds `rpm - k` tokens.
pub proof fn lemma_burst(rpm: int, now: int, k: nat)
    requires
        1 <= rpm,
        k <= rpm,
    ensures
        spec_burst(spec_new_bucket(rpm, now), now, k) == (BucketView {
            units: (rpm - k) * UNITS_PER_TOKEN,
            ..spec_new_bucket(rpm, now)
        }),
        spec_try_consume(spec_burst(spec_new_bucket(rpm, now), now, k), now).0 == (k < rpm),
    decreases k,
{
    let u: int = 60_000_000_000;
    assert(UNITS_PER_TOKEN == u);
    if k > 0 {
        lemma_burst(rpm, now, (k - 1) as nat);
        let b = spec_burst(spec_new_bucket(rpm, now), now, (k - 1) as nat);
        assert(b.units == (rpm - (k - 1)) * u);
        assert(b.last == now);
        assert(0 * b.rate == 0);
        assert((rpm - (k - 1)) * u <= rpm * u && (rpm - (k - 1)) * u >= u
            && (rpm - (k - 1)) * u - u == (rpm - k) * u) by (nonlinear_arith)
            requires
                1 <= k <= rpm,
                u == 60_000_000_000,
        ;
        let r = spec_refill(b, now);
        assert(r.units == b.units);
    }
    let c = spec_burst(spec_new_bucket(rpm, now), now, k);
    assert(0 * c.rate == 0);
    assert((rpm - k) * u <= rpm * u && ((rpm - k) * u >= u <==> k < rpm)) by (nonlinear_arith)
        requires
            k <= rpm,
            u == 60_000_000_000,
    ;
    assert(spec_refill(c, now).units == c.units);
}

/// Law: refilling never exceeds the capacity and never loses units.
pub proof fn lemma_refill_bounds(b: BucketView, now: int)
    requires
        bucket_wf(b),
        0 <= now <= u128::MAX,
    ensures
        bucket_wf(spec_refill(b, now)),
        b.units <= spec_refill(b, now).units,
{
    let elapsed = if now >= b.last { now - b.last } else { 0 };
    assert(elapsed * b.rate >= 0) by (nonlinear_arith)
        requires
            elapsed >= 0,
            b.rate >= 0,
    ;
}

/// A token bucket.
#[derive(Debug)]
pub struct TokenBucket {
    units: u128,
    max_units: u128,
    rate: u128,
    last_refill: u128,
}

impl View for TokenBucket {
    type V = BucketView;

    closed spec fn view(&self) -> BucketView {
        BucketView {
            units: self.units as int,
            max_units: self.max_units as int,
            rate: self.rate as int,
            last: self.last_refill as int,
        }
    }
}

impl TokenBucket {
    /// A full bucket for `rpm` requests per minute.
    pub fn new(rpm: u32, now: u128) -> (b: TokenBucket)
        requires
            rpm > 0,
        ensures
            b@ == spec_new_bucket(rpm as int, now as int),
            bucket_wf(b@),
    {
        let max = (rpm as u128) * UNITS_PER_TOKEN;
        TokenBucket { units: max, max_units: max, rate: rpm as u128, last_refill: now }
    }

    /// Refills at `now`.
    pub fn refill(&mut self, now: u128)
        requires
            bucket_wf(old(self)@),
        ensures
            final(self)@ == spec_refill(old(self)@, now as int),
            bucket_wf(final(self)@),
    {
        proof {
            lemma_refill_bounds(self@, now as int);
        }
        let elapsed: u128 = if now >= self.last_refill { now - self.last_refill } else { 0 };
        let room = self.max_units - self.units;
        match elapsed.checked_mul(self.rate) {
            Some(g) => {
                if g >= room {
                    self.units = self.max_units;
                } else {
                    self.units = self.units + g;
                }
            },
            None => {
                self.units = self.max_units;
            },
        }
        self.last_refill = now;
    }

    /// Refills at `now` and takes a token if there is one.
    pub fn try_consume(&mut self, now: u128) -> (taken: bool)
        requires
            bucket_wf(old(self)@),
        ensures
            (taken, final(self)@) == spec_try_consume(old(self)@, now as int),
            bucket_wf(final(self)@),
    {
        self.refill(now);
        if self.units >= UNITS_PER_TOKEN {
            self.units = self.units - UNITS_PER_TOKEN;
            true
        } else {
            false
        }
    }

    /// Nanoseconds until a token is available, without refilling.
    pub fn time_until_available(&self) -> (n: u128)
        requires
            bucket_wf(self@),
        ensures
            n == spec_wait(self@),
    {
        if self.units >= UNITS_PER_TOKEN {
            0
        } else {
            (UNITS_PER_TOKEN - self.units + self.rate - 1) / self.rate
        }
    }

    /// Does the bucket hold a token?
    pub fn has_token(&self) -> (b: bool)
        ensures
            b == (self@.units >= UNITS_PER_TOKEN),
    {
        self.units >= UNITS_PER_TOKEN
    }
}

/// Why a request may not proceed.
#[derive(Debug, Clone, Copy, PartialEq, Eq, Structural)]
pub enum SemaphoreError {
    /// The endpoint's bucket is empty; a token is available after this many nanoseconds.
    Limited { retry_after_nanos: u128 },
    /// The endpoint was never configured.
    NotConfigured,
}

/// The key of a provider's endpoint: its kind, name and base URL joined by `|`.
pub open spec fn spec_endpoint_key(p: ModelProvider) -> Seq<char> {
    p.kind.spec_name() + "|"@ + p.name@ + "|"@ + p.base_url@
}

/// The key of a provider's endpoint; providers with the same kind, name and base URL
/// share it.
pub fn endpoint_key(provider: &ModelProvider) -> (k: String)
    ensures
        k@ == spec_endpoint_key(*provider),
{
    let a = concat3(provider.kind.name(), "|", provider.name.as_str());
    concat3(a.as_str(), "|", provider.base_url.as_str())
}

/// Law: providers that agree on kind, name and base URL share one endpoint, whatever
/// their ids and other settings.
pub proof fn lemma_shared_endpoint(p: ModelProvider, q: ModelProvider)
    requires
        p.kind == q.kind,
        p.name@ == q.name@,
        p.base_url@ == q.base_url@,
    ensures
        spec_endpoint_key(p) == spec_endpoint_key(q),
{
}

/// An endpoint's limit: `None` is unlimited.
pub type EntryView = (Seq<char>, Option<BucketView>);

/// Position of the entry with key `k`.
pub open spec fn spec_entry_index(entries: Seq<EntryView>, k: Seq<char>) -> Option<int>
    decreases entries.len(),
{
    if entries.len() == 0 {
        None
    } else {
        match spec_entry_index(entries.drop_last(), k) {
            Some(i) => Some(i),
            None => if entries.last().0 == k {
                Some(entries.len() - 1)
            } else {
                None
            },
        }
    }
}

proof fn lemma_entry_index(entries: Seq<EntryView>, k: Seq<char>)
    ensures
        match spec_entry_index(entries, k) {
            Some(i) => 0 <= i < entries.len() && entries[i].0 == k && forall|j: int|
                0 <= j < i ==> entries[j].0 != k,
            None => forall|j: int| 0 <= j < entries.len() ==> entries[j].0 != k,
        },
    decreases entries.len(),
{
    if entries.len() > 0 {
        lemma_entry_index(entries.drop_last(), k);
        assert(forall|j: int| 0 <= j < entries.len() - 1 ==> entries.drop_last()[j] == entries[j]);
    }
}

/// The outcome of a check of the entry with key `k` at `now`, and the entries after it.
pub open spec fn spec_check(entries: Seq<EntryView>, k: Seq<char>, now: int) -> (Result<(), SemaphoreError>, Seq<EntryView>) {
    match spec_entry_index(entries, k) {
        None => (Err(SemaphoreError::NotConfigured), entries),
        Some(i) => match entries[i].1 {
            None => (Ok(()), entries),
            Some(b) => {
                let (taken, b2) = spec_try_consume(b, now);
                if taken {
                    (Ok(()), entries.update(i, (k, Some(b2))))
                } else {
                    (
                        Err(SemaphoreError::Limited { retry_after_nanos: spec_wait(b2) as u128 }),
                        entries.update(i, (k, Some(b2))),
                    )
                }
            },
        },
    }
}

/// The entries after configuring the endpoint `k` for `rpm` requests per minute at
/// `now`: an existing entry stays as it is; otherwise an entry is added, unlimited when
/// `rpm` is 0.
pub open spec fn spec_configure(entries: Seq<EntryView>, k: Seq<char>, rpm: int, now: int) -> Seq<EntryView> {
    match spec_entry_index(entries, k) {
        Some(_) => entries,
        None => entries.push((k, if rpm == 0 { None } else { Some(spec_new_bucket(rpm, now)) })),
    }
}

/// The outcome `b` and the entries `after` of an availability query for key `k` at
/// `now`: unconfigured endpoints are unavailable, unlimited ones available, and a limited
/// one is refilled at `now` and available when it then holds a token.
pub open spec fn spec_available(entries: Seq<EntryView>, k: Seq<char>, now: int, b: bool, after: Seq<EntryView>) -> bool {
    match spec_entry_index(entries, k) {
        None => !b && after == entries,
        Some(i) => match entries[i].1 {
            None => b && after == entries,
            Some(bk) => {
                let r = spec_refill(bk, now);
                &&& b == (r.units >= UNITS_PER_TOKEN)
                &&& after == entries.update(i, (entries[i].0, Some(r)))
            },
        },
    }
}

/// What rate-limited callers do before a request.
#[derive(Debug)]
pub enum WaitPlan {
    /// The endpoint is not configured.
    NotConfigured,
    /// The endpoint is unlimited: go ahead.
    Unlimited,
    /// Sleep this many nanoseconds (possibly 0), then check.
    Sleep(u128),
}

/// Rate limits of the provider endpoints.
pub struct Semaphore {
    entries: Vec<(String, Option<TokenBucket>)>,
    epoch: tokio::time::Instant,
    /// The latest clock reading used, in nanoseconds since `epoch`.
    last: u128,
}

/// The abstract value of one entry.
pub open spec fn entry_view(e: (String, Option<TokenBucket>)) -> EntryView {
    (e.0@, match e.1 {
        Some(b) => Some(b@),
        None => None,
    })
}

impl Semaphore {
    /// The endpoints' entries, in order of configuration.
    pub closed spec fn entries(&self) -> Seq<EntryView> {
        self.entries@.map_values(|e: (String, Option<TokenBucket>)| entry_view(e))
    }

    /// Keys are distinct and every bucket is well formed.
    pub closed spec fn wf(&self) -> bool {
        let es = self.entries();
        &&& forall|a: int, b: int| 0 <= a < b < es.len() ==> es[a].0 != es[b].0
        &&& forall|a: int| 0 <= a < es.len() ==> ((#[trigger] es[a]).1 matches Some(b) ==> bucket_wf(b))
    }

    /// The latest time, in nanoseconds since the semaphore was created, at which a
    /// clock-reading method acted; the next one acts at this time or later.
    pub closed spec fn last_time(&self) -> int {
        self.last as int
    }

    /// No endpoint configured; the clock starts now.
    pub fn new() -> (s: Semaphore)
        ensures
            s.wf(),
            s.entries().len() == 0,
            s.last_time() == 0,
    {
        let s = Semaphore { entries: Vec::new(), epoch: instant_now(), last: 0 };
        assert(s.entries() =~= Seq::<EntryView>::empty());
        s
    }

    /// Nanoseconds since the semaphore was created. The clock is monotonic, so a reading
    /// never goes back; should one lie before the latest reading used, that one is kept.
    fn now(&mut self) -> (n: u128)
        ensures
            n >= old(self).last_time(),
            final(self).last_time() == n,
            final(self).entries() == old(self).entries(),
            final(self).wf() == old(self).wf(),
    {
        let e = elapsed_nanos(&self.epoch);
        let t = if e < self.last {
            self.last
        } else {
            e
        };
        self.last = t;
        t
    }

    fn index_of(&self, key: &str) -> (r: Option<usize>)
        ensures
            match r {
                Some(i) => spec_entry_index(self.entries(), key@) == Some(i as int),
                None => spec_entry_index(self.entries(), key@) is None,
            },
    {
        let ghost es = self.entries();
        proof {
            lemma_entry_index(es, key@);
        }
        let mut i: usize = 0;
        while i < self.entries.len()
            invariant
                i <= self.entries@.len(),
                es == self.entries(),
                forall|j: int| 0 <= j < i ==> es[j].0 != key@,
            decreases self.entries.len() - i,
        {
            assert(es[i as int].0 == self.entries@[i as int].0@);
            if crate::text::str_eq(self.entries[i].0.as_str(), key) {
                assert(es[i as int].0 == key@);
                proof {
                    lemma_entry_index(es, key@);
                }
                assert(spec_entry_index(es, key@) == Some(i as int)) by {
                    match spec_entry_index(es, key@) {
                        Some(i2) => {
                            if i2 < i {
                                assert(es[i2].0 != key@);
                            } else if i2 > i {
                                assert(es[i as int].0 != key@);
                            }
                        },
                        None => {
                            assert(es[i as int].0 != key@);
                        },
                    }
                }
                return Some(i);
            }
            i += 1;
        }
        None
    }

    /// Registers the provider's endpoint at time `now`, unless it is registered already:
    /// `requests_per_minute == 0` means unlimited.
    pub fn configure_at(&mut self, provider: &ModelProvider, now: u128)
        requires
            old(self).wf(),
        ensures
            final(self).wf(),
            final(self).last_time() == old(self).last_time(),
            final(self).entries() == spec_configure(
                old(self).entries(),
                spec_endpoint_key(*provider),
                provider.requests_per_minute as int,
                now as int,
            ),
    {
        let key = endpoint_key(provider);
        let ghost es = self.entries();
        proof {
            lemma_entry_index(es, key@);
        }
        match self.index_of(key.as_str()) {
            Some(_) => {},
            None => {
                let bucket = if provider.requests_per_minute == 0 {
                    None
                } else {
                    Some(TokenBucket::new(provider.requests_per_minute, now))
                };
                let ghost bv = entry_view((key, bucket)).1;
                let ghost kv = key@;
                let entry = (key, bucket);
                assert(entry_view(entry) == (kv, bv));
                self.entries.push(entry);
                assert(self.entries() =~= es.push((kv, bv)));
            },
        }
    }

    /// Registers the provider's endpoint now, unless it is registered already.
    pub fn configure(&mut self, provider: &ModelProvider)
        requires
            old(self).wf(),
        ensures
            final(self).wf(),
            exists|now: int|
                now >= old(self).last_time() && final(self).last_time() == now && final(self).entries()
                    == spec_configure(
                    old(self).entries(),
                    spec_endpoint_key(*provider),
                    provider.requests_per_minute as int,
                    now,
                ),
    {
        let now = self.now();
        self.configure_at(provider, now);
    }

    /// Registers the endpoints of the enabled providers, in order.
    pub fn configure_all_at(&mut self, providers: &Vec<ModelProvider>, now: u128)
        requires
            old(self).wf(),
        ensures
            final(self).wf(),
            final(self).last_time() == old(self).last_time(),
            final(self).entries() == spec_configure_all(old(self).entries(), providers@, now as int),
    {
        let ghost start = self.entries();
        let ghost start_last = self.last_time();
        let mut i: usize = 0;
        while i < providers.len()
            invariant
                i <= providers@.len(),
                self.wf(),
                self.last_time() == start_last,
                self.entries() == spec_configure_all(start, providers@.subrange(0, i as int), now as int),
            decreases providers.len() - i,
        {
            assert(providers@.subrange(0, i + 1).drop_last() =~= providers@.subrange(0, i as int));
            if providers[i].enabled {
                self.configure_at(&providers[i], now);
            }
            i += 1;
        }
        assert(providers@.subrange(0, i as int) =~= providers@);
    }

    /// Registers the endpoints of the enabled providers now.
    pub fn configure_all(&mut self, providers: &Vec<ModelProvider>)
        requires
            old(self).wf(),
        ensures
            final(self).wf(),
            exists|now: int|
                now >= old(self).last_time() && final(self).last_time() == now && final(self).entries()
                    == spec_configure_all(old(self).entries(), providers@, now),
    {
        let now = self.now();
        self.configure_all_at(providers, now);
    }

    /// Takes a token for the provider's endpoint at time `now`: an unconfigured endpoint
    /// is an error, an unlimited one always passes, a limited one passes when its bucket,
    /// refilled at `now`, holds a token, and otherwise reports the wait.
    pub fn check_at(&mut self, provider: &ModelProvider, now: u128) -> (r: Result<(), SemaphoreError>)
        requires
            old(self).wf(),
        ensures
            final(self).wf(),
            final(self).last_time() == old(self).last_time(),
            (r, final(self).entries()) == spec_check(old(self).entries(), spec_endpoint_key(*provider), now as int),
    {
        let key = endpoint_key(provider);
        let ghost es = self.entries();
        proof {
            lemma_entry_index(es, key@);
        }
        match self.index_of(key.as_str()) {
            None => Err(SemaphoreError::NotConfigured),
            Some(i) => {
                let (k, slot) = self.entries.remove(i);
                let ghost removed = self.entries@;
                match slot {
                    None => {
                        self.entries.insert(i, (k, None));
                        assert(self.entries() =~= es);
                        Ok(())
                    },
                    Some(mut b) => {
                        assert(bucket_wf(es[i as int].1->0));
                        let taken = b.try_consume(now);
                        let r = if taken {
                            Ok(())
                        } else {
                            Err(SemaphoreError::Limited { retry_after_nanos: b.time_until_available() })
                        };
                        let ghost bv = b@;
                        let ghost kv = k@;
                        self.entries.insert(i, (k, Some(b)));
                        assert(self.entries() =~= es.update(i as int, (kv, Some(bv))));
                        r
                    },
                }
            },
        }
    }

    /// Takes a token for the provider's endpoint now.
    pub fn check(&mut self, provider: &ModelProvider) -> (r: Result<(), SemaphoreError>)
        requires
            old(self).wf(),
        ensures
            final(self).wf(),
            exists|now: int|
                now >= old(self).last_time() && final(self).last_time() == now && (r, final(self).entries())
                    == spec_check(old(self).entries(), spec_endpoint_key(*provider), now),
    {
        let now = self.now();
        self.check_at(provider, now)
    }

    /// Is a request for the provider's endpoint possible at `now`, without taking a
    /// token? Refills the bucket.
    pub fn is_available_at(&mut self, provider: &ModelProvider, now: u128) -> (b: bool)
        requires
            old(self).wf(),
        ensures
            final(self).wf(),
            final(self).last_time() == old(self).last_time(),
            spec_available(old(self).entries(), spec_endpoint_key(*provider), now as int, b, final(self).entries()),
    {
        let key = endpoint_key(provider);
        let ghost es = self.entries();
        proof {
            lemma_entry_index(es, key@);
        }
        match self.index_of(key.as_str()) {
            None => false,
            Some(i) => {
                let (k, slot) = self.entries.remove(i);
                match slot {
                    None => {
                        self.entries.insert(i, (k, None));
                        assert(self.entries() =~= es);
                        true
                    },
                    Some(mut b) => {
                        assert(bucket_wf(es[i as int].1->0));
                        b.refill(now);
                        let avail = b.has_token();
                        let ghost bv = b@;
                        let ghost kv = k@;
                        self.entries.insert(i, (k, Some(b)));
                        assert(self.entries() =~= es.update(i as int, (kv, Some(bv))));
                        avail
                    },
                }
            },
        }
    }

    /// Is a request for the provider's endpoint possible now?
    pub fn is_available(&mut self, provider: &ModelProvider) -> (b: bool)
        requires
            old(self).wf(),
        ensures
            final(self).wf(),
            exists|now: int|
                #![auto]
                now >= old(self).last_time() && final(self).last_time() == now && spec_available(
                    old(self).entries(),
                    spec_endpoint_key(*provider),
                    now,
                    b,
                    final(self).entries(),
                ),
    {
        let now = self.now();
        self.is_available_at(provider, now)
    }

    /// What a caller that waits for a token does first: the wait is computed from the
    /// bucket as it stands, without refilling it.
    pub fn wait_plan(&self, provider: &ModelProvider) -> (w: WaitPlan)
        requires
            self.wf(),
        ensures
            match spec_entry_index(self.entries(), spec_endpoint_key(*provider)) {
                None => w is NotConfigured,
                Some(i) => match self.entries()[i].1 {
                    None => w is Unlimited,
                    Some(b) => w == WaitPlan::Sleep(spec_wait(b) as u128),
                },
            },
    {
        let key = endpoint_key(provider);
        let ghost es = self.entries();
        proof {
            lemma_entry_index(es, key@);
        }
        match self.index_of(key.as_str()) {
            None => WaitPlan::NotConfigured,
            Some(i) => match &self.entries[i].1 {
                None => WaitPlan::Unlimited,
                Some(b) => {
                    assert(bucket_wf(es[i as int].1->0));
                    WaitPlan::Sleep(b.time_until_available())
                },
            },
        }
    }
}

/// The entries after configuring the enabled providers, in order.
pub open spec fn spec_configure_all(entries: Seq<EntryView>, providers: Seq<ModelProvider>, now: int) -> Seq<EntryView>
    decreases providers.len(),
{
    if providers.len() == 0 {
        entries
    } else {
        let prev = spec_configure_all(entries, providers.drop_last(), now);
        let p = providers.last();
        if p.enabled {
            spec_configure(prev, spec_endpoint_key(p), p.requests_per_minute as int, now)
        } else {
            prev
        }
    }
}

/// What a rate-limited adapter does after its first wait.
#[derive(Debug, PartialEq, Eq, Structural)]
pub enum Admission {
    /// Send the request.
    Proceed,
    /// Configure the endpoint from the provider, wait once more whatever that gives, and
    /// send the request.
    ConfigureAndRetry,
    /// Refuse the request: rate limited, a token is available after this many nanoseconds.
    Reject { retry_after_nanos: u128 },
}

/// The adapter proceeds when the wait succeeded, configures an unknown endpoint and
/// proceeds, and refuses a limited one.
pub fn admission(waited: Result<(), SemaphoreError>) -> (a: Admission)
    ensures
        waited is Ok ==> a == Admission::Proceed,
        waited == Err::<(), SemaphoreError>(SemaphoreError::NotConfigured) ==> a == Admission::ConfigureAndRetry,
        forall|n: u128| waited == Err::<(), SemaphoreError>(SemaphoreError::Limited { retry_after_nanos: n })
            ==> a == (Admission::Reject { retry_after_nanos: n }),
{
    match waited {
        Ok(()) => Admission::Proceed,
        Err(SemaphoreError::NotConfigured) => Admission::ConfigureAndRetry,
        Err(SemaphoreError::Limited { retry_after_nanos }) => Admission::Reject { retry_after_nanos },
    }
}

impl Default for Semaphore {
    fn default() -> (s: Semaphore)
        ensures
            s.wf(),
            s.entries().len() == 0,
    {
        Semaphore::new()
    }
}

/// The entry of a newly configured endpoint: unlimited for 0 requests per minute,
/// otherwise a full bucket for `rpm` requests per minute, filled at `now`.
pub open spec fn spec_fresh_bucket(rpm: int, now: int) -> Option<BucketView> {
    if rpm == 0 {
        None
    } else {
        Some(spec_new_bucket(rpm, now))
    }
}

/// Is `e` the fresh entry of some enabled provider of `providers`, configured at `now`?
pub open spec fn spec_entry_from_enabled(providers: Seq<ModelProvider>, e: EntryView, now: int) -> bool {
    exists|i: int|
        0 <= i < providers.len() && providers[i].enabled && #[trigger] spec_endpoint_key(providers[i]) == e.0 && e.1
            == spec_fresh_bucket(providers[i].requests_per_minute as int, now)
}

/// Configuring one endpoint registers exactly that key more, and leaves the entries
/// already there as they were.
proof fn lemma_configure_registers(entries: Seq<EntryView>, key: Seq<char>, rpm: int, now: int, k: Seq<char>)
    ensures
        spec_entry_index(spec_configure(entries, key, rpm, now), k) is Some <==> (spec_entry_index(entries, k) is Some
            || k == key),
        spec_configure(entries, key, rpm, now).len() >= entries.len(),
        spec_configure(entries, key, rpm, now).subrange(0, entries.len() as int) == entries,
{
    lemma_entry_index(entries, key);
    lemma_entry_index(entries, k);
    let c = spec_configure(entries, key, rpm, now);
    lemma_entry_index(c, k);
    if spec_entry_index(entries, key) is None {
        assert(c.drop_last() =~= entries);
        assert(c.subrange(0, entries.len() as int) =~= entries);
    } else {
        assert(c.subrange(0, entries.len() as int) =~= entries);
    }
}

/// Law: configuring a list of providers registers the endpoint of each enabled provider
/// and nothing else: afterwards a key has an entry exactly when it had one before or an
/// enabled provider of the list has that endpoint (a disabled provider alone leaves its
/// endpoint unconfigured); the entries already there are kept as they were.
pub proof fn lemma_configure_all_registers(entries: Seq<EntryView>, providers: Seq<ModelProvider>, now: int, k: Seq<char>)
    ensures
        spec_entry_index(spec_configure_all(entries, providers, now), k) is Some <==> (spec_entry_index(entries, k)
            is Some || exists|i: int|
            0 <= i < providers.len() && providers[i].enabled && #[trigger] spec_endpoint_key(providers[i]) == k),
        spec_configure_all(entries, providers, now).len() >= entries.len(),
        spec_configure_all(entries, providers, now).subrange(0, entries.len() as int) == entries,
        forall|j: int|
            entries.len() <= j < spec_configure_all(entries, providers, now).len() ==> spec_entry_from_enabled(
                providers,
                #[trigger] spec_configure_all(entries, providers, now)[j],
                now,
            ),
    decreases providers.len(),
{
    if providers.len() > 0 {
        let ps = providers.drop_last();
        lemma_configure_all_registers(entries, ps, now, k);
        let prev = spec_configure_all(entries, ps, now);
        let p = providers.last();
        let ex_prev = exists|i: int| 0 <= i < ps.len() && ps[i].enabled && #[trigger] spec_endpoint_key(ps[i]) == k;
        let ex_all = exists|i: int|
            0 <= i < providers.len() && providers[i].enabled && #[trigger] spec_endpoint_key(providers[i]) == k;
        assert(ex_all <==> (ex_prev || (p.enabled && spec_endpoint_key(p) == k))) by {
            if ex_all {
                let i = choose|i: int|
                    0 <= i < providers.len() && providers[i].enabled && #[trigger] spec_endpoint_key(providers[i]) == k;
                if i < ps.len() {
                    assert(ps[i] == providers[i]);
                }
            }
            if ex_prev {
                let i = choose|i: int| 0 <= i < ps.len() && ps[i].enabled && #[trigger] spec_endpoint_key(ps[i]) == k;
                assert(providers[i] == ps[i]);
            }
            if p.enabled && spec_endpoint_key(p) == k {
                assert(providers[providers.len() - 1] == p);
            }
        }
        let r = spec_configure_all(entries, providers, now);
        assert forall|j: int| entries.len() <= j < prev.len() implies spec_entry_from_enabled(providers, #[trigger] prev[j], now) by {
            assert(spec_entry_from_enabled(ps, prev[j], now));
            let i = choose|i: int|
                0 <= i < ps.len() && ps[i].enabled && #[trigger] spec_endpoint_key(ps[i]) == prev[j].0 && prev[j].1
                    == spec_fresh_bucket(ps[i].requests_per_minute as int, now);
            assert(providers[i] == ps[i]);
        }
        if p.enabled {
            lemma_configure_registers(prev, spec_endpoint_key(p), p.requests_per_minute as int, now, k);
            let c = spec_configure(prev, spec_endpoint_key(p), p.requests_per_minute as int, now);
            assert(c.subrange(0, entries.len() as int) =~= c.subrange(0, prev.len() as int).subrange(
                0,
                entries.len() as int,
            ));
            assert(r == c);
            assert forall|j: int| entries.len() <= j < r.len() implies spec_entry_from_enabled(providers, #[trigger] r[j], now) by {
                if j < prev.len() {
                    assert(r[j] == prev[j]);
                } else {
                    let n = providers.len() - 1;
                    assert(providers[n] == p);
                    assert(spec_endpoint_key(providers[n]) == r[j].0);
                    assert(r[j].1 == spec_fresh_bucket(providers[n].requests_per_minute as int, now));
                }
            }
        } else {
            assert(r == prev);
        }
    } else {
        assert(entries.subrange(0, entries.len() as int) =~= entries);
    }
}

} // verus!
