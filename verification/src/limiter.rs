//! Sliding-window-log rate limiter.
//!
//! Each caller key owns an ordered sequence of admission timestamps
//! (seconds since epoch).  A request is admitted when, after pruning
//! timestamps that have fallen out of the trailing window, fewer than
//! `limit` remain.  The check-and-append step is a single `&mut self`
//! operation, so with the store behind one write lock two concurrent
//! admissions for the same key are serialized and can never both pass
//! when exactly one slot remains.
//!
//! The clock is injected: every operation takes `now` as an argument,
//! which keeps the logic deterministic and testable.

use vstd::prelude::*;

verus! {

/// A timestamp `t` still counts against the budget at time `now`:
/// it is not in the future and strictly less than `window_secs` old.
pub open spec fn is_live(t: u64, now: u64, window_secs: u64) -> bool {
    t <= now && now - t < window_secs
}

/// The timestamps of `stamps` that still count at time `now`.
pub open spec fn live_stamps(stamps: Seq<u64>, now: u64, window_secs: u64) -> Seq<u64> {
    stamps.filter(|t: u64| is_live(t, now, window_secs))
}

/// Whether a request arriving at `now` is admitted against a record
/// currently holding `stamps`.
pub open spec fn admits(stamps: Seq<u64>, now: u64, window_secs: u64, limit: u32) -> bool {
    live_stamps(stamps, now, window_secs).len() < limit
}

/// The record contents after one admission check at `now`: pruned,
/// and extended by `now` exactly when the request was admitted.
pub open spec fn after_admit(stamps: Seq<u64>, now: u64, window_secs: u64, limit: u32) -> Seq<
    u64,
> {
    let live = live_stamps(stamps, now, window_secs);
    if admits(stamps, now, window_secs, limit) {
        live.push(now)
    } else {
        live
    }
}

struct RateEntry {
    key: String,
    stamps: Vec<u64>,
}

/// Rate limiter implementation using a sliding window algorithm.
pub struct RateLimiter {
    /// Maximum number of requests allowed per window.
    limit: u32,
    /// Time window in seconds.
    window_secs: u64,
    /// Request timestamps for each key.
    entries: Vec<RateEntry>,
}

impl RateLimiter {
    /// Maximum number of admissions per key inside one window.
    pub closed spec fn spec_limit(self) -> u32 {
        self.limit
    }

    /// Length of the trailing window, in seconds.
    pub closed spec fn spec_window(self) -> u64 {
        self.window_secs
    }

    /// Whether the store currently holds a record for `key`.
    pub closed spec fn has_key(self, key: Seq<char>) -> bool {
        exists|i: int| 0 <= i < self.entries@.len() && self.entries@[i].key@ == key
    }

    spec fn entry_with(self, key: Seq<char>) -> int {
        choose|i: int| 0 <= i < self.entries@.len() && self.entries@[i].key@ == key
    }

    /// The timestamp record held for `key`; empty when the store has
    /// no record for it.
    pub closed spec fn stamps(self, key: Seq<char>) -> Seq<u64> {
        if self.has_key(key) {
            self.entries@[self.entry_with(key)].stamps@
        } else {
            Seq::<u64>::empty()
        }
    }

    /// Well-formedness: the configuration is in range and no key owns
    /// two records.  Constructors establish it, methods preserve it.
    pub closed spec fn wf(self) -> bool {
        &&& 1 <= self.limit
        &&& 1 <= self.window_secs
        &&& forall|i: int, j: int|
            0 <= i < j < self.entries@.len() ==> self.entries@[i].key@ != self.entries@[j].key@
    }

    /// Create a new rate limiter for a (limit, window) configuration.
    pub fn new(limit: u32, window_secs: u64) -> (r: RateLimiter)
        requires
            1 <= limit,
            1 <= window_secs,
        ensures
            r.wf(),
            r.spec_limit() == limit,
            r.spec_window() == window_secs,
            forall|k: Seq<char>| !r.has_key(k) && r.stamps(k) == Seq::<u64>::empty(),
    {
        RateLimiter { limit, window_secs, entries: Vec::new() }
    }

    /// Atomically prune the record for `key` and admit the request if
    /// fewer than `limit` live timestamps remain; admission appends
    /// `now`.  Records for other keys are untouched.
    pub fn check_rate_limit(&mut self, key: &str, now: u64) -> (admitted: bool)
        requires
            old(self).wf(),
        ensures
            final(self).wf(),
            final(self).spec_limit() == old(self).spec_limit(),
            final(self).spec_window() == old(self).spec_window(),
            admitted == admits(
                old(self).stamps(key@),
                now,
                old(self).spec_window(),
                old(self).spec_limit(),
            ),
            final(self).has_key(key@),
            final(self).stamps(key@) == after_admit(
                old(self).stamps(key@),
                now,
                old(self).spec_window(),
                old(self).spec_limit(),
            ),
            forall|k: Seq<char>|
                k != key@ ==> final(self).has_key(k) == old(self).has_key(k) && final(self).stamps(
                    k,
                ) == old(self).stamps(k),
    {
        let ghost pre = *self;
        match find_entry(&self.entries, key) {
            Some(i) => {
                proof {
                    assert(pre.has_key(key@));
                    let j = pre.entry_with(key@);
                    assert(0 <= j < pre.entries@.len() && pre.entries@[j].key@ == key@);
                    assert(j == i as int);
                }
                let pruned = prune_stamps(&self.entries[i].stamps, now, self.window_secs);
                let admitted = pruned.len() < self.limit as usize;
                let mut stamps = pruned;
                if admitted {
                    stamps.push(now);
                }
                let entry = RateEntry { key: key.to_owned(), stamps };
                self.entries.set(i, entry);
                proof {
                    lemma_stamp_views_after_update(pre, *self, i as int, key@);
                }
                admitted
            },
            None => {
                proof {
                    assert(!pre.has_key(key@));
                    assert(live_stamps(Seq::<u64>::empty(), now, self.window_secs)
                        =~= Seq::<u64>::empty()) by {
                        reveal(Seq::filter);
                    }
                }
                let mut stamps: Vec<u64> = Vec::new();
                stamps.push(now);
                let entry = RateEntry { key: key.to_owned(), stamps };
                self.entries.push(entry);
                proof {
                    lemma_stamp_views_after_push(pre, *self, key@);
                }
                true
            },
        }
    }

    /// Remaining budget for `key` at time `now`: `limit` minus the
    /// number of live timestamps, floored at zero.  Read-only.
    pub fn get_remaining(&self, key: &str, now: u64) -> (remaining: u32)
        requires
            self.wf(),
        ensures
            remaining <= self.spec_limit(),
            remaining == if live_stamps(self.stamps(key@), now, self.spec_window()).len()
                <= self.spec_limit() {
                self.spec_limit() - live_stamps(self.stamps(key@), now, self.spec_window()).len()
            } else {
                0int
            },
    {
        match find_entry(&self.entries, key) {
            Some(i) => {
                proof {
                    assert(self.has_key(key@));
                    let j = self.entry_with(key@);
                    assert(0 <= j < self.entries@.len() && self.entries@[j].key@ == key@);
                    assert(j == i as int);
                }
                let live = count_live(&self.entries[i].stamps, now, self.window_secs);
                if live < self.limit as usize {
                    self.limit - live as u32
                } else {
                    0
                }
            },
            None => {
                proof {
                    assert(!self.has_key(key@));
                    assert(live_stamps(Seq::<u64>::empty(), now, self.window_secs)
                        =~= Seq::<u64>::empty()) by {
                        reveal(Seq::filter);
                    }
                }
                self.limit
            },
        }
    }

    /// Prune every record and drop the keys whose records became
    /// empty, bounding the memory held for callers that went quiet.
    pub fn cleanup(&mut self, now: u64)
        requires
            old(self).wf(),
        ensures
            final(self).wf(),
            final(self).spec_limit() == old(self).spec_limit(),
            final(self).spec_window() == old(self).spec_window(),
            forall|k: Seq<char>|
                final(self).has_key(k) <==> (old(self).has_key(k) && live_stamps(
                    old(self).stamps(k),
                    now,
                    old(self).spec_window(),
                ).len() > 0),
            forall|k: Seq<char>|
                final(self).stamps(k) == live_stamps(
                    old(self).stamps(k),
                    now,
                    old(self).spec_window(),
                ),
    {
        let ghost pre = *self;
        let n = self.entries.len();
        let mut kept: Vec<RateEntry> = Vec::new();
        let mut i: usize = 0;
        while i < n
            invariant
                n == pre.entries@.len(),
                self.entries@ == pre.entries@,
                self.window_secs == pre.window_secs,
                pre.wf(),
                i <= n,
                forall|a: int, b: int|
                    0 <= a < b < kept@.len() ==> kept@[a].key@ != kept@[b].key@,
                forall|a: int|
                    0 <= a < kept@.len() ==> exists|b: int|
                        0 <= b < i && pre.entries@[b].key@ == #[trigger] kept@[a].key@,
                forall|b: int|
                    0 <= b < i ==> {
                        let live = live_stamps(
                            #[trigger] pre.entries@[b].stamps@,
                            now,
                            pre.window_secs,
                        );
                        if live.len() > 0 {
                            exists|a: int|
                                0 <= a < kept@.len() && kept@[a].key@ == pre.entries@[b].key@
                                    && kept@[a].stamps@ == live
                        } else {
                            forall|a: int|
                                0 <= a < kept@.len() ==> #[trigger] kept@[a].key@
                                    != pre.entries@[b].key@
                        }
                    },
            decreases n - i,
        {
            let pruned = prune_stamps(&self.entries[i].stamps, now, self.window_secs);
            if pruned.len() > 0 {
                let ghost old_kept = kept@;
                let entry = RateEntry { key: clone_string(&self.entries[i].key), stamps: pruned };
                kept.push(entry);
                proof {
                    assert(forall|a: int|
                        0 <= a < old_kept.len() ==> kept@[a].key@ == #[trigger] old_kept[a].key@
                            && kept@[a].stamps@ == old_kept[a].stamps@);
                    assert(kept@[old_kept.len() as int].key@ == pre.entries@[i as int].key@);
                    assert forall|a: int, b: int|
                        0 <= a < b < kept@.len() implies kept@[a].key@ != kept@[b].key@ by {
                        if b == kept@.len() - 1 {
                            let witness = choose|w: int|
                                0 <= w < i && pre.entries@[w].key@ == kept@[a].key@;
                        }
                    }
                }
            }
            i += 1;
        }
        let ghost kseq = kept@;
        self.entries = kept;
        proof {
            assert forall|a: int| 0 <= a < self.entries@.len() implies pre.has_key(
                #[trigger] self.entries@[a].key@,
            ) by {
                let b = choose|b: int| 0 <= b < i && pre.entries@[b].key@ == kseq[a].key@;
                assert(0 <= b < pre.entries@.len() && pre.entries@[b].key@
                    == self.entries@[a].key@);
            }
            assert forall|b: int| 0 <= b < pre.entries@.len() implies ({
                let live = live_stamps(#[trigger] pre.entries@[b].stamps@, now, pre.spec_window());
                if live.len() > 0 {
                    exists|a: int|
                        0 <= a < self.entries@.len() && self.entries@[a].key@
                            == pre.entries@[b].key@ && self.entries@[a].stamps@ == live
                } else {
                    forall|a: int|
                        0 <= a < self.entries@.len() ==> #[trigger] self.entries@[a].key@
                            != pre.entries@[b].key@
                }
            }) by {
                let live = live_stamps(pre.entries@[b].stamps@, now, pre.spec_window());
                if live.len() > 0 {
                    let a = choose|a: int|
                        0 <= a < kseq.len() && kseq[a].key@ == pre.entries@[b].key@
                            && kseq[a].stamps@ == live;
                    assert(0 <= a < self.entries@.len() && self.entries@[a].key@
                        == pre.entries@[b].key@ && self.entries@[a].stamps@ == live);
                } else {
                    assert forall|a: int|
                        0 <= a < self.entries@.len() implies #[trigger] self.entries@[a].key@
                            != pre.entries@[b].key@ by {
                        assert(kseq[a].key@ != pre.entries@[b].key@);
                    }
                }
            }
            lemma_stamp_views_after_sweep(pre, *self, now);
        }
    }
}

/// First entry index holding `key`, if any.
fn find_entry(entries: &Vec<RateEntry>, key: &str) -> (r: Option<usize>)
    ensures
        match r {
            Some(i) => i < entries@.len() && entries@[i as int].key@ == key@,
            None => forall|j: int| 0 <= j < entries@.len() ==> entries@[j].key@ != key@,
        },
{
    let n = entries.len();
    for i in 0..n
        invariant
            n == entries@.len(),
            forall|j: int| 0 <= j < i ==> entries@[j].key@ != key@,
    {
        if crate::text::str_eq(entries[i].key.as_str(), key) {
            return Some(i);
        }
    }
    None
}

/// The live timestamps of `stamps` at `now`, in order.
fn prune_stamps(stamps: &Vec<u64>, now: u64, window_secs: u64) -> (r: Vec<u64>)
    ensures
        r@ == live_stamps(stamps@, now, window_secs),
{
    let n = stamps.len();
    let mut r: Vec<u64> = Vec::new();
    proof {
        assert(stamps@.take(0) =~= Seq::<u64>::empty());
        assert(live_stamps(Seq::<u64>::empty(), now, window_secs) =~= Seq::<u64>::empty()) by {
            reveal(Seq::filter);
        }
    }
    for i in 0..n
        invariant
            n == stamps@.len(),
            r@ == live_stamps(stamps@.take(i as int), now, window_secs),
    {
        let t = stamps[i];
        proof {
            broadcast use Seq::lemma_filter_push;

            assert(stamps@.take(i + 1) =~= stamps@.take(i as int).push(t));
        }
        if t <= now && now - t < window_secs {
            r.push(t);
        }
    }
    proof {
        assert(stamps@.take(n as int) =~= stamps@);
    }
    r
}

/// How many timestamps of `stamps` are live at `now`.
fn count_live(stamps: &Vec<u64>, now: u64, window_secs: u64) -> (count: usize)
    ensures
        count == live_stamps(stamps@, now, window_secs).len(),
{
    let live = prune_stamps(stamps, now, window_secs);
    live.len()
}

/// Clone of a `String` that keeps its view.
fn clone_string(s: &String) -> (r: String)
    ensures
        r@ == s@,
{
    s.as_str().to_owned()
}

proof fn lemma_stamp_views_after_update(pre: RateLimiter, post: RateLimiter, i: int, key: Seq<char>)
    requires
        pre.wf(),
        0 <= i < pre.entries@.len(),
        pre.entries@[i].key@ == key,
        post.entries@.len() == pre.entries@.len(),
        post.entries@[i].key@ == key,
        forall|j: int| 0 <= j < pre.entries@.len() && j != i ==> post.entries@[j] == pre.entries@[j],
    ensures
        post.has_key(key),
        post.stamps(key) == post.entries@[i].stamps@,
        pre.stamps(key) == pre.entries@[i].stamps@,
        forall|k: Seq<char>|
            k != key ==> post.has_key(k) == pre.has_key(k) && post.stamps(k) == pre.stamps(k),
{
    assert(post.has_key(key));
    assert(pre.has_key(key));
    let jpost = post.entry_with(key);
    assert(0 <= jpost < post.entries@.len() && post.entries@[jpost].key@ == key);
    assert(jpost == i) by {
        if jpost != i {
            assert(pre.entries@[jpost].key@ == key);
        }
    }
    let jpre = pre.entry_with(key);
    assert(0 <= jpre < pre.entries@.len() && pre.entries@[jpre].key@ == key);
    assert(jpre == i);
    assert forall|k: Seq<char>| k != key implies post.has_key(k) == pre.has_key(k) && post.stamps(
        k,
    ) == pre.stamps(k) by {
        if pre.has_key(k) {
            let j = pre.entry_with(k);
            assert(j != i);
            assert(post.entries@[j].key@ == k);
            assert(post.has_key(k));
        }
        if post.has_key(k) {
            let j = post.entry_with(k);
            assert(j != i);
            assert(pre.entries@[j].key@ == k);
            assert(pre.has_key(k));
        }
        if pre.has_key(k) {
            let jq = pre.entry_with(k);
            let jp = post.entry_with(k);
            assert(jq != i && jp != i);
            assert(pre.entries@[jp].key@ == k);
            assert(jp == jq) by {
                if jp != jq {
                    assert(pre.entries@[jp].key@ != pre.entries@[jq].key@);
                }
            }
            assert(post.stamps(k) == pre.stamps(k));
        }
    }
}

proof fn lemma_stamp_views_after_push(pre: RateLimiter, post: RateLimiter, key: Seq<char>)
    requires
        pre.wf(),
        !pre.has_key(key),
        post.entries@.len() == pre.entries@.len() + 1,
        post.entries@[pre.entries@.len() as int].key@ == key,
        forall|j: int| 0 <= j < pre.entries@.len() ==> post.entries@[j] == pre.entries@[j],
    ensures
        post.has_key(key),
        post.stamps(key) == post.entries@[pre.entries@.len() as int].stamps@,
        forall|k: Seq<char>|
            k != key ==> post.has_key(k) == pre.has_key(k) && post.stamps(k) == pre.stamps(k),
{
    let n = pre.entries@.len() as int;
    assert(post.has_key(key));
    let jpost = post.entry_with(key);
    assert(0 <= jpost < post.entries@.len() && post.entries@[jpost].key@ == key);
    assert(jpost == n) by {
        if jpost != n {
            assert(pre.entries@[jpost].key@ == key);
            assert(pre.has_key(key));
        }
    }
    assert forall|k: Seq<char>| k != key implies post.has_key(k) == pre.has_key(k) && post.stamps(
        k,
    ) == pre.stamps(k) by {
        if pre.has_key(k) {
            let j = pre.entry_with(k);
            assert(post.entries@[j].key@ == k);
            assert(post.has_key(k));
        }
        if post.has_key(k) {
            let j = post.entry_with(k);
            assert(j != n);
            assert(pre.entries@[j].key@ == k);
            assert(pre.has_key(k));
        }
        if pre.has_key(k) {
            let jq = pre.entry_with(k);
            let jp = post.entry_with(k);
            assert(jp != n);
            assert(pre.entries@[jp].key@ == k);
            assert(jp == jq) by {
                if jp != jq {
                    assert(pre.entries@[jp].key@ != pre.entries@[jq].key@);
                }
            }
            assert(post.stamps(k) == pre.stamps(k));
        }
    }
}

proof fn lemma_stamp_views_after_sweep(pre: RateLimiter, post: RateLimiter, now: u64)
    requires
        pre.wf(),
        post.spec_window() == pre.spec_window(),
        forall|a: int, b: int|
            0 <= a < b < post.entries@.len() ==> post.entries@[a].key@ != post.entries@[b].key@,
        forall|a: int|
            0 <= a < post.entries@.len() ==> pre.has_key(#[trigger] post.entries@[a].key@),
        forall|b: int|
            0 <= b < pre.entries@.len() ==> {
                let live = live_stamps(
                    #[trigger] pre.entries@[b].stamps@,
                    now,
                    pre.spec_window(),
                );
                if live.len() > 0 {
                    exists|a: int|
                        0 <= a < post.entries@.len() && post.entries@[a].key@
                            == pre.entries@[b].key@ && post.entries@[a].stamps@ == live
                } else {
                    forall|a: int|
                        0 <= a < post.entries@.len() ==> #[trigger] post.entries@[a].key@
                            != pre.entries@[b].key@
                }
            },
    ensures
        forall|k: Seq<char>|
            post.has_key(k) <==> (pre.has_key(k) && live_stamps(
                pre.stamps(k),
                now,
                pre.spec_window(),
            ).len() > 0),
        forall|k: Seq<char>|
            post.stamps(k) == live_stamps(pre.stamps(k), now, pre.spec_window()),
{
    assert(live_stamps(Seq::<u64>::empty(), now, pre.spec_window()) =~= Seq::<u64>::empty()) by {
        reveal(Seq::filter);
    }
    assert forall|k: Seq<char>|
        post.has_key(k) <==> (pre.has_key(k) && live_stamps(
            pre.stamps(k),
            now,
            pre.spec_window(),
        ).len() > 0) by {
        lemma_sweep_key(pre, post, now, k);
    }
    assert forall|k: Seq<char>|
        post.stamps(k) == live_stamps(pre.stamps(k), now, pre.spec_window()) by {
        lemma_sweep_key(pre, post, now, k);
    }
}

proof fn lemma_sweep_key(pre: RateLimiter, post: RateLimiter, now: u64, k: Seq<char>)
    requires
        pre.wf(),
        post.spec_window() == pre.spec_window(),
        forall|a: int, b: int|
            0 <= a < b < post.entries@.len() ==> post.entries@[a].key@ != post.entries@[b].key@,
        forall|a: int|
            0 <= a < post.entries@.len() ==> pre.has_key(#[trigger] post.entries@[a].key@),
        forall|b: int|
            0 <= b < pre.entries@.len() ==> {
                let live = live_stamps(
                    #[trigger] pre.entries@[b].stamps@,
                    now,
                    pre.spec_window(),
                );
                if live.len() > 0 {
                    exists|a: int|
                        0 <= a < post.entries@.len() && post.entries@[a].key@
                            == pre.entries@[b].key@ && post.entries@[a].stamps@ == live
                } else {
                    forall|a: int|
                        0 <= a < post.entries@.len() ==> #[trigger] post.entries@[a].key@
                            != pre.entries@[b].key@
                }
            },
    ensures
        post.has_key(k) <==> (pre.has_key(k) && live_stamps(
            pre.stamps(k),
            now,
            pre.spec_window(),
        ).len() > 0),
        post.stamps(k) == live_stamps(pre.stamps(k), now, pre.spec_window()),
{
    assert(live_stamps(Seq::<u64>::empty(), now, pre.spec_window()) =~= Seq::<u64>::empty()) by {
        reveal(Seq::filter);
    }
    if pre.has_key(k) {
        let b = pre.entry_with(k);
        assert(0 <= b < pre.entries@.len() && pre.entries@[b].key@ == k);
        assert(pre.stamps(k) == pre.entries@[b].stamps@);
        let live = live_stamps(pre.entries@[b].stamps@, now, pre.spec_window());
        if live.len() > 0 {
            let a = choose|a: int|
                0 <= a < post.entries@.len() && post.entries@[a].key@ == pre.entries@[b].key@
                    && post.entries@[a].stamps@ == live;
            assert(post.has_key(k));
            let ap = post.entry_with(k);
            assert(0 <= ap < post.entries@.len() && post.entries@[ap].key@ == k);
            assert(ap == a) by {
                if ap != a {
                    assert(post.entries@[ap].key@ != post.entries@[a].key@);
                }
            }
            assert(post.stamps(k) == live);
        } else {
            assert(!post.has_key(k)) by {
                if post.has_key(k) {
                    let a = post.entry_with(k);
                    assert(post.entries@[a].key@ == pre.entries@[b].key@);
                }
            }
            assert(post.stamps(k) =~= live);
        }
    } else {
        assert(!post.has_key(k)) by {
            if post.has_key(k) {
                let a = post.entry_with(k);
                assert(pre.has_key(post.entries@[a].key@));
            }
        }
        assert(pre.stamps(k) == Seq::<u64>::empty());
        assert(post.stamps(k) == Seq::<u64>::empty());
    }
}


/// The record contents after a sequence of admission checks for one
/// key, made at the given times, starting from `stamps0`.
pub open spec fn admit_run(stamps0: Seq<u64>, times: Seq<u64>, window_secs: u64, limit: u32) -> Seq<
    u64,
>
    decreases times.len(),
{
    if times.len() == 0 {
        stamps0
    } else {
        after_admit(
            admit_run(stamps0, times.drop_last(), window_secs, limit),
            times.last(),
            window_secs,
            limit,
        )
    }
}

/// The admission decisions produced by that same sequence of checks.
pub open spec fn admit_outcomes(
    stamps0: Seq<u64>,
    times: Seq<u64>,
    window_secs: u64,
    limit: u32,
) -> Seq<bool>
    decreases times.len(),
{
    if times.len() == 0 {
        Seq::<bool>::empty()
    } else {
        admit_outcomes(stamps0, times.drop_last(), window_secs, limit).push(
            admits(
                admit_run(stamps0, times.drop_last(), window_secs, limit),
                times.last(),
                window_secs,
                limit,
            ),
        )
    }
}

/// How many decisions in a sequence were admissions.
pub open spec fn count_true(s: Seq<bool>) -> int
    decreases s.len(),
{
    if s.len() == 0 {
        0int
    } else {
        count_true(s.drop_last()) + if s.last() {
            1int
        } else {
            0int
        }
    }
}

/// The calls of a burst are ordered and all lie inside one window:
/// the newest is less than `window_secs` after the oldest.
pub open spec fn burst_within_window(times: Seq<u64>, window_secs: u64) -> bool {
    forall|i: int, j: int|
        0 <= i <= j < times.len() ==> times[i] <= times[j] && times[j] - times[i] < window_secs
}

proof fn lemma_live_all(stamps: Seq<u64>, now: u64, window_secs: u64)
    requires
        forall|i: int| 0 <= i < stamps.len() ==> is_live(#[trigger] stamps[i], now, window_secs),
    ensures
        live_stamps(stamps, now, window_secs) == stamps,
    decreases stamps.len(),
{
    reveal(Seq::filter);
    if stamps.len() > 0 {
        lemma_live_all(stamps.drop_last(), now, window_secs);
        assert(is_live(stamps.last(), now, window_secs));
        assert(live_stamps(stamps, now, window_secs) =~= stamps);
    } else {
        assert(live_stamps(stamps, now, window_secs) =~= stamps);
    }
}

proof fn lemma_live_none(stamps: Seq<u64>, now: u64, window_secs: u64)
    requires
        forall|i: int| 0 <= i < stamps.len() ==> !is_live(#[trigger] stamps[i], now, window_secs),
    ensures
        live_stamps(stamps, now, window_secs) == Seq::<u64>::empty(),
    decreases stamps.len(),
{
    reveal(Seq::filter);
    if stamps.len() > 0 {
        lemma_live_none(stamps.drop_last(), now, window_secs);
        assert(live_stamps(stamps, now, window_secs) =~= Seq::<u64>::empty());
    } else {
        assert(live_stamps(stamps, now, window_secs) =~= Seq::<u64>::empty());
    }
}

/// Law: for any key and any configuration, a burst of calls inside a
/// single window starting from an empty record is admitted exactly up
/// to the limit -- the first `limit` calls return true, every later
/// call in the same window returns false -- and the record ends up
/// holding the admitted times.
pub proof fn lemma_burst_admissions(times: Seq<u64>, window_secs: u64, limit: u32)
    requires
        1 <= limit,
        burst_within_window(times, window_secs),
    ensures
        admit_outcomes(Seq::<u64>::empty(), times, window_secs, limit).len() == times.len(),
        forall|i: int|
            0 <= i < times.len() ==> (admit_outcomes(
                Seq::<u64>::empty(),
                times,
                window_secs,
                limit,
            )[i] <==> i < limit),
        admit_run(Seq::<u64>::empty(), times, window_secs, limit) == if times.len() <= limit {
            times
        } else {
            times.take(limit as int)
        },
    decreases times.len(),
{
    if times.len() == 0 {
        assert(admit_run(Seq::<u64>::empty(), times, window_secs, limit) =~= times);
    } else {
        let ts = times.drop_last();
        let t = times.last();
        assert(burst_within_window(ts, window_secs)) by {
            assert forall|i: int, j: int| 0 <= i <= j < ts.len() implies ts[i] <= ts[j] && ts[j]
                - ts[i] < window_secs by {
                assert(times[i] <= times[j] && times[j] - times[i] < window_secs);
            }
        }
        lemma_burst_admissions(ts, window_secs, limit);
        let state = admit_run(Seq::<u64>::empty(), ts, window_secs, limit);
        assert forall|i: int| 0 <= i < state.len() implies is_live(
            #[trigger] state[i],
            t,
            window_secs,
        ) by {
            assert(state[i] == times[i]);
            assert(0 <= i <= times.len() - 1 < times.len());
            assert(times[i] <= times[times.len() - 1] && times[times.len() - 1] - times[i]
                < window_secs);
        }
        lemma_live_all(state, t, window_secs);
        if ts.len() < limit {
            assert(state == ts);
            assert(admits(state, t, window_secs, limit));
            assert(admit_run(Seq::<u64>::empty(), times, window_secs, limit) =~= times);
        } else {
            assert(state =~= ts.take(limit as int));
            assert(state.len() == limit);
            assert(!admits(state, t, window_secs, limit));
            assert(admit_run(Seq::<u64>::empty(), times, window_secs, limit) =~= times.take(
                limit as int,
            ));
        }
    }
}

proof fn lemma_count_true_threshold(s: Seq<bool>, m: int)
    requires
        0 <= m,
        forall|i: int| 0 <= i < s.len() ==> (s[i] <==> i < m),
    ensures
        count_true(s) == if s.len() <= m {
            s.len() as int
        } else {
            m
        },
    decreases s.len(),
{
    if s.len() > 0 {
        lemma_count_true_threshold(s.drop_last(), m);
    }
}

/// Law: when more calls than the limit race on one key inside one
/// window, serialization yields exactly `limit` admissions and the
/// rest rejections, in whatever order the calls were interleaved.
pub proof fn lemma_burst_admit_count(times: Seq<u64>, window_secs: u64, limit: u32)
    requires
        1 <= limit,
        burst_within_window(times, window_secs),
        times.len() >= limit,
    ensures
        count_true(admit_outcomes(Seq::<u64>::empty(), times, window_secs, limit)) == limit,
{
    lemma_burst_admissions(times, window_secs, limit);
    lemma_count_true_threshold(
        admit_outcomes(Seq::<u64>::empty(), times, window_secs, limit),
        limit as int,
    );
}

/// Law: once the whole window has slid past every recorded timestamp,
/// the next call for that key is admitted again.
pub proof fn lemma_window_elapsed(stamps: Seq<u64>, now: u64, window_secs: u64, limit: u32)
    requires
        1 <= limit,
        forall|i: int| 0 <= i < stamps.len() ==> !is_live(#[trigger] stamps[i], now, window_secs),
    ensures
        admits(stamps, now, window_secs, limit),
{
    lemma_live_none(stamps, now, window_secs);
}

/// Law: after exactly `limit` admissions inside one window the record
/// holds `limit` live timestamps at the time of the last call, so the
/// remaining budget reported for the key is zero.
pub proof fn lemma_budget_exhausted(times: Seq<u64>, window_secs: u64, limit: u32)
    requires
        1 <= limit,
        burst_within_window(times, window_secs),
        times.len() == limit,
    ensures
        live_stamps(
            admit_run(Seq::<u64>::empty(), times, window_secs, limit),
            times.last(),
            window_secs,
        ).len() == limit,
{
    lemma_burst_admissions(times, window_secs, limit);
    let state = admit_run(Seq::<u64>::empty(), times, window_secs, limit);
    assert(state == times);
    assert forall|i: int| 0 <= i < state.len() implies is_live(
        #[trigger] state[i],
        times.last(),
        window_secs,
    ) by {
        assert(0 <= i <= times.len() - 1 < times.len());
        assert(times[i] <= times[times.len() - 1] && times[times.len() - 1] - times[i]
            < window_secs);
    }
    lemma_live_all(state, times.last(), window_secs);
}


proof fn lemma_live_sorted_bounded(stamps: Seq<u64>, now: u64, window_secs: u64, bound: u64)
    requires
        forall|i: int, j: int| 0 <= i <= j < stamps.len() ==> stamps[i] <= stamps[j],
        forall|i: int| 0 <= i < stamps.len() ==> #[trigger] stamps[i] <= bound,
    ensures
        forall|i: int, j: int|
            0 <= i <= j < live_stamps(stamps, now, window_secs).len() ==> live_stamps(
                stamps,
                now,
                window_secs,
            )[i] <= live_stamps(stamps, now, window_secs)[j],
        forall|i: int|
            0 <= i < live_stamps(stamps, now, window_secs).len() ==> #[trigger] live_stamps(
                stamps,
                now,
                window_secs,
            )[i] <= bound,
    decreases stamps.len(),
{
    reveal(Seq::filter);
    if stamps.len() > 0 {
        let rest = stamps.drop_last();
        lemma_live_sorted_bounded(rest, now, window_secs, bound);
        if is_live(stamps.last(), now, window_secs) {
            lemma_live_sorted_bounded(rest, now, window_secs, stamps.last());
        }
    }
}

/// Law: within one key the recorded timestamps are monotonically
/// non-decreasing.  When the record is ordered and the clock has not
/// gone backward, an admission check leaves it ordered, with every
/// timestamp at most `now`.
pub proof fn lemma_order_preserved(stamps: Seq<u64>, now: u64, window_secs: u64, limit: u32)
    requires
        forall|i: int, j: int| 0 <= i <= j < stamps.len() ==> stamps[i] <= stamps[j],
        forall|i: int| 0 <= i < stamps.len() ==> #[trigger] stamps[i] <= now,
    ensures
        forall|i: int, j: int|
            0 <= i <= j < after_admit(stamps, now, window_secs, limit).len() ==> after_admit(
                stamps,
                now,
                window_secs,
                limit,
            )[i] <= after_admit(stamps, now, window_secs, limit)[j],
        forall|i: int|
            0 <= i < after_admit(stamps, now, window_secs, limit).len() ==> #[trigger] after_admit(
                stamps,
                now,
                window_secs,
                limit,
            )[i] <= now,
{
    lemma_live_sorted_bounded(stamps, now, window_secs, now);
}

} // verus!
