//! Per-client admission control: sliding-window request counting and
//! hard-reset token budgeting, both keyed by the caller's network identity.
//!
//! A client identity is the caller's network address, encoded as a `u128`
//! (an IPv4 address is widened into the IPv6 space by the embedding code).
//! Time is a millisecond reading of a monotonic clock; the trailing window
//! is sixty seconds.

use vstd::prelude::*;
use std::collections::HashMap;

verus! {

broadcast use vstd::std_specs::hash::group_hash_axioms;

/// Length of the trailing rate window, in milliseconds.
pub const WINDOW_MILLIS: u64 = 60000;

/// A request timestamp still counts against the budget at time `now`.
pub open spec fn fresh_at(t: u64, now: u64) -> bool {
    now < t + WINDOW_MILLIS
}

/// The request window after the lazy purge of entries older than the window.
pub open spec fn purged(win: Seq<u64>, now: u64) -> Seq<u64> {
    win.filter(|t: u64| fresh_at(t, now))
}

/// Whether a request is admitted against window `win` at time `now`:
/// strictly fewer than `max` fresh entries may already be present.
pub open spec fn admit_allowed(win: Seq<u64>, now: u64, max: u32) -> bool {
    purged(win, now).len() < max as nat
}

/// The request window left behind by one admission check: purged, and with
/// `now` appended exactly when the request was admitted.
pub open spec fn window_after(win: Seq<u64>, now: u64, max: u32) -> Seq<u64> {
    if admit_allowed(win, now, max) {
        purged(win, now).push(now)
    } else {
        purged(win, now)
    }
}

/// The request window a map of per-identity windows holds for `id`;
/// an identity never seen before has an empty window.
pub open spec fn window_of(m: Map<u128, Seq<u64>>, id: u128) -> Seq<u64> {
    if m.contains_key(id) {
        m[id]
    } else {
        Seq::empty()
    }
}

/// The whole per-identity request state after one admission check for `id`.
pub open spec fn requests_after(m: Map<u128, Seq<u64>>, id: u128, now: u64, max: u32) -> Map<
    u128,
    Seq<u64>,
> {
    m.insert(id, window_after(window_of(m, id), now, max))
}

/// A token window is a pair of the window's start and the count accumulated
/// since. A reset is due when the identity has no window yet, or when its
/// window started a full sixty seconds ago or more.
pub open spec fn token_reset_due(entry: Option<(u64, u32)>, now: u64) -> bool {
    match entry {
        None => true,
        Some(e) => now >= e.0 + WINDOW_MILLIS,
    }
}

/// Whether a token record succeeds: a reset always succeeds, and otherwise
/// the accumulated count plus the new tokens must stay within the budget.
pub open spec fn tokens_allowed(entry: Option<(u64, u32)>, tokens: u32, now: u64, max: u32) -> bool {
    token_reset_due(entry, now) || (entry matches Some(e) && e.1 + tokens <= max)
}

/// The token window after one record call. On a due reset the window starts
/// anew at `now` with exactly the new call's tokens, however large; otherwise
/// the count grows only when the budget admits it.
pub open spec fn token_entry_after(entry: Option<(u64, u32)>, tokens: u32, now: u64, max: u32) -> (
    u64,
    u32,
) {
    if token_reset_due(entry, now) {
        (now, tokens)
    } else {
        let e = entry->Some_0;
        if e.1 + tokens <= max {
            (e.0, (e.1 + tokens) as u32)
        } else {
            e
        }
    }
}

/// The whole per-identity token state after one record call for `id`.
pub open spec fn tokens_after(
    m: Map<u128, (u64, u32)>,
    id: u128,
    tokens: u32,
    now: u64,
    max: u32,
) -> Map<u128, (u64, u32)> {
    m.insert(id, token_entry_after(token_entry_of(m, id), tokens, now, max))
}

/// The token window a map of per-identity entries holds for `id`.
pub open spec fn token_entry_of(m: Map<u128, (u64, u32)>, id: u128) -> Option<(u64, u32)> {
    if m.contains_key(id) {
        Some(m[id])
    } else {
        None
    }
}

/// The request window produced by `k` consecutive admission checks for one
/// identity, all at time `now`, starting from an identity never seen.
pub open spec fn repeated_window(k: nat, now: u64, max: u32) -> Seq<u64>
    decreases k,
{
    if k == 0 {
        Seq::empty()
    } else {
        window_after(repeated_window((k - 1) as nat, now, max), now, max)
    }
}

proof fn lemma_filter_all_fresh(win: Seq<u64>, now: u64)
    requires
        forall|i: int| 0 <= i < win.len() ==> fresh_at(#[trigger] win[i], now),
    ensures
        purged(win, now) =~= win,
    decreases win.len(),
{
    reveal(Seq::filter);
    if win.len() > 0 {
        lemma_filter_all_fresh(win.drop_last(), now);
    }
}

proof fn lemma_filter_none_fresh(win: Seq<u64>, now: u64)
    requires
        forall|i: int| 0 <= i < win.len() ==> !fresh_at(#[trigger] win[i], now),
    ensures
        purged(win, now) =~= Seq::<u64>::empty(),
    decreases win.len(),
{
    reveal(Seq::filter);
    if win.len() > 0 {
        lemma_filter_none_fresh(win.drop_last(), now);
    }
}

proof fn lemma_repeated_window_shape(k: nat, now: u64, max: u32)
    requires
        k <= max,
    ensures
        repeated_window(k, now, max) =~= Seq::new(k, |i: int| now),
    decreases k,
{
    if k > 0 {
        lemma_repeated_window_shape((k - 1) as nat, now, max);
        lemma_filter_all_fresh(repeated_window((k - 1) as nat, now, max), now);
    }
}

/// Inclusive boundary of the request budget: with a budget of `n` requests
/// per minute, `n` admission checks at one instant for a fresh identity all
/// succeed, the (n+1)-th at that instant is rejected, and a further check
/// once the window has fully elapsed is admitted again.
pub proof fn lemma_inclusive_boundary(now: u64, later: u64, n: u32)
    requires
        0 < n,
        now + WINDOW_MILLIS <= later,
    ensures
        forall|k: nat|
            k < n ==> #[trigger] admit_allowed(repeated_window(k, now, n), now, n),
        !admit_allowed(repeated_window(n as nat, now, n), now, n),
        admit_allowed(repeated_window(n as nat, now, n), later, n),
{
    assert forall|k: nat| k < n implies #[trigger] admit_allowed(
        repeated_window(k, now, n),
        now,
        n,
    ) by {
        lemma_repeated_window_shape(k, now, n);
        lemma_filter_all_fresh(repeated_window(k, now, n), now);
    }
    lemma_repeated_window_shape(n as nat, now, n);
    lemma_filter_all_fresh(repeated_window(n as nat, now, n), now);
    lemma_filter_none_fresh(repeated_window(n as nat, now, n), later);
}

/// Independence across identities: an admission check for one identity
/// leaves every other identity's request window, and so the outcome of any
/// check of that other identity, exactly as it was.
pub proof fn lemma_identity_independence(
    m: Map<u128, Seq<u64>>,
    id1: u128,
    id2: u128,
    now: u64,
    max: u32,
)
    requires
        id1 != id2,
    ensures
        window_of(requests_after(m, id1, now, max), id2) == window_of(m, id2),
{
}

/// The whole per-identity request state after a sequence of admission
/// checks, each event an identity and a time, in order.
pub open spec fn requests_after_all(
    m: Map<u128, Seq<u64>>,
    events: Seq<(u128, u64)>,
    max: u32,
) -> Map<u128, Seq<u64>>
    decreases events.len(),
{
    if events.len() == 0 {
        m
    } else {
        requests_after(
            requests_after_all(m, events.drop_last(), max),
            events.last().0,
            events.last().1,
            max,
        )
    }
}

/// The times of one identity's own events, in order.
pub open spec fn own_times(events: Seq<(u128, u64)>, id: u128) -> Seq<u64>
    decreases events.len(),
{
    if events.len() == 0 {
        Seq::empty()
    } else if events.last().0 == id {
        own_times(events.drop_last(), id).push(events.last().1)
    } else {
        own_times(events.drop_last(), id)
    }
}

/// One request window after a sequence of admission checks at the given
/// times.
pub open spec fn window_after_all(win: Seq<u64>, times: Seq<u64>, max: u32) -> Seq<u64>
    decreases times.len(),
{
    if times.len() == 0 {
        win
    } else {
        window_after(window_after_all(win, times.drop_last(), max), times.last(), max)
    }
}

/// Independence across identities, in full: however the admission checks of
/// any number of identities interleave, each identity's window afterwards is
/// exactly what its own checks alone would have left behind.
pub proof fn lemma_independence_under_interleaving(
    m: Map<u128, Seq<u64>>,
    events: Seq<(u128, u64)>,
    id: u128,
    max: u32,
)
    ensures
        window_of(requests_after_all(m, events, max), id) == window_after_all(
            window_of(m, id),
            own_times(events, id),
            max,
        ),
    decreases events.len(),
{
    if events.len() > 0 {
        lemma_independence_under_interleaving(m, events.drop_last(), id, max);
        if events.last().0 == id {
            let times = own_times(events, id);
            assert(times.drop_last() =~= own_times(events.drop_last(), id));
            assert(times.last() == events.last().1);
        }
    }
}

proof fn lemma_repeated_is_fold(k: nat, now: u64, max: u32)
    ensures
        window_after_all(Seq::empty(), Seq::new(k, |i: int| now), max) == repeated_window(
            k,
            now,
            max,
        ),
    decreases k,
{
    if k > 0 {
        assert(Seq::new(k, |i: int| now).drop_last() =~= Seq::new((k - 1) as nat, |i: int| now));
        lemma_repeated_is_fold((k - 1) as nat, now, max);
    }
}

/// Independence across identities, on the budget: two identities whose
/// checks interleave within one instant each fill their own budget of `n`
/// as if alone: all `n` checks of each are admitted, and the very next
/// check of either at that instant is rejected.
pub proof fn lemma_two_identities_full_budget(
    events: Seq<(u128, u64)>,
    id1: u128,
    id2: u128,
    now: u64,
    n: u32,
)
    requires
        id1 != id2,
        own_times(events, id1) == Seq::new(n as nat, |i: int| now),
        own_times(events, id2) == Seq::new(n as nat, |i: int| now),
    ensures
        window_of(
            requests_after_all(Map::<u128, Seq<u64>>::empty(), events, n),
            id1,
        ) == repeated_window(n as nat, now, n),
        window_of(
            requests_after_all(Map::<u128, Seq<u64>>::empty(), events, n),
            id2,
        ) == repeated_window(n as nat, now, n),
        !admit_allowed(repeated_window(n as nat, now, n), now, n),
        forall|k: nat|
            k < n ==> #[trigger] admit_allowed(repeated_window(k, now, n), now, n),
{
    let empty = Map::<u128, Seq<u64>>::empty();
    lemma_independence_under_interleaving(empty, events, id1, n);
    lemma_independence_under_interleaving(empty, events, id2, n);
    lemma_repeated_is_fold(n as nat, now, n);
    lemma_repeated_window_shape(n as nat, now, n);
    lemma_filter_all_fresh(repeated_window(n as nat, now, n), now);
    assert forall|k: nat| k < n implies #[trigger] admit_allowed(
        repeated_window(k, now, n),
        now,
        n,
    ) by {
        lemma_repeated_window_shape(k, now, n);
        lemma_filter_all_fresh(repeated_window(k, now, n), now);
    }
}

/// Window reset is atomic: a token-record call made exactly at window expiry
/// succeeds and resets the accumulated usage to the new call's token count,
/// however large that count is relative to the budget.
pub proof fn lemma_window_reset_is_atomic(start: u64, acc: u32, tokens: u32, now: u64, max: u32)
    requires
        now == start + WINDOW_MILLIS,
    ensures
        tokens_allowed(Some((start, acc)), tokens, now, max),
        token_entry_after(Some((start, acc)), tokens, now, max) == (now, tokens),
{
}

/// Shared admission-control state: one request window and one token window
/// per client identity. Entries are created on first sight and purged only
/// lazily; identities themselves are never evicted.
pub struct RequestTracker {
    requests: HashMap<u128, Vec<u64>>,
    token_usage: HashMap<u128, (u64, u32)>,
}

impl RequestTracker {
    /// The per-identity request windows, as a map to timestamp sequences.
    pub closed spec fn requests_view(&self) -> Map<u128, Seq<u64>> {
        self.requests@.map_values(|v: Vec<u64>| v@)
    }

    /// The per-identity token windows.
    pub closed spec fn tokens_view(&self) -> Map<u128, (u64, u32)> {
        self.token_usage@
    }

    /// A tracker that has seen no identity at all.
    pub fn new() -> (tracker: Self)
        ensures
            tracker.requests_view() == Map::<u128, Seq<u64>>::empty(),
            tracker.tokens_view() == Map::<u128, (u64, u32)>::empty(),
    {
        let tracker = RequestTracker { requests: HashMap::new(), token_usage: HashMap::new() };
        proof {
            assert(tracker.requests_view() =~= Map::<u128, Seq<u64>>::empty());
        }
        tracker
    }

    /// One admission check: purge entries of `ip`'s window older than the
    /// sixty-second window, reject without recording when `max_requests_per_minute`
    /// entries remain (the budget is inclusive: exactly `max` prior entries
    /// still block), and otherwise record `now` and admit.
    pub fn check_and_record_request(
        &mut self,
        ip: u128,
        max_requests_per_minute: u32,
        now: u64,
    ) -> (admitted: bool)
        ensures
            admitted == admit_allowed(
                window_of(old(self).requests_view(), ip),
                now,
                max_requests_per_minute,
            ),
            final(self).requests_view() == requests_after(
                old(self).requests_view(),
                ip,
                now,
                max_requests_per_minute,
            ),
            final(self).tokens_view() == old(self).tokens_view(),
    {
        let ghost old_win = window_of(self.requests_view(), ip);
        let prior: Vec<u64> = match self.requests.get(&ip) {
            Some(v) => v.clone(),
            None => Vec::new(),
        };
        proof {
            assert(prior@ =~= old_win);
        }
        let mut kept: Vec<u64> = Vec::new();
        let mut i: usize = 0;
        proof {
            reveal(Seq::filter);
        }
        while i < prior.len()
            invariant
                i <= prior.len(),
                kept@ =~= prior@.take(i as int).filter(|t: u64| fresh_at(t, now)),
            decreases prior.len() - i,
        {
            let t = prior[i];
            proof {
                reveal(Seq::filter);
                assert(prior@.take(i + 1 as int).drop_last() =~= prior@.take(i as int));
                assert(prior@.take(i + 1 as int).last() == t);
            }
            if t >= now || now - t < WINDOW_MILLIS {
                kept.push(t);
            }
            i = i + 1;
        }
        proof {
            assert(prior@.take(prior@.len() as int) =~= prior@);
            assert(kept@ =~= purged(old_win, now));
            kept@.lemma_filter_len(|t: u64| fresh_at(t, now));
        }
        let admitted = (kept.len() as u64) < (max_requests_per_minute as u64);
        if admitted {
            kept.push(now);
        }
        self.requests.insert(ip, kept);
        proof {
            assert(final(self).requests_view() =~= requests_after(
                old(self).requests_view(),
                ip,
                now,
                max_requests_per_minute,
            ));
        }
        admitted
    }

    /// One token record: when `ip` has no window yet or the window that it
    /// has started a full sixty seconds ago or more, start a fresh window at
    /// `now` holding exactly `tokens` and succeed whatever the budget says;
    /// otherwise add `tokens` only when the accumulated count stays within
    /// `max_tokens_per_minute`, and reject without recording when it would not.
    pub fn record_token_usage(
        &mut self,
        ip: u128,
        tokens: u32,
        max_tokens_per_minute: u32,
        now: u64,
    ) -> (accepted: bool)
        ensures
            accepted == tokens_allowed(
                token_entry_of(old(self).tokens_view(), ip),
                tokens,
                now,
                max_tokens_per_minute,
            ),
            final(self).tokens_view() == tokens_after(
                old(self).tokens_view(),
                ip,
                tokens,
                now,
                max_tokens_per_minute,
            ),
            final(self).requests_view() == old(self).requests_view(),
    {
        let entry: Option<(u64, u32)> = match self.token_usage.get(&ip) {
            Some(e) => Some(*e),
            None => None,
        };
        let reset_due = match entry {
            None => true,
            Some((start, _)) => now >= start && now - start >= WINDOW_MILLIS,
        };
        if reset_due {
            self.token_usage.insert(ip, (now, tokens));
            proof {
                assert(final(self).tokens_view() =~= tokens_after(
                    old(self).tokens_view(),
                    ip,
                    tokens,
                    now,
                    max_tokens_per_minute,
                ));
            }
            return true;
        }
        let (start, acc) = match entry {
            Some(e) => e,
            None => (0u64, 0u32),  // unreachable: a due reset handled None above
        };
        if (acc as u64) + (tokens as u64) > (max_tokens_per_minute as u64) {
            proof {
                assert(self.tokens_view() =~= tokens_after(
                    self.tokens_view(),
                    ip,
                    tokens,
                    now,
                    max_tokens_per_minute,
                ));
            }
            return false;
        }
        self.token_usage.insert(ip, (start, acc + tokens));
        proof {
            assert(final(self).tokens_view() =~= tokens_after(
                old(self).tokens_view(),
                ip,
                tokens,
                now,
                max_tokens_per_minute,
            ));
        }
        true
    }
}

} // verus!
