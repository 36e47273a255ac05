//! The rolling window that limits how often a supervisor may restart.
//!
//! Times are nanoseconds since an origin that the caller fixes once, such as
//! the moment at which the supervisor started.

use vstd::prelude::*;

verus! {

/// Nanoseconds in one second.
pub const NANOS_PER_SEC: u128 = 1_000_000_000;

/// How long before `now` the time `t` lies; zero for a time that is not in the past.
pub open spec fn age(t: u128, now: u128) -> int {
    if now >= t {
        now - t
    } else {
        0
    }
}

/// The times of `history` that are less than `within` nanoseconds old at `now`.
pub open spec fn retained(history: Seq<u128>, now: u128, within: int) -> Seq<u128> {
    history.filter(|t: u128| age(t, now) < within)
}

/// The history once a restart at `now` has been recorded.
pub open spec fn recorded(history: Seq<u128>, now: u128, within: int) -> Seq<u128> {
    retained(history, now, within).push(now)
}

/// The history of a window that was empty at first and has recorded `times` in order.
pub open spec fn history_of(times: Seq<u128>, within: int) -> Seq<u128>
    decreases times.len(),
{
    if times.len() == 0 {
        Seq::empty()
    } else {
        recorded(history_of(times.drop_last(), within), times.last(), within)
    }
}

/// Whether a window that was empty at first allows every restart of `times`.
pub open spec fn all_allowed(times: Seq<u128>, max_restarts: int, within: int) -> bool {
    forall|k: int|
        1 <= k <= times.len() ==> history_of(#[trigger] times.take(k), within).len()
            <= max_restarts
}

/// Whether no time of `times` lies before an earlier one.
pub open spec fn in_order(times: Seq<u128>) -> bool {
    forall|i: int, j: int| 0 <= i <= j < times.len() ==> times[i] <= times[j]
}

/// Restart times within a rolling window, with the number of them that is allowed.
pub struct RestartWindow {
    max_restarts: u32,
    within: u128,
    history: Vec<u128>,
}

impl RestartWindow {
    /// How many restarts may lie in one window.
    pub closed spec fn max_restarts(&self) -> u32 {
        self.max_restarts
    }

    /// The length of the window in nanoseconds.
    pub closed spec fn within(&self) -> int {
        self.within as int
    }

    /// The restart times that were still in the window at the last one.
    pub closed spec fn history(&self) -> Seq<u128> {
        self.history@
    }

    /// An empty window of `within_secs` seconds.
    pub fn new(max_restarts: u32, within_secs: u64) -> (window: Self)
        ensures
            window.max_restarts() == max_restarts,
            window.within() == within_secs * NANOS_PER_SEC,
            window.within() == within_secs * 1_000_000_000,
            window.history() == Seq::<u128>::empty(),
    {
        assert(within_secs * NANOS_PER_SEC <= u64::MAX * NANOS_PER_SEC) by (nonlinear_arith)
            requires
                within_secs <= u64::MAX,
                NANOS_PER_SEC >= 0,
        ;
        RestartWindow {
            max_restarts,
            within: within_secs as u128 * NANOS_PER_SEC,
            history: Vec::new(),
        }
    }

    /// Record a restart at `now`, and say whether the window still allows it.
    ///
    /// Times that have left the window are forgotten first. The restart is
    /// allowed if, counting itself, at most `max_restarts` lie in the window.
    pub fn record(&mut self, now: u128) -> (allowed: bool)
        ensures
            final(self).max_restarts() == old(self).max_restarts(),
            final(self).within() == old(self).within(),
            final(self).history() == recorded(old(self).history(), now, old(self).within()),
            allowed <==> final(self).history().len() <= old(self).max_restarts(),
            final(self).history() == old(self).history().filter(
                |t: u128| (t <= now && now - t < old(self).within()) || (t > now && 0 < old(self).within()),
            ).push(now),
    {
        let within = self.within;
        let ghost keep = |t: u128| age(t, now) < within;
        let mut kept: Vec<u128> = Vec::new();
        assert(self.history@.take(0).filter(keep) =~= Seq::<u128>::empty()) by {
            reveal(Seq::filter);
        }
        for i in 0..self.history.len()
            invariant
                within == self.within,
                keep == (|t: u128| age(t, now) < within),
                kept@ == self.history@.take(i as int).filter(keep),
        {
            let t: u128 = self.history[i];
            proof {
                reveal(Seq::filter);
                assert(self.history@.take(i + 1).drop_last() =~= self.history@.take(i as int));
            }
            let age: u128 = if now >= t {
                now - t
            } else {
                0
            };
            if age < within {
                kept.push(t);
            }
        }
        assert(self.history@.take(self.history.len() as int) =~= self.history@);
        kept.push(now);
        self.history = kept;
        assert((|t: u128| (t <= now && now - t < within) || (t > now && 0 < within)) =~= keep);
        self.history.len() as u64 <= self.max_restarts as u64
    }
}

/// If the times from the `from`-th on are no further from the last than the
/// window is long, the history ends in all of them.
proof fn lemma_history_keeps_recent(times: Seq<u128>, from: int, within: int)
    requires
        in_order(times),
        0 <= from < times.len(),
        times.last() - times[from] < within,
    ensures
        history_of(times, within).len() >= times.len() - from,
        history_of(times, within).skip(
            history_of(times, within).len() - (times.len() - from),
        ) == times.skip(from),
    decreases times.len(),
{
    let now = times.last();
    let before = times.drop_last();
    let old_history = history_of(before, within);
    let keep = |t: u128| age(t, now) < within;
    let recent = before.skip(from);
    assert(recent.filter(keep) == recent) by {
        lemma_filter_all(recent, keep);
    }
    if from < before.len() {
        lemma_history_keeps_recent(before, from, within);
        let gone = old_history.take(old_history.len() - (before.len() - from));
        assert(old_history =~= gone + recent);
        Seq::filter_distributes_over_add(gone, recent, keep);
        let history = history_of(times, within);
        assert(history == (gone.filter(keep) + recent).push(now));
        assert(history.skip(history.len() - (times.len() - from)) =~= times.skip(from));
    } else {
        let history = history_of(times, within);
        assert(history.skip(history.len() - 1) =~= times.skip(from));
    }
}

/// A filter that every element passes changes nothing.
proof fn lemma_filter_all<A>(s: Seq<A>, pred: spec_fn(A) -> bool)
    requires
        forall|i: int| 0 <= i < s.len() ==> pred(s[i]),
    ensures
        s.filter(pred) == s,
    decreases s.len(),
{
    reveal(Seq::filter);
    if s.len() > 0 {
        lemma_filter_all(s.drop_last(), pred);
        assert(s.drop_last().push(s.last()) =~= s);
    }
}

/// What passes the second filter passes the first, so the first one adds nothing.
proof fn lemma_filter_twice<A>(s: Seq<A>, first: spec_fn(A) -> bool, second: spec_fn(A) -> bool)
    requires
        forall|x: A| #[trigger] second(x) ==> first(x),
    ensures
        s.filter(first).filter(second) == s.filter(second),
    decreases s.len(),
{
    reveal(Seq::filter);
    if s.len() > 0 {
        let before = s.drop_last();
        lemma_filter_twice(before, first, second);
        if first(s.last()) {
            assert(s.filter(first).drop_last() =~= before.filter(first));
        }
    }
}

/// The window forgets nothing that counts: at any later moment, those of the
/// restarts that lie less than `within` back are the same, whether they are
/// picked from all restarts or from what the window has kept.
pub proof fn law_window_keeps_what_counts(times: Seq<u128>, now: u128, within: int)
    requires
        in_order(times),
        times.len() > 0 ==> times.last() <= now,
    ensures
        retained(history_of(times, within), now, within) == retained(times, now, within),
    decreases times.len(),
{
    if times.len() > 0 {
        let before = times.drop_last();
        let last = times.last();
        let old_history = history_of(before, within);
        let at_last = |t: u128| age(t, last) < within;
        let at_now = |t: u128| age(t, now) < within;
        law_window_keeps_what_counts(before, now, within);
        lemma_filter_twice(old_history, at_last, at_now);
        let kept = old_history.filter(at_last);
        assert(kept.push(last).drop_last() =~= kept);
        assert(kept.push(last).filter(at_now) == times.filter(at_now)) by {
            reveal(Seq::filter);
        }
    }
}

/// The restart limit holds at every moment: of the restarts that a window has
/// allowed, any `max_restarts + 1` in a row take at least the length of the
/// window, so no window holds more than `max_restarts` of them.
pub proof fn law_restart_intensity(times: Seq<u128>, max_restarts: u32, within: int, i: int)
    requires
        in_order(times),
        all_allowed(times, max_restarts as int, within),
        0 <= i,
        i + max_restarts < times.len(),
    ensures
        times[i + max_restarts] - times[i] >= within,
{
    let prefix = times.take(i + max_restarts + 1);
    if times[i + max_restarts] - times[i] < within {
        lemma_history_keeps_recent(prefix, i, within);
        assert(false);
    }
}

/// Two tests that agree on every element of a sequence pick the same elements.
pub(crate) proof fn lemma_filter_agree<A>(
    s: Seq<A>,
    first: spec_fn(A) -> bool,
    second: spec_fn(A) -> bool,
)
    requires
        forall|i: int| 0 <= i < s.len() ==> first(s[i]) == second(s[i]),
    ensures
        s.filter(first) == s.filter(second),
    decreases s.len(),
{
    reveal(Seq::filter);
    if s.len() > 0 {
        lemma_filter_agree(s.drop_last(), first, second);
    }
}

/// A restart that is recorded is remembered as the last one. Of those before
/// it, exactly the ones that lie less than the length of the window back stay,
/// in order.
pub proof fn law_recorded_restarts(history: Seq<u128>, now: u128, within: int)
    requires
        in_order(history),
        history.len() > 0 ==> history.last() <= now,
    ensures
        recorded(history, now, within) == history.filter(|t: u128| now - t < within).push(now),
{
    assert forall|i: int| 0 <= i < history.len() implies history[i] <= now by {
        assert(history[i] <= history[history.len() - 1]);
    }
    lemma_filter_agree(
        history,
        |t: u128| age(t, now) < within,
        |t: u128| now - t < within,
    );
}

} // verus!
