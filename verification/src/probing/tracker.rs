//! Which probes are under way, which ended before anybody waited for them, and which were given up.
use crate::table;
use crate::table::{Bytes32, Table};
use vstd::prelude::*;

verus! {

/// How long a given-up probe is remembered, in nanoseconds: fifteen minutes.
pub const TIMED_OUT_PROBE_TTL: u64 = 900_000_000_000;

/// How many given-up probes are remembered.
pub const MAX_TIMED_OUT_PROBES: usize = 4096;

/// How a probe ended.
#[derive(Clone, Copy, Debug, PartialEq, Eq, Structural)]
pub enum ProbeOutcome {
    /// It reached its destination.
    Success,
    /// It did not.
    Failed,
}

/// The probes, by payment hash. `S` is what the one who waits for a probe left to be reached by.
/// Times are nanoseconds of one clock.
pub struct ProbeTracker<S> {
    /// The probes that somebody waits for.
    pub pending_probes: Table<S>,
    /// The probes that ended before anybody waited for them.
    pub completed_probes: Table<ProbeOutcome>,
    /// The probes that were given up, and when.
    pub timed_out_probes: Table<u64>,
}

/// The part of the given-up probes that is not too old at time `now`.
pub open spec fn fresh(m: Map<Bytes32, u64>, now: u64) -> Map<Bytes32, u64> {
    Map::new(
        |k: Bytes32| m.contains_key(k) && now - m[k] <= TIMED_OUT_PROBE_TTL,
        |k: Bytes32| m[k],
    )
}

/// Whether every entry of `a` is in `b`.
pub open spec fn part_of(a: Map<Bytes32, u64>, b: Map<Bytes32, u64>) -> bool {
    forall|k: Bytes32| #[trigger] a.contains_key(k) ==> b.contains_key(k) && a[k] == b[k]
}

/// What may be left of the given-up probes at time `now`: those not too old; of more than the limit,
/// as many as the limit, and none that is older than one left out.
pub open spec fn prunes(before: Map<Bytes32, u64>, after: Map<Bytes32, u64>, now: u64) -> bool {
    let kept = fresh(before, now);
    &&& part_of(after, kept)
    &&& after.dom().finite()
    &&& kept.len() <= MAX_TIMED_OUT_PROBES ==> after == kept
    &&& kept.len() > MAX_TIMED_OUT_PROBES ==> after.len() == MAX_TIMED_OUT_PROBES && forall|
        a: Bytes32,
        b: Bytes32,
    |
        kept.contains_key(a) && !after.contains_key(a) && #[trigger] after.contains_key(b)
            ==> #[trigger] kept[a] <= kept[b]
}

impl<S> ProbeTracker<S> {
    /// Each probe is in at most one of the three tables.
    pub open spec fn wf(&self) -> bool {
        &&& self.pending_probes.wf()
        &&& self.completed_probes.wf()
        &&& self.timed_out_probes.wf()
        &&& forall|k: Bytes32| #[trigger]
            self.pending_probes@.contains_key(k) ==> !self.completed_probes@.contains_key(k)
                && !self.timed_out_probes@.contains_key(k)
        &&& forall|k: Bytes32| #[trigger]
            self.completed_probes@.contains_key(k) ==> !self.timed_out_probes@.contains_key(k)
    }

    /// No probes.
    pub fn new() -> (r: Self)
        ensures
            r.wf(),
            r.pending_probes@ == Map::<Bytes32, S>::empty(),
            r.completed_probes@ == Map::<Bytes32, ProbeOutcome>::empty(),
            r.timed_out_probes@ == Map::<Bytes32, u64>::empty(),
    {
        ProbeTracker {
            pending_probes: Table::new(),
            completed_probes: Table::new(),
            timed_out_probes: Table::new(),
        }
    }

    /// What a registration does. If the probe has ended, the outcome goes to the one who waits, and
    /// the probe is forgotten; else it is under way. It is given up no longer.
    pub open spec fn registers(
        &self,
        after: &Self,
        k: Bytes32,
        s: S,
        now: u64,
        r: Option<(S, ProbeOutcome)>,
    ) -> bool {
        &&& exists|t: Map<Bytes32, u64>|
            #[trigger] prunes(self.timed_out_probes@, t, now) && after.timed_out_probes@
                == t.remove(k)
        &&& after.completed_probes@ == self.completed_probes@.remove(k)
        &&& if self.completed_probes@.contains_key(k) {
            &&& r == Some((s, self.completed_probes@[k]))
            &&& after.pending_probes@ == self.pending_probes@
        } else {
            &&& r is None
            &&& after.pending_probes@ == self.pending_probes@.insert(k, s)
        }
    }

    /// What the end of a probe does. A probe that was given up is forgotten; one that somebody waits
    /// for is forgotten and its outcome goes there; else the outcome is kept.
    pub open spec fn completes(
        &self,
        after: &Self,
        k: Bytes32,
        outcome: ProbeOutcome,
        now: u64,
        r: Option<S>,
    ) -> bool {
        exists|t: Map<Bytes32, u64>| #[trigger]
            prunes(self.timed_out_probes@, t, now) && self.completes_within(after, k, outcome, t, r)
    }

    /// What the end of a probe does, where `t` is left of the given-up probes.
    pub open spec fn completes_within(
        &self,
        after: &Self,
        k: Bytes32,
        outcome: ProbeOutcome,
        t: Map<Bytes32, u64>,
        r: Option<S>,
    ) -> bool {
        &&& after.timed_out_probes@ == t.remove(k)
        &&& if t.contains_key(k) {
            &&& r is None
            &&& after.pending_probes@ == self.pending_probes@
            &&& after.completed_probes@ == self.completed_probes@
        } else if self.pending_probes@.contains_key(k) {
            &&& r == Some(self.pending_probes@[k])
            &&& after.pending_probes@ == self.pending_probes@.remove(k)
            &&& after.completed_probes@ == self.completed_probes@
        } else {
            &&& r is None
            &&& after.pending_probes@ == self.pending_probes@
            &&& after.completed_probes@ == self.completed_probes@.insert(k, outcome)
        }
    }

    /// What giving up a probe does: it is neither under way nor ended any more.
    pub open spec fn times_out(&self, after: &Self, k: Bytes32, now: u64) -> bool {
        &&& exists|t: Map<Bytes32, u64>|
            #[trigger] prunes(self.timed_out_probes@, t, now) && after.timed_out_probes@
                == t.insert(k, now)
        &&& after.pending_probes@ == self.pending_probes@.remove(k)
        &&& after.completed_probes@ == self.completed_probes@.remove(k)
    }

    /// Waits for the probe `payment_hash`. `sender` is how the waiter is reached. If the probe has
    /// ended already, `sender` comes back with the outcome to send.
    pub fn register_probe(&mut self, payment_hash: Bytes32, sender: S, now: u64) -> (r: Option<
        (S, ProbeOutcome),
    >)
        requires
            old(self).wf(),
        ensures
            final(self).wf(),
            old(self).registers(final(self), payment_hash, sender, now, r),
    {
        self.prune_timed_out_probes(now);
        let ghost t = self.timed_out_probes@;
        self.timed_out_probes.remove(&payment_hash);
        assert(self.timed_out_probes@ =~= t.remove(payment_hash));
        let ghost c = self.completed_probes@;
        match self.completed_probes.remove(&payment_hash) {
            Some(outcome) => Some((sender, outcome)),
            None => {
                assert(c.remove(payment_hash) =~= c);
                self.pending_probes.insert(payment_hash, sender);
                None
            },
        }
    }

    /// The probe `payment_hash` reached its destination. The result is whom to tell.
    pub fn complete_success(&mut self, payment_hash: &Bytes32, now: u64) -> (r: Option<S>)
        requires
            old(self).wf(),
        ensures
            final(self).wf(),
            old(self).completes(final(self), *payment_hash, ProbeOutcome::Success, now, r),
    {
        self.complete_probe(payment_hash, ProbeOutcome::Success, now)
    }

    /// The probe `payment_hash` did not reach its destination. The result is whom to tell.
    pub fn complete_failed(&mut self, payment_hash: &Bytes32, now: u64) -> (r: Option<S>)
        requires
            old(self).wf(),
        ensures
            final(self).wf(),
            old(self).completes(final(self), *payment_hash, ProbeOutcome::Failed, now, r),
    {
        self.complete_probe(payment_hash, ProbeOutcome::Failed, now)
    }

    /// Gives up the probe `payment_hash`.
    pub fn mark_timed_out(&mut self, payment_hash: &Bytes32, now: u64)
        requires
            old(self).wf(),
        ensures
            final(self).wf(),
            old(self).times_out(final(self), *payment_hash, now),
    {
        self.prune_timed_out_probes(now);
        let ghost p = self.pending_probes@;
        let ghost c = self.completed_probes@;
        self.pending_probes.remove(payment_hash);
        self.completed_probes.remove(payment_hash);
        assert(self.pending_probes@ =~= p.remove(*payment_hash));
        assert(self.completed_probes@ =~= c.remove(*payment_hash));
        self.timed_out_probes.insert(*payment_hash, now);
    }

    fn complete_probe(&mut self, payment_hash: &Bytes32, outcome: ProbeOutcome, now: u64) -> (r:
        Option<S>)
        requires
            old(self).wf(),
        ensures
            final(self).wf(),
            old(self).completes(final(self), *payment_hash, outcome, now, r),
    {
        self.prune_timed_out_probes(now);
        let ghost t = self.timed_out_probes@;
        if self.timed_out_probes.remove(payment_hash).is_some() {
            return None;
        }
        assert(t.remove(*payment_hash) =~= t);
        match self.pending_probes.remove(payment_hash) {
            Some(sender) => Some(sender),
            None => {
                self.completed_probes.insert(*payment_hash, outcome);
                None
            },
        }
    }

    /// Forgets the given-up probes that are too old, and the oldest of too many.
    pub fn prune_timed_out_probes(&mut self, now: u64)
        requires
            old(self).wf(),
        ensures
            final(self).wf(),
            final(self).pending_probes@ == old(self).pending_probes@,
            final(self).completed_probes@ == old(self).completed_probes@,
            prunes(old(self).timed_out_probes@, final(self).timed_out_probes@, now),
            final(self).timed_out_probes@.len() <= MAX_TIMED_OUT_PROBES,
    {
        drop_stale(&mut self.timed_out_probes, now);
        drop_oldest(&mut self.timed_out_probes);
    }
}

/// The end of a probe that nobody waits for yet is delivered to the one who waits for it next.
pub proof fn law_buffered_completion_is_delivered<S>(
    before: ProbeTracker<S>,
    between: ProbeTracker<S>,
    after: ProbeTracker<S>,
    k: Bytes32,
    outcome: ProbeOutcome,
    ended: u64,
    told: Option<S>,
    sender: S,
    registered: u64,
    r: Option<(S, ProbeOutcome)>,
)
    requires
        !before.pending_probes@.contains_key(k),
        !fresh(before.timed_out_probes@, ended).contains_key(k),
        before.completes(&between, k, outcome, ended, told),
        between.registers(&after, k, sender, registered, r),
    ensures
        told is None,
        r == Some((sender, outcome)),
        !after.completed_probes@.contains_key(k),
{
}

/// The end of a probe goes to the one who waits for it.
pub proof fn law_registered_completion_is_delivered<S>(
    before: ProbeTracker<S>,
    between: ProbeTracker<S>,
    after: ProbeTracker<S>,
    k: Bytes32,
    sender: S,
    registered: u64,
    outcome: ProbeOutcome,
    ended: u64,
    told: Option<S>,
)
    requires
        before.registers(&between, k, sender, registered, None),
        between.completes(&after, k, outcome, ended, told),
    ensures
        told == Some(sender),
        !after.pending_probes@.contains_key(k),
        !after.completed_probes@.contains_key(k),
{
    assert(!between.timed_out_probes@.contains_key(k));
}

/// The other given-up probes, not too old at time `now`, that were given up no earlier than `k`.
pub open spec fn as_late(m: Map<Bytes32, u64>, k: Bytes32, now: u64) -> Set<Bytes32> {
    fresh(m, now).dom().filter(|j: Bytes32| j != k && m[j] >= m[k])
}

/// The end of a probe that was given up within the time limit reaches nobody and leaves no trace,
/// provided that fewer other probes than the limit were given up at the same time or later.
pub proof fn law_late_completion_is_dropped<S>(
    before: ProbeTracker<S>,
    between: ProbeTracker<S>,
    after: ProbeTracker<S>,
    k: Bytes32,
    given_up: u64,
    outcome: ProbeOutcome,
    ended: u64,
    told: Option<S>,
)
    requires
        before.times_out(&between, k, given_up),
        between.completes(&after, k, outcome, ended, told),
        ended - given_up <= TIMED_OUT_PROBE_TTL,
        as_late(between.timed_out_probes@, k, ended).len() < MAX_TIMED_OUT_PROBES,
    ensures
        told is None,
        !after.pending_probes@.contains_key(k),
        !after.completed_probes@.contains_key(k),
        !after.timed_out_probes@.contains_key(k),
{
    let m = between.timed_out_probes@;
    let kept = fresh(m, ended);
    assert(m.contains_key(k));
    assert(kept.contains_key(k));
    let t = choose|t: Map<Bytes32, u64>| #[trigger]
        prunes(m, t, ended) && between.completes_within(&after, k, outcome, t, told);
    if !t.contains_key(k) {
        let late = as_late(m, k, ended);
        assert forall|j: Bytes32| #[trigger] t.dom().contains(j) implies late.contains(j) by {
            assert(t.contains_key(j));
            assert(kept.contains_key(j));
            assert(kept[k] <= kept[j]);
        }
        lemma_fresh_is_finite(m, ended);
        vstd::set_lib::lemma_len_subset(t.dom(), late);
        assert(false);
    }
}

/// The end of a probe that was given up within the time limit reaches nobody and leaves no trace
/// where no more given-up probes are remembered than the limit.
pub proof fn law_late_completion_is_dropped_among_few<S>(
    before: ProbeTracker<S>,
    between: ProbeTracker<S>,
    after: ProbeTracker<S>,
    k: Bytes32,
    given_up: u64,
    outcome: ProbeOutcome,
    ended: u64,
    told: Option<S>,
)
    requires
        before.times_out(&between, k, given_up),
        between.completes(&after, k, outcome, ended, told),
        ended - given_up <= TIMED_OUT_PROBE_TTL,
        between.timed_out_probes@.len() <= MAX_TIMED_OUT_PROBES,
    ensures
        told is None,
        !after.pending_probes@.contains_key(k),
        !after.completed_probes@.contains_key(k),
        !after.timed_out_probes@.contains_key(k),
{
    let m = between.timed_out_probes@;
    assert(m.dom().contains(k));
    vstd::set_lib::lemma_len_subset(as_late(m, k, ended), m.dom().remove(k));
    law_late_completion_is_dropped(before, between, after, k, given_up, outcome, ended, told);
}

/// The end of a probe that was given up within the time limit reaches nobody and leaves no trace
/// where every other given-up probe was given up earlier.
pub proof fn law_latest_late_completion_is_dropped<S>(
    before: ProbeTracker<S>,
    between: ProbeTracker<S>,
    after: ProbeTracker<S>,
    k: Bytes32,
    given_up: u64,
    outcome: ProbeOutcome,
    ended: u64,
    told: Option<S>,
)
    requires
        before.times_out(&between, k, given_up),
        between.completes(&after, k, outcome, ended, told),
        ended - given_up <= TIMED_OUT_PROBE_TTL,
        forall|j: Bytes32| #[trigger]
            between.timed_out_probes@.contains_key(j) && j != k ==> between.timed_out_probes@[j]
                < given_up,
    ensures
        told is None,
        !after.pending_probes@.contains_key(k),
        !after.completed_probes@.contains_key(k),
        !after.timed_out_probes@.contains_key(k),
{
    let m = between.timed_out_probes@;
    assert(m[k] == given_up);
    assert(as_late(m, k, ended) =~= Set::<Bytes32>::empty()) by {
        assert forall|j: Bytes32| !as_late(m, k, ended).contains(j) by {
            if as_late(m, k, ended).contains(j) {
                assert(m.contains_key(j));
            }
        }
    }
    law_late_completion_is_dropped(before, between, after, k, given_up, outcome, ended, told);
}

proof fn lemma_fresh_is_finite(m: Map<Bytes32, u64>, now: u64)
    requires
        m.dom().finite(),
    ensures
        fresh(m, now).dom().finite(),
{
    assert(fresh(m, now).dom().subset_of(m.dom()));
    vstd::set_lib::lemma_set_subset_finite(m.dom(), fresh(m, now).dom());
}

fn drop_stale(t: &mut Table<u64>, now: u64)
    requires
        old(t).wf(),
    ensures
        final(t).wf(),
        final(t)@ == fresh(old(t)@, now),
        final(t)@.dom().finite(),
{
    let ghost before = t@;
    let mut i: usize = 0;
    while i < t.len()
        invariant
            t.wf(),
            i <= t.listed().len(),
            part_of(t@, before),
            forall|k: Bytes32| #[trigger] fresh(before, now).contains_key(k) ==> t@.contains_key(k),
            forall|j: int|
                0 <= j < i ==> now - (#[trigger] t.listed()[j]).1 <= TIMED_OUT_PROBE_TTL,
        decreases t.listed().len() - i,
    {
        proof {
            t.lemma_listed();
            table::lemma_entry_in_map(t.listed(), i as int);
        }
        let at: u64 = *t.entry(i).1;
        if at < now && now - at > TIMED_OUT_PROBE_TTL {
            let ghost listed = t.listed();
            t.remove_at(i);
            proof {
                assert forall|j: int| 0 <= j < i implies now - (#[trigger] t.listed()[j]).1
                    <= TIMED_OUT_PROBE_TTL by {
                    assert(t.listed()[j] == listed[j]);
                }
            }
        } else {
            i = i + 1;
        }
    }
    proof {
        t.lemma_listed();
        assert forall|k: Bytes32| #[trigger] t@.contains_key(k) implies fresh(
            before,
            now,
        ).contains_key(k) by {
            let j = table::lemma_key_has_entry(t.listed(), k);
            table::lemma_entry_in_map(t.listed(), j);
        }
        assert(t@ =~= fresh(before, now));
    }
}

fn oldest(t: &Table<u64>) -> (r: usize)
    requires
        t.wf(),
        t.listed().len() > 0,
    ensures
        r < t.listed().len(),
        forall|j: int|
            0 <= j < t.listed().len() ==> t.listed()[r as int].1 <= (#[trigger] t.listed()[j]).1,
{
    let n: usize = t.len();
    let mut r: usize = 0;
    let mut i: usize = 1;
    while i < n
        invariant
            n == t.listed().len(),
            r < i <= n,
            forall|j: int| 0 <= j < i ==> t.listed()[r as int].1 <= (#[trigger] t.listed()[j]).1,
        decreases n - i,
    {
        if *t.entry(i).1 < *t.entry(r).1 {
            r = i;
        }
        i = i + 1;
    }
    r
}

fn drop_oldest(t: &mut Table<u64>)
    requires
        old(t).wf(),
    ensures
        final(t).wf(),
        part_of(final(t)@, old(t)@),
        final(t)@.dom().finite(),
        old(t)@.len() <= MAX_TIMED_OUT_PROBES ==> final(t)@ == old(t)@,
        old(t)@.len() > MAX_TIMED_OUT_PROBES ==> final(t)@.len() == MAX_TIMED_OUT_PROBES,
        forall|a: Bytes32, b: Bytes32|
            old(t)@.contains_key(a) && !final(t)@.contains_key(a) && #[trigger]
            final(t)@.contains_key(b) ==> #[trigger] old(t)@[a] <= old(t)@[b],
{
    let ghost before = t@;
    proof {
        t.lemma_listed();
    }
    while t.len() > MAX_TIMED_OUT_PROBES
        invariant
            t.wf(),
            part_of(t@, before),
            before.dom().finite(),
            before.len() <= MAX_TIMED_OUT_PROBES ==> t@ == before,
            before.len() > MAX_TIMED_OUT_PROBES ==> t@.len() >= MAX_TIMED_OUT_PROBES,
            forall|a: Bytes32, b: Bytes32|
                before.contains_key(a) && !t@.contains_key(a) && #[trigger] t@.contains_key(b)
                    ==> #[trigger] before[a] <= before[b],
        decreases t.listed().len(),
    {
        let i = oldest(t);
        let ghost now = t@;
        let ghost listed = t.listed();
        let ghost gone = listed[i as int].0;
        proof {
            t.lemma_listed();
            table::lemma_entry_in_map(listed, i as int);
        }
        t.remove_at(i);
        proof {
            assert forall|a: Bytes32, b: Bytes32|
                before.contains_key(a) && !t@.contains_key(a) && #[trigger] t@.contains_key(
                    b,
                ) implies #[trigger] before[a] <= before[b] by {
                assert(now.contains_key(b));
                if a == gone {
                    let j = table::lemma_key_has_entry(listed, b);
                    table::lemma_entry_in_map(listed, j);
                }
            }
        }
    }
    proof {
        t.lemma_listed();
    }
}

/// A probe that was given up is remembered for fifteen minutes, counted in nanoseconds, and no longer, and
/// then under the time at which it was given up.
pub proof fn law_given_up_probes_last_fifteen_minutes(m: Map<Bytes32, u64>, k: Bytes32, now: u64)
    ensures
        fresh(m, now).contains_key(k) <==> m.contains_key(k) && now - m[k] <= 15 * 60
            * 1_000_000_000,
        fresh(m, now).contains_key(k) ==> fresh(m, now)[k] == m[k],
{
}

/// At most 4096 probes that were given up are remembered, and all of those that are not too old if there
/// are no more.
pub proof fn law_given_up_probes_are_bounded(
    before: Map<Bytes32, u64>,
    after: Map<Bytes32, u64>,
    now: u64,
    k: Bytes32,
)
    requires
        prunes(before, after, now),
    ensures
        after.len() <= 4096,
        after.contains_key(k) ==> before.contains_key(k) && before[k] == after[k],
        fresh(before, now).len() <= 4096 ==> (after.contains_key(k) <==> before.contains_key(k)
            && now - before[k] <= 15 * 60 * 1_000_000_000),
{
}

/// Waiting for a probe, its end and giving it up touch no other probe that is waited for or has ended.
pub proof fn law_probes_do_not_touch_each_other<S>(
    before: ProbeTracker<S>,
    after: ProbeTracker<S>,
    k: Bytes32,
    j: Bytes32,
    s: S,
    outcome: ProbeOutcome,
    now: u64,
    r: Option<(S, ProbeOutcome)>,
    told: Option<S>,
)
    requires
        j != k,
        before.registers(&after, k, s, now, r) || before.completes(&after, k, outcome, now, told)
            || before.times_out(&after, k, now),
    ensures
        after.pending_probes@.contains_key(j) == before.pending_probes@.contains_key(j),
        before.pending_probes@.contains_key(j) ==> after.pending_probes@[j]
            == before.pending_probes@[j],
        after.completed_probes@.contains_key(j) == before.completed_probes@.contains_key(j),
        before.completed_probes@.contains_key(j) ==> after.completed_probes@[j]
            == before.completed_probes@[j],
{
}

/// A probe that is given up is waited for no longer, and one that is waited for anew is given up no
/// longer.
pub proof fn law_given_up_or_waited_for<S>(
    before: ProbeTracker<S>,
    after: ProbeTracker<S>,
    k: Bytes32,
    s: S,
    now: u64,
    r: Option<(S, ProbeOutcome)>,
)
    ensures
        before.times_out(&after, k, now) ==> !after.pending_probes@.contains_key(k)
            && !after.completed_probes@.contains_key(k) && after.timed_out_probes@.contains_key(k)
            && after.timed_out_probes@[k] == now,
        before.registers(&after, k, s, now, r) ==> !after.timed_out_probes@.contains_key(k)
            && !after.completed_probes@.contains_key(k),
        before.registers(&after, k, s, now, r) && !before.completed_probes@.contains_key(k)
            ==> after.pending_probes@.contains_key(k) && after.pending_probes@[k] == s && r is None,
{
}

} // verus!
