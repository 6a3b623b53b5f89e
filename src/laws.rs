use vstd::prelude::*;

use crate::address::Address;
use crate::vending::{
    balance_spec, holds, in_cooldown, initial_state, lemma_slot_of_unique, lemma_vend_next_wf,
    record_of, record_ok, resident, slot_of, vend_next, wf_state, MachineState, MAX_USERS,
    VEND_COOLDOWN_SECONDS, UserRecord,
};

verus! {

/// The state after vending each `(caller, time)` pair of `calls` in order,
/// starting from `s`; refused vends leave the state as it was.
pub open spec fn vend_all(s: MachineState, calls: Seq<(Address, u64)>) -> MachineState
    decreases calls.len(),
{
    if calls.len() == 0 {
        s
    } else {
        vend_next(vend_all(s, calls.drop_last()), calls.last().0, calls.last().1)
    }
}

/// The calls of one identity at each of the given times.
pub open spec fn calls_by(who: Address, times: Seq<u64>) -> Seq<(Address, u64)> {
    Seq::new(times.len(), |k: int| (who, times[k]))
}

/// A new store is well-formed and holds no identity.
pub proof fn lemma_initial_empty(who: Address)
    ensures
        wf_state(initial_state()),
        !resident(initial_state().slots, who),
        balance_spec(initial_state(), who) == 0,
{
}

/// After a vend outside the cooldown, the caller is resident with the new
/// time as its last vend time.
proof fn lemma_vend_records_caller(s: MachineState, who: Address, now: u64)
    requires
        wf_state(s),
        !in_cooldown(s, who, now),
    ensures
        ({
            let t = vend_next(s, who, now);
            &&& wf_state(t)
            &&& record_of(t, who) matches Some(r) && r.last_vend_time == now && r.user == who
            &&& resident(s.slots, who) ==> t.cursor == s.cursor
                && balance_spec(t, who) == balance_spec(s, who) + 1
            &&& !resident(s.slots, who) ==> t.cursor == (s.cursor + 1) % (MAX_USERS as nat)
                && balance_spec(t, who) == 1
                && slot_of(t.slots, who) == s.cursor
        }),
{
    let t = vend_next(s, who, now);
    lemma_vend_next_wf(s, who, now);
    if resident(s.slots, who) {
        let k = slot_of(s.slots, who);
        assert(record_ok(s.slots[k]->0));
        assert(holds(t.slots[k], who));
        lemma_slot_of_unique(t, who, k);
    } else {
        assert(holds(t.slots[s.cursor as int], who));
        lemma_slot_of_unique(t, who, s.cursor as int);
    }
}

/// A vend by another identity leaves a non-resident identity non-resident.
proof fn lemma_other_keeps_absent(s: MachineState, x: Address, now: u64, who: Address)
    requires
        wf_state(s),
        x != who,
        !resident(s.slots, who),
    ensures
        !resident(vend_next(s, x, now).slots, who),
{
    let t = vend_next(s, x, now);
    assert forall|p: int| 0 <= p < t.slots.len() implies !holds(#[trigger] t.slots[p], who) by {
        assert(!holds(s.slots[p], who));
    }
}

/// Induction for `law_repeated_vends`, on at least one vend.
proof fn lemma_repeated_vends(s: MachineState, who: Address, times: Seq<u64>)
    requires
        wf_state(s),
        !resident(s.slots, who),
        times.len() >= 1,
        forall|k: int| 0 < k < times.len() ==> times[k - 1] + VEND_COOLDOWN_SECONDS <= #[trigger] times[k],
    ensures
        ({
            let t = vend_all(s, calls_by(who, times));
            &&& wf_state(t)
            &&& record_of(t, who) matches Some(r) && r.last_vend_time == times.last()
            &&& balance_spec(t, who) == times.len()
            &&& t.cursor == (s.cursor + 1) % (MAX_USERS as nat)
        }),
        forall|k: int|
            0 <= k < times.len() ==> !in_cooldown(
                #[trigger] vend_all(s, calls_by(who, times.take(k))),
                who,
                times[k],
            ),
    decreases times.len(),
{
    let n = times.len();
    let prev = times.drop_last();
    assert(calls_by(who, times).drop_last() =~= calls_by(who, prev));
    assert(calls_by(who, times).last() == (who, times.last()));
    if n == 1 {
        assert(calls_by(who, prev) =~= Seq::<(Address, u64)>::empty());
        lemma_vend_records_caller(s, who, times[0]);
        assert forall|k: int| 0 <= k < times.len() implies !in_cooldown(
            #[trigger] vend_all(s, calls_by(who, times.take(k))),
            who,
            times[k],
        ) by {
            assert(calls_by(who, times.take(k)) =~= Seq::<(Address, u64)>::empty());
        }
    } else {
        assert forall|k: int| 0 < k < prev.len() implies prev[k - 1] + VEND_COOLDOWN_SECONDS <= #[trigger] prev[k] by {
            assert(times[k] == prev[k]);
        }
        lemma_repeated_vends(s, who, prev);
        let m = vend_all(s, calls_by(who, prev));
        assert(times[n - 2] + VEND_COOLDOWN_SECONDS <= times[n - 1]);
        assert(!in_cooldown(m, who, times.last()));
        lemma_vend_records_caller(m, who, times.last());
        assert forall|k: int| 0 <= k < times.len() implies !in_cooldown(
            #[trigger] vend_all(s, calls_by(who, times.take(k))),
            who,
            times[k],
        ) by {
            if k < n - 1 {
                assert(prev.take(k) =~= times.take(k));
                assert(prev[k] == times[k]);
            } else {
                assert(times.take(k) =~= prev);
            }
        }
    }
}

/// Vending from one identity that no slot holds, at times spaced at least a
/// cooldown apart, succeeds every time; afterwards its counter equals the
/// number of vends, and the cursor has moved by exactly one slot (on the
/// first vend) and not again.
pub proof fn law_repeated_vends(s: MachineState, who: Address, times: Seq<u64>)
    requires
        wf_state(s),
        !resident(s.slots, who),
        forall|k: int| 0 < k < times.len() ==> times[k - 1] + VEND_COOLDOWN_SECONDS <= #[trigger] times[k],
    ensures
        forall|k: int|
            0 <= k < times.len() ==> !in_cooldown(
                #[trigger] vend_all(s, calls_by(who, times.take(k))),
                who,
                times[k],
            ),
        balance_spec(vend_all(s, calls_by(who, times)), who) == times.len(),
        times.len() >= 1 ==> vend_all(s, calls_by(who, times)).cursor == (s.cursor + 1) % (
        MAX_USERS as nat),
        times.len() == 0 ==> vend_all(s, calls_by(who, times)).cursor == s.cursor,
{
    if times.len() == 0 {
        assert(calls_by(who, times) =~= Seq::<(Address, u64)>::empty());
    } else {
        lemma_repeated_vends(s, who, times);
    }
}

/// A vend by an identity less than a cooldown period after one of its
/// successful vends is refused, and leaves the state, and so every counter
/// and the cursor, unchanged.
pub proof fn law_cooldown_refuses(s: MachineState, who: Address, t0: u64, t1: u64)
    requires
        wf_state(s),
        !in_cooldown(s, who, t0),
        t1 < t0 + VEND_COOLDOWN_SECONDS,
    ensures
        in_cooldown(vend_next(s, who, t0), who, t1),
        vend_next(vend_next(s, who, t0), who, t1) == vend_next(s, who, t0),
{
    lemma_vend_records_caller(s, who, t0);
}

/// Repeating a successful vend with the same caller and time is refused,
/// with no change to the state: a vend is not idempotent.
pub proof fn law_repeat_is_refused(s: MachineState, who: Address, now: u64)
    requires
        wf_state(s),
        !in_cooldown(s, who, now),
    ensures
        in_cooldown(vend_next(s, who, now), who, now),
        vend_next(vend_next(s, who, now), who, now) == vend_next(s, who, now),
{
    law_cooldown_refuses(s, who, now, now);
}

/// An identity that none of the calls names has counter zero afterwards.
pub proof fn law_never_vended_is_zero(s: MachineState, calls: Seq<(Address, u64)>, who: Address)
    requires
        wf_state(s),
        !resident(s.slots, who),
        forall|k: int| 0 <= k < calls.len() ==> (#[trigger] calls[k]).0 != who,
    ensures
        wf_state(vend_all(s, calls)),
        !resident(vend_all(s, calls).slots, who),
        balance_spec(vend_all(s, calls), who) == 0,
    decreases calls.len(),
{
    if calls.len() > 0 {
        let prev = calls.drop_last();
        assert forall|k: int| 0 <= k < prev.len() implies (#[trigger] prev[k]).0 != who by {
            assert(prev[k] == calls[k]);
        }
        law_never_vended_is_zero(s, prev, who);
        let m = vend_all(s, prev);
        assert(calls.last() == calls[calls.len() - 1]);
        lemma_vend_next_wf(m, calls.last().0, calls.last().1);
        lemma_other_keeps_absent(m, calls.last().0, calls.last().1, who);
    }
}

/// On a new store, an identity that none of the calls names has counter zero.
pub proof fn law_unknown_identity_is_zero(calls: Seq<(Address, u64)>, who: Address)
    requires
        forall|k: int| 0 <= k < calls.len() ==> (#[trigger] calls[k]).0 != who,
    ensures
        balance_spec(vend_all(initial_state(), calls), who) == 0,
{
    lemma_initial_empty(who);
    law_never_vended_is_zero(initial_state(), calls, who);
}

/// Whether no two calls name the same identity.
pub open spec fn distinct_callers(calls: Seq<(Address, u64)>) -> bool {
    forall|i: int, j: int|
        0 <= i < calls.len() && 0 <= j < calls.len() && i != j ==> (#[trigger] calls[i]).0 != (
        #[trigger] calls[j]).0
}

/// After the first `k` vends of distinct new identities, each of them holds
/// a fresh record in the slots that follow the starting cursor, and the
/// rest are still absent.
proof fn lemma_inserts(s: MachineState, calls: Seq<(Address, u64)>, k: int)
    requires
        wf_state(s),
        distinct_callers(calls),
        forall|m: int| 0 <= m < calls.len() ==> !resident(s.slots, (#[trigger] calls[m]).0),
        0 <= k <= calls.len(),
        k <= MAX_USERS,
    ensures
        ({
            let t = vend_all(s, calls.take(k));
            &&& wf_state(t)
            &&& t.cursor == (s.cursor + k) % (MAX_USERS as int)
            &&& forall|j: int|
                0 <= j < k ==> #[trigger] t.slots[(s.cursor + j) % (MAX_USERS as int)] == Some(
                    UserRecord { user: calls[j].0, balance: 1, last_vend_time: calls[j].1 },
                )
            &&& forall|m: int| k <= m < calls.len() ==> !resident(t.slots, (#[trigger] calls[m]).0)
        }),
    decreases k,
{
    let n = MAX_USERS as int;
    let c = s.cursor as int;
    if k == 0 {
        assert(calls.take(0) =~= Seq::<(Address, u64)>::empty());
    } else {
        lemma_inserts(s, calls, k - 1);
        let m = vend_all(s, calls.take(k - 1));
        assert(calls.take(k).drop_last() =~= calls.take(k - 1));
        assert(calls.take(k).last() == calls[k - 1]);
        let who = calls[k - 1].0;
        let now = calls[k - 1].1;
        assert(!resident(m.slots, who));
        let t = vend_next(m, who, now);
        assert(t == vend_all(s, calls.take(k)));
        lemma_vend_next_wf(m, who, now);
        assert(m.cursor as int == (c + k - 1) % n);
        assert forall|j: int| 0 <= j < k implies #[trigger] t.slots[(c + j) % n] == Some(
            UserRecord { user: calls[j].0, balance: 1, last_vend_time: calls[j].1 },
        ) by {
            if j < k - 1 {
                assert((c + j) % n != (c + k - 1) % n);
            }
        }
        assert forall|mm: int| k <= mm < calls.len() implies !resident(
            t.slots,
            (#[trigger] calls[mm]).0,
        ) by {
            assert(calls[mm].0 != who);
            lemma_other_keeps_absent(m, who, now, calls[mm].0);
        }
    }
}

/// Vending from `MAX_USERS` identities that are distinct and not resident
/// brings the cursor back to where it started, with the first of them in
/// that slot; one more such identity then evicts the first (its counter
/// drops to zero), gets counter 1, and moves the cursor on by one slot.
pub proof fn law_eviction_order(s: MachineState, calls: Seq<(Address, u64)>)
    requires
        wf_state(s),
        calls.len() == MAX_USERS + 1,
        distinct_callers(calls),
        forall|m: int| 0 <= m < calls.len() ==> !resident(s.slots, (#[trigger] calls[m]).0),
    ensures
        vend_all(s, calls.take(MAX_USERS as int)).cursor == s.cursor,
        slot_of(vend_all(s, calls.take(MAX_USERS as int)).slots, calls[0].0) == s.cursor,
        balance_spec(vend_all(s, calls.take(MAX_USERS as int)), calls[0].0) == 1,
        balance_spec(vend_all(s, calls), calls[0].0) == 0,
        balance_spec(vend_all(s, calls), calls[MAX_USERS as int].0) == 1,
        vend_all(s, calls).cursor == (s.cursor + 1) % (MAX_USERS as nat),
{
    let n = MAX_USERS as int;
    let c = s.cursor as int;
    lemma_inserts(s, calls, n);
    let m = vend_all(s, calls.take(n));
    let first = calls[0].0;
    let last = calls[n].0;
    assert(c % n == c);
    assert(m.slots[(c + 0) % n] is Some);
    assert(holds(m.slots[c], first));
    lemma_slot_of_unique(m, first, c);
    assert(calls.drop_last() =~= calls.take(n));
    assert(calls.last() == calls[n]);
    assert(!resident(m.slots, last));
    let t = vend_all(s, calls);
    assert(t == vend_next(m, last, calls[n].1));
    lemma_vend_records_caller(m, last, calls[n].1);
    assert forall|p: int| 0 <= p < t.slots.len() implies !holds(#[trigger] t.slots[p], first) by {
        if p != c {
            assert(t.slots[p] == m.slots[p]);
            if holds(m.slots[p], first) {
                assert(m.slots[p] is Some && m.slots[c] is Some);
            }
        } else {
            assert(calls[0].0 != calls[n].0);
        }
    }
}

/// On a new store, `MAX_USERS` vends from distinct identities bring the
/// cursor back to slot 0, where the first of them stands; one more distinct
/// identity evicts that first one and leaves the cursor at slot 1.
pub proof fn law_eviction_from_new(calls: Seq<(Address, u64)>)
    requires
        calls.len() == MAX_USERS + 1,
        distinct_callers(calls),
    ensures
        vend_all(initial_state(), calls.take(MAX_USERS as int)).cursor == 0,
        slot_of(vend_all(initial_state(), calls.take(MAX_USERS as int)).slots, calls[0].0) == 0,
        balance_spec(vend_all(initial_state(), calls), calls[0].0) == 0,
        balance_spec(vend_all(initial_state(), calls), calls[MAX_USERS as int].0) == 1,
        vend_all(initial_state(), calls).cursor == 1,
{
    assert forall|m: int| 0 <= m < calls.len() implies !resident(
        initial_state().slots,
        (#[trigger] calls[m]).0,
    ) by {
        lemma_initial_empty(calls[m].0);
    }
    lemma_initial_empty(calls[0].0);
    law_eviction_order(initial_state(), calls);
}

} // verus!
