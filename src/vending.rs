use vstd::prelude::*;

use crate::address::Address;

verus! {

/// Minimum number of seconds between two successful vends for one identity.
pub const VEND_COOLDOWN_SECONDS: u64 = 60;

/// Number of identity slots the store holds.
pub const MAX_USERS: usize = 20;

/// The state remembered for one resident identity.
#[derive(Clone, Copy, Debug)]
pub struct UserRecord {
    pub user: Address,
    pub balance: u64,
    pub last_vend_time: u64,
}

/// Why a vend was refused.
#[derive(Clone, Copy, Debug, PartialEq, Eq, Structural)]
pub enum VendError {
    /// The caller vended successfully less than a cooldown period ago.
    CooldownActive,
}

impl VendError {
    /// The human-readable reason for the refusal.
    pub fn message(&self) -> (r: &'static str)
        ensures
            r@ == "Cooldown: Please wait before requesting another cupcake."@,
    {
        "Cooldown: Please wait before requesting another cupcake."
    }
}

/// The abstract state of a store: its slots (`None` for a slot never
/// written) and the slot that the next new identity will overwrite.
pub ghost struct MachineState {
    pub slots: Seq<Option<UserRecord>>,
    pub cursor: nat,
}

/// Whether `slot` holds the record of `who`.
pub open spec fn holds(slot: Option<UserRecord>, who: Address) -> bool {
    match slot {
        Some(r) => r.user == who,
        None => false,
    }
}

/// Whether some slot holds the record of `who`.
pub open spec fn resident(slots: Seq<Option<UserRecord>>, who: Address) -> bool {
    exists|i: int| 0 <= i < slots.len() && holds(slots[i], who)
}

/// The slot holding `who`, when `who` is resident.
pub open spec fn slot_of(slots: Seq<Option<UserRecord>>, who: Address) -> int
    recommends
        resident(slots, who),
{
    choose|i: int| 0 <= i < slots.len() && holds(slots[i], who)
}

/// The record of `who`, if it is resident.
pub open spec fn record_of(s: MachineState, who: Address) -> Option<UserRecord> {
    if resident(s.slots, who) {
        s.slots[slot_of(s.slots, who)]
    } else {
        None
    }
}

/// The counter of `who`: zero for an identity that is not resident.
pub open spec fn balance_spec(s: MachineState, who: Address) -> nat {
    match record_of(s, who) {
        Some(r) => r.balance as nat,
        None => 0,
    }
}

/// Whether a vend by `who` at time `now` falls inside its cooldown.
pub open spec fn in_cooldown(s: MachineState, who: Address, now: u64) -> bool {
    match record_of(s, who) {
        Some(r) => now < r.last_vend_time + VEND_COOLDOWN_SECONDS,
        None => false,
    }
}

/// The state after a vend by `who` at time `now`: unchanged inside the
/// cooldown; the caller's record bumped when resident; otherwise a fresh
/// record written over the cursor's slot, and the cursor advanced.
pub open spec fn vend_next(s: MachineState, who: Address, now: u64) -> MachineState {
    if in_cooldown(s, who, now) {
        s
    } else {
        match record_of(s, who) {
            Some(r) => MachineState {
                slots: s.slots.update(
                    slot_of(s.slots, who),
                    Some(UserRecord { user: who, balance: (r.balance + 1) as u64, last_vend_time: now }),
                ),
                cursor: s.cursor,
            },
            None => MachineState {
                slots: s.slots.update(
                    s.cursor as int,
                    Some(UserRecord { user: who, balance: 1, last_vend_time: now }),
                ),
                cursor: ((s.cursor + 1) % (MAX_USERS as nat)) as nat,
            },
        }
    }
}

/// The state of a newly created store.
pub open spec fn initial_state() -> MachineState {
    MachineState { slots: Seq::new(MAX_USERS as nat, |i: int| None), cursor: 0 }
}

/// A record's counter is positive and could have been reached by vends
/// spaced a cooldown apart ending at its last vend time.
pub open spec fn record_ok(r: UserRecord) -> bool {
    r.balance >= 1 && (r.balance - 1) * VEND_COOLDOWN_SECONDS <= r.last_vend_time
}

/// Well-formedness of a store: the right number of slots, a cursor in
/// range, no identity in two slots, and every record consistent.
pub open spec fn wf_state(s: MachineState) -> bool {
    &&& s.slots.len() == MAX_USERS
    &&& s.cursor < MAX_USERS
    &&& forall|i: int, j: int|
        #![trigger s.slots[i], s.slots[j]]
        0 <= i < s.slots.len() && 0 <= j < s.slots.len() && s.slots[i] is Some
            && s.slots[j] is Some && s.slots[i]->0.user == s.slots[j]->0.user ==> i == j
    &&& forall|i: int| 0 <= i < s.slots.len() && s.slots[i] is Some ==> record_ok(#[trigger] s.slots[i]->0)
}

/// The state made of the given slots and cursor.
pub open spec fn parts_state(slots: Seq<Option<UserRecord>>, cursor: usize) -> MachineState {
    MachineState { slots, cursor: cursor as nat }
}

/// In a well-formed store, the slot that holds `who` is the one `slot_of` names.
pub proof fn lemma_slot_of_unique(s: MachineState, who: Address, i: int)
    requires
        wf_state(s),
        0 <= i < s.slots.len(),
        holds(s.slots[i], who),
    ensures
        resident(s.slots, who),
        slot_of(s.slots, who) == i,
        record_of(s, who) == s.slots[i],
{
    assert(resident(s.slots, who));
    let j = slot_of(s.slots, who);
    assert(holds(s.slots[j], who));
    assert(s.slots[i] is Some && s.slots[j] is Some);
}

/// A vend keeps a store well-formed.
pub proof fn lemma_vend_next_wf(s: MachineState, who: Address, now: u64)
    requires
        wf_state(s),
    ensures
        wf_state(vend_next(s, who, now)),
{
    let t = vend_next(s, who, now);
    if !in_cooldown(s, who, now) {
        if resident(s.slots, who) {
            let k = slot_of(s.slots, who);
            let r = s.slots[k]->0;
            assert(record_ok(r));
            assert(r.balance * VEND_COOLDOWN_SECONDS <= now);
            assert forall|i: int, j: int|
                #![trigger t.slots[i], t.slots[j]]
                0 <= i < t.slots.len() && 0 <= j < t.slots.len() && t.slots[i] is Some
                    && t.slots[j] is Some && t.slots[i]->0.user == t.slots[j]->0.user implies i == j by {
                assert(s.slots[i] is Some && s.slots[j] is Some);
            }
            assert forall|i: int| 0 <= i < t.slots.len() && t.slots[i] is Some implies record_ok(#[trigger] t.slots[i]->0) by {
                if i != k {
                    assert(s.slots[i] is Some);
                }
            }
        } else {
            let c = s.cursor as int;
            assert forall|i: int, j: int|
                #![trigger t.slots[i], t.slots[j]]
                0 <= i < t.slots.len() && 0 <= j < t.slots.len() && t.slots[i] is Some
                    && t.slots[j] is Some && t.slots[i]->0.user == t.slots[j]->0.user implies i == j by {
                if i != c && j != c {
                    assert(s.slots[i] is Some && s.slots[j] is Some);
                } else if i == c && j != c {
                    assert(holds(s.slots[j], who));
                } else if j == c && i != c {
                    assert(holds(s.slots[i], who));
                }
            }
            assert forall|i: int| 0 <= i < t.slots.len() && t.slots[i] is Some implies record_ok(#[trigger] t.slots[i]->0) by {
                if i != c {
                    assert(s.slots[i] is Some);
                }
            }
        }
    }
}

/// A fixed-capacity store of per-identity counters, with a cooldown between
/// successive vends by one identity and eviction in insertion order.
pub struct VendingMachine {
    user_records: Vec<Option<UserRecord>>,
    next_user_index: usize,
}

impl View for VendingMachine {
    type V = MachineState;

    closed spec fn view(&self) -> MachineState {
        MachineState { slots: self.user_records@, cursor: self.next_user_index as nat }
    }
}

impl VendingMachine {
    /// Well-formedness of the store.
    pub open spec fn wf(&self) -> bool {
        wf_state(self@)
    }

    /// A store with every slot empty and the cursor at slot 0.
    pub fn new() -> (r: VendingMachine)
        ensures
            r.wf(),
            r@ == initial_state(),
    {
        let mut user_records: Vec<Option<UserRecord>> = Vec::new();
        let mut i: usize = 0;
        while i < MAX_USERS
            invariant
                0 <= i <= MAX_USERS,
                user_records@.len() == i,
                forall|j: int| 0 <= j < i ==> user_records@[j] is None,
            decreases MAX_USERS - i,
        {
            user_records.push(None);
            i = i + 1;
        }
        let r = VendingMachine { user_records, next_user_index: 0 };
        assert(r@.slots =~= initial_state().slots);
        r
    }

    /// Rebuilds a store from its slots and cursor, as kept between calls:
    /// `None` exactly when they do not form a well-formed store.
    pub fn from_parts(slots: Vec<Option<UserRecord>>, next_user_index: usize) -> (r: Option<
        VendingMachine,
    >)
        ensures
            r is Some <==> wf_state(parts_state(slots@, next_user_index)),
            r matches Some(m) ==> m@ == parts_state(slots@, next_user_index),
    {
        let ghost s = parts_state(slots@, next_user_index);
        if slots.len() != MAX_USERS || next_user_index >= MAX_USERS {
            return None;
        }
        let mut i: usize = 0;
        while i < slots.len()
            invariant
                slots@.len() == MAX_USERS,
                s == parts_state(slots@, next_user_index),
                next_user_index < MAX_USERS,
                0 <= i <= MAX_USERS,
                forall|a: int| 0 <= a < i && slots@[a] is Some ==> record_ok(#[trigger] slots@[a]->0),
                forall|a: int, b: int|
                    #![trigger slots@[a], slots@[b]]
                    0 <= a < i && 0 <= b < i && a != b && slots@[a] is Some && slots@[b] is Some
                        ==> slots@[a]->0.user != slots@[b]->0.user,
            decreases MAX_USERS - i,
        {
            match &slots[i] {
                Some(rec) => {
                    if rec.balance == 0 || rec.balance - 1 > rec.last_vend_time / VEND_COOLDOWN_SECONDS {
                        assert(!record_ok(s.slots[i as int]->0));
                        return None;
                    }
                    let mut j: usize = 0;
                    while j < i
                        invariant
                            slots@.len() == MAX_USERS,
                            s == parts_state(slots@, next_user_index),
                            0 <= j <= i < MAX_USERS,
                            slots@[i as int] == Some(*rec),
                            forall|b: int|
                                0 <= b < j && slots@[b] is Some ==> (#[trigger] slots@[b])->0.user != rec.user,
                        decreases i - j,
                    {
                        match &slots[j] {
                            Some(other) => {
                                if other.user.same(&rec.user) {
                                    assert(s.slots[j as int] is Some && s.slots[i as int] is Some);
                                    return None;
                                }
                            },
                            None => {},
                        }
                        j = j + 1;
                    }
                },
                None => {},
            }
            i = i + 1;
        }
        Some(VendingMachine { user_records: slots, next_user_index })
    }

    /// The contents of slot `i`.
    pub fn record_at(&self, i: usize) -> (r: Option<UserRecord>)
        requires
            self.wf(),
            i < MAX_USERS,
        ensures
            r == self@.slots[i as int],
    {
        self.user_records[i]
    }

    /// The slot holding `who`, scanning the slots in ascending order.
    fn find_user(&self, who: &Address) -> (r: Option<usize>)
        requires
            self.wf(),
        ensures
            match r {
                Some(i) => resident(self@.slots, *who) && i as int == slot_of(self@.slots, *who),
                None => !resident(self@.slots, *who),
            },
    {
        let mut i: usize = 0;
        while i < self.user_records.len()
            invariant
                self.wf(),
                0 <= i <= self@.slots.len(),
                forall|j: int| 0 <= j < i ==> !holds(#[trigger] self@.slots[j], *who),
            decreases self@.slots.len() - i,
        {
            match &self.user_records[i] {
                Some(rec) => {
                    if rec.user.same(who) {
                        proof {
                            lemma_slot_of_unique(self@, *who, i as int);
                        }
                        return Some(i);
                    }
                },
                None => {},
            }
            i = i + 1;
        }
        None
    }

    /// Vends one unit to `caller` at time `current_time`.
    ///
    /// A resident caller inside its cooldown is refused and nothing changes;
    /// a resident caller past it has its counter bumped and its time set; a
    /// new caller gets a record with counter 1 in the cursor's slot,
    /// evicting whatever was there, and the cursor advances.
    pub fn vend(&mut self, caller: Address, current_time: u64) -> (r: Result<(), VendError>)
        requires
            old(self).wf(),
        ensures
            final(self).wf(),
            final(self)@ == vend_next(old(self)@, caller, current_time),
            r is Err <==> in_cooldown(old(self)@, caller, current_time),
            r matches Err(e) ==> e == VendError::CooldownActive,
    {
        proof {
            lemma_vend_next_wf(self@, caller, current_time);
        }
        match self.find_user(&caller) {
            Some(i) => {
                let rec = match self.user_records[i] {
                    Some(rec) => rec,
                    None => { return Ok(()); },
                };
                assert(record_ok(rec));
                if rec.last_vend_time > u64::MAX - VEND_COOLDOWN_SECONDS
                    || current_time < rec.last_vend_time + VEND_COOLDOWN_SECONDS {
                    return Err(VendError::CooldownActive);
                }
                assert(rec.balance * VEND_COOLDOWN_SECONDS <= current_time);
                let updated = UserRecord {
                    user: rec.user,
                    balance: rec.balance + 1,
                    last_vend_time: current_time,
                };
                self.user_records.set(i, Some(updated));
            },
            None => {
                let idx = self.next_user_index;
                self.user_records.set(
                    idx,
                    Some(UserRecord { user: caller, balance: 1, last_vend_time: current_time }),
                );
                self.next_user_index = (idx + 1) % MAX_USERS;
            },
        }
        Ok(())
    }

    /// The counter of `user`, or zero when `user` is not resident.
    pub fn balance_of(&self, user: Address) -> (r: u64)
        requires
            self.wf(),
        ensures
            r as nat == balance_spec(self@, user),
    {
        match self.find_user(&user) {
            Some(i) => match &self.user_records[i] {
                Some(rec) => rec.balance,
                None => 0,
            },
            None => 0,
        }
    }

    /// The slot that the next new identity will overwrite.
    pub fn next_user_index(&self) -> (r: usize)
        ensures
            r as nat == self@.cursor,
    {
        self.next_user_index
    }
}

} // verus!
