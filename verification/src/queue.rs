//! Admission control for the message queue: which dispatched messages enter
//! the queue, which are refused or dropped, and how many are pending.
use crate::policy::{policy_capacity, QueueOverflowAction, QueuePolicy};
use std::collections::{HashSet, VecDeque};
use vstd::prelude::*;

verus! {

broadcast use vstd::std_specs::hash::group_hash_axioms;

/// Identifier of a queued message.
#[derive(Clone, Copy, Debug, PartialEq, Eq, Hash, Structural)]
pub struct QueueEntryId(pub u64);

/// A message together with the identifier its admission was given.
pub struct QueuedMessage<Msg> {
    pub id: QueueEntryId,
    pub message: Msg,
}

/// The outcome of asking to enqueue one message.
#[derive(Clone, Copy, Debug, PartialEq, Eq, Structural)]
pub enum QueueReservation {
    /// The message may enter the queue under `id`; under a drop-oldest policy
    /// at capacity, the oldest tracked entry `displaced` was dropped for it.
    Accepted {
        id: QueueEntryId,
        overflow_action: Option<QueueOverflowAction>,
        displaced: Option<QueueEntryId>,
    },
    /// The policy refused the message.
    Rejected,
    /// The policy dropped the message.
    DroppedNewest,
}

/// What a [`QueueControl`] holds: the policy, the last identifier handed out,
/// the identifiers of the tracked (pending) entries from oldest to newest, and
/// the identifiers of entries that were dropped after admission and are still
/// travelling to the queue.
pub ghost struct QueueState {
    pub policy: QueuePolicy,
    pub next_id: u64,
    pub active: Seq<u64>,
    pub dropped: Set<u64>,
}

/// The identifier handed out after `n` (wrapping).
pub open spec fn next_entry_id(n: u64) -> u64 {
    if n == u64::MAX {
        0
    } else {
        (n + 1) as u64
    }
}

/// Admit a new entry at the back of the queue.
pub open spec fn admit_back(s: QueueState) -> (QueueState, QueueReservation) {
    let id = next_entry_id(s.next_id);
    (
        QueueState { policy: s.policy, next_id: id, active: s.active.push(id), dropped: s.dropped },
        QueueReservation::Accepted { id: QueueEntryId(id), overflow_action: None, displaced: None },
    )
}

/// The state and outcome of asking to enqueue one message in state `s`.
///
/// Below capacity (or without one) the message is admitted at the back. At
/// capacity, reject-new refuses it, drop-newest drops it, and drop-oldest
/// drops the oldest tracked entry to admit it (or drops the new message when
/// nothing is tracked).
pub open spec fn spec_reserve(s: QueueState) -> (QueueState, QueueReservation) {
    match s.policy {
        QueuePolicy::Unbounded => admit_back(s),
        QueuePolicy::RejectNew { capacity } => {
            if s.active.len() < capacity {
                admit_back(s)
            } else {
                (s, QueueReservation::Rejected)
            }
        },
        QueuePolicy::DropNewest { capacity } => {
            if s.active.len() < capacity {
                admit_back(s)
            } else {
                (s, QueueReservation::DroppedNewest)
            }
        },
        QueuePolicy::DropOldest { capacity } => {
            if s.active.len() < capacity {
                admit_back(s)
            } else if s.active.len() == 0 {
                (s, QueueReservation::DroppedNewest)
            } else {
                let oldest = s.active[0];
                let id = next_entry_id(s.next_id);
                (
                    QueueState {
                        policy: s.policy,
                        next_id: id,
                        active: s.active.drop_first().push(id),
                        dropped: s.dropped.insert(oldest),
                    },
                    QueueReservation::Accepted {
                        id: QueueEntryId(id),
                        overflow_action: Some(QueueOverflowAction::DroppedOldest),
                        displaced: Some(QueueEntryId(oldest)),
                    },
                )
            }
        },
    }
}

/// `s` without the first occurrence of `x`.
pub open spec fn remove_first(s: Seq<u64>, x: u64) -> Seq<u64>
    decreases s.len(),
{
    if s.len() == 0 {
        s
    } else if s[0] == x {
        s.drop_first()
    } else {
        seq![s[0]] + remove_first(s.drop_first(), x)
    }
}

/// The state after undoing the admission `r` in state `s`: the admitted
/// entry stops being tracked and, if it had displaced an entry that is still
/// marked dropped, that entry is tracked again at the front.
pub open spec fn spec_rollback(s: QueueState, r: QueueReservation) -> QueueState {
    match r {
        QueueReservation::Accepted { id, overflow_action, displaced } => {
            let active = remove_first(s.active, id.0);
            if overflow_action == Some(QueueOverflowAction::DroppedOldest) && displaced is Some
                && s.dropped.contains(displaced.unwrap().0) {
                QueueState {
                    policy: s.policy,
                    next_id: s.next_id,
                    active: seq![displaced.unwrap().0] + active,
                    dropped: s.dropped.remove(displaced.unwrap().0),
                }
            } else {
                QueueState { policy: s.policy, next_id: s.next_id, active, dropped: s.dropped }
            }
        },
        _ => s,
    }
}

/// The state after an entry was taken from the queue and processed.
pub open spec fn spec_complete(s: QueueState, id: u64) -> QueueState {
    QueueState { policy: s.policy, next_id: s.next_id, active: remove_first(s.active, id), dropped: s.dropped }
}

/// The tracked entries never exceed the policy's capacity.
pub open spec fn within_capacity(s: QueueState) -> bool {
    match policy_capacity(s.policy) {
        Some(c) => s.active.len() <= c,
        None => true,
    }
}

/// Identifiers are fresh and unique: every tracked or dropped identifier was
/// handed out already (is at most `next_id` and not zero), no identifier is
/// tracked twice, and no dropped identifier is still tracked.
pub open spec fn distinct_ids(s: QueueState) -> bool {
    &&& forall|i: int| 0 <= i < s.active.len() ==> 1 <= #[trigger] s.active[i] <= s.next_id
    &&& forall|x: u64| #[trigger] s.dropped.contains(x) ==> 1 <= x <= s.next_id
    &&& s.active.no_duplicates()
    &&& forall|x: u64| #[trigger] s.dropped.contains(x) ==> !s.active.contains(x)
    &&& s.dropped.finite()
}

proof fn lemma_remove_first_absent(s: Seq<u64>, x: u64)
    requires
        !s.contains(x),
    ensures
        remove_first(s, x) == s,
    decreases s.len(),
{
    if s.len() > 0 {
        assert(!s.drop_first().contains(x)) by {
            if s.drop_first().contains(x) {
                let j = choose|j: int| 0 <= j < s.drop_first().len() && s.drop_first()[j] == x;
                assert(s[j + 1] == x);
            }
        }
        lemma_remove_first_absent(s.drop_first(), x);
        assert(s =~= seq![s[0]] + s.drop_first());
    }
}

proof fn lemma_remove_first_at(s: Seq<u64>, x: u64, i: int)
    requires
        0 <= i < s.len(),
        s[i] == x,
        forall|j: int| 0 <= j < i ==> s[j] != x,
    ensures
        remove_first(s, x) == s.remove(i),
    decreases s.len(),
{
    if i == 0 {
        assert(s.drop_first() =~= s.remove(0));
    } else {
        lemma_remove_first_at(s.drop_first(), x, i - 1);
        assert(seq![s[0]] + s.drop_first().remove(i - 1) =~= s.remove(i));
    }
}

proof fn lemma_remove_first_last(s: Seq<u64>, x: u64)
    requires
        !s.contains(x),
    ensures
        remove_first(s.push(x), x) == s,
    decreases s.len(),
{
    if s.len() == 0 {
        assert(s.push(x).drop_first() =~= s);
    } else {
        assert(!s.drop_first().contains(x)) by {
            if s.drop_first().contains(x) {
                let j = choose|j: int| 0 <= j < s.drop_first().len() && s.drop_first()[j] == x;
                assert(s[j + 1] == x);
            }
        }
        assert(s.push(x).drop_first() =~= s.drop_first().push(x));
        lemma_remove_first_last(s.drop_first(), x);
        assert(s =~= seq![s[0]] + s.drop_first());
    }
}

/// What remains after removing an element was already there.
proof fn lemma_remove_first_contains(s: Seq<u64>, x: u64, y: u64)
    requires
        remove_first(s, x).contains(y),
    ensures
        s.contains(y),
    decreases s.len(),
{
    let r = remove_first(s, x);
    let j = choose|j: int| 0 <= j < r.len() && r[j] == y;
    if s.len() > 0 {
        let rest = remove_first(s.drop_first(), x);
        if s[0] != x {
            assert(r =~= seq![s[0]] + rest);
            if j > 0 {
                assert(rest[j - 1] == y);
                lemma_remove_first_contains(s.drop_first(), x, y);
                let k = choose|k: int| 0 <= k < s.drop_first().len() && s.drop_first()[k] == y;
                assert(s[k + 1] == y);
            } else {
                assert(s[0] == y);
            }
        } else {
            assert(r =~= s.drop_first());
            assert(s[j + 1] == y);
        }
    }
}

/// Removing an element keeps the rest, without duplicates, within the same
/// elements.
proof fn lemma_remove_first_subset(s: Seq<u64>, x: u64)
    ensures
        forall|y: u64| #[trigger] remove_first(s, x).contains(y) ==> s.contains(y),
        remove_first(s, x).len() <= s.len(),
        s.no_duplicates() ==> remove_first(s, x).no_duplicates(),
        s.no_duplicates() ==> !remove_first(s, x).contains(x),
    decreases s.len(),
{
    assert forall|y: u64| #[trigger] remove_first(s, x).contains(y) implies s.contains(y) by {
        lemma_remove_first_contains(s, x, y);
    }
    if s.len() > 0 {
        lemma_remove_first_subset(s.drop_first(), x);
        let r = remove_first(s, x);
        let rest = remove_first(s.drop_first(), x);
        if s.no_duplicates() {
            assert(s.drop_first().no_duplicates());
            if s[0] != x {
                assert(!rest.contains(s[0])) by {
                    if rest.contains(s[0]) {
                        lemma_remove_first_contains(s.drop_first(), x, s[0]);
                        let k = choose|k: int| 0 <= k < s.drop_first().len() && s.drop_first()[k] == s[0];
                        assert(s[k + 1] == s[0]);
                    }
                }
                assert(r =~= seq![s[0]] + rest);
                assert(!r.contains(x)) by {
                    if r.contains(x) {
                        let k = choose|k: int| 0 <= k < r.len() && r[k] == x;
                        if k > 0 {
                            assert(rest[k - 1] == x);
                        }
                    }
                }
            } else {
                assert(!s.drop_first().contains(x)) by {
                    if s.drop_first().contains(x) {
                        let k = choose|k: int| 0 <= k < s.drop_first().len() && s.drop_first()[k] == x;
                        assert(s[k + 1] == x);
                        assert(s[0] == x);
                    }
                }
            }
        }
    }
}

/// Tracks queue admission under a [`QueuePolicy`].
pub struct QueueControl {
    policy: QueuePolicy,
    next_id: u64,
    active: VecDeque<u64>,
    dropped: HashSet<u64>,
}

impl View for QueueControl {
    type V = QueueState;

    closed spec fn view(&self) -> QueueState {
        QueueState { policy: self.policy, next_id: self.next_id, active: self.active@, dropped: self.dropped@ }
    }
}

impl QueueControl {
    /// An empty control under `policy`.
    pub fn new(policy: QueuePolicy) -> (c: Self)
        ensures
            c@ == (QueueState { policy, next_id: 0, active: Seq::empty(), dropped: Set::empty() }),
            within_capacity(c@),
            distinct_ids(c@),
    {
        QueueControl { policy, next_id: 0, active: VecDeque::new(), dropped: HashSet::new() }
    }

    /// The policy in force.
    pub fn policy(&self) -> (p: QueuePolicy)
        ensures
            p == self@.policy,
    {
        self.policy
    }

    /// Hand out the next identifier.
    pub fn next_id(&mut self) -> (id: QueueEntryId)
        ensures
            id.0 == next_entry_id(old(self)@.next_id),
            final(self)@ == (QueueState { next_id: id.0, ..old(self)@ }),
    {
        self.next_id = if self.next_id == u64::MAX {
            0
        } else {
            self.next_id + 1
        };
        QueueEntryId(self.next_id)
    }

    fn admit_back(&mut self) -> (r: QueueReservation)
        ensures
            (final(self)@, r) == admit_back(old(self)@),
    {
        let id = self.next_id();
        self.active.push_back(id.0);
        QueueReservation::Accepted { id, overflow_action: None, displaced: None }
    }

    /// Ask to enqueue one message; see [`spec_reserve`] for the outcome.
    pub fn reserve_enqueue(&mut self) -> (r: QueueReservation)
        ensures
            (final(self)@, r) == spec_reserve(old(self)@),
    {
        match self.policy {
            QueuePolicy::Unbounded => self.admit_back(),
            QueuePolicy::RejectNew { capacity } => {
                if self.active.len() < capacity {
                    self.admit_back()
                } else {
                    QueueReservation::Rejected
                }
            },
            QueuePolicy::DropNewest { capacity } => {
                if self.active.len() < capacity {
                    self.admit_back()
                } else {
                    QueueReservation::DroppedNewest
                }
            },
            QueuePolicy::DropOldest { capacity } => {
                if self.active.len() < capacity {
                    return self.admit_back();
                }
                let oldest = match self.active.pop_front() {
                    Some(oldest) => oldest,
                    None => {
                        return QueueReservation::DroppedNewest;
                    },
                };
                self.dropped.insert(oldest);
                let id = self.next_id();
                self.active.push_back(id.0);
                proof {
                    assert(self.active@ =~= old(self)@.active.drop_first().push(id.0));
                }
                QueueReservation::Accepted {
                    id,
                    overflow_action: Some(QueueOverflowAction::DroppedOldest),
                    displaced: Some(QueueEntryId(oldest)),
                }
            },
        }
    }

    /// Stop tracking the first occurrence of `id`, if any.
    fn forget(&mut self, id: u64)
        ensures
            final(self)@ == (QueueState { active: remove_first(old(self)@.active, id), ..old(self)@ }),
    {
        let n = self.active.len();
        let mut i: usize = 0;
        while i < n
            invariant
                n == self.active@.len(),
                self@ == old(self)@,
                i <= n,
                forall|j: int| 0 <= j < i ==> self.active@[j] != id,
            decreases n - i,
        {
            if self.active[i] == id {
                proof {
                    lemma_remove_first_at(self.active@, id, i as int);
                }
                self.active.remove(i);
                return;
            }
            i = i + 1;
        }
        proof {
            lemma_remove_first_absent(self.active@, id);
        }
    }

    /// Undo the admission `reservation`; see [`spec_rollback`].
    pub fn rollback_enqueue(&mut self, reservation: QueueReservation)
        ensures
            final(self)@ == spec_rollback(old(self)@, reservation),
    {
        if let QueueReservation::Accepted { id, overflow_action, displaced } = reservation {
            self.forget(id.0);
            let dropped_oldest = match overflow_action {
                Some(QueueOverflowAction::DroppedOldest) => true,
                _ => false,
            };
            if dropped_oldest {
                if let Some(displaced) = displaced {
                    let ghost before = self.dropped@;
                    if self.dropped.remove(&displaced.0) {
                        self.active.push_front(displaced.0);
                    } else {
                        proof {
                            assert(self.dropped@ =~= before);
                        }
                    }
                }
            }
        }
    }

    /// Stop tracking the processed entry `id`.
    pub fn complete_processed(&mut self, id: QueueEntryId)
        ensures
            final(self)@ == spec_complete(old(self)@, id.0),
    {
        self.forget(id.0);
    }

    /// Report whether `id` was dropped after admission, forgetting the mark.
    pub fn take_if_dropped(&mut self, id: QueueEntryId) -> (r: bool)
        ensures
            r == old(self)@.dropped.contains(id.0),
            final(self)@ == (QueueState { dropped: old(self)@.dropped.remove(id.0), ..old(self)@ }),
    {
        self.dropped.remove(&id.0)
    }

    /// Number of tracked (pending) entries.
    pub fn depth(&self) -> (n: usize)
        ensures
            n == self@.active.len(),
    {
        self.active.len()
    }
}

/// Admission never lets the tracked entries exceed the policy's capacity, and
/// neither do processing and clearing drop marks.
pub proof fn lemma_capacity_preserved(s: QueueState, id: u64)
    requires
        within_capacity(s),
    ensures
        within_capacity(spec_reserve(s).0),
        within_capacity(spec_complete(s, id)),
        within_capacity(QueueState { dropped: s.dropped.remove(id), ..s }),
{
    lemma_remove_first_subset(s.active, id);
}

/// Identifiers stay fresh and unique through admission (while the counter
/// has not reached its maximum), processing, clearing drop marks, and
/// undoing the admission just made.
pub proof fn lemma_distinct_ids_preserved(s: QueueState, id: u64)
    requires
        distinct_ids(s),
    ensures
        s.next_id < u64::MAX ==> distinct_ids(spec_reserve(s).0),
        distinct_ids(spec_complete(s, id)),
        distinct_ids(QueueState { dropped: s.dropped.remove(id), ..s }),
{
    lemma_remove_first_subset(s.active, id);
    let c = spec_complete(s, id);
    assert forall|i: int| 0 <= i < c.active.len() implies 1 <= #[trigger] c.active[i] <= c.next_id by {
        assert(c.active.contains(c.active[i]));
        assert(s.active.contains(c.active[i]));
    }
    assert forall|x: u64| #[trigger] c.dropped.contains(x) implies !c.active.contains(x) by {
        if c.active.contains(x) {
            assert(s.active.contains(x));
        }
    }
    if s.next_id < u64::MAX {
        let n = (s.next_id + 1) as u64;
        let r = spec_reserve(s).0;
        assert(!s.active.contains(n));
        assert(!s.dropped.contains(n));
        if r.active.len() == s.active.len() + 1 {
            assert(r.active =~= s.active.push(n));
            assert forall|i: int, j: int| 0 <= i < j < r.active.len() implies r.active[i] != r.active[j] by {
                if j == s.active.len() {
                    assert(s.active.contains(r.active[i]));
                }
            }
            assert forall|x: u64| #[trigger] r.dropped.contains(x) implies !r.active.contains(x) by {
                if r.active.contains(x) {
                    let k = choose|k: int| 0 <= k < r.active.len() && r.active[k] == x;
                    if k < s.active.len() {
                        assert(s.active[k] == x);
                        assert(s.active.contains(x));
                    }
                }
            }
        } else if r.next_id == n {
            let oldest = s.active[0];
            let rest = s.active.drop_first();
            assert(r.active =~= rest.push(n));
            assert forall|i: int, j: int| 0 <= i < j < r.active.len() implies r.active[i] != r.active[j] by {
                if j == rest.len() {
                    assert(s.active[i + 1] == r.active[i]);
                    assert(s.active.contains(r.active[i]));
                } else {
                    assert(s.active[i + 1] == r.active[i]);
                    assert(s.active[j + 1] == r.active[j]);
                }
            }
            assert forall|i: int| 0 <= i < r.active.len() implies 1 <= #[trigger] r.active[i] <= r.next_id by {
                if i < rest.len() {
                    assert(r.active[i] == s.active[i + 1]);
                }
            }
            assert forall|x: u64| #[trigger] r.dropped.contains(x) implies 1 <= x <= r.next_id by {
                if x != oldest {
                    assert(s.dropped.contains(x));
                }
            }
            assert forall|x: u64| #[trigger] r.dropped.contains(x) implies !r.active.contains(x) by {
                if r.active.contains(x) {
                    let k = choose|k: int| 0 <= k < r.active.len() && r.active[k] == x;
                    if k < rest.len() {
                        assert(s.active[k + 1] == x);
                        assert(s.active.contains(x));
                        if x == oldest {
                            assert(s.active[0] == s.active[k + 1]);
                        }
                    }
                }
            }
        }
    }
}

/// Undoing an admission right after it was made restores the tracked and
/// dropped entries exactly: only the identifier counter stays advanced.
pub proof fn lemma_rollback_undoes_reserve(s: QueueState)
    requires
        distinct_ids(s),
        s.next_id < u64::MAX,
    ensures
        spec_rollback(spec_reserve(s).0, spec_reserve(s).1)
            == (QueueState { next_id: spec_reserve(s).0.next_id, ..s }),
{
    let (r, res) = spec_reserve(s);
    let n = (s.next_id + 1) as u64;
    assert(!s.active.contains(n));
    if r.active.len() == s.active.len() + 1 {
        lemma_remove_first_last(s.active, n);
    } else if res is Accepted {
        let oldest = s.active[0];
        let rest = s.active.drop_first();
        assert(!rest.contains(n)) by {
            if rest.contains(n) {
                let k = choose|k: int| 0 <= k < rest.len() && rest[k] == n;
                assert(s.active[k + 1] == n);
            }
        }
        lemma_remove_first_last(rest, n);
        assert(!s.dropped.contains(oldest));
        assert(s.dropped.insert(oldest).remove(oldest) =~= s.dropped);
        assert(seq![oldest] + rest =~= s.active);
    }
}

/// Admission is first in, first out: an admitted entry is tracked behind all
/// entries already tracked (after the displaced oldest one, under drop-oldest
/// at capacity).
pub proof fn lemma_admission_is_fifo(s: QueueState)
    requires
        spec_reserve(s).1 is Accepted,
    ensures
        spec_reserve(s).0.active.last() == spec_reserve(s).1->id.0,
        spec_reserve(s).1->displaced is None ==> spec_reserve(s).0.active.drop_last() == s.active,
        spec_reserve(s).1->displaced is Some ==> spec_reserve(s).0.active.drop_last()
            == s.active.drop_first(),
{
    let r = spec_reserve(s).0;
    if spec_reserve(s).1->displaced is None {
        assert(r.active.drop_last() =~= s.active);
    } else {
        assert(r.active.drop_last() =~= s.active.drop_first());
    }
}

/// A dropped entry is reported dropped exactly once.
pub proof fn lemma_drop_reported_once(s: QueueState, id: u64)
    ensures
        !(QueueState { dropped: s.dropped.remove(id), ..s }).dropped.contains(id),
{
}

} // verus!
