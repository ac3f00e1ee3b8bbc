//! The runtime's decisions: admitting dispatched messages, draining the
//! queue in order, tracking non-keyed effects and reporting its bookkeeping.
//!
//! A host (the program that owns a model) drives these steps: it performs
//! the work they call for (running the model's update, spawning effects,
//! notifying observers) and feeds the results back.
use crate::error::Error;
use crate::keyed_tasks::{wrapping_next, KeyedTasks};
use crate::policy::{policy_capacity, QueueOverflowAction, QueuePolicy};
use crate::queue::{spec_complete, spec_reserve, spec_rollback, QueueControl, QueueEntryId, QueueReservation, QueueState, QueuedMessage};
use crate::registry::SubscriptionRegistry;
use futures::channel::mpsc::UnboundedSender;
use std::collections::{HashMap, VecDeque};
use vstd::prelude::*;

verus! {

broadcast use vstd::std_specs::hash::group_hash_axioms;

/// Identifier of a non-keyed running effect.
#[derive(Clone, Copy, Debug, PartialEq, Eq, Hash, Structural)]
pub struct EffectId(pub u64);

impl EffectId {
    /// Advance `counter` and return the identifier it now names.
    pub fn next(counter: &mut u64) -> (id: Self)
        ensures
            *final(counter) == wrapping_next(*old(counter)),
            id.0 == *final(counter),
    {
        *counter = if *counter == u64::MAX {
            0
        } else {
            *counter + 1
        };
        EffectId(*counter)
    }
}

/// The non-keyed effects that are running, each with the handle that keeps
/// it alive.
pub struct PendingEffects<T> {
    next_effect_id: u64,
    active: HashMap<u64, T>,
}

impl<T> PendingEffects<T> {
    /// The running effects by identifier.
    pub closed spec fn spec_active(&self) -> Map<u64, T> {
        self.active@
    }

    /// The last identifier handed out.
    pub closed spec fn spec_next_id(&self) -> u64 {
        self.next_effect_id
    }

    /// No effects.
    pub fn new() -> (p: Self)
        ensures
            p.spec_active() == Map::<u64, T>::empty(),
            p.spec_next_id() == 0,
    {
        PendingEffects { next_effect_id: 0, active: HashMap::new() }
    }

    /// Hand out the next identifier.
    pub fn next_id(&mut self) -> (id: EffectId)
        ensures
            id.0 == wrapping_next(old(self).spec_next_id()),
            final(self).spec_next_id() == id.0,
            final(self).spec_active() == old(self).spec_active(),
    {
        EffectId::next(&mut self.next_effect_id)
    }

    /// Track the running effect `id`.
    pub fn insert(&mut self, id: EffectId, task: T)
        ensures
            final(self).spec_active() == old(self).spec_active().insert(id.0, task),
            final(self).spec_next_id() == old(self).spec_next_id(),
    {
        self.active.insert(id.0, task);
    }

    /// Stop tracking the finished effect `id`; returns whether it was tracked.
    pub fn finish(&mut self, id: EffectId) -> (was_running: bool)
        ensures
            was_running == old(self).spec_active().contains_key(id.0),
            final(self).spec_active() == old(self).spec_active().remove(id.0),
            final(self).spec_next_id() == old(self).spec_next_id(),
    {
        let removed = self.active.remove(&id.0);
        proof {
            if removed is None {
                assert(old(self).spec_active().remove(id.0) =~= old(self).spec_active());
            }
        }
        removed.is_some()
    }

    /// Number of running effects.
    pub fn len(&self) -> (n: usize)
        ensures
            n == self.spec_active().len(),
    {
        self.active.len()
    }
}

/// The queue of messages waiting for the model's update, in order.
pub struct MessageQueue<Msg> {
    pending: VecDeque<QueuedMessage<Msg>>,
    is_draining: bool,
    auto_drain_suspended: bool,
}

impl<Msg> MessageQueue<Msg> {
    /// The queued entries, oldest first.
    pub closed spec fn queued(&self) -> Seq<QueuedMessage<Msg>> {
        self.pending@
    }

    /// Whether a drain is under way.
    pub closed spec fn draining(&self) -> bool {
        self.is_draining
    }

    /// Whether draining on receipt is suspended.
    pub closed spec fn suspended(&self) -> bool {
        self.auto_drain_suspended
    }

    /// Number of queued entries.
    pub fn len(&self) -> (n: usize)
        ensures
            n == self.queued().len(),
    {
        self.pending.len()
    }

    /// Whether nothing is queued.
    pub fn is_empty(&self) -> (r: bool)
        ensures
            r == (self.queued().len() == 0),
    {
        self.pending.len() == 0
    }

    /// Whether a drain is under way.
    pub fn is_draining(&self) -> (r: bool)
        ensures
            r == self.draining(),
    {
        self.is_draining
    }
}

/// The messages that draining `pending` hands to the model's update, in
/// order: the queued ones whose entries were not dropped after admission
/// (`dropped`); each dropped entry is skipped, and its drop mark consumed.
pub open spec fn delivered<Msg>(pending: Seq<QueuedMessage<Msg>>, dropped: Set<u64>) -> Seq<QueuedMessage<Msg>>
    decreases pending.len(),
{
    if pending.len() == 0 {
        Seq::empty()
    } else if dropped.contains(pending[0].id.0) {
        delivered(pending.drop_first(), dropped.remove(pending[0].id.0))
    } else {
        seq![pending[0]] + delivered(pending.drop_first(), dropped)
    }
}

/// The next message that draining `pending` hands to the model's update:
/// the first entry whose entry was not dropped.
pub open spec fn next_message<Msg>(pending: Seq<QueuedMessage<Msg>>, dropped: Set<u64>) -> Option<
    QueuedMessage<Msg>,
>
    decreases pending.len(),
{
    if pending.len() == 0 {
        None
    } else if dropped.contains(pending[0].id.0) {
        next_message(pending.drop_first(), dropped.remove(pending[0].id.0))
    } else {
        Some(pending[0])
    }
}

/// The drop marks left once the next message is taken from `pending`: the
/// marks of the dropped entries skipped on the way are consumed, no other
/// mark changes.
pub open spec fn marks_after_next<Msg>(pending: Seq<QueuedMessage<Msg>>, dropped: Set<u64>) -> Set<u64>
    decreases pending.len(),
{
    if pending.len() == 0 {
        dropped
    } else if dropped.contains(pending[0].id.0) {
        marks_after_next(pending.drop_first(), dropped.remove(pending[0].id.0))
    } else {
        dropped
    }
}

/// The entries left queued once the next message is taken from `pending`:
/// the dropped entries before it are skipped, the message itself is taken.
pub open spec fn rest_after_next<Msg>(pending: Seq<QueuedMessage<Msg>>, dropped: Set<u64>) -> Seq<
    QueuedMessage<Msg>,
>
    decreases pending.len(),
{
    if pending.len() == 0 {
        pending
    } else if dropped.contains(pending[0].id.0) {
        rest_after_next(pending.drop_first(), dropped.remove(pending[0].id.0))
    } else {
        pending.drop_first()
    }
}

/// Taking the next message never adds a drop mark.
pub proof fn lemma_marks_after_next_subset<Msg>(pending: Seq<QueuedMessage<Msg>>, dropped: Set<u64>)
    ensures
        marks_after_next(pending, dropped).subset_of(dropped),
    decreases pending.len(),
{
    if pending.len() > 0 && dropped.contains(pending[0].id.0) {
        lemma_marks_after_next_subset(pending.drop_first(), dropped.remove(pending[0].id.0));
    }
}

/// The queue grew past the warning threshold: `queued` messages are
/// pending, more than `threshold`.
#[derive(Clone, Copy, Debug, PartialEq, Eq, Structural)]
pub struct QueueWarning {
    pub queued: usize,
    pub threshold: usize,
}

/// Where a received message went.
#[derive(Clone, Copy, Debug, PartialEq, Eq, Structural)]
pub enum Received {
    /// The message's entry had been dropped after admission; it was
    /// discarded.
    Discarded,
    /// The message was queued at the back. `warning` holds the queue depth
    /// and the threshold when the depth is above the warning threshold;
    /// `drain` tells whether the host should drain the queue now.
    Queued { warning: Option<QueueWarning>, drain: bool },
}

/// The outcome of enqueueing a message produced inside the runtime (by a
/// command or an effect).
#[derive(Clone, Copy, Debug, PartialEq, Eq, Structural)]
pub struct Enqueued {
    /// The overflow handling the policy applied, if any.
    pub overflow: Option<QueueOverflowAction>,
    /// Where the admitted message went, if it was admitted.
    pub received: Option<Received>,
}

/// The outcome of a dispatch call.
#[derive(Debug)]
pub struct DispatchReport {
    /// What the caller of dispatch gets back.
    pub result: Result<(), Error>,
    /// The overflow handling the policy applied, if any.
    pub overflow: Option<QueueOverflowAction>,
    /// `true` when the message was handed to the program.
    pub accepted: bool,
    /// `true` when the program was gone and the admission was undone.
    pub rejected: bool,
}

/// Bookkeeping of a mounted program.
#[derive(Clone, Copy, Debug, PartialEq, Eq, Structural)]
pub struct RuntimeSnapshot {
    /// Report the current queue depth.
    pub queue_depth: usize,
    /// Report whether the runtime is actively draining queued messages.
    pub is_draining: bool,
    /// Report the number of tracked keyed effects.
    pub active_keyed_tasks: usize,
    /// Report the number of active subscriptions.
    pub active_subscriptions: usize,
}

/// The warning to report for `depth` queued messages: the depth and the
/// threshold, when the depth is above the threshold.
pub open spec fn queue_warning(depth: nat, threshold: Option<usize>) -> Option<QueueWarning> {
    match threshold {
        Some(t) => if depth > t {
            Some(QueueWarning { queued: depth as usize, threshold: t })
        } else {
            None
        },
        None => None,
    }
}

/// What enqueueing `message` inside the runtime does, with queue contents
/// `before` and queue control state `c_before`: the queue control decides
/// admission; a refused or dropped message changes nothing; an admitted one
/// is received (discarded when its entry was dropped meanwhile, queued at the
/// back otherwise), and `r` reports the overflow handling and where the
/// message went.
pub open spec fn enqueued_as<Msg>(
    before: Seq<QueuedMessage<Msg>>,
    after: Seq<QueuedMessage<Msg>>,
    c_before: QueueState,
    c_after: QueueState,
    suspended: bool,
    message: Msg,
    threshold: Option<usize>,
    r: Enqueued,
) -> bool {
    let (admitted, reservation) = spec_reserve(c_before);
    match reservation {
        QueueReservation::Rejected => {
            &&& r.overflow == Some(QueueOverflowAction::RejectedNew)
            &&& r.received is None
            &&& after == before
            &&& c_after == c_before
        },
        QueueReservation::DroppedNewest => {
            &&& r.overflow == Some(QueueOverflowAction::DroppedNewest)
            &&& r.received is None
            &&& after == before
            &&& c_after == c_before
        },
        QueueReservation::Accepted { id, overflow_action, .. } => {
            &&& r.overflow == overflow_action
            &&& admitted.dropped.contains(id.0) ==> (r.received == Some(Received::Discarded)
                && after == before)
            &&& !admitted.dropped.contains(id.0) ==> (r.received == Some(
                Received::Queued {
                    warning: queue_warning(admitted.active.len(), threshold),
                    drain: !suspended,
                },
            ) && after == before.push(QueuedMessage { id, message }))
            &&& c_after == (QueueState { dropped: admitted.dropped.remove(id.0), ..admitted })
        },
    }
}

/// The sending half of an unbounded channel of the `futures` crate.
#[verifier::external_type_specification]
#[verifier::external_body]
#[verifier::reject_recursive_types(T)]
pub struct ExUnboundedSender<T>(UnboundedSender<T>);

/// Hands `queued` to the channel's receiver; returns whether the channel
/// took it.
///
/// Calls `futures::channel::mpsc::UnboundedSender::unbounded_send`, which
/// succeeds exactly while the receiving end is open. Whether it is open is
/// state this library cannot see, so nothing is stated of the result. The
/// outside function panics only when the channel already holds its maximum
/// number of messages (more than half the `usize` range), which is also
/// state this library cannot see.
#[verifier::external_body]
fn send_queued<Msg>(sender: &UnboundedSender<QueuedMessage<Msg>>, queued: QueuedMessage<Msg>) -> (delivered: bool) {
    sender.unbounded_send(queued).is_ok()
}

impl<Msg> MessageQueue<Msg> {
    /// An empty queue, not draining, with automatic draining on.
    pub fn new() -> (q: Self)
        ensures
            q.queued() == Seq::<QueuedMessage<Msg>>::empty(),
            !q.draining(),
            !q.suspended(),
    {
        MessageQueue { pending: VecDeque::new(), is_draining: false, auto_drain_suspended: false }
    }

    /// Whether a newly queued message should start a drain right away.
    pub fn should_auto_drain(&self) -> (r: bool)
        ensures
            r == !self.suspended(),
    {
        !self.auto_drain_suspended
    }

    /// Hold automatic draining (while a transaction of commands runs).
    pub fn suspend_auto_drain(&mut self)
        ensures
            final(self).suspended(),
            final(self).queued() == old(self).queued(),
            final(self).draining() == old(self).draining(),
    {
        self.auto_drain_suspended = true;
    }

    /// Let newly queued messages start a drain again.
    pub fn resume_auto_drain(&mut self)
        ensures
            !final(self).suspended(),
            final(self).queued() == old(self).queued(),
            final(self).draining() == old(self).draining(),
    {
        self.auto_drain_suspended = false;
    }

    /// Receive a message that the queue control admitted: discard it if its
    /// entry was dropped meanwhile, queue it at the back otherwise.
    pub fn receive(
        &mut self,
        control: &mut QueueControl,
        queued: QueuedMessage<Msg>,
        threshold: Option<usize>,
    ) -> (r: Received)
        ensures
            old(control)@.dropped.contains(queued.id.0) ==> {
                &&& r is Discarded
                &&& final(self).queued() == old(self).queued()
                &&& final(control)@ == (QueueState { dropped: old(control)@.dropped.remove(queued.id.0), ..old(control)@ })
            },
            !old(control)@.dropped.contains(queued.id.0) ==> {
                &&& r == Received::Queued {
                    warning: queue_warning(old(control)@.active.len(), threshold),
                    drain: !old(self).suspended(),
                }
                &&& final(self).queued() == old(self).queued().push(queued)
                &&& final(control)@ == old(control)@
            },
            final(self).draining() == old(self).draining(),
            final(self).suspended() == old(self).suspended(),
    {
        if control.take_if_dropped(queued.id) {
            return Received::Discarded;
        }
        proof {
            assert(old(control)@.dropped.remove(queued.id.0) =~= old(control)@.dropped);
        }
        self.pending.push_back(queued);
        let depth = control.depth();
        let warning = match threshold {
            Some(t) => if depth > t {
                Some(QueueWarning { queued: depth, threshold: t })
            } else {
                None
            },
            None => None,
        };
        Received::Queued { warning, drain: !self.auto_drain_suspended }
    }

    /// Enqueue a message produced inside the runtime: ask the queue control
    /// for admission and, when admitted, receive it.
    pub fn enqueue(&mut self, control: &mut QueueControl, message: Msg, threshold: Option<usize>) -> (r:
        Enqueued)
        ensures
            enqueued_as(
                old(self).queued(),
                final(self).queued(),
                old(control)@,
                final(control)@,
                old(self).suspended(),
                message,
                threshold,
                r,
            ),
            final(self).draining() == old(self).draining(),
            final(self).suspended() == old(self).suspended(),
    {
        let reservation = control.reserve_enqueue();
        match reservation {
            QueueReservation::Rejected => Enqueued { overflow: Some(QueueOverflowAction::RejectedNew), received: None },
            QueueReservation::DroppedNewest => Enqueued {
                overflow: Some(QueueOverflowAction::DroppedNewest),
                received: None,
            },
            QueueReservation::Accepted { id, overflow_action, .. } => {
                let ghost admitted = control@;
                let received = self.receive(control, QueuedMessage { id, message }, threshold);
                proof {
                    if !admitted.dropped.contains(id.0) {
                        assert(admitted.dropped.remove(id.0) =~= admitted.dropped);
                    }
                }
                Enqueued { overflow: overflow_action, received: Some(received) }
            },
        }
    }

    /// Start a drain: `None` (and nothing changes) when a drain is already
    /// running, otherwise the number of queued messages, with the queue
    /// marked as draining.
    pub fn begin_drain(&mut self) -> (r: Option<usize>)
        ensures
            old(self).draining() ==> r is None && final(self).draining(),
            !old(self).draining() ==> r == Some(old(self).queued().len() as usize)
                && final(self).draining(),
            final(self).queued() == old(self).queued(),
            final(self).suspended() == old(self).suspended(),
    {
        if self.is_draining {
            return None;
        }
        self.is_draining = true;
        Some(self.pending.len())
    }

    /// Take the next message for the model's update: queued messages whose
    /// entries were dropped are skipped (their drop marks consumed); the
    /// message taken stops being tracked by the queue control. `None` once the
    /// queue is empty.
    pub fn next_for_update(&mut self, control: &mut QueueControl) -> (r: Option<QueuedMessage<Msg>>)
        ensures
            delivered(old(self).queued(), old(control)@.dropped) == match r {
                Some(q) => seq![q] + delivered(final(self).queued(), final(control)@.dropped),
                None => Seq::<QueuedMessage<Msg>>::empty(),
            },
            r is None ==> final(self).queued().len() == 0,
            r == next_message(old(self).queued(), old(control)@.dropped),
            final(self).queued() == rest_after_next(old(self).queued(), old(control)@.dropped),
            final(control)@.dropped == marks_after_next(old(self).queued(), old(control)@.dropped),
            final(control)@.dropped.subset_of(old(control)@.dropped),
            r matches Some(q) ==> final(control)@.active == crate::queue::remove_first(
                old(control)@.active,
                q.id.0,
            ),
            final(control)@.policy == old(control)@.policy,
            final(control)@.next_id == old(control)@.next_id,
            final(self).draining() == old(self).draining(),
            final(self).suspended() == old(self).suspended(),
    {
        loop
            invariant
                delivered(old(self).queued(), old(control)@.dropped) == delivered(
                    self.pending@,
                    control@.dropped,
                ),
                rest_after_next(old(self).queued(), old(control)@.dropped) == rest_after_next(
                    self.pending@,
                    control@.dropped,
                ),
                next_message(old(self).queued(), old(control)@.dropped) == next_message(
                    self.pending@,
                    control@.dropped,
                ),
                marks_after_next(old(self).queued(), old(control)@.dropped) == marks_after_next(
                    self.pending@,
                    control@.dropped,
                ),
                control@.dropped.subset_of(old(control)@.dropped),
                control@.active == old(control)@.active,
                control@.policy == old(control)@.policy,
                control@.next_id == old(control)@.next_id,
                self.is_draining == old(self).draining(),
                self.auto_drain_suspended == old(self).suspended(),
            decreases self.pending@.len(),
        {
            let ghost before = self.pending@;
            let ghost dropped = control@.dropped;
            match self.pending.pop_front() {
                None => {
                    return None;
                },
                Some(queued) => {
                    proof {
                        assert(queued == before[0]);
                        assert(self.pending@ =~= before.drop_first());
                    }
                    if control.take_if_dropped(queued.id) {
                        continue;
                    }
                    control.complete_processed(queued.id);
                    proof {
                        assert(control@.dropped == dropped);
                    }
                    return Some(queued);
                },
            }
        }
    }

    /// Finish a drain: the queue stops draining; returns whether any message
    /// was processed (then the host reconciles subscriptions and re-renders)
    /// and how many messages remain queued.
    pub fn finish_drain(&mut self, processed: usize) -> (r: (bool, usize))
        ensures
            !final(self).draining(),
            r.0 == (processed > 0),
            r.1 == old(self).queued().len(),
            final(self).queued() == old(self).queued(),
            final(self).suspended() == old(self).suspended(),
    {
        self.is_draining = false;
        (processed > 0, self.pending.len())
    }
}

/// What asking to admit a dispatched message gives: the report for a message
/// the policy refused or dropped, or the queue entry to hand to the program
/// together with the reservation that admitted it.
pub enum Admission<Msg> {
    /// The message does not enter the queue; `report` is what the caller of
    /// dispatch gets.
    Refused(DispatchReport),
    /// The message was admitted as `entry`; hand it to the program, then
    /// finish with [`finish_dispatch`].
    Send { entry: QueuedMessage<Msg>, reservation: QueueReservation },
}

/// The first half of a dispatch: ask the queue control to admit `message`.
///
/// A refused message gives [`Error::QueueFull`], a dropped one `Ok`, and
/// neither changes the queue control. An admitted message comes back as the
/// entry under the identifier it was admitted with.
pub fn admit_message<Msg>(control: &mut QueueControl, message: Msg) -> (r: Admission<Msg>)
    ensures
        ({
            let (admitted, reservation) = spec_reserve(old(control)@);
            match reservation {
                QueueReservation::Rejected => {
                    &&& (r matches Admission::Refused(rep) && (rep.result matches Err(
                        Error::QueueFull { policy },
                    ) && policy == old(control)@.policy) && rep.overflow == Some(
                        QueueOverflowAction::RejectedNew,
                    ) && !rep.accepted && !rep.rejected)
                    &&& final(control)@ == old(control)@
                },
                QueueReservation::DroppedNewest => {
                    &&& (r matches Admission::Refused(rep) && rep.result is Ok && rep.overflow
                        == Some(QueueOverflowAction::DroppedNewest) && !rep.accepted
                        && !rep.rejected)
                    &&& final(control)@ == old(control)@
                },
                QueueReservation::Accepted { id, .. } => {
                    &&& (r matches Admission::Send { entry, reservation: rv } && entry.id == id
                        && entry.message == message && rv == reservation)
                    &&& final(control)@ == admitted
                },
            }
        }),
{
    let reservation = control.reserve_enqueue();
    match reservation {
        QueueReservation::Rejected => Admission::Refused(
            DispatchReport {
                result: Err(Error::QueueFull { policy: control.policy() }),
                overflow: Some(QueueOverflowAction::RejectedNew),
                accepted: false,
                rejected: false,
            },
        ),
        QueueReservation::DroppedNewest => Admission::Refused(
            DispatchReport {
                result: Ok(()),
                overflow: Some(QueueOverflowAction::DroppedNewest),
                accepted: false,
                rejected: false,
            },
        ),
        QueueReservation::Accepted { id, .. } => Admission::Send {
            entry: QueuedMessage { id, message },
            reservation,
        },
    }
}

/// The second half of a dispatch, once the admitted entry was handed to the
/// program's channel: when the channel took it (`delivered`) the caller gets
/// `Ok` and the overflow handling of the admission; otherwise the program is
/// gone, the admission is undone and the caller gets
/// [`Error::ProgramUnavailable`].
pub fn finish_dispatch(control: &mut QueueControl, reservation: QueueReservation, delivered: bool) -> (r:
    DispatchReport)
    requires
        reservation is Accepted,
    ensures
        delivered ==> {
            &&& r.result is Ok
            &&& r.accepted && !r.rejected
            &&& (reservation matches QueueReservation::Accepted { overflow_action, .. }
                && r.overflow == overflow_action)
            &&& final(control)@ == old(control)@
        },
        !delivered ==> {
            &&& r.result matches Err(Error::ProgramUnavailable)
            &&& r.rejected && !r.accepted
            &&& r.overflow is None
            &&& final(control)@ == spec_rollback(old(control)@, reservation)
        },
{
    if delivered {
        let overflow = match reservation {
            QueueReservation::Accepted { overflow_action, .. } => overflow_action,
            _ => None,
        };
        DispatchReport { result: Ok(()), overflow, accepted: true, rejected: false }
    } else {
        control.rollback_enqueue(reservation);
        DispatchReport {
            result: Err(Error::ProgramUnavailable),
            overflow: None,
            accepted: false,
            rejected: true,
        }
    }
}

/// Dispatch `message` into a mounted program: admit it ([`admit_message`]),
/// hand the admitted entry to the program's channel, and finish
/// ([`finish_dispatch`]) with the channel's answer. The channel takes the
/// entry exactly while the program is mounted, which this library cannot
/// see; what follows each answer is stated by [`finish_dispatch`].
pub fn dispatch_message<Msg>(
    control: &mut QueueControl,
    sender: &UnboundedSender<QueuedMessage<Msg>>,
    message: Msg,
) -> (r: DispatchReport)
    ensures
        ({
            let (admitted, reservation) = spec_reserve(old(control)@);
            match reservation {
                QueueReservation::Rejected => {
                    &&& r.result matches Err(Error::QueueFull { policy }) && policy == old(control)@.policy
                    &&& r.overflow == Some(QueueOverflowAction::RejectedNew)
                    &&& !r.accepted && !r.rejected
                    &&& final(control)@ == old(control)@
                },
                QueueReservation::DroppedNewest => {
                    &&& r.result is Ok
                    &&& r.overflow == Some(QueueOverflowAction::DroppedNewest)
                    &&& !r.accepted && !r.rejected
                    &&& final(control)@ == old(control)@
                },
                QueueReservation::Accepted { overflow_action, .. } => {
                    ||| {
                        &&& r.result is Ok
                        &&& r.accepted && !r.rejected
                        &&& r.overflow == overflow_action
                        &&& final(control)@ == admitted
                    }
                    ||| {
                        &&& r.result matches Err(Error::ProgramUnavailable)
                        &&& r.rejected && !r.accepted
                        &&& r.overflow is None
                        &&& final(control)@ == spec_rollback(admitted, reservation)
                    }
                },
            }
        }),
{
    match admit_message(control, message) {
        Admission::Refused(report) => report,
        Admission::Send { entry, reservation } => {
            let delivered = send_queued(sender, entry);
            finish_dispatch(control, reservation, delivered)
        },
    }
}

/// Capture the runtime's bookkeeping: queue depth, whether a drain runs,
/// and how many keyed effects and subscriptions are active.
pub fn snapshot<Msg, T, H>(
    control: &QueueControl,
    queue: &MessageQueue<Msg>,
    tasks: &KeyedTasks<T>,
    subscriptions: &SubscriptionRegistry<H>,
) -> (s: RuntimeSnapshot)
    requires
        tasks.wf(),
        subscriptions.wf(),
    ensures
        s.queue_depth == control@.active.len(),
        s.is_draining == queue.draining(),
        s.active_keyed_tasks == tasks.spec_active().dom().len(),
        s.active_subscriptions == subscriptions.spec_active().dom().len(),
{
    RuntimeSnapshot {
        queue_depth: control.depth(),
        is_draining: queue.is_draining,
        active_keyed_tasks: tasks.len(),
        active_subscriptions: subscriptions.len(),
    }
}

/// Draining is first in, first out: with no entry dropped, the messages
/// reach the model's update exactly in the order they were queued; and a
/// message queued at the back (as a re-entrant emit or dispatch does during
/// a drain) that was not dropped is delivered after all those before it.
pub proof fn lemma_delivery_is_fifo<Msg>(pending: Seq<QueuedMessage<Msg>>, dropped: Set<u64>, q: QueuedMessage<Msg>)
    ensures
        delivered(pending, Set::<u64>::empty()) == pending,
        !dropped.contains(q.id.0) ==> delivered(pending.push(q), dropped) == delivered(pending, dropped).push(q),
    decreases pending.len(),
{
    if pending.len() == 0 {
        assert(pending.push(q).drop_first() =~= Seq::<QueuedMessage<Msg>>::empty());
        assert(seq![q] + Seq::<QueuedMessage<Msg>>::empty() =~= seq![q]);
    } else {
        assert(pending.push(q).drop_first() =~= pending.drop_first().push(q));
        assert(pending =~= seq![pending[0]] + pending.drop_first());
        lemma_delivery_is_fifo(pending.drop_first(), Set::<u64>::empty(), q);
        if dropped.contains(pending[0].id.0) {
            lemma_delivery_is_fifo(pending.drop_first(), dropped.remove(pending[0].id.0), q);
        } else {
            lemma_delivery_is_fifo(pending.drop_first(), dropped, q);
            if !dropped.contains(q.id.0) {
                assert(seq![pending[0]] + delivered(pending.drop_first(), dropped).push(q)
                    =~= (seq![pending[0]] + delivered(pending.drop_first(), dropped)).push(q));
            }
        }
    }
}

/// What an enqueue reports follows the queue's policy: below capacity (or
/// without one) the message is admitted with no overflow; at capacity,
/// reject-new reports the new message rejected and drop-newest reports it
/// dropped, neither admitting it nor changing the queue, and drop-oldest
/// admits it and reports the oldest entry dropped. The reported action is
/// `RejectedNew` exactly when a reject-new queue is full.
pub proof fn lemma_enqueue_reports_the_policy_action<Msg>(
    before: Seq<QueuedMessage<Msg>>,
    after: Seq<QueuedMessage<Msg>>,
    c_before: QueueState,
    c_after: QueueState,
    suspended: bool,
    message: Msg,
    threshold: Option<usize>,
    r: Enqueued,
)
    requires
        enqueued_as(before, after, c_before, c_after, suspended, message, threshold, r),
    ensures
        (match policy_capacity(c_before.policy) {
            None => true,
            Some(capacity) => c_before.active.len() < capacity,
        }) ==> r.overflow is None && r.received is Some,
        c_before.policy matches QueuePolicy::RejectNew { capacity } && c_before.active.len()
            >= capacity ==> {
            &&& r.overflow == Some(QueueOverflowAction::RejectedNew)
            &&& r.received is None
            &&& after == before
            &&& c_after == c_before
        },
        c_before.policy matches QueuePolicy::DropNewest { capacity } && c_before.active.len()
            >= capacity ==> {
            &&& r.overflow == Some(QueueOverflowAction::DroppedNewest)
            &&& r.received is None
            &&& after == before
            &&& c_after == c_before
        },
        c_before.policy matches QueuePolicy::DropOldest { capacity } && c_before.active.len()
            >= capacity && c_before.active.len() > 0 ==> {
            &&& r.overflow == Some(QueueOverflowAction::DroppedOldest)
            &&& r.received is Some
        },
        r.overflow == Some(QueueOverflowAction::RejectedNew) <==> (c_before.policy matches QueuePolicy::RejectNew {
            capacity,
        } && c_before.active.len() >= capacity),
{
}

} // verus!
