//! Queue backpressure policies.
use crate::text::{copy_str, dec_digits, push_decimal, push_str};
use vstd::prelude::*;

verus! {

/// Define how the runtime handles queue backpressure.
#[derive(Clone, Copy, Debug, PartialEq, Eq, Structural)]
pub enum QueuePolicy {
    /// Accept every message without applying a capacity limit.
    Unbounded,
    /// Reject the newly dispatched message once `capacity` pending messages are tracked.
    RejectNew {
        /// The maximum number of pending messages allowed in the queue.
        capacity: usize,
    },
    /// Drop the newly dispatched message once `capacity` pending messages are tracked.
    DropNewest {
        /// The maximum number of pending messages allowed in the queue.
        capacity: usize,
    },
    /// Drop the oldest pending message to make room for a new one.
    DropOldest {
        /// The maximum number of pending messages allowed in the queue.
        capacity: usize,
    },
}

/// Describe the action taken when a queue reaches capacity.
#[derive(Clone, Copy, Debug, PartialEq, Eq, Structural)]
pub enum QueueOverflowAction {
    /// Reject the newly submitted message.
    RejectedNew,
    /// Drop the newly submitted message.
    DroppedNewest,
    /// Drop the oldest queued message.
    DroppedOldest,
}

/// The capacity limit of a policy: none for an unbounded queue.
pub open spec fn policy_capacity(policy: QueuePolicy) -> Option<usize> {
    match policy {
        QueuePolicy::Unbounded => None,
        QueuePolicy::RejectNew { capacity } => Some(capacity),
        QueuePolicy::DropNewest { capacity } => Some(capacity),
        QueuePolicy::DropOldest { capacity } => Some(capacity),
    }
}

/// How a policy reads in debug output, e.g. `RejectNew { capacity: 4 }`.
pub open spec fn policy_debug(policy: QueuePolicy) -> Seq<char> {
    match policy {
        QueuePolicy::Unbounded => "Unbounded"@,
        QueuePolicy::RejectNew { capacity } => "RejectNew { capacity: "@ + dec_digits(
            capacity as nat,
        ) + " }"@,
        QueuePolicy::DropNewest { capacity } => "DropNewest { capacity: "@ + dec_digits(
            capacity as nat,
        ) + " }"@,
        QueuePolicy::DropOldest { capacity } => "DropOldest { capacity: "@ + dec_digits(
            capacity as nat,
        ) + " }"@,
    }
}

/// How an overflow action reads in debug output.
pub open spec fn overflow_action_debug(action: QueueOverflowAction) -> Seq<char> {
    match action {
        QueueOverflowAction::RejectedNew => "RejectedNew"@,
        QueueOverflowAction::DroppedNewest => "DroppedNewest"@,
        QueueOverflowAction::DroppedOldest => "DroppedOldest"@,
    }
}

impl QueueOverflowAction {
    /// The text of the action's debug form.
    pub fn debug_string(self) -> (s: String)
        ensures
            s@ == overflow_action_debug(self),
    {
        match self {
            QueueOverflowAction::RejectedNew => copy_str("RejectedNew"),
            QueueOverflowAction::DroppedNewest => copy_str("DroppedNewest"),
            QueueOverflowAction::DroppedOldest => copy_str("DroppedOldest"),
        }
    }
}

impl QueuePolicy {
    /// The text of the policy's debug form, e.g. `RejectNew { capacity: 4 }`.
    pub fn debug_string(self) -> (s: String)
        ensures
            s@ == policy_debug(self),
    {
        let (mut s, capacity) = match self {
            QueuePolicy::Unbounded => {
                return copy_str("Unbounded");
            },
            QueuePolicy::RejectNew { capacity } => (copy_str("RejectNew { capacity: "), capacity),
            QueuePolicy::DropNewest { capacity } => (copy_str("DropNewest { capacity: "), capacity),
            QueuePolicy::DropOldest { capacity } => (copy_str("DropOldest { capacity: "), capacity),
        };
        push_decimal(&mut s, capacity);
        push_str(&mut s, " }");
        s
    }

    /// Return the capacity limit, or `None` for an unbounded queue.
    pub fn capacity(self) -> (c: Option<usize>)
        ensures
            c == policy_capacity(self),
    {
        match self {
            QueuePolicy::Unbounded => None,
            QueuePolicy::RejectNew { capacity } => Some(capacity),
            QueuePolicy::DropNewest { capacity } => Some(capacity),
            QueuePolicy::DropOldest { capacity } => Some(capacity),
        }
    }
}

} // verus!
