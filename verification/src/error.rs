//! Errors of dispatching and of building subscription sets.
use crate::key::{key_debug, Key};
use crate::policy::{policy_debug, QueuePolicy};
use crate::text::{copy_str, push_string};
use vstd::prelude::*;

verus! {

/// Report runtime and subscription construction failures.
#[derive(Clone, Debug, PartialEq, Eq)]
#[non_exhaustive]
pub enum Error {
    /// Signal that the program no longer exists.
    ProgramUnavailable,
    /// Signal that the queue policy refused to accept another message.
    QueueFull {
        /// The policy that was in effect when the queue filled up.
        policy: QueuePolicy,
    },
    /// Signal that two subscriptions in the same set use the same key.
    DuplicateSubscriptionKey {
        /// The conflicting key that was encountered.
        key: Key,
    },
}

/// The message an error displays.
pub open spec fn error_message(e: Error) -> Seq<char> {
    match e {
        Error::ProgramUnavailable => "program is no longer available"@,
        Error::QueueFull { policy } =>
            "message queue rejected a new message because it is full under policy "@
                + policy_debug(policy),
        Error::DuplicateSubscriptionKey { key } =>
            "duplicate subscription key declared while building subscriptions: "@ + key_debug(key@),
    }
}

impl Error {
    /// The message this error displays.
    pub fn message(&self) -> (s: String)
        ensures
            s@ == error_message(*self),
    {
        match self {
            Error::ProgramUnavailable => copy_str("program is no longer available"),
            Error::QueueFull { policy } => {
                let mut s = copy_str(
                    "message queue rejected a new message because it is full under policy ",
                );
                push_string(&mut s, policy.debug_string());
                s
            },
            Error::DuplicateSubscriptionKey { key } => {
                let mut s = copy_str(
                    "duplicate subscription key declared while building subscriptions: ",
                );
                push_string(&mut s, key.debug_string());
                s
            },
        }
    }

    /// A copy of this error.
    pub fn duplicate(&self) -> (e: Self)
        ensures
            match (*self, e) {
                (Error::ProgramUnavailable, Error::ProgramUnavailable) => true,
                (Error::QueueFull { policy: a }, Error::QueueFull { policy: b }) => a == b,
                (Error::DuplicateSubscriptionKey { key: a }, Error::DuplicateSubscriptionKey { key: b }) => a@ == b@,
                _ => false,
            },
    {
        match self {
            Error::ProgramUnavailable => Error::ProgramUnavailable,
            Error::QueueFull { policy } => Error::QueueFull { policy: *policy },
            Error::DuplicateSubscriptionKey { key } => Error::DuplicateSubscriptionKey { key: key.duplicate() },
        }
    }
}

/// Alias the crate-wide result type.
pub type Result<T> = std::result::Result<T, Error>;

} // verus!
