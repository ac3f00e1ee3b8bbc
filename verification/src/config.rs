//! Runtime configuration: queue behaviour and observability hooks.
//!
//! The hooks are kept as the caller gave them (their types are parameters of
//! [`ProgramConfig`]); the host that mounts a program calls them.
use crate::key::Key;
use crate::observability::ProgramId;
use crate::policy::{policy_debug, QueuePolicy};
use crate::text::{copy_str, dec_digits, push_decimal, push_str, push_string};
use std::marker::PhantomData;
use vstd::prelude::*;

verus! {

/// Stands for a hook that was not set.
pub struct NoHook;

/// Configure runtime observability hooks and queue behavior.
///
/// `O` is the runtime-event observer, `T` the telemetry observer, `DM`,
/// `DK` and `DP` the message, key and program describers.
pub struct ProgramConfig<Msg, O = NoHook, T = NoHook, DM = NoHook, DK = NoHook, DP = NoHook> {
    queue_warning_threshold: Option<usize>,
    queue_policy: QueuePolicy,
    observer: Option<O>,
    telemetry_observer: Option<T>,
    describe_message: Option<DM>,
    describe_key: Option<DK>,
    describe_program: Option<DP>,
    _message: PhantomData<Msg>,
}

/// The hooks of a configuration, taken out of it.
pub struct Hooks<O, T, DM, DK, DP> {
    pub observer: Option<O>,
    pub telemetry_observer: Option<T>,
    pub describe_message: Option<DM>,
    pub describe_key: Option<DK>,
    pub describe_program: Option<DP>,
}

impl<Msg> ProgramConfig<Msg> {
    /// Build a configuration with an unbounded queue, no warning threshold
    /// and no hooks.
    pub fn new() -> (c: Self)
        ensures
            c.spec_threshold() is None,
            c.spec_policy() == QueuePolicy::Unbounded,
            c.spec_observer() is None,
            c.spec_telemetry_observer() is None,
            c.spec_describe_message() is None,
            c.spec_describe_key() is None,
            c.spec_describe_program() is None,
    {
        ProgramConfig {
            queue_warning_threshold: None,
            queue_policy: QueuePolicy::Unbounded,
            observer: None,
            telemetry_observer: None,
            describe_message: None,
            describe_key: None,
            describe_program: None,
            _message: PhantomData,
        }
    }
}

impl<Msg> Default for ProgramConfig<Msg> {
    fn default() -> (c: Self)
        ensures
            c.spec_threshold() is None,
            c.spec_policy() == QueuePolicy::Unbounded,
            c.spec_observer() is None,
            c.spec_telemetry_observer() is None,
            c.spec_describe_message() is None,
            c.spec_describe_key() is None,
            c.spec_describe_program() is None,
    {
        Self::new()
    }
}

impl<Msg, O, T, DM, DK, DP> ProgramConfig<Msg, O, T, DM, DK, DP> {
    /// A configuration with an unbounded queue, no warning threshold and no
    /// hooks, whose hooks, once set, have the types `O`, `T`, `DM`, `DK` and
    /// `DP`.
    pub fn without_hooks() -> (c: Self)
        ensures
            c.spec_threshold() is None,
            c.spec_policy() == QueuePolicy::Unbounded,
            c.spec_observer() is None,
            c.spec_telemetry_observer() is None,
            c.spec_describe_message() is None,
            c.spec_describe_key() is None,
            c.spec_describe_program() is None,
    {
        ProgramConfig {
            queue_warning_threshold: None,
            queue_policy: QueuePolicy::Unbounded,
            observer: None,
            telemetry_observer: None,
            describe_message: None,
            describe_key: None,
            describe_program: None,
            _message: PhantomData,
        }
    }

    /// The queue warning threshold.
    pub closed spec fn spec_threshold(&self) -> Option<usize> {
        self.queue_warning_threshold
    }

    /// The queue policy.
    pub closed spec fn spec_policy(&self) -> QueuePolicy {
        self.queue_policy
    }

    /// The runtime-event observer.
    pub closed spec fn spec_observer(&self) -> Option<O> {
        self.observer
    }

    /// The telemetry observer.
    pub closed spec fn spec_telemetry_observer(&self) -> Option<T> {
        self.telemetry_observer
    }

    /// The message describer.
    pub closed spec fn spec_describe_message(&self) -> Option<DM> {
        self.describe_message
    }

    /// The key describer.
    pub closed spec fn spec_describe_key(&self) -> Option<DK> {
        self.describe_key
    }

    /// The program describer.
    pub closed spec fn spec_describe_program(&self) -> Option<DP> {
        self.describe_program
    }

    /// Emit queue warning events whenever the current queue depth is greater
    /// than `threshold`.
    pub fn queue_warning_threshold(self, threshold: usize) -> (c: Self)
        ensures
            c.spec_threshold() == Some(threshold),
            c.spec_policy() == self.spec_policy(),
            c.spec_observer() == self.spec_observer(),
            c.spec_telemetry_observer() == self.spec_telemetry_observer(),
            c.spec_describe_message() == self.spec_describe_message(),
            c.spec_describe_key() == self.spec_describe_key(),
            c.spec_describe_program() == self.spec_describe_program(),
    {
        ProgramConfig { queue_warning_threshold: Some(threshold), ..self }
    }

    /// Set the queue backpressure policy used by the runtime.
    pub fn queue_policy(self, queue_policy: QueuePolicy) -> (c: Self)
        ensures
            c.spec_threshold() == self.spec_threshold(),
            c.spec_policy() == queue_policy,
            c.spec_observer() == self.spec_observer(),
            c.spec_telemetry_observer() == self.spec_telemetry_observer(),
            c.spec_describe_message() == self.spec_describe_message(),
            c.spec_describe_key() == self.spec_describe_key(),
            c.spec_describe_program() == self.spec_describe_program(),
    {
        ProgramConfig { queue_policy, ..self }
    }

    /// Register an observer for high-level runtime events.
    pub fn observer<F>(self, observer: F) -> (c: ProgramConfig<Msg, F, T, DM, DK, DP>)
        ensures
            c.spec_threshold() == self.spec_threshold(),
            c.spec_policy() == self.spec_policy(),
            c.spec_observer() == Some(observer),
            c.spec_telemetry_observer() == self.spec_telemetry_observer(),
            c.spec_describe_message() == self.spec_describe_message(),
            c.spec_describe_key() == self.spec_describe_key(),
            c.spec_describe_program() == self.spec_describe_program(),
    {
        ProgramConfig {
            queue_warning_threshold: self.queue_warning_threshold,
            queue_policy: self.queue_policy,
            observer: Some(observer),
            telemetry_observer: self.telemetry_observer,
            describe_message: self.describe_message,
            describe_key: self.describe_key,
            describe_program: self.describe_program,
            _message: PhantomData,
        }
    }

    /// Register an observer for detailed telemetry envelopes.
    pub fn telemetry_observer<F>(self, observer: F) -> (c: ProgramConfig<Msg, O, F, DM, DK, DP>)
        ensures
            c.spec_threshold() == self.spec_threshold(),
            c.spec_policy() == self.spec_policy(),
            c.spec_observer() == self.spec_observer(),
            c.spec_telemetry_observer() == Some(observer),
            c.spec_describe_message() == self.spec_describe_message(),
            c.spec_describe_key() == self.spec_describe_key(),
            c.spec_describe_program() == self.spec_describe_program(),
    {
        ProgramConfig {
            queue_warning_threshold: self.queue_warning_threshold,
            queue_policy: self.queue_policy,
            observer: self.observer,
            telemetry_observer: Some(observer),
            describe_message: self.describe_message,
            describe_key: self.describe_key,
            describe_program: self.describe_program,
            _message: PhantomData,
        }
    }

    /// Provide a human-readable description for messages.
    pub fn describe_message<F>(self, describe: F) -> (c: ProgramConfig<Msg, O, T, F, DK, DP>)
        ensures
            c.spec_threshold() == self.spec_threshold(),
            c.spec_policy() == self.spec_policy(),
            c.spec_observer() == self.spec_observer(),
            c.spec_telemetry_observer() == self.spec_telemetry_observer(),
            c.spec_describe_message() == Some(describe),
            c.spec_describe_key() == self.spec_describe_key(),
            c.spec_describe_program() == self.spec_describe_program(),
    {
        ProgramConfig {
            queue_warning_threshold: self.queue_warning_threshold,
            queue_policy: self.queue_policy,
            observer: self.observer,
            telemetry_observer: self.telemetry_observer,
            describe_message: Some(describe),
            describe_key: self.describe_key,
            describe_program: self.describe_program,
            _message: PhantomData,
        }
    }

    /// Provide a human-readable description for keyed effects and
    /// subscriptions.
    pub fn describe_key<F>(self, describe: F) -> (c: ProgramConfig<Msg, O, T, DM, F, DP>)
        ensures
            c.spec_threshold() == self.spec_threshold(),
            c.spec_policy() == self.spec_policy(),
            c.spec_observer() == self.spec_observer(),
            c.spec_telemetry_observer() == self.spec_telemetry_observer(),
            c.spec_describe_message() == self.spec_describe_message(),
            c.spec_describe_key() == Some(describe),
            c.spec_describe_program() == self.spec_describe_program(),
    {
        ProgramConfig {
            queue_warning_threshold: self.queue_warning_threshold,
            queue_policy: self.queue_policy,
            observer: self.observer,
            telemetry_observer: self.telemetry_observer,
            describe_message: self.describe_message,
            describe_key: Some(describe),
            describe_program: self.describe_program,
            _message: PhantomData,
        }
    }

    /// Provide a human-readable description for each mounted program.
    pub fn describe_program<F>(self, describe: F) -> (c: ProgramConfig<Msg, O, T, DM, DK, F>)
        ensures
            c.spec_threshold() == self.spec_threshold(),
            c.spec_policy() == self.spec_policy(),
            c.spec_observer() == self.spec_observer(),
            c.spec_telemetry_observer() == self.spec_telemetry_observer(),
            c.spec_describe_message() == self.spec_describe_message(),
            c.spec_describe_key() == self.spec_describe_key(),
            c.spec_describe_program() == Some(describe),
    {
        ProgramConfig {
            queue_warning_threshold: self.queue_warning_threshold,
            queue_policy: self.queue_policy,
            observer: self.observer,
            telemetry_observer: self.telemetry_observer,
            describe_message: self.describe_message,
            describe_key: self.describe_key,
            describe_program: Some(describe),
            _message: PhantomData,
        }
    }

    /// The queue warning threshold, if one is set.
    pub fn warning_threshold(&self) -> (t: Option<usize>)
        ensures
            t == self.spec_threshold(),
    {
        self.queue_warning_threshold
    }

    /// The queue policy.
    pub fn policy(&self) -> (p: QueuePolicy)
        ensures
            p == self.spec_policy(),
    {
        self.queue_policy
    }

    /// `true` when a runtime-event observer is set.
    pub fn has_observer(&self) -> (r: bool)
        ensures
            r == self.spec_observer() is Some,
    {
        self.observer.is_some()
    }

    /// Take the hooks out of the configuration.
    pub fn into_hooks(self) -> (h: Hooks<O, T, DM, DK, DP>)
        ensures
            h.observer == self.spec_observer(),
            h.telemetry_observer == self.spec_telemetry_observer(),
            h.describe_message == self.spec_describe_message(),
            h.describe_key == self.spec_describe_key(),
            h.describe_program == self.spec_describe_program(),
    {
        Hooks {
            observer: self.observer,
            telemetry_observer: self.telemetry_observer,
            describe_message: self.describe_message,
            describe_key: self.describe_key,
            describe_program: self.describe_program,
        }
    }
}

impl<Msg, O, T, DM, DK, DP> ProgramConfig<Msg, O, T, DM, DK, DP> where DM: Fn(&Msg) -> String {
    /// Describe `message` with the configured describer, if there is one.
    pub fn describe_message_value(&self, message: &Msg) -> (d: Option<String>)
        requires
            self.spec_describe_message() is Some ==> self.spec_describe_message()->0.requires(
                (message,),
            ),
        ensures
            d is Some == self.spec_describe_message() is Some,
            d is Some ==> self.spec_describe_message()->0.ensures((message,), d->0),
    {
        match &self.describe_message {
            Some(describe) => Some(describe(message)),
            None => None,
        }
    }
}

impl<Msg, O, T, DM, DK, DP> ProgramConfig<Msg, O, T, DM, DK, DP> where DK: Fn(&Key) -> String {
    /// Describe `key` with the configured describer, if there is one.
    pub fn describe_key_value(&self, key: &Key) -> (d: Option<String>)
        requires
            self.spec_describe_key() is Some ==> self.spec_describe_key()->0.requires((key,)),
        ensures
            d is Some == self.spec_describe_key() is Some,
            d is Some ==> self.spec_describe_key()->0.ensures((key,), d->0),
    {
        match &self.describe_key {
            Some(describe) => Some(describe(key)),
            None => None,
        }
    }
}

impl<Msg, O, T, DM, DK, DP> ProgramConfig<Msg, O, T, DM, DK, DP> where DP: Fn(ProgramId) -> String {
    /// Describe the program `program_id` with the configured describer, if
    /// there is one.
    pub fn describe_program_value(&self, program_id: ProgramId) -> (d: Option<String>)
        requires
            self.spec_describe_program() is Some ==> self.spec_describe_program()->0.requires(
                (program_id,),
            ),
        ensures
            d is Some == self.spec_describe_program() is Some,
            d is Some ==> self.spec_describe_program()->0.ensures((program_id,), d->0),
    {
        match &self.describe_program {
            Some(describe) => Some(describe(program_id)),
            None => None,
        }
    }
}

/// How a flag reads in debug output.
pub open spec fn bool_text(b: bool) -> Seq<char> {
    if b {
        "true"@
    } else {
        "false"@
    }
}

/// How an optional count reads in debug output.
pub open spec fn opt_count_debug(o: Option<usize>) -> Seq<char> {
    match o {
        Some(n) => "Some("@ + dec_digits(n as nat) + ")"@,
        None => "None"@,
    }
}

fn push_flag(out: &mut String, b: bool)
    ensures
        final(out)@ == old(out)@ + bool_text(b),
{
    if b {
        push_str(out, "true");
    } else {
        push_str(out, "false");
    }
}

impl<Msg, O, T, DM, DK, DP> ProgramConfig<Msg, O, T, DM, DK, DP> {
    /// How the configuration reads in debug output: the threshold, the
    /// policy and which hooks are set.
    pub open spec fn debug_text(&self) -> Seq<char> {
        "ProgramConfig { queue_warning_threshold: "@ + opt_count_debug(self.spec_threshold())
            + ", queue_policy: "@ + policy_debug(self.spec_policy()) + ", has_observer: "@
            + bool_text(self.spec_observer() is Some) + ", has_telemetry_observer: "@ + bool_text(
            self.spec_telemetry_observer() is Some,
        ) + ", has_message_describer: "@ + bool_text(self.spec_describe_message() is Some)
            + ", has_key_describer: "@ + bool_text(self.spec_describe_key() is Some)
            + ", has_program_describer: "@ + bool_text(self.spec_describe_program() is Some)
            + ", .. }"@
    }

    /// The text of the configuration's debug form.
    pub fn debug_string(&self) -> (s: String)
        ensures
            s@ == self.debug_text(),
    {
        let mut out = copy_str("ProgramConfig { queue_warning_threshold: ");
        match self.queue_warning_threshold {
            Some(n) => {
                push_str(&mut out, "Some(");
                push_decimal(&mut out, n);
                push_str(&mut out, ")");
            },
            None => push_str(&mut out, "None"),
        }
        push_str(&mut out, ", queue_policy: ");
        push_string(&mut out, self.queue_policy.debug_string());
        push_str(&mut out, ", has_observer: ");
        push_flag(&mut out, self.observer.is_some());
        push_str(&mut out, ", has_telemetry_observer: ");
        push_flag(&mut out, self.telemetry_observer.is_some());
        push_str(&mut out, ", has_message_describer: ");
        push_flag(&mut out, self.describe_message.is_some());
        push_str(&mut out, ", has_key_describer: ");
        push_flag(&mut out, self.describe_key.is_some());
        push_str(&mut out, ", has_program_describer: ");
        push_flag(&mut out, self.describe_program.is_some());
        push_str(&mut out, ", .. }");
        proof {
            assert(out@ =~= self.debug_text());
        }
        out
    }
}

} // verus!
