//! The decisions a mounted program makes while it runs commands and applies
//! effect completions.
//!
//! The host that owns the model drives these steps. For each step of a
//! command it asks [`Runtime::execute_step`] what to do, spawns the effects it
//! is told to spawn and hands their handles to [`Runtime::track`]; when an
//! effect finishes it reports the outcome to [`Runtime::complete`]. Messages
//! that commands and effects produce go through the queue, in order.
use crate::command::{label_view, steps, Command, CommandInner, CommandKind, Effect};
use crate::key::{Key, KeyView};
use crate::keyed_tasks::{
    after_completion, is_current_in, wrapping_next, CommandMeta, KeyedEffectContext, KeyedTasks,
    RunningTask,
};
use crate::queue::QueueControl;
use crate::runtime::{enqueued_as, EffectId, Enqueued, MessageQueue, PendingEffects};
use vstd::prelude::*;

verus! {

/// Which running effect a completion belongs to.
pub enum CompletionContext {
    /// A keyed effect, by key and generation.
    Keyed(KeyedEffectContext),
    /// A non-keyed effect, by identifier.
    NonKeyed(EffectId),
}

/// What the host does for one step of a command.
pub enum StepOutcome<Msg, F, T> {
    /// Nothing: the step was [`CommandInner::NoOp`].
    Nothing,
    /// Run these steps, in order: the leaves of a batch.
    Expand(Vec<Command<Msg, F>>),
    /// The emitted message went through the queue.
    Emitted { meta: CommandMeta, outcome: Enqueued },
    /// Spawn `effect`; its completion belongs to `context`. The handle of the
    /// spawned effect goes to [`Runtime::track`].
    Spawn { meta: CommandMeta, effect: Effect<F>, context: CompletionContext },
    /// The keyed effect tracked under `key`, if any, stopped being tracked;
    /// dropping its handle stops it.
    Canceled { key: Key, canceled: Option<RunningTask<T>> },
}

/// What became of a finished effect.
pub enum Completion<Msg> {
    /// The completion was applied; `outcome` is what enqueueing its message
    /// gave, when it produced one.
    Applied { outcome: Option<Enqueued> },
    /// A keyed effect that a later one replaced (or that was canceled)
    /// finished: its message is handed back, unapplied.
    Stale { message: Option<Msg> },
}

/// The runtime state of a mounted program that its decisions read and
/// change: the message queue, the keyed and non-keyed effects in flight,
/// and the queue warning threshold.
pub struct Runtime<Msg, T> {
    queue: MessageQueue<Msg>,
    tasks: KeyedTasks<T>,
    effects: PendingEffects<T>,
    warning_threshold: Option<usize>,
}

/// The description of a step with execution `kind` and label `label`.
pub open spec fn meta_is(meta: CommandMeta, kind: CommandKind, label: Option<String>) -> bool {
    meta.kind == kind && meta.label_view() == label_view(label)
}

impl<Msg, T> Runtime<Msg, T> {
    /// The runtime's internal consistency.
    pub closed spec fn wf(&self) -> bool {
        self.tasks.wf()
    }

    /// The message queue.
    pub closed spec fn spec_queue(&self) -> MessageQueue<Msg> {
        self.queue
    }

    /// The keyed effects in flight.
    pub closed spec fn spec_tasks(&self) -> KeyedTasks<T> {
        self.tasks
    }

    /// The non-keyed effects in flight.
    pub closed spec fn spec_effects(&self) -> PendingEffects<T> {
        self.effects
    }

    /// The queue warning threshold.
    pub closed spec fn spec_threshold(&self) -> Option<usize> {
        self.warning_threshold
    }

    /// The message queue.
    pub fn queue(&self) -> (q: &MessageQueue<Msg>)
        ensures
            *q == self.spec_queue(),
    {
        &self.queue
    }

    /// The message queue, to receive and drain messages; the effects in
    /// flight and the threshold stay as they are.
    pub fn queue_mut(&mut self) -> (q: &mut MessageQueue<Msg>)
        ensures
            *q == old(self).spec_queue(),
            final(self).spec_queue() == *final(q),
            final(self).spec_tasks() == old(self).spec_tasks(),
            final(self).spec_effects() == old(self).spec_effects(),
            final(self).spec_threshold() == old(self).spec_threshold(),
            old(self).wf() ==> final(self).wf(),
    {
        &mut self.queue
    }

    /// The keyed effects in flight.
    pub fn tasks(&self) -> (t: &KeyedTasks<T>)
        ensures
            *t == self.spec_tasks(),
            self.wf() ==> t.wf(),
    {
        &self.tasks
    }

    /// The non-keyed effects in flight.
    pub fn effects(&self) -> (e: &PendingEffects<T>)
        ensures
            *e == self.spec_effects(),
    {
        &self.effects
    }

    /// The queue warning threshold.
    pub fn warning_threshold(&self) -> (t: Option<usize>)
        ensures
            t == self.spec_threshold(),
    {
        self.warning_threshold
    }

    /// A fresh runtime: nothing queued, nothing in flight.
    pub fn new(warning_threshold: Option<usize>) -> (r: Self)
        ensures
            r.wf(),
            r.spec_queue().queued().len() == 0,
            !r.spec_queue().draining(),
            !r.spec_queue().suspended(),
            r.spec_tasks().spec_active() == Map::<KeyView, RunningTask<T>>::empty(),
            r.spec_effects().spec_active() == Map::<u64, T>::empty(),
            r.spec_threshold() == warning_threshold,
    {
        Runtime {
            queue: MessageQueue::new(),
            tasks: KeyedTasks::new(),
            effects: PendingEffects::new(),
            warning_threshold,
        }
    }

    /// Decide what one step of a command does.
    ///
    /// - nothing for [`CommandInner::NoOp`];
    /// - a batch expands to its leaves, in order;
    /// - an emitted message is enqueued at once;
    /// - an effect gets the next effect identifier, a keyed effect the next
    ///   generation, and the host is told to spawn it;
    /// - a cancellation stops tracking the key's current effect.
    pub fn execute_step<F>(&mut self, control: &mut QueueControl, step: Command<Msg, F>) -> (r:
        StepOutcome<Msg, F, T>)
        requires
            old(self).wf(),
        ensures
            final(self).wf(),
            final(self).spec_threshold() == old(self).spec_threshold(),
            final(self).spec_queue().draining() == old(self).spec_queue().draining(),
            final(self).spec_queue().suspended() == old(self).spec_queue().suspended(),
            match step.inner {
                CommandInner::NoOp => {
                    &&& r is Nothing
                    &&& *final(self) == *old(self)
                    &&& final(control)@ == old(control)@
                },
                CommandInner::Batch(_) => {
                    &&& r matches StepOutcome::Expand(v) && v@ == steps(step)
                    &&& *final(self) == *old(self)
                    &&& final(control)@ == old(control)@
                },
                CommandInner::Emit(m) => {
                    &&& r matches StepOutcome::Emitted { meta, outcome } && meta_is(
                        meta,
                        CommandKind::Emit,
                        step.label,
                    ) && enqueued_as(
                        old(self).spec_queue().queued(),
                        final(self).spec_queue().queued(),
                        old(control)@,
                        final(control)@,
                        old(self).spec_queue().suspended(),
                        m,
                        old(self).spec_threshold(),
                        outcome,
                    )
                    &&& final(self).spec_tasks() == old(self).spec_tasks()
                    &&& final(self).spec_effects() == old(self).spec_effects()
                },
                CommandInner::Effect(e) => {
                    &&& r matches StepOutcome::Spawn { meta, effect, context } && meta_is(
                        meta,
                        e.kind,
                        step.label,
                    ) && effect == e && (context matches CompletionContext::NonKeyed(id) && id.0
                        == wrapping_next(old(self).spec_effects().spec_next_id()))
                    &&& final(self).spec_effects().spec_next_id() == wrapping_next(
                        old(self).spec_effects().spec_next_id(),
                    )
                    &&& final(self).spec_effects().spec_active() == old(self).spec_effects().spec_active()
                    &&& final(self).spec_tasks() == old(self).spec_tasks()
                    &&& final(self).spec_queue() == old(self).spec_queue()
                    &&& final(control)@ == old(control)@
                },
                CommandInner::Keyed { key, effect: e } => {
                    &&& r matches StepOutcome::Spawn { meta, effect, context } && meta_is(
                        meta,
                        e.kind,
                        step.label,
                    ) && effect == e && (context matches CompletionContext::Keyed(k) && k.key@
                        == key@ && k.generation.0 == wrapping_next(
                        old(self).spec_tasks().spec_next_generation(),
                    ))
                    &&& final(self).spec_tasks().spec_next_generation() == wrapping_next(
                        old(self).spec_tasks().spec_next_generation(),
                    )
                    &&& final(self).spec_tasks().spec_active() == old(self).spec_tasks().spec_active()
                    &&& final(self).spec_effects() == old(self).spec_effects()
                    &&& final(self).spec_queue() == old(self).spec_queue()
                    &&& final(control)@ == old(control)@
                },
                CommandInner::Cancel(key) => {
                    &&& r matches StepOutcome::Canceled { key: k, canceled } && k@ == key@ && (
                    canceled is Some <==> old(self).spec_tasks().spec_active().contains_key(key@)) && (
                    canceled is Some ==> canceled->0 == old(self).spec_tasks().spec_active()[key@])
                    &&& final(self).spec_tasks().spec_active() == old(self).spec_tasks().spec_active().remove(
                        key@,
                    )
                    &&& final(self).spec_tasks().spec_next_generation()
                        == old(self).spec_tasks().spec_next_generation()
                    &&& final(self).spec_effects() == old(self).spec_effects()
                    &&& final(self).spec_queue() == old(self).spec_queue()
                    &&& final(control)@ == old(control)@
                },
            },
    {
        let ghost whole = step;
        let label = step.label;
        match step.inner {
            CommandInner::NoOp => StepOutcome::Nothing,
            CommandInner::Batch(items) => {
                let batch = Command { inner: CommandInner::Batch(items), label };
                proof {
                    assert(steps(batch) == steps(whole));
                }
                StepOutcome::Expand(batch.into_steps())
            },
            CommandInner::Emit(message) => {
                let meta = CommandMeta::new(CommandKind::Emit, label);
                let outcome = self.queue.enqueue(control, message, self.warning_threshold);
                StepOutcome::Emitted { meta, outcome }
            },
            CommandInner::Effect(effect) => {
                let meta = CommandMeta::new(effect.kind, label);
                let id = self.effects.next_id();
                StepOutcome::Spawn { meta, effect, context: CompletionContext::NonKeyed(id) }
            },
            CommandInner::Keyed { key, effect } => {
                let meta = CommandMeta::new(effect.kind, label);
                let generation = self.tasks.next_generation();
                StepOutcome::Spawn {
                    meta,
                    effect,
                    context: CompletionContext::Keyed(KeyedEffectContext { key, generation }),
                }
            },
            CommandInner::Cancel(key) => {
                let canceled = self.tasks.cancel(&key);
                StepOutcome::Canceled { key, canceled }
            },
        }
    }

    /// Track the handle of a spawned effect. A keyed effect becomes the
    /// current one for its key; the effect it replaces, if any, is returned
    /// (dropping its handle stops it). A non-keyed effect is tracked under
    /// its identifier.
    pub fn track(&mut self, context: &CompletionContext, meta: CommandMeta, task: T) -> (replaced:
        Option<RunningTask<T>>)
        requires
            old(self).wf(),
        ensures
            final(self).wf(),
            final(self).spec_queue() == old(self).spec_queue(),
            final(self).spec_threshold() == old(self).spec_threshold(),
            final(self).spec_tasks().spec_next_generation() == old(self).spec_tasks().spec_next_generation(),
            final(self).spec_effects().spec_next_id() == old(self).spec_effects().spec_next_id(),
            match *context {
                CompletionContext::Keyed(k) => {
                    &&& final(self).spec_tasks().spec_active() == old(self).spec_tasks().spec_active().insert(
                        k.key@,
                        RunningTask { generation: k.generation, meta, task },
                    )
                    &&& final(self).spec_effects().spec_active() == old(self).spec_effects().spec_active()
                    &&& replaced is Some <==> old(self).spec_tasks().spec_active().contains_key(k.key@)
                    &&& replaced is Some ==> replaced->0 == old(self).spec_tasks().spec_active()[k.key@]
                },
                CompletionContext::NonKeyed(id) => {
                    &&& final(self).spec_effects().spec_active() == old(self).spec_effects().spec_active().insert(
                        id.0,
                        task,
                    )
                    &&& final(self).spec_tasks().spec_active() == old(self).spec_tasks().spec_active()
                    &&& replaced is None
                },
            },
    {
        match context {
            CompletionContext::Keyed(k) => self.tasks.insert(k.key.duplicate(), k.generation, meta, task),
            CompletionContext::NonKeyed(id) => {
                self.effects.insert(*id, task);
                None
            },
        }
    }

    /// Apply the completion of an effect that produced `message` (or none).
    ///
    /// A keyed completion applies only when its generation is still the
    /// current one for its key; then the key stops being tracked. A stale
    /// completion changes nothing and hands its message back. A non-keyed
    /// effect stops being tracked. An applied message is enqueued.
    pub fn complete(
        &mut self,
        control: &mut QueueControl,
        context: CompletionContext,
        message: Option<Msg>,
    ) -> (r: Completion<Msg>)
        requires
            old(self).wf(),
        ensures
            final(self).wf(),
            final(self).spec_threshold() == old(self).spec_threshold(),
            final(self).spec_queue().draining() == old(self).spec_queue().draining(),
            final(self).spec_queue().suspended() == old(self).spec_queue().suspended(),
            final(self).spec_tasks().spec_next_generation() == old(self).spec_tasks().spec_next_generation(),
            final(self).spec_effects().spec_next_id() == old(self).spec_effects().spec_next_id(),
            ({
                let applies = match context {
                    CompletionContext::Keyed(k) => is_current_in(
                        old(self).spec_tasks().spec_active(),
                        k.key@,
                        k.generation.0,
                    ),
                    CompletionContext::NonKeyed(_) => true,
                };
                &&& match context {
                    CompletionContext::Keyed(k) => {
                        &&& final(self).spec_tasks().spec_active() == after_completion(
                            old(self).spec_tasks().spec_active(),
                            k.key@,
                            k.generation.0,
                        )
                        &&& final(self).spec_effects().spec_active() == old(self).spec_effects().spec_active()
                    },
                    CompletionContext::NonKeyed(id) => {
                        &&& final(self).spec_effects().spec_active()
                            == old(self).spec_effects().spec_active().remove(id.0)
                        &&& final(self).spec_tasks().spec_active() == old(self).spec_tasks().spec_active()
                    },
                }
                &&& !applies ==> {
                    &&& r == Completion::Stale { message }
                    &&& final(self).spec_queue().queued() == old(self).spec_queue().queued()
                    &&& final(control)@ == old(control)@
                }
                &&& applies ==> match message {
                    Some(m) => r matches Completion::Applied { outcome: Some(o) } && enqueued_as(
                        old(self).spec_queue().queued(),
                        final(self).spec_queue().queued(),
                        old(control)@,
                        final(control)@,
                        old(self).spec_queue().suspended(),
                        m,
                        old(self).spec_threshold(),
                        o,
                    ),
                    None => {
                        &&& r matches Completion::Applied { outcome: None }
                        &&& final(self).spec_queue().queued() == old(self).spec_queue().queued()
                        &&& final(control)@ == old(control)@
                    },
                }
            }),
    {
        let applies = match &context {
            CompletionContext::Keyed(k) => self.tasks.complete(&k.key, k.generation),
            CompletionContext::NonKeyed(id) => {
                self.effects.finish(*id);
                true
            },
        };
        if !applies {
            return Completion::Stale { message };
        }
        match message {
            Some(m) => {
                let outcome = self.queue.enqueue(control, m, self.warning_threshold);
                Completion::Applied { outcome: Some(outcome) }
            },
            None => Completion::Applied { outcome: None },
        }
    }
}

} // verus!
