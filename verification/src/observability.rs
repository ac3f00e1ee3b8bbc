//! Runtime events, telemetry envelopes and their renderings for the
//! `tracing` and `metrics` back ends.
use crate::command::CommandKind;
use crate::key::Key;
use crate::keyed_tasks::wrapping_next;
use crate::policy::{overflow_action_debug, policy_debug, QueueOverflowAction, QueuePolicy};
use crate::text::{copy_str, dec_digits, decimal_string_u64};
use std::time::SystemTime;
use vstd::prelude::*;

verus! {

/// The wall-clock time of the standard library.
#[verifier::external_type_specification]
#[verifier::external_body]
pub struct ExSystemTime(SystemTime);

/// Identify a mounted program instance in observability output.
#[derive(Clone, Copy, Debug, PartialEq, Eq, Hash, Structural)]
pub struct ProgramId(u64);

impl ProgramId {
    /// The numeric identifier.
    pub closed spec fn spec_get(self) -> u64 {
        self.0
    }

    /// The program identifier with number `value`.
    pub fn from_raw(value: u64) -> (id: Self)
        ensures
            id.spec_get() == value,
    {
        ProgramId(value)
    }

    /// Return the numeric identifier emitted in runtime and telemetry events.
    pub fn get(self) -> (n: u64)
        ensures
            n == self.spec_get(),
    {
        self.0
    }

    /// The identifier in decimal, as it displays.
    pub fn display_string(self) -> (s: String)
        ensures
            s@ == dec_digits(self.spec_get() as nat),
    {
        decimal_string_u64(self.0)
    }
}

/// Hands out the identifiers of a program's telemetry events: 1, 2, 3 and
/// so on, wrapping at the end of the `u64` range.
pub struct EventIds {
    next: u64,
}

impl EventIds {
    /// The identifier handed out next.
    pub closed spec fn spec_next(&self) -> u64 {
        self.next
    }

    /// A counter whose first identifier is 1.
    pub fn new() -> (ids: Self)
        ensures
            ids.spec_next() == 1,
    {
        EventIds { next: 1 }
    }

    /// Hand out the next identifier.
    pub fn next(&mut self) -> (id: u64)
        ensures
            id == old(self).spec_next(),
            final(self).spec_next() == wrapping_next(old(self).spec_next()),
    {
        let id = self.next;
        self.next = if self.next == u64::MAX {
            0
        } else {
            self.next + 1
        };
        id
    }
}

/// Event identifiers increase: of two identifiers handed out one after the
/// other by the same counter, the second is the first plus one, unless the
/// counter wrapped at the end of the `u64` range.
pub proof fn lemma_event_ids_increase(before: EventIds, middle: EventIds, first: u64, second: u64)
    requires
        first == before.spec_next(),
        middle.spec_next() == wrapping_next(before.spec_next()),
        second == middle.spec_next(),
        first < u64::MAX,
    ensures
        second == first + 1,
        first < second,
{
}

/// Carry metadata emitted with each [`TelemetryEvent`].
pub struct TelemetryMetadata {
    /// Identify the mounted program that emitted the event.
    pub program_id: ProgramId,
    /// Hold the optional human-readable description configured for the program.
    pub program_description: Option<String>,
    /// Carry a monotonically increasing event identifier within the program.
    pub event_id: u64,
    /// Record when the event was emitted.
    pub emitted_at: SystemTime,
    /// Snapshot the tracked queue depth at emission time.
    pub queue_depth: usize,
}

/// Wrap a telemetry event together with its metadata.
pub struct TelemetryEnvelope<'a, Msg> {
    /// Attach metadata describing the emitting program and queue state.
    pub metadata: TelemetryMetadata,
    /// Carry the detailed telemetry event payload.
    pub event: TelemetryEvent<'a, Msg>,
}

/// Describe detailed runtime telemetry intended for machine consumption.
pub enum TelemetryEvent<'a, Msg> {
    /// A dispatch call was accepted by the runtime.
    DispatchAccepted { message_description: Option<String> },
    /// A dispatch call could not be delivered to the runtime.
    DispatchRejected { message_description: Option<String> },
    /// Queue capacity handling was triggered while dispatching or enqueuing a message.
    QueueOverflow {
        policy: QueuePolicy,
        action: QueueOverflowAction,
        message_description: Option<String>,
    },
    /// Queue draining started for the current batch of pending messages.
    QueueDrainStarted { queued: usize },
    /// Queue depth is currently above the configured warning threshold.
    QueueWarning { queued: usize, threshold: usize },
    /// A message was applied to the model.
    MessageProcessed { message: &'a Msg, message_description: Option<String> },
    /// A command was scheduled for execution.
    CommandScheduled {
        kind: CommandKind,
        label: Option<&'a str>,
        key: Option<&'a Key>,
        key_description: Option<String>,
    },
    /// An asynchronous effect started running.
    EffectStarted {
        kind: CommandKind,
        label: Option<&'a str>,
        key: Option<&'a Key>,
        key_description: Option<String>,
    },
    /// A newly scheduled keyed command replaced an earlier tracked keyed command.
    KeyedCommandReplaced {
        key: &'a Key,
        key_description: Option<String>,
        previous_kind: CommandKind,
        previous_label: Option<&'a str>,
        next_kind: CommandKind,
        next_label: Option<&'a str>,
    },
    /// A keyed command was canceled explicitly.
    KeyedCommandCanceled {
        key: &'a Key,
        key_description: Option<String>,
        canceled_kind: CommandKind,
        canceled_label: Option<&'a str>,
    },
    /// A command or effect completed.
    EffectCompleted {
        kind: CommandKind,
        label: Option<&'a str>,
        key: Option<&'a Key>,
        key_description: Option<String>,
        emitted_message: bool,
        message: Option<&'a Msg>,
        message_description: Option<String>,
    },
    /// A completion from an outdated keyed command was ignored.
    StaleKeyedCompletionIgnored {
        kind: CommandKind,
        label: Option<&'a str>,
        key: &'a Key,
        key_description: Option<String>,
        emitted_message: bool,
        message: Option<&'a Msg>,
        message_description: Option<String>,
    },
    /// A new subscription resource was built during reconciliation.
    SubscriptionBuilt { key: &'a Key, key_description: Option<String>, label: Option<&'a str> },
    /// An existing subscription resource was retained during reconciliation.
    SubscriptionRetained { key: &'a Key, key_description: Option<String>, label: Option<&'a str> },
    /// A previously active subscription resource was removed during reconciliation.
    SubscriptionRemoved { key: &'a Key, key_description: Option<String>, label: Option<&'a str> },
    /// Subscription reconciliation finished for the current model state.
    SubscriptionsReconciled { active: usize, added: usize, removed: usize, retained: usize },
    /// Queue draining finished for the current batch.
    QueueDrainFinished { processed: usize, remaining: usize },
}

/// Describe high-level runtime events intended for application observers.
pub enum RuntimeEvent<'a, Msg> {
    /// A dispatch call was accepted by the runtime.
    DispatchAccepted { message_description: Option<String> },
    /// A dispatch call could not be delivered to the runtime.
    DispatchRejected { message_description: Option<String> },
    /// Queue draining started for the current batch of pending messages.
    QueueDrainStarted { queued: usize },
    /// Queue depth is currently above the configured warning threshold.
    QueueWarning { queued: usize, threshold: usize },
    /// A message was applied to the model.
    MessageProcessed { message: &'a Msg, message_description: Option<String> },
    /// A command was scheduled for execution.
    CommandScheduled {
        kind: CommandKind,
        label: Option<&'a str>,
        key: Option<&'a Key>,
        key_description: Option<String>,
    },
    /// A newly scheduled keyed command replaced an earlier tracked keyed command.
    KeyedCommandReplaced {
        key: &'a Key,
        key_description: Option<String>,
        previous_kind: CommandKind,
        previous_label: Option<&'a str>,
        next_kind: CommandKind,
        next_label: Option<&'a str>,
    },
    /// A command or effect completed.
    EffectCompleted {
        kind: CommandKind,
        label: Option<&'a str>,
        key: Option<&'a Key>,
        key_description: Option<String>,
        emitted_message: bool,
        message: Option<&'a Msg>,
        message_description: Option<String>,
    },
    /// A completion from an outdated keyed command was ignored.
    StaleKeyedCompletionIgnored {
        kind: CommandKind,
        label: Option<&'a str>,
        key: &'a Key,
        key_description: Option<String>,
        emitted_message: bool,
        message: Option<&'a Msg>,
        message_description: Option<String>,
    },
    /// A new subscription resource was built during reconciliation.
    SubscriptionBuilt { key: &'a Key, key_description: Option<String>, label: Option<&'a str> },
    /// An existing subscription resource was retained during reconciliation.
    SubscriptionRetained { key: &'a Key, key_description: Option<String>, label: Option<&'a str> },
    /// A previously active subscription resource was removed during reconciliation.
    SubscriptionRemoved { key: &'a Key, key_description: Option<String>, label: Option<&'a str> },
    /// Subscription reconciliation finished for the current model state.
    SubscriptionsReconciled { active: usize, added: usize, removed: usize, retained: usize },
    /// Queue draining finished for the current batch.
    QueueDrainFinished { processed: usize, remaining: usize },
}

/// The severity of a tracing record.
#[derive(Clone, Copy, Debug, PartialEq, Eq, Structural)]
pub enum TraceLevel {
    Debug,
    Warn,
}

/// The value of one field of a tracing record.
#[derive(Clone, Debug, PartialEq, Eq)]
pub enum FieldValue {
    Text(String),
    Number(u64),
    Flag(bool),
}

/// One named field of a tracing record.
#[derive(Clone, Debug, PartialEq, Eq)]
pub struct TraceField {
    pub name: &'static str,
    pub value: FieldValue,
}

/// A field's value, taken as plain data.
pub ghost enum FieldView {
    Text(Seq<char>),
    Number(nat),
    Flag(bool),
}

/// A field's name and value, taken as plain data.
pub open spec fn field_view(f: TraceField) -> (Seq<char>, FieldView) {
    (
        f.name@,
        match f.value {
            FieldValue::Text(s) => FieldView::Text(s@),
            FieldValue::Number(n) => FieldView::Number(n as nat),
            FieldValue::Flag(b) => FieldView::Flag(b),
        },
    )
}

/// The tracing event that records one telemetry envelope: its level, its
/// name, the envelope's metadata and the event's own fields.
#[derive(Clone, Debug, PartialEq, Eq)]
pub struct TracingRecord {
    pub level: TraceLevel,
    pub event_name: &'static str,
    pub program_id: u64,
    pub event_id: u64,
    pub queue_depth: u64,
    pub program_description: String,
    pub fields: Vec<TraceField>,
}

/// An optional description, as characters.
pub open spec fn desc_view(d: Option<String>) -> Option<Seq<char>> {
    match d {
        Some(s) => Some(s@),
        None => None,
    }
}

/// An optional label, as characters.
pub open spec fn label_view_of(l: Option<&str>) -> Option<Seq<char>> {
    match l {
        Some(s) => Some(s@),
        None => None,
    }
}

/// The text shown for an optional value: the value, or `<none>`.
pub open spec fn or_none(d: Option<Seq<char>>) -> Seq<char> {
    match d {
        Some(s) => s,
        None => "<none>"@,
    }
}

/// How a command kind reads in debug output.
pub open spec fn kind_debug(k: CommandKind) -> Seq<char> {
    match k {
        CommandKind::Emit => "Emit"@,
        CommandKind::Foreground => "Foreground"@,
        CommandKind::Background => "Background"@,
    }
}

/// A text field.
pub open spec fn text_f(name: Seq<char>, value: Seq<char>) -> (Seq<char>, FieldView) {
    (name, FieldView::Text(value))
}

/// A number field.
pub open spec fn num_f(name: Seq<char>, value: nat) -> (Seq<char>, FieldView) {
    (name, FieldView::Number(value))
}

/// The level of the tracing record of `e`: warnings for rejected
/// dispatches, queue overflows and queue warnings, debug otherwise.
pub open spec fn trace_level<Msg>(e: TelemetryEvent<Msg>) -> TraceLevel {
    match e {
        TelemetryEvent::DispatchRejected { .. } => TraceLevel::Warn,
        TelemetryEvent::QueueOverflow { .. } => TraceLevel::Warn,
        TelemetryEvent::QueueWarning { .. } => TraceLevel::Warn,
        _ => TraceLevel::Debug,
    }
}

/// The name of the tracing record of `e`.
pub open spec fn trace_name<Msg>(e: TelemetryEvent<Msg>) -> Seq<char> {
    match e {
        TelemetryEvent::DispatchAccepted { .. } => "dispatch.accepted"@,
        TelemetryEvent::DispatchRejected { .. } => "dispatch.rejected"@,
        TelemetryEvent::QueueOverflow { .. } => "queue.overflow"@,
        TelemetryEvent::QueueDrainStarted { .. } => "queue.drain.started"@,
        TelemetryEvent::QueueWarning { .. } => "queue.warning"@,
        TelemetryEvent::MessageProcessed { .. } => "message.processed"@,
        TelemetryEvent::CommandScheduled { .. } => "command.scheduled"@,
        TelemetryEvent::EffectStarted { .. } => "effect.started"@,
        TelemetryEvent::KeyedCommandReplaced { .. } => "keyed.replaced"@,
        TelemetryEvent::KeyedCommandCanceled { .. } => "keyed.canceled"@,
        TelemetryEvent::EffectCompleted { .. } => "effect.completed"@,
        TelemetryEvent::StaleKeyedCompletionIgnored { .. } => "effect.stale_ignored"@,
        TelemetryEvent::SubscriptionBuilt { .. } => "subscription.built"@,
        TelemetryEvent::SubscriptionRetained { .. } => "subscription.retained"@,
        TelemetryEvent::SubscriptionRemoved { .. } => "subscription.removed"@,
        TelemetryEvent::SubscriptionsReconciled { .. } => "subscriptions.reconciled"@,
        TelemetryEvent::QueueDrainFinished { .. } => "queue.drain.finished"@,
    }
}

/// The event's own fields in the tracing record of `e`, in order. Absent
/// descriptions and labels read `<none>`; kinds, policies and actions read as
/// in debug output.
pub open spec fn trace_fields<Msg>(e: TelemetryEvent<Msg>) -> Seq<(Seq<char>, FieldView)> {
    match e {
        TelemetryEvent::DispatchAccepted { message_description } => seq![
            text_f("message_description"@, or_none(desc_view(message_description))),
        ],
        TelemetryEvent::DispatchRejected { message_description } => seq![
            text_f("message_description"@, or_none(desc_view(message_description))),
        ],
        TelemetryEvent::QueueOverflow { policy, action, message_description } => seq![
            text_f("policy"@, policy_debug(policy)),
            text_f("action"@, overflow_action_debug(action)),
            text_f("message_description"@, or_none(desc_view(message_description))),
        ],
        TelemetryEvent::QueueDrainStarted { queued } => seq![num_f("queued"@, queued as nat)],
        TelemetryEvent::QueueWarning { queued, threshold } => seq![
            num_f("queued"@, queued as nat),
            num_f("threshold"@, threshold as nat),
        ],
        TelemetryEvent::MessageProcessed { message_description, .. } => seq![
            text_f("message_description"@, or_none(desc_view(message_description))),
        ],
        TelemetryEvent::CommandScheduled { kind, label, key_description, .. } => seq![
            text_f("kind"@, kind_debug(kind)),
            text_f("label"@, or_none(label_view_of(label))),
            text_f("key_description"@, or_none(desc_view(key_description))),
        ],
        TelemetryEvent::EffectStarted { kind, label, key_description, .. } => seq![
            text_f("kind"@, kind_debug(kind)),
            text_f("label"@, or_none(label_view_of(label))),
            text_f("key_description"@, or_none(desc_view(key_description))),
        ],
        TelemetryEvent::KeyedCommandReplaced {
            key_description,
            previous_kind,
            previous_label,
            next_kind,
            next_label,
            ..
        } => seq![
            text_f("key_description"@, or_none(desc_view(key_description))),
            text_f("previous_kind"@, kind_debug(previous_kind)),
            text_f("previous_label"@, or_none(label_view_of(previous_label))),
            text_f("next_kind"@, kind_debug(next_kind)),
            text_f("next_label"@, or_none(label_view_of(next_label))),
        ],
        TelemetryEvent::KeyedCommandCanceled { key_description, canceled_kind, canceled_label, .. } => seq![
            text_f("key_description"@, or_none(desc_view(key_description))),
            text_f("canceled_kind"@, kind_debug(canceled_kind)),
            text_f("canceled_label"@, or_none(label_view_of(canceled_label))),
        ],
        TelemetryEvent::EffectCompleted {
            kind,
            label,
            key_description,
            emitted_message,
            message_description,
            ..
        } => seq![
            text_f("kind"@, kind_debug(kind)),
            text_f("label"@, or_none(label_view_of(label))),
            text_f("key_description"@, or_none(desc_view(key_description))),
            ("emitted_message"@, FieldView::Flag(emitted_message)),
            text_f("message_description"@, or_none(desc_view(message_description))),
        ],
        TelemetryEvent::StaleKeyedCompletionIgnored {
            kind,
            label,
            key_description,
            emitted_message,
            message_description,
            ..
        } => seq![
            text_f("kind"@, kind_debug(kind)),
            text_f("label"@, or_none(label_view_of(label))),
            text_f("key_description"@, or_none(desc_view(key_description))),
            ("emitted_message"@, FieldView::Flag(emitted_message)),
            text_f("message_description"@, or_none(desc_view(message_description))),
        ],
        TelemetryEvent::SubscriptionBuilt { key_description, label, .. } => seq![
            text_f("key_description"@, or_none(desc_view(key_description))),
            text_f("label"@, or_none(label_view_of(label))),
        ],
        TelemetryEvent::SubscriptionRetained { key_description, label, .. } => seq![
            text_f("key_description"@, or_none(desc_view(key_description))),
            text_f("label"@, or_none(label_view_of(label))),
        ],
        TelemetryEvent::SubscriptionRemoved { key_description, label, .. } => seq![
            text_f("key_description"@, or_none(desc_view(key_description))),
            text_f("label"@, or_none(label_view_of(label))),
        ],
        TelemetryEvent::SubscriptionsReconciled { active, added, removed, retained } => seq![
            num_f("active"@, active as nat),
            num_f("added"@, added as nat),
            num_f("removed"@, removed as nat),
            num_f("retained"@, retained as nat),
        ],
        TelemetryEvent::QueueDrainFinished { processed, remaining } => seq![
            num_f("processed"@, processed as nat),
            num_f("remaining"@, remaining as nat),
        ],
    }
}

/// The text of an optional description: the description, or `<none>`.
pub fn option_arc_str(value: &Option<String>) -> (s: &str)
    ensures
        s@ == or_none(desc_view(*value)),
{
    match value {
        Some(v) => v.as_str(),
        None => "<none>",
    }
}

fn or_none_label(label: Option<&str>) -> (s: String)
    ensures
        s@ == or_none(label_view_of(label)),
{
    match label {
        Some(l) => copy_str(l),
        None => copy_str("<none>"),
    }
}

fn or_none_desc(value: &Option<String>) -> (s: String)
    ensures
        s@ == or_none(desc_view(*value)),
{
    copy_str(option_arc_str(value))
}

impl CommandKind {
    /// The text of the kind's debug form.
    pub fn debug_string(self) -> (s: String)
        ensures
            s@ == kind_debug(self),
    {
        match self {
            CommandKind::Emit => copy_str("Emit"),
            CommandKind::Foreground => copy_str("Foreground"),
            CommandKind::Background => copy_str("Background"),
        }
    }
}

fn text(name: &'static str, value: String) -> (f: TraceField)
    ensures
        field_view(f) == text_f(name@, value@),
{
    TraceField { name, value: FieldValue::Text(value) }
}

fn number(name: &'static str, value: usize) -> (f: TraceField)
    ensures
        field_view(f) == num_f(name@, value as nat),
{
    TraceField { name, value: FieldValue::Number(value as u64) }
}

/// The fields of a tracing record, taken as plain data.
pub open spec fn fields_view(fields: Seq<TraceField>) -> Seq<(Seq<char>, FieldView)> {
    fields.map_values(|f: TraceField| field_view(f))
}

/// Describe the `tracing` event that records `envelope`: the level, the
/// event name, the envelope's program identifier, event identifier, queue
/// depth and program description (or `<none>`), and the event's own fields
/// (see [`trace_fields`]).
pub fn observe_tracing_telemetry<Msg>(envelope: TelemetryEnvelope<'_, Msg>) -> (r: TracingRecord)
    ensures
        r.level == trace_level(envelope.event),
        r.event_name@ == trace_name(envelope.event),
        r.program_id == envelope.metadata.program_id.spec_get(),
        r.event_id == envelope.metadata.event_id,
        r.queue_depth as nat == envelope.metadata.queue_depth as nat,
        r.program_description@ == or_none(desc_view(envelope.metadata.program_description)),
        fields_view(r.fields@) == trace_fields(envelope.event),
{
    let program_id = envelope.metadata.program_id.get();
    let event_id = envelope.metadata.event_id;
    let queue_depth = envelope.metadata.queue_depth as u64;
    let program_description = or_none_desc(&envelope.metadata.program_description);
    let ghost event = envelope.event;
    let mut fields: Vec<TraceField> = Vec::new();
    let (level, event_name) = match envelope.event {
        TelemetryEvent::DispatchAccepted { message_description } => {
            fields.push(text("message_description", or_none_desc(&message_description)));
            (TraceLevel::Debug, "dispatch.accepted")
        },
        TelemetryEvent::DispatchRejected { message_description } => {
            fields.push(text("message_description", or_none_desc(&message_description)));
            (TraceLevel::Warn, "dispatch.rejected")
        },
        TelemetryEvent::QueueOverflow { policy, action, message_description } => {
            fields.push(text("policy", policy.debug_string()));
            fields.push(text("action", action.debug_string()));
            fields.push(text("message_description", or_none_desc(&message_description)));
            (TraceLevel::Warn, "queue.overflow")
        },
        TelemetryEvent::QueueDrainStarted { queued } => {
            fields.push(number("queued", queued));
            (TraceLevel::Debug, "queue.drain.started")
        },
        TelemetryEvent::QueueWarning { queued, threshold } => {
            fields.push(number("queued", queued));
            fields.push(number("threshold", threshold));
            (TraceLevel::Warn, "queue.warning")
        },
        TelemetryEvent::MessageProcessed { message_description, .. } => {
            fields.push(text("message_description", or_none_desc(&message_description)));
            (TraceLevel::Debug, "message.processed")
        },
        TelemetryEvent::CommandScheduled { kind, label, key_description, .. } => {
            fields.push(text("kind", kind.debug_string()));
            fields.push(text("label", or_none_label(label)));
            fields.push(text("key_description", or_none_desc(&key_description)));
            (TraceLevel::Debug, "command.scheduled")
        },
        TelemetryEvent::EffectStarted { kind, label, key_description, .. } => {
            fields.push(text("kind", kind.debug_string()));
            fields.push(text("label", or_none_label(label)));
            fields.push(text("key_description", or_none_desc(&key_description)));
            (TraceLevel::Debug, "effect.started")
        },
        TelemetryEvent::KeyedCommandReplaced {
            key_description,
            previous_kind,
            previous_label,
            next_kind,
            next_label,
            ..
        } => {
            fields.push(text("key_description", or_none_desc(&key_description)));
            fields.push(text("previous_kind", previous_kind.debug_string()));
            fields.push(text("previous_label", or_none_label(previous_label)));
            fields.push(text("next_kind", next_kind.debug_string()));
            fields.push(text("next_label", or_none_label(next_label)));
            (TraceLevel::Debug, "keyed.replaced")
        },
        TelemetryEvent::KeyedCommandCanceled { key_description, canceled_kind, canceled_label, .. } => {
            fields.push(text("key_description", or_none_desc(&key_description)));
            fields.push(text("canceled_kind", canceled_kind.debug_string()));
            fields.push(text("canceled_label", or_none_label(canceled_label)));
            (TraceLevel::Debug, "keyed.canceled")
        },
        TelemetryEvent::EffectCompleted {
            kind,
            label,
            key_description,
            emitted_message,
            message_description,
            ..
        } => {
            fields.push(text("kind", kind.debug_string()));
            fields.push(text("label", or_none_label(label)));
            fields.push(text("key_description", or_none_desc(&key_description)));
            fields.push(TraceField { name: "emitted_message", value: FieldValue::Flag(emitted_message) });
            fields.push(text("message_description", or_none_desc(&message_description)));
            (TraceLevel::Debug, "effect.completed")
        },
        TelemetryEvent::StaleKeyedCompletionIgnored {
            kind,
            label,
            key_description,
            emitted_message,
            message_description,
            ..
        } => {
            fields.push(text("kind", kind.debug_string()));
            fields.push(text("label", or_none_label(label)));
            fields.push(text("key_description", or_none_desc(&key_description)));
            fields.push(TraceField { name: "emitted_message", value: FieldValue::Flag(emitted_message) });
            fields.push(text("message_description", or_none_desc(&message_description)));
            (TraceLevel::Debug, "effect.stale_ignored")
        },
        TelemetryEvent::SubscriptionBuilt { key_description, label, .. } => {
            fields.push(text("key_description", or_none_desc(&key_description)));
            fields.push(text("label", or_none_label(label)));
            (TraceLevel::Debug, "subscription.built")
        },
        TelemetryEvent::SubscriptionRetained { key_description, label, .. } => {
            fields.push(text("key_description", or_none_desc(&key_description)));
            fields.push(text("label", or_none_label(label)));
            (TraceLevel::Debug, "subscription.retained")
        },
        TelemetryEvent::SubscriptionRemoved { key_description, label, .. } => {
            fields.push(text("key_description", or_none_desc(&key_description)));
            fields.push(text("label", or_none_label(label)));
            (TraceLevel::Debug, "subscription.removed")
        },
        TelemetryEvent::SubscriptionsReconciled { active, added, removed, retained } => {
            fields.push(number("active", active));
            fields.push(number("added", added));
            fields.push(number("removed", removed));
            fields.push(number("retained", retained));
            (TraceLevel::Debug, "subscriptions.reconciled")
        },
        TelemetryEvent::QueueDrainFinished { processed, remaining } => {
            fields.push(number("processed", processed));
            fields.push(number("remaining", remaining));
            (TraceLevel::Debug, "queue.drain.finished")
        },
    };
    proof {
        assert(fields_view(fields@) =~= trace_fields(event));
    }
    TracingRecord { level, event_name, program_id, event_id, queue_depth, program_description, fields }
}

/// Whether a metric update sets a gauge or increments a counter.
#[derive(Clone, Copy, Debug, PartialEq, Eq, Structural)]
pub enum MetricKind {
    Gauge,
    Counter,
}

/// One update of a `metrics` instrument: set the gauge `name` to `value`, or
/// increment the counter `name` by `value`; `labels` are name and value
/// pairs.
#[derive(Clone, Debug, PartialEq, Eq)]
pub struct MetricUpdate {
    pub kind: MetricKind,
    pub name: &'static str,
    pub labels: Vec<(&'static str, String)>,
    pub value: usize,
}

/// A metric update, taken as plain data.
pub open spec fn metric_view(m: MetricUpdate) -> (MetricKind, Seq<char>, Seq<(Seq<char>, Seq<char>)>, nat) {
    (m.kind, m.name@, m.labels@.map_values(|l: (&'static str, String)| (l.0@, l.1@)), m.value as nat)
}

/// A counter increment by one labelled with the program identifier `pid`
/// and the extra labels `extra`.
pub open spec fn counter_v(name: Seq<char>, pid: Seq<char>, extra: Seq<(Seq<char>, Seq<char>)>) -> (
    MetricKind,
    Seq<char>,
    Seq<(Seq<char>, Seq<char>)>,
    nat,
) {
    (MetricKind::Counter, name, seq![("program_id"@, pid)] + extra, 1)
}

/// The metric updates that follow the queue-depth gauge for `e`, labelled
/// with the program identifier `pid`: one counter per dispatch outcome,
/// overflow (labelled with its action), scheduled command, started and
/// completed effect (labelled with their kind), keyed replacement,
/// cancellation and stale completion, built and removed subscription; the
/// active-subscriptions gauge after a reconciliation; nothing for the
/// other events.
pub open spec fn metric_updates<Msg>(e: TelemetryEvent<Msg>, pid: Seq<char>) -> Seq<
    (MetricKind, Seq<char>, Seq<(Seq<char>, Seq<char>)>, nat),
> {
    match e {
        TelemetryEvent::DispatchAccepted { .. } => seq![counter_v("gpui_tea.dispatch.accepted"@, pid, seq![])],
        TelemetryEvent::DispatchRejected { .. } => seq![counter_v("gpui_tea.dispatch.rejected"@, pid, seq![])],
        TelemetryEvent::QueueOverflow { action, .. } => seq![
            counter_v("gpui_tea.queue.overflow"@, pid, seq![("action"@, overflow_action_debug(action))]),
        ],
        TelemetryEvent::CommandScheduled { kind, .. } => seq![
            counter_v("gpui_tea.command.scheduled"@, pid, seq![("kind"@, kind_debug(kind))]),
        ],
        TelemetryEvent::EffectStarted { kind, .. } => seq![
            counter_v("gpui_tea.effect.started"@, pid, seq![("kind"@, kind_debug(kind))]),
        ],
        TelemetryEvent::EffectCompleted { kind, .. } => seq![
            counter_v("gpui_tea.effect.completed"@, pid, seq![("kind"@, kind_debug(kind))]),
        ],
        TelemetryEvent::KeyedCommandReplaced { .. } => seq![counter_v("gpui_tea.keyed.replaced"@, pid, seq![])],
        TelemetryEvent::KeyedCommandCanceled { .. } => seq![counter_v("gpui_tea.keyed.canceled"@, pid, seq![])],
        TelemetryEvent::StaleKeyedCompletionIgnored { .. } => seq![
            counter_v("gpui_tea.keyed.stale_ignored"@, pid, seq![]),
        ],
        TelemetryEvent::SubscriptionBuilt { .. } => seq![counter_v("gpui_tea.subscription.built"@, pid, seq![])],
        TelemetryEvent::SubscriptionRemoved { .. } => seq![counter_v("gpui_tea.subscription.removed"@, pid, seq![])],
        TelemetryEvent::SubscriptionsReconciled { active, .. } => seq![
            (MetricKind::Gauge, "gpui_tea.subscription.active"@, seq![("program_id"@, pid)], active as nat),
        ],
        _ => Seq::empty(),
    }
}

fn program_label(pid: &String) -> (v: Vec<(&'static str, String)>)
    ensures
        v@.map_values(|l: (&'static str, String)| (l.0@, l.1@)) == seq![("program_id"@, pid@)],
{
    let mut v = Vec::new();
    v.push(("program_id", copy_str(pid.as_str())));
    proof {
        assert(v@.map_values(|l: (&'static str, String)| (l.0@, l.1@)) =~= seq![("program_id"@, pid@)]);
    }
    v
}

fn counter(name: &'static str, pid: &String) -> (m: MetricUpdate)
    ensures
        metric_view(m) == counter_v(name@, pid@, seq![]),
{
    let m = MetricUpdate { kind: MetricKind::Counter, name, labels: program_label(pid), value: 1 };
    proof {
        assert(seq![("program_id"@, pid@)] + Seq::<(Seq<char>, Seq<char>)>::empty() =~= seq![("program_id"@, pid@)]);
    }
    m
}

fn labelled_counter(name: &'static str, pid: &String, label: &'static str, value: String) -> (m: MetricUpdate)
    ensures
        metric_view(m) == counter_v(name@, pid@, seq![(label@, value@)]),
{
    let mut labels = program_label(pid);
    labels.push((label, value));
    let m = MetricUpdate { kind: MetricKind::Counter, name, labels, value: 1 };
    proof {
        assert(metric_view(m).2 =~= seq![("program_id"@, pid@)] + seq![(label@, value@)]);
    }
    m
}

/// The updates of `metrics` instruments that record `envelope`: first the
/// queue-depth gauge (labelled with the program identifier), then the
/// updates for the event (see [`metric_updates`]).
pub fn observe_metrics_telemetry<Msg>(envelope: TelemetryEnvelope<'_, Msg>) -> (v: Vec<MetricUpdate>)
    ensures
        v@.map_values(|m: MetricUpdate| metric_view(m)) == seq![
            (
                MetricKind::Gauge,
                "gpui_tea.queue.depth"@,
                seq![("program_id"@, dec_digits(envelope.metadata.program_id.spec_get() as nat))],
                envelope.metadata.queue_depth as nat,
            ),
        ] + metric_updates(envelope.event, dec_digits(envelope.metadata.program_id.spec_get() as nat)),
{
    let pid = envelope.metadata.program_id.display_string();
    let ghost event = envelope.event;
    let mut updates: Vec<MetricUpdate> = Vec::new();
    updates.push(
        MetricUpdate {
            kind: MetricKind::Gauge,
            name: "gpui_tea.queue.depth",
            labels: program_label(&pid),
            value: envelope.metadata.queue_depth,
        },
    );
    match envelope.event {
        TelemetryEvent::DispatchAccepted { .. } => {
            updates.push(counter("gpui_tea.dispatch.accepted", &pid));
        },
        TelemetryEvent::DispatchRejected { .. } => {
            updates.push(counter("gpui_tea.dispatch.rejected", &pid));
        },
        TelemetryEvent::QueueOverflow { action, .. } => {
            updates.push(labelled_counter("gpui_tea.queue.overflow", &pid, "action", action.debug_string()));
        },
        TelemetryEvent::CommandScheduled { kind, .. } => {
            updates.push(labelled_counter("gpui_tea.command.scheduled", &pid, "kind", kind.debug_string()));
        },
        TelemetryEvent::EffectStarted { kind, .. } => {
            updates.push(labelled_counter("gpui_tea.effect.started", &pid, "kind", kind.debug_string()));
        },
        TelemetryEvent::EffectCompleted { kind, .. } => {
            updates.push(labelled_counter("gpui_tea.effect.completed", &pid, "kind", kind.debug_string()));
        },
        TelemetryEvent::KeyedCommandReplaced { .. } => {
            updates.push(counter("gpui_tea.keyed.replaced", &pid));
        },
        TelemetryEvent::KeyedCommandCanceled { .. } => {
            updates.push(counter("gpui_tea.keyed.canceled", &pid));
        },
        TelemetryEvent::StaleKeyedCompletionIgnored { .. } => {
            updates.push(counter("gpui_tea.keyed.stale_ignored", &pid));
        },
        TelemetryEvent::SubscriptionBuilt { .. } => {
            updates.push(counter("gpui_tea.subscription.built", &pid));
        },
        TelemetryEvent::SubscriptionRemoved { .. } => {
            updates.push(counter("gpui_tea.subscription.removed", &pid));
        },
        TelemetryEvent::SubscriptionsReconciled { active, .. } => {
            updates.push(
                MetricUpdate {
                    kind: MetricKind::Gauge,
                    name: "gpui_tea.subscription.active",
                    labels: program_label(&pid),
                    value: active,
                },
            );
        },
        _ => {},
    }
    proof {
        assert(updates@.map_values(|m: MetricUpdate| metric_view(m)) =~= seq![
            (
                MetricKind::Gauge,
                "gpui_tea.queue.depth"@,
                seq![("program_id"@, pid@)],
                envelope.metadata.queue_depth as nat,
            ),
        ] + metric_updates(event, pid@));
    }
    updates
}

// ---------------------------------------------------------------------------
// Laws
// ---------------------------------------------------------------------------

/// The value of the first field named `name`, if any.
pub open spec fn field_named(fields: Seq<(Seq<char>, FieldView)>, name: Seq<char>) -> Option<FieldView>
    decreases fields.len(),
{
    if fields.len() == 0 {
        None
    } else if fields[0].0 == name {
        Some(fields[0].1)
    } else {
        field_named(fields.drop_first(), name)
    }
}

/// Each count in a tracing record is the event's count of the same name:
/// `queued`, `threshold`, `active`, `added`, `removed`, `retained`,
/// `processed` and `remaining` each carry the value the event gives under
/// that name.
pub proof fn lemma_trace_counts_by_name<Msg>(e: TelemetryEvent<Msg>)
    ensures
        e matches TelemetryEvent::QueueDrainStarted { queued } ==> field_named(
            trace_fields(e),
            "queued"@,
        ) == Some(FieldView::Number(queued as nat)),
        e matches TelemetryEvent::QueueWarning { queued, threshold } ==> {
            &&& field_named(trace_fields(e), "queued"@) == Some(FieldView::Number(queued as nat))
            &&& field_named(trace_fields(e), "threshold"@) == Some(
                FieldView::Number(threshold as nat),
            )
        },
        e matches TelemetryEvent::SubscriptionsReconciled { active, added, removed, retained } ==> {
            &&& field_named(trace_fields(e), "active"@) == Some(FieldView::Number(active as nat))
            &&& field_named(trace_fields(e), "added"@) == Some(FieldView::Number(added as nat))
            &&& field_named(trace_fields(e), "removed"@) == Some(FieldView::Number(removed as nat))
            &&& field_named(trace_fields(e), "retained"@) == Some(
                FieldView::Number(retained as nat),
            )
        },
        e matches TelemetryEvent::QueueDrainFinished { processed, remaining } ==> {
            &&& field_named(trace_fields(e), "processed"@) == Some(
                FieldView::Number(processed as nat),
            )
            &&& field_named(trace_fields(e), "remaining"@) == Some(
                FieldView::Number(remaining as nat),
            )
        },
{
    reveal_strlit("queued");
    reveal_strlit("threshold");
    reveal_strlit("active");
    reveal_strlit("added");
    reveal_strlit("removed");
    reveal_strlit("retained");
    reveal_strlit("processed");
    reveal_strlit("remaining");
    let f = trace_fields(e);
    match e {
        TelemetryEvent::QueueWarning { queued, threshold } => {
            assert("queued"@[0] != "threshold"@[0]);
            let f1 = f.drop_first();
            assert(f1 =~= seq![num_f("threshold"@, threshold as nat)]);
            assert(field_named(f1, "threshold"@) == Some(FieldView::Number(threshold as nat)));
        },
        TelemetryEvent::SubscriptionsReconciled { active, added, removed, retained } => {
            assert("active"@[1] != "added"@[1]);
            assert("active"@[0] != "removed"@[0]);
            assert("active"@[0] != "retained"@[0]);
            assert("added"@[0] != "removed"@[0]);
            assert("added"@[0] != "retained"@[0]);
            assert("removed"@[2] != "retained"@[2]);
            let f1 = f.drop_first();
            let f2 = f1.drop_first();
            let f3 = f2.drop_first();
            assert(f3 =~= seq![num_f("retained"@, retained as nat)]);
            assert(f2 =~= seq![num_f("removed"@, removed as nat), num_f("retained"@, retained as nat)]);
            assert(f1 =~= seq![
                num_f("added"@, added as nat),
                num_f("removed"@, removed as nat),
                num_f("retained"@, retained as nat),
            ]);
            assert(field_named(f3, "retained"@) == Some(FieldView::Number(retained as nat)));
            assert(field_named(f2, "retained"@) == Some(FieldView::Number(retained as nat)));
            assert(field_named(f2, "removed"@) == Some(FieldView::Number(removed as nat)));
            assert(field_named(f1, "retained"@) == Some(FieldView::Number(retained as nat)));
            assert(field_named(f1, "removed"@) == Some(FieldView::Number(removed as nat)));
            assert(field_named(f1, "added"@) == Some(FieldView::Number(added as nat)));
        },
        TelemetryEvent::QueueDrainFinished { processed, remaining } => {
            assert("processed"@[0] != "remaining"@[0]);
            let f1 = f.drop_first();
            assert(f1 =~= seq![num_f("remaining"@, remaining as nat)]);
            assert(field_named(f1, "remaining"@) == Some(FieldView::Number(remaining as nat)));
        },
        _ => {},
    }
}

/// A dispatch or processed-message record carries the message's
/// description, or `<none>` when there is none.
pub proof fn lemma_trace_message_description<Msg>(e: TelemetryEvent<Msg>)
    ensures
        e matches TelemetryEvent::DispatchAccepted { message_description } ==> field_named(
            trace_fields(e),
            "message_description"@,
        ) == Some(FieldView::Text(or_none(desc_view(message_description)))),
        e matches TelemetryEvent::DispatchRejected { message_description } ==> field_named(
            trace_fields(e),
            "message_description"@,
        ) == Some(FieldView::Text(or_none(desc_view(message_description)))),
        e matches TelemetryEvent::MessageProcessed { message_description, .. } ==> field_named(
            trace_fields(e),
            "message_description"@,
        ) == Some(FieldView::Text(or_none(desc_view(message_description)))),
{
}

/// The counter that a telemetry event increments is named after the event:
/// `gpui_tea.` followed by the event's name in its tracing record, labelled
/// with the program's identifier, incremented by one. The one exception is
/// the ignored stale keyed completion, whose counter belongs to the keyed
/// family (`gpui_tea.keyed.stale_ignored`).
pub proof fn lemma_counter_named_after_event<Msg>(e: TelemetryEvent<Msg>, pid: Seq<char>, i: int)
    requires
        0 <= i < metric_updates(e, pid).len(),
        metric_updates(e, pid)[i].0 == MetricKind::Counter,
        !(e is StaleKeyedCompletionIgnored),
    ensures
        metric_updates(e, pid)[i].1 == "gpui_tea."@ + trace_name(e),
        metric_updates(e, pid)[i].2[0] == ("program_id"@, pid),
        metric_updates(e, pid)[i].3 == 1,
{
    reveal_strlit("gpui_tea.");
    match e {
        TelemetryEvent::DispatchAccepted { .. } => {
            reveal_strlit("gpui_tea.dispatch.accepted");
            reveal_strlit("dispatch.accepted");
            assert("gpui_tea.dispatch.accepted"@ =~= "gpui_tea."@ + "dispatch.accepted"@);
        },
        TelemetryEvent::DispatchRejected { .. } => {
            reveal_strlit("gpui_tea.dispatch.rejected");
            reveal_strlit("dispatch.rejected");
            assert("gpui_tea.dispatch.rejected"@ =~= "gpui_tea."@ + "dispatch.rejected"@);
        },
        TelemetryEvent::QueueOverflow { .. } => {
            reveal_strlit("gpui_tea.queue.overflow");
            reveal_strlit("queue.overflow");
            assert("gpui_tea.queue.overflow"@ =~= "gpui_tea."@ + "queue.overflow"@);
        },
        TelemetryEvent::CommandScheduled { .. } => {
            reveal_strlit("gpui_tea.command.scheduled");
            reveal_strlit("command.scheduled");
            assert("gpui_tea.command.scheduled"@ =~= "gpui_tea."@ + "command.scheduled"@);
        },
        TelemetryEvent::EffectStarted { .. } => {
            reveal_strlit("gpui_tea.effect.started");
            reveal_strlit("effect.started");
            assert("gpui_tea.effect.started"@ =~= "gpui_tea."@ + "effect.started"@);
        },
        TelemetryEvent::EffectCompleted { .. } => {
            reveal_strlit("gpui_tea.effect.completed");
            reveal_strlit("effect.completed");
            assert("gpui_tea.effect.completed"@ =~= "gpui_tea."@ + "effect.completed"@);
        },
        TelemetryEvent::KeyedCommandReplaced { .. } => {
            reveal_strlit("gpui_tea.keyed.replaced");
            reveal_strlit("keyed.replaced");
            assert("gpui_tea.keyed.replaced"@ =~= "gpui_tea."@ + "keyed.replaced"@);
        },
        TelemetryEvent::KeyedCommandCanceled { .. } => {
            reveal_strlit("gpui_tea.keyed.canceled");
            reveal_strlit("keyed.canceled");
            assert("gpui_tea.keyed.canceled"@ =~= "gpui_tea."@ + "keyed.canceled"@);
        },
        TelemetryEvent::SubscriptionBuilt { .. } => {
            reveal_strlit("gpui_tea.subscription.built");
            reveal_strlit("subscription.built");
            assert("gpui_tea.subscription.built"@ =~= "gpui_tea."@ + "subscription.built"@);
        },
        TelemetryEvent::SubscriptionRemoved { .. } => {
            reveal_strlit("gpui_tea.subscription.removed");
            reveal_strlit("subscription.removed");
            assert("gpui_tea.subscription.removed"@ =~= "gpui_tea."@ + "subscription.removed"@);
        },
        _ => {},
    }
}

/// Different telemetry events never increment the same counter: events
/// with different names (as in their tracing records) count under
/// different counter names.
pub proof fn lemma_distinct_events_distinct_counters<Msg>(
    e1: TelemetryEvent<Msg>,
    e2: TelemetryEvent<Msg>,
    pid: Seq<char>,
    i: int,
    j: int,
)
    requires
        0 <= i < metric_updates(e1, pid).len(),
        0 <= j < metric_updates(e2, pid).len(),
        metric_updates(e1, pid)[i].0 == MetricKind::Counter,
        metric_updates(e2, pid)[j].0 == MetricKind::Counter,
        !(e1 is StaleKeyedCompletionIgnored),
        !(e2 is StaleKeyedCompletionIgnored),
        trace_name(e1) != trace_name(e2),
    ensures
        metric_updates(e1, pid)[i].1 != metric_updates(e2, pid)[j].1,
{
    lemma_counter_named_after_event(e1, pid, i);
    lemma_counter_named_after_event(e2, pid, j);
    let p = "gpui_tea."@;
    if metric_updates(e1, pid)[i].1 == metric_updates(e2, pid)[j].1 {
        let a = p + trace_name(e1);
        let b = p + trace_name(e2);
        assert(a.subrange(p.len() as int, a.len() as int) =~= trace_name(e1));
        assert(b.subrange(p.len() as int, b.len() as int) =~= trace_name(e2));
    }
}

} // verus!
