use gpui_tea::command::CommandKind;
use gpui_tea::config::ProgramConfig;
use gpui_tea::key::Key;
use gpui_tea::observability::{
    observe_metrics_telemetry, observe_tracing_telemetry, option_arc_str, EventIds, FieldValue,
    MetricKind, MetricUpdate, ProgramId, TelemetryEnvelope, TelemetryEvent, TelemetryMetadata,
    TraceField, TraceLevel,
};
use gpui_tea::policy::{QueueOverflowAction, QueuePolicy};

fn metadata(program: u64, description: Option<&str>, event_id: u64, depth: usize) -> TelemetryMetadata {
    TelemetryMetadata {
        program_id: ProgramId::from_raw(program),
        program_description: description.map(str::to_string),
        event_id,
        emitted_at: std::time::SystemTime::now(),
        queue_depth: depth,
    }
}

fn text(name: &'static str, value: &str) -> TraceField {
    TraceField {
        name,
        value: FieldValue::Text(value.to_string()),
    }
}

fn number(name: &'static str, value: u64) -> TraceField {
    TraceField {
        name,
        value: FieldValue::Number(value),
    }
}

fn has_label(update: &MetricUpdate, key: &str, value: &str) -> bool {
    update.labels.iter().any(|(k, v)| *k == key && v == value)
}

#[test]
fn adapters_tracing_adapter_emits_event() {
    let record = observe_tracing_telemetry::<()>(TelemetryEnvelope {
        metadata: metadata(1, Some("program"), 1, 0),
        event: TelemetryEvent::DispatchAccepted {
            message_description: Some("run".to_string()),
        },
    });
    assert_eq!(record.level, TraceLevel::Debug);
    assert_eq!(record.event_name, "dispatch.accepted");
    assert_eq!(record.program_id, 1);
    assert_eq!(record.event_id, 1);
    assert_eq!(record.queue_depth, 0);
    assert_eq!(record.program_description, "program");
    assert_eq!(record.fields, vec![text("message_description", "run")]);
}

#[test]
fn tracing_records_warn_on_overflow_and_fill_in_missing_descriptions() {
    let record = observe_tracing_telemetry::<()>(TelemetryEnvelope {
        metadata: metadata(3, None, 9, 4),
        event: TelemetryEvent::QueueOverflow {
            policy: QueuePolicy::DropOldest { capacity: 4 },
            action: QueueOverflowAction::DroppedOldest,
            message_description: None,
        },
    });
    assert_eq!(record.level, TraceLevel::Warn);
    assert_eq!(record.event_name, "queue.overflow");
    assert_eq!(record.program_description, "<none>");
    assert_eq!(
        record.fields,
        vec![
            text("policy", "DropOldest { capacity: 4 }"),
            text("action", "DroppedOldest"),
            text("message_description", "<none>"),
        ]
    );
}

#[test]
fn tracing_record_of_a_keyed_replacement() {
    let key = Key::new("load");
    let record = observe_tracing_telemetry::<()>(TelemetryEnvelope {
        metadata: metadata(2, Some("p"), 5, 1),
        event: TelemetryEvent::KeyedCommandReplaced {
            key: &key,
            key_description: Some("Key(\"load\")".to_string()),
            previous_kind: CommandKind::Foreground,
            previous_label: Some("first"),
            next_kind: CommandKind::Background,
            next_label: None,
        },
    });
    assert_eq!(record.event_name, "keyed.replaced");
    assert_eq!(
        record.fields,
        vec![
            text("key_description", "Key(\"load\")"),
            text("previous_kind", "Foreground"),
            text("previous_label", "first"),
            text("next_kind", "Background"),
            text("next_label", "<none>"),
        ]
    );
}

#[test]
fn tracing_record_of_a_drain() {
    let record = observe_tracing_telemetry::<()>(TelemetryEnvelope {
        metadata: metadata(2, None, 6, 0),
        event: TelemetryEvent::QueueDrainFinished {
            processed: 3,
            remaining: 0,
        },
    });
    assert_eq!(record.event_name, "queue.drain.finished");
    assert_eq!(record.fields, vec![number("processed", 3), number("remaining", 0)]);
}

#[test]
fn adapters_metrics_adapter_accepts_envelope() {
    let updates = observe_metrics_telemetry::<()>(TelemetryEnvelope {
        metadata: metadata(1, Some("program"), 1, 3),
        event: TelemetryEvent::EffectCompleted {
            kind: CommandKind::Background,
            label: Some("load"),
            key: None,
            key_description: None,
            emitted_message: true,
            message: None,
            message_description: Some("loaded".to_string()),
        },
    });
    assert!(!updates.is_empty());
}

#[test]
fn metrics_adapter_labels_metrics_with_program_id_only() {
    let mut seen = observe_metrics_telemetry::<()>(TelemetryEnvelope {
        metadata: metadata(7, Some("program:7"), 1, 3),
        event: TelemetryEvent::SubscriptionsReconciled {
            active: 2,
            added: 1,
            removed: 0,
            retained: 1,
        },
    });
    seen.extend(observe_metrics_telemetry::<()>(TelemetryEnvelope {
        metadata: metadata(7, Some("program:7"), 2, 1),
        event: TelemetryEvent::EffectCompleted {
            kind: CommandKind::Background,
            label: Some("load"),
            key: None,
            key_description: None,
            emitted_message: true,
            message: None,
            message_description: Some("loaded".to_string()),
        },
    }));

    assert!(seen
        .iter()
        .any(|m| m.name == "gpui_tea.queue.depth" && has_label(m, "program_id", "7")));
    assert!(seen
        .iter()
        .any(|m| m.name == "gpui_tea.subscription.active" && has_label(m, "program_id", "7")));
    assert!(seen
        .iter()
        .any(|m| m.name == "gpui_tea.effect.completed" && has_label(m, "program_id", "7")));
    assert!(seen
        .iter()
        .all(|m| m.labels.iter().all(|(k, _)| *k != "program_description")));
}

#[test]
fn metrics_report_depth_then_the_event() {
    let updates = observe_metrics_telemetry::<()>(TelemetryEnvelope {
        metadata: metadata(4, None, 1, 5),
        event: TelemetryEvent::QueueOverflow {
            policy: QueuePolicy::RejectNew { capacity: 5 },
            action: QueueOverflowAction::RejectedNew,
            message_description: None,
        },
    });
    assert_eq!(
        updates,
        vec![
            MetricUpdate {
                kind: MetricKind::Gauge,
                name: "gpui_tea.queue.depth",
                labels: vec![("program_id", "4".to_string())],
                value: 5,
            },
            MetricUpdate {
                kind: MetricKind::Counter,
                name: "gpui_tea.queue.overflow",
                labels: vec![
                    ("program_id", "4".to_string()),
                    ("action", "RejectedNew".to_string()),
                ],
                value: 1,
            },
        ]
    );
}

#[test]
fn event_ids_start_at_one_and_increase() {
    let mut ids = EventIds::new();
    assert_eq!(ids.next(), 1);
    assert_eq!(ids.next(), 2);
    assert_eq!(ids.next(), 3);
}

#[test]
fn program_ids_round_trip_and_display() {
    let id = ProgramId::from_raw(42);
    assert_eq!(id.get(), 42);
    assert_eq!(id.display_string(), "42");
    assert_eq!(option_arc_str(&Some("x".to_string())), "x");
    assert_eq!(option_arc_str(&None), "<none>");
}

#[test]
fn config_keeps_settings_and_runs_describers() {
    let config = ProgramConfig::<i32>::new()
        .queue_warning_threshold(8)
        .queue_policy(QueuePolicy::DropNewest { capacity: 2 })
        .describe_message(|m: &i32| format!("set:{m}"))
        .describe_key(|k: &Key| k.debug_string())
        .describe_program(|p: ProgramId| format!("program:{}", p.get()));
    assert_eq!(config.warning_threshold(), Some(8));
    assert_eq!(config.policy(), QueuePolicy::DropNewest { capacity: 2 });
    assert!(!config.has_observer());
    assert_eq!(config.describe_message_value(&1).as_deref(), Some("set:1"));
    assert_eq!(
        config.describe_key_value(&Key::new("load")).as_deref(),
        Some("Key(\"load\")")
    );
    assert_eq!(
        config.describe_program_value(ProgramId::from_raw(7)).as_deref(),
        Some("program:7")
    );

    let plain = ProgramConfig::<i32>::default();
    assert_eq!(plain.warning_threshold(), None);
    assert_eq!(plain.policy(), QueuePolicy::Unbounded);
}
