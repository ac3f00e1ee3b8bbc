use gpui_tea::command::{Command, CommandKind};
use gpui_tea::key::Key;
use gpui_tea::keyed_tasks::{CommandMeta, KeyedTasks, TaskGeneration};
use gpui_tea::policy::QueuePolicy;
use gpui_tea::program::{Completion, CompletionContext, Runtime, StepOutcome};
use gpui_tea::queue::QueueControl;
use gpui_tea::runtime::{snapshot, Received};
use gpui_tea::registry::SubscriptionRegistry;

type Rt = Runtime<String, &'static str>;

fn spawn(
    runtime: &mut Rt,
    control: &mut QueueControl,
    command: Command<String, u8>,
    handle: &'static str,
) -> (CompletionContext, Option<&'static str>) {
    match runtime.execute_step(control, command) {
        StepOutcome::Spawn { meta, context, .. } => {
            let replaced = runtime.track(&context, meta, handle);
            (context, replaced.map(|r| r.task))
        }
        _ => panic!("expected an effect to spawn"),
    }
}

#[test]
fn emitted_messages_are_enqueued_in_order() {
    let mut control = QueueControl::new(QueuePolicy::Unbounded);
    let mut runtime: Rt = Runtime::new(None);
    let command: Command<String, u8> = Command::batch(vec![
        Command::emit("first".to_string()).label("one"),
        Command::emit("second".to_string()),
    ]);
    let steps = match runtime.execute_step(&mut control, command) {
        StepOutcome::Expand(steps) => steps,
        _ => panic!("a batch expands into its steps"),
    };
    assert_eq!(steps.len(), 2);
    for step in steps {
        match runtime.execute_step(&mut control, step) {
            StepOutcome::Emitted { meta, outcome } => {
                assert_eq!(meta.kind, CommandKind::Emit);
                assert_eq!(outcome.overflow, None);
                assert_eq!(
                    outcome.received,
                    Some(Received::Queued { warning: None, drain: true })
                );
            }
            _ => panic!("expected an emit"),
        }
    }
    let mut seen = Vec::new();
    while let Some(queued) = runtime.queue_mut().next_for_update(&mut control) {
        seen.push(queued.message);
    }
    assert_eq!(seen, vec!["first".to_string(), "second".to_string()]);
}

#[test]
fn keyed_effects_are_latest_wins_and_cancel_replaced_tasks() {
    let mut control = QueueControl::new(QueuePolicy::Unbounded);
    let mut runtime: Rt = Runtime::new(None);

    let (first, replaced) = spawn(
        &mut runtime,
        &mut control,
        Command::foreground_keyed(Key::new("load"), 1u8).label("first"),
        "task-1",
    );
    assert_eq!(replaced, None);
    let (second, replaced) = spawn(
        &mut runtime,
        &mut control,
        Command::foreground_keyed(Key::new("load"), 2u8).label("second"),
        "task-2",
    );
    assert_eq!(replaced, Some("task-1"));
    assert_eq!(runtime.tasks().len(), 1);

    // The replaced effect finishes late: its message is handed back.
    match runtime.complete(&mut control, first, Some("loaded:1".to_string())) {
        Completion::Stale { message } => assert_eq!(message.as_deref(), Some("loaded:1")),
        Completion::Applied { .. } => panic!("a replaced effect is stale"),
    }
    assert_eq!(runtime.tasks().len(), 1);

    // The current one applies and is no longer tracked.
    match runtime.complete(&mut control, second, Some("loaded:2".to_string())) {
        Completion::Applied { outcome } => assert!(outcome.is_some()),
        Completion::Stale { .. } => panic!("the latest effect applies"),
    }
    assert_eq!(runtime.tasks().len(), 0);
    let queued = runtime.queue_mut().next_for_update(&mut control).unwrap();
    assert_eq!(queued.message, "loaded:2");
    assert!(runtime.queue_mut().next_for_update(&mut control).is_none());
}

#[test]
fn cancel_key_clears_the_tracked_task() {
    let mut control = QueueControl::new(QueuePolicy::Unbounded);
    let mut runtime: Rt = Runtime::new(None);
    let (context, _) = spawn(
        &mut runtime,
        &mut control,
        Command::background_keyed(Key::new("load"), 1u8).label("load"),
        "task",
    );
    match runtime.execute_step::<u8>(&mut control, Command::cancel_key(Key::new("load"))) {
        StepOutcome::Canceled { key, canceled } => {
            assert_eq!(key, Key::new("load"));
            let canceled = canceled.expect("the running task is canceled");
            assert_eq!(canceled.task, "task");
            assert_eq!(canceled.meta.kind, CommandKind::Background);
            assert_eq!(canceled.meta.label(), Some("load"));
        }
        _ => panic!("expected a cancellation"),
    }
    assert_eq!(runtime.tasks().len(), 0);
    // Its completion is now stale.
    assert!(matches!(
        runtime.complete(&mut control, context, None),
        Completion::Stale { message: None }
    ));
    // Canceling again finds nothing.
    match runtime.execute_step::<u8>(&mut control, Command::cancel_key(Key::new("load"))) {
        StepOutcome::Canceled { canceled, .. } => assert!(canceled.is_none()),
        _ => panic!("expected a cancellation"),
    }
}

#[test]
fn non_keyed_effects_complete_and_deliver_their_messages() {
    let mut control = QueueControl::new(QueuePolicy::Unbounded);
    let mut runtime: Rt = Runtime::new(Some(0));
    let (foreground, _) = spawn(&mut runtime, &mut control, Command::foreground(1u8), "fg");
    let (background, _) = spawn(&mut runtime, &mut control, Command::background(2u8), "bg");
    assert!(matches!(foreground, CompletionContext::NonKeyed(id) if id.0 == 1));
    assert!(matches!(background, CompletionContext::NonKeyed(id) if id.0 == 2));
    assert_eq!(runtime.effects().len(), 2);

    assert!(matches!(
        runtime.complete(&mut control, foreground, None),
        Completion::Applied { outcome: None }
    ));
    match runtime.complete(&mut control, background, Some("loaded:background".to_string())) {
        Completion::Applied { outcome: Some(outcome) } => {
            // One message is pending, above the threshold of zero.
            assert!(matches!(
                outcome.received,
                Some(Received::Queued { warning: Some(w), .. }) if w.queued == 1 && w.threshold == 0
            ));
        }
        _ => panic!("expected the message to be enqueued"),
    }
    assert_eq!(runtime.effects().len(), 0);
}

#[test]
fn runtime_snapshot_reports_current_counts() {
    let mut control = QueueControl::new(QueuePolicy::Unbounded);
    let mut runtime: Rt = Runtime::new(None);
    let registry: SubscriptionRegistry<()> = SubscriptionRegistry::new();
    let _ = spawn(
        &mut runtime,
        &mut control,
        Command::foreground_keyed(Key::new("a"), 0u8),
        "a",
    );
    let _ = runtime.execute_step::<u8>(&mut control, Command::emit("m".to_string()));
    let s = snapshot(&control, runtime.queue(), runtime.tasks(), &registry);
    assert_eq!(s.queue_depth, 1);
    assert!(!s.is_draining);
    assert_eq!(s.active_keyed_tasks, 1);
    assert_eq!(s.active_subscriptions, 0);
}

#[test]
fn generations_advance_and_completion_applies_once() {
    let mut tasks: KeyedTasks<u8> = KeyedTasks::new();
    let g1 = tasks.next_generation();
    let g2 = tasks.next_generation();
    assert_eq!(g1, TaskGeneration(1));
    assert_eq!(g2, TaskGeneration(2));
    assert_eq!(g2.previous(), g1);
    assert_eq!(TaskGeneration(0).previous(), TaskGeneration(u64::MAX));

    tasks.insert(Key::new("k"), g2, CommandMeta::new(CommandKind::Foreground, None), 7);
    assert!(!tasks.is_current(&Key::new("k"), g1));
    assert!(tasks.is_current(&Key::new("k"), g2));
    assert!(tasks.complete(&Key::new("k"), g2));
    assert!(!tasks.complete(&Key::new("k"), g2));
    assert_eq!(tasks.len(), 0);
}
