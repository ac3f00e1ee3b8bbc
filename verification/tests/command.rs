use gpui_tea::command::{Command, CommandInner, CommandKind};
use gpui_tea::key::Key;
use gpui_tea::scope::ChildPath;

type Cmd = Command<i32, u8>;

fn kind(inner: &CommandInner<i32, u8>) -> &'static str {
    match inner {
        CommandInner::NoOp => "none",
        CommandInner::Emit(_) => "emit",
        CommandInner::Batch(_) => "batch",
        CommandInner::Effect(_) => "effect",
        CommandInner::Keyed { .. } => "keyed",
        CommandInner::Cancel(_) => "cancel",
    }
}

#[test]
fn command_batch_discards_none_and_flattens_nested_batches() {
    let command: Cmd = Command::batch(vec![
        Command::none(),
        Command::emit(1),
        Command::batch(vec![Command::none(), Command::emit(2)]),
    ]);

    let (label, inner) = command.into_parts();
    assert!(label.is_none());

    match inner {
        CommandInner::Batch(commands) => {
            assert_eq!(commands.len(), 2);

            let first = commands
                .into_iter()
                .map(Command::into_parts)
                .collect::<Vec<_>>();
            assert!(matches!(first[0].1, CommandInner::Emit(1)));
            assert!(matches!(first[1].1, CommandInner::Emit(2)));
        }
        other => panic!(
            "expected flattened batch, got unexpected command: {:?}",
            kind(&other)
        ),
    }
}

#[test]
fn mapped_keyed_foreground_command_keeps_label_and_key_and_maps_payload() {
    let command: Command<i32, u8> = Command::foreground_keyed(Key::new("load"), 21u8).label("mapped-load");
    let mapped: Command<String, u32> = command.map(
        &|value: i32| format!("value:{value}"),
        &|payload: u8| u32::from(payload) * 2,
    );

    let (label, inner) = mapped.into_parts();
    assert_eq!(label.as_deref(), Some("mapped-load"));
    match inner {
        CommandInner::Keyed { key, effect } => {
            assert_eq!(key, Key::new("load"));
            assert_eq!(effect.kind, CommandKind::Foreground);
            assert_eq!(effect.run, 42);
        }
        other => panic!("expected keyed foreground effect, got {}", other_kind(&other)),
    }
}

fn other_kind(inner: &CommandInner<String, u32>) -> &'static str {
    match inner {
        CommandInner::NoOp => "none",
        CommandInner::Emit(_) => "emit",
        CommandInner::Batch(_) => "batch",
        CommandInner::Effect(_) => "effect",
        CommandInner::Keyed { .. } => "keyed",
        CommandInner::Cancel(_) => "cancel",
    }
}

#[test]
fn mapping_an_emit_transforms_the_message_and_keeps_the_label() {
    let command: Cmd = Command::emit(7).label("child-emit");
    let mapped: Command<String, u8> = command.map(&|v: i32| format!("lifted:{v}"), &|p: u8| p);
    let (label, inner) = mapped.into_parts();
    assert_eq!(label.as_deref(), Some("child-emit"));
    match inner {
        CommandInner::Emit(message) => assert_eq!(message, "lifted:7"),
        _ => panic!("expected an emit"),
    }
}

#[test]
fn batch_of_one_command_is_that_command() {
    let command: Cmd = Command::batch(vec![Command::none(), Command::emit(5).label("only")]);
    let (label, inner) = command.into_parts();
    assert_eq!(label.as_deref(), Some("only"));
    assert!(matches!(inner, CommandInner::Emit(5)));
}

#[test]
fn batch_of_nothing_is_none() {
    let command: Cmd = Command::batch(vec![Command::none(), Command::batch(vec![])]);
    assert_eq!(command.variant_name(), "None");
    assert!(command.execution_kind().is_none());
}

#[test]
fn steps_follow_the_tree_in_order() {
    let command: Cmd = Command::batch(vec![
        Command::emit(1),
        Command::batch(vec![Command::foreground(3u8), Command::cancel_key(Key::new("k"))]),
        Command::background_keyed(Key::new("load"), 4u8),
    ]);
    let steps = command.into_steps();
    let names: Vec<&str> = steps.iter().map(|s| s.variant_name()).collect();
    assert_eq!(names, vec!["Emit", "Effect", "Cancel", "Keyed"]);
    assert_eq!(steps[1].execution_kind(), Some(CommandKind::Foreground));
    assert_eq!(steps[3].execution_kind(), Some(CommandKind::Background));
    assert_eq!(steps[0].execution_kind(), None);
    assert_eq!(steps[2].key(), Some(&Key::new("k")));
}

#[test]
fn scoping_rebases_keyed_effects_and_cancellations_only() {
    let path = ChildPath::new("left");
    let command: Cmd = Command::batch(vec![
        Command::foreground_keyed(Key::new("load"), 1u8),
        Command::cancel_key(Key::new("load")),
        Command::emit(3),
    ]);
    let scoped = command.scoped(&path);
    let steps = scoped.into_steps();
    assert_eq!(steps.len(), 3);
    assert_eq!(steps[0].key().map(|k| k.id().to_string()), Some("4:left/#4:load".to_string()));
    assert_eq!(steps[1].key().map(|k| k.id().to_string()), Some("4:left/#4:load".to_string()));
    assert!(steps[2].key().is_none());
    assert_eq!(steps[2].variant_name(), "Emit");
}

#[test]
fn default_command_is_none() {
    let command: Cmd = Command::default();
    assert_eq!(command.variant_name(), "None");
}
