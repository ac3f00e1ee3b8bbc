use gpui_tea::command::Command;
use gpui_tea::config::ProgramConfig;
use gpui_tea::key::Key;
use gpui_tea::policy::QueuePolicy;
use gpui_tea::scope::{ChildPath, ModelContext};
use gpui_tea::subscription::{Subscription, Subscriptions};
use gpui_tea::text::{sort_texts, text_le_exec};

#[test]
fn command_debug_text() {
    let emit: Command<i32, u8> = Command::emit(1);
    assert_eq!(
        emit.debug_string(),
        "Command { variant: \"Emit\", execution_kind: None, label: None, key: None, .. }"
    );

    let keyed: Command<i32, u8> = Command::background_keyed(Key::new("load"), 0u8).label("say \"hi\"");
    assert_eq!(
        keyed.debug_string(),
        "Command { variant: \"Keyed\", execution_kind: Some(Background), label: Some(\"say \\\"hi\\\"\"), key: Some(Key(\"load\")), .. }"
    );

    let batch: Command<i32, u8> = Command::batch(vec![Command::emit(1), Command::emit(2)]);
    assert_eq!(
        batch.debug_string(),
        "Command { variant: \"Batch\", execution_kind: None, label: None, key: None, batch_len: 2, .. }"
    );
}

#[test]
fn subscription_debug_text() {
    let subscription = Subscription::new(Key::new("clock"), ()).label("tick");
    assert_eq!(
        subscription.debug_string(),
        "Subscription { key: Key(\"clock\"), label: Some(\"tick\"), .. }"
    );
}

#[test]
fn subscriptions_debug_text_lists_sorted_keys() {
    let subscriptions = Subscriptions::batch(vec![
        Subscription::new(Key::new("beta"), ()),
        Subscription::new(Key::new("alpha"), ()),
        Subscription::new(Key::new("Zeta"), ()),
    ])
    .unwrap();
    assert_eq!(
        subscriptions.debug_string(),
        "Subscriptions { len: 3, keys: [\"Key(\\\"Zeta\\\")\", \"Key(\\\"alpha\\\")\", \"Key(\\\"beta\\\")\"], .. }"
    );
    assert_eq!(
        Subscriptions::<()>::none().debug_string(),
        "Subscriptions { len: 0, keys: [], .. }"
    );
}

#[test]
fn config_debug_text() {
    let config = ProgramConfig::<i32>::new()
        .queue_warning_threshold(8)
        .queue_policy(QueuePolicy::RejectNew { capacity: 4 })
        .describe_message(|m: &i32| m.to_string());
    assert_eq!(
        config.debug_string(),
        "ProgramConfig { queue_warning_threshold: Some(8), queue_policy: RejectNew { capacity: 4 }, has_observer: false, has_telemetry_observer: false, has_message_describer: true, has_key_describer: false, has_program_describer: false, .. }"
    );
}

#[test]
fn child_scope_debug_text() {
    let root: ModelContext<u8> = ModelContext::root();
    let scope = root.scope(&ChildPath::new("left").child("list"), |m: u8| m);
    assert_eq!(
        scope.debug_string(),
        "ChildScope { path: ChildPath(\"left/list\"), .. }"
    );
}

#[test]
fn strings_sort_by_characters() {
    let sorted = sort_texts(vec![
        "b".to_string(),
        "ab".to_string(),
        "a".to_string(),
        "é".to_string(),
        "B".to_string(),
        "a".to_string(),
    ]);
    let mut expected = vec!["b", "ab", "a", "é", "B", "a"];
    expected.sort();
    assert_eq!(sorted, expected);
    assert!(text_le_exec("a", "ab"));
    assert!(!text_le_exec("ab", "a"));
    assert!(text_le_exec("", ""));
    assert!(text_le_exec("Z", "a"));
}
