use gpui_tea::error::Error;
use gpui_tea::key::Key;
use gpui_tea::registry::SubscriptionRegistry;
use gpui_tea::scope::{ChildPath, ModelContext};
use gpui_tea::subscription::{Subscription, Subscriptions};

#[test]
fn subscription_batch_returns_duplicate_key_error() {
    let error = Subscriptions::<()>::batch(vec![
        Subscription::<()>::new(Key::new("dup"), ()),
        Subscription::<()>::new(Key::new("dup"), ()),
    ])
    .unwrap_err();

    assert_eq!(
        error,
        Error::DuplicateSubscriptionKey {
            key: Key::new("dup"),
        }
    );
}

#[test]
fn subscription_push_returns_duplicate_key_error() {
    let mut subscriptions = Subscriptions::one(Subscription::<()>::new(Key::new("dup"), ()));
    let error = subscriptions
        .push(Subscription::<()>::new(Key::new("dup"), ()))
        .unwrap_err();

    assert_eq!(
        error,
        Error::DuplicateSubscriptionKey {
            key: Key::new("dup"),
        }
    );
}

#[test]
fn subscription_batch_and_push_preserve_uniqueness_and_order() {
    let mut subscriptions = Subscriptions::<()>::batch(vec![Subscription::new(Key::new("alpha"), ())])
        .expect("unique keys should build a subscription set");
    subscriptions
        .push(Subscription::new(Key::new("beta"), ()))
        .expect("a new key should append successfully");

    let keys = subscriptions
        .into_vec()
        .into_iter()
        .map(|subscription| subscription.key)
        .collect::<Vec<_>>();

    assert_eq!(keys, vec![Key::new("alpha"), Key::new("beta")]);
}

#[test]
fn duplicate_key_error_message_names_the_key() {
    let error = Subscriptions::<()>::batch(vec![
        Subscription::new(Key::new("a"), ()),
        Subscription::new(Key::new("b"), ()),
        Subscription::new(Key::new("a"), ()),
    ])
    .unwrap_err();
    assert_eq!(
        error.message(),
        "duplicate subscription key declared while building subscriptions: Key(\"a\")"
    );
}

#[test]
fn a_failed_push_leaves_the_set_unchanged() {
    let mut subscriptions = Subscriptions::one(Subscription::new(Key::new("a"), 1u8));
    assert!(subscriptions.push(Subscription::new(Key::new("a"), 2u8)).is_err());
    assert_eq!(subscriptions.len(), 1);
    let items = subscriptions.into_vec();
    assert_eq!(items[0].builder, 1);
}

#[test]
fn mapped_subscriptions_keep_keys_and_labels() {
    let subscriptions = Subscriptions::batch(vec![
        Subscription::new(Key::new("clock"), 2u32).label("tick"),
        Subscription::new(Key::new("net"), 3u32),
    ])
    .unwrap();
    let mapped = subscriptions.map(&|b: u32| format!("builder-{b}"));
    let items = mapped.into_vec();
    assert_eq!(items[0].key, Key::new("clock"));
    assert_eq!(items[0].label.as_deref(), Some("tick"));
    assert_eq!(items[0].builder, "builder-2");
    assert_eq!(items[1].key, Key::new("net"));
    assert!(items[1].label.is_none());
    assert_eq!(items[1].builder, "builder-3");
}

#[test]
fn sibling_children_do_not_conflict_on_local_keys() {
    let root: ModelContext<u8> = ModelContext::root();
    let left = root.scope(&ChildPath::new("left"), |m: u8| m);
    let right = root.scope(&ChildPath::new("right"), |m: u8| m);

    let left_subs = left.lift_subscriptions(
        Subscriptions::one(Subscription::new(Key::new("clock"), ())),
        &|b: ()| b,
    );
    let right_subs = right.lift_subscriptions(
        Subscriptions::one(Subscription::new(Key::new("clock"), ())),
        &|b: ()| b,
    );

    let mut merged = left_subs;
    for subscription in right_subs.into_vec() {
        merged
            .push(subscription)
            .expect("scoped sibling subscriptions keep unique keys");
    }
    let ids: Vec<String> = merged.into_vec().iter().map(|s| s.key.id().to_string()).collect();
    assert_eq!(ids, vec!["4:left/#5:clock".to_string(), "5:right/#5:clock".to_string()]);
}

#[test]
fn reconcile_retains_adds_and_removes_by_key() {
    let mut registry: SubscriptionRegistry<&'static str> = SubscriptionRegistry::new();

    let first = Subscriptions::batch(vec![
        Subscription::new(Key::new("alpha"), 1u8).label("alpha-v1"),
        Subscription::new(Key::new("beta"), 2u8),
    ])
    .unwrap();
    let plan = registry.reconcile(first);
    assert_eq!(plan.added(), 2);
    assert_eq!(plan.removed_count(), 0);
    assert_eq!(plan.retained_count(), 0);
    for subscription in plan.pending {
        registry.activate(subscription.key, subscription.label, "handle");
    }
    assert_eq!(registry.len(), 2);

    let second = Subscriptions::batch(vec![
        Subscription::new(Key::new("alpha"), 3u8).label("alpha-v2"),
        Subscription::new(Key::new("gamma"), 4u8),
    ])
    .unwrap();
    let plan = registry.reconcile(second);
    assert_eq!(plan.retained_count(), 1);
    assert_eq!(plan.retained[0].0, Key::new("alpha"));
    assert_eq!(plan.retained[0].1.as_deref(), Some("alpha-v2"));
    assert_eq!(plan.removed_count(), 1);
    assert_eq!(plan.removed[0].0, Key::new("beta"));
    assert_eq!(plan.added(), 1);
    assert_eq!(plan.pending[0].key, Key::new("gamma"));
}

#[test]
fn a_single_subscription_converts_into_a_set() {
    let set: Subscriptions<()> = Subscription::<()>::new(Key::new("tick"), ()).into();
    assert_eq!(set.len(), 1);
    let items = set.into_vec();
    assert_eq!(items[0].key.id(), "tick");
}
