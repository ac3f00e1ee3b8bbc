use gpui_tea::command::Command;
use gpui_tea::key::Key;
use gpui_tea::scope::{ChildPath, ModelContext};

#[test]
fn root_path_has_no_segments_and_a_fixed_prefix() {
    let root = ChildPath::root();
    assert!(root.is_root());
    assert_eq!(root.depth(), 0);
    assert_eq!(root.runtime_prefix(), "root");
    assert_eq!(root.display_string(), "<root>");
    assert_eq!(root.debug_string(), "ChildPath(\"<root>\")");
    assert_eq!(ChildPath::default(), root);
}

#[test]
fn child_paths_extend_and_join_in_order() {
    let left = ChildPath::new("left");
    let nested = left.child("list").child("item");
    assert_eq!(nested.depth(), 3);
    assert_eq!(nested.segment(1), "list");
    assert_eq!(nested.display_string(), "left/list/item");
    assert_eq!(nested.debug_string(), "ChildPath(\"left/list/item\")");
    assert_eq!(nested.runtime_prefix(), "4:left/4:list/4:item/");

    let joined = left.join(&ChildPath::new("list").child("item"));
    assert_eq!(joined, nested);
    assert_eq!(left.join(&ChildPath::root()), left);
    assert_eq!(ChildPath::root().join(&left), left);
}

#[test]
fn runtime_prefix_counts_bytes_not_characters() {
    let path = ChildPath::new("é");
    assert_eq!(path.runtime_prefix(), "2:é/");
}

#[test]
fn scoping_a_key_rebases_its_identifier_and_remembers_the_local_one() {
    let key = Key::new("load");
    let scoped = key.scoped(&ChildPath::new("left"));
    assert_eq!(scoped.id(), "4:left/#4:load");
    assert_eq!(scoped.local_id(), Some("load"));
    assert_eq!(scoped.child_path(), Some(&ChildPath::new("left")));
    assert_eq!(scoped.debug_string(), "Key(\"left:load\")");
    assert_eq!(key.debug_string(), "Key(\"load\")");
}

#[test]
fn scoping_is_applied_once_and_root_scoping_changes_nothing() {
    let key = Key::new("load");
    assert_eq!(key.scoped(&ChildPath::root()), key);
    let once = key.scoped(&ChildPath::new("child"));
    let twice = once.scoped(&ChildPath::new("parent"));
    assert_eq!(once, twice);
}

#[test]
fn sibling_scopes_give_distinct_runtime_identifiers() {
    let key = Key::new("load");
    let left = key.scoped(&ChildPath::new("left"));
    let right = key.scoped(&ChildPath::new("right"));
    assert_ne!(left.id(), right.id());
    assert_ne!(left, right);
}

#[test]
fn identifiers_that_look_alike_stay_distinct() {
    // A segment that contains the separator cannot be confused with two
    // segments: byte lengths are part of the identifier.
    let a = Key::new("x").scoped(&ChildPath::new("a/b"));
    let b = Key::new("x").scoped(&ChildPath::new("a").child("b"));
    assert_eq!(a.id(), "3:a/b/#1:x");
    assert_eq!(b.id(), "1:a/1:b/#1:x");
    assert_ne!(a, b);
}

#[test]
fn deep_nested_scope_rebases_grandchild_keys() {
    let root: ModelContext<String> = ModelContext::root();
    let child = root.scope(&ChildPath::new("child"), |m: String| m);
    let grandchild = child
        .context()
        .scope(&ChildPath::new("grandchild"), |m: String| m);
    assert_eq!(grandchild.path().display_string(), "child/grandchild");

    let command: Command<String, u8> = Command::foreground_keyed(Key::new("load"), 0u8);
    let lifted = grandchild.lift_command(command, &|p: u8| p);
    let key = lifted.key().expect("keyed command keeps its key");
    assert_eq!(key.id(), "5:child/10:grandchild/#4:load");
    assert_eq!(key.local_id(), Some("load"));
}

#[test]
fn child_scopes_keep_emit_labels_when_lifting_messages() {
    #[derive(Debug, PartialEq)]
    enum Parent {
        Child(u32),
    }
    let root: ModelContext<Parent> = ModelContext::root();
    let scope = root.scope(&ChildPath::new("child"), Parent::Child);
    let command: Command<u32, u8> = Command::emit(3).label("child-emit");
    let lifted = scope.lift_command(command, &|p: u8| p);
    let (label, inner) = lifted.into_parts();
    assert_eq!(label.as_deref(), Some("child-emit"));
    match inner {
        gpui_tea::command::CommandInner::Emit(message) => assert_eq!(message, Parent::Child(3)),
        _ => panic!("expected an emit"),
    }
}

#[test]
fn keys_and_paths_convert_from_text() {
    let from_str: Key = "load".into();
    assert_eq!(from_str.id(), "load");
    assert!(from_str.child_path().is_none());
    let from_string = Key::from(String::from("save"));
    assert_eq!(from_string.id(), "save");
    assert!(from_string == Key::new("save"));

    let left: ChildPath = "left".into();
    assert_eq!(left.depth(), 1);
    assert_eq!(left.segment(0), "left");
    assert!(left == ChildPath::new("left"));
    let right = ChildPath::from(String::from("right"));
    assert_eq!(right.display_string(), "right");
}

#[test]
fn sibling_children_reusing_a_local_key_never_collide() {
    let left = Key::new("load").scoped(&ChildPath::new("left"));
    let right = Key::new("load").scoped(&ChildPath::new("right"));
    assert_ne!(left.id(), right.id());
    assert!(left != right);
    assert_eq!(left.local_id(), Some("load"));
    assert_eq!(right.local_id(), Some("load"));
}
