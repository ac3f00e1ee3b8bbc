//! Commands: declarative work that the runtime performs after a transition.
//!
//! A command is a tree: nothing, one message to emit, an effect (keyed or
//! not), a cancellation of a keyed effect, or a batch of commands. The effect
//! payload `F` is opaque here: it is whatever runs the effect and yields the
//! follow-up message.
use crate::key::{key_debug, spec_scoped, Key, KeyView};
use crate::observability::kind_debug;
use crate::scope::ChildPath;
use crate::text::{
    copy_str, debug_str, dec_digits, opt_str_debug, push_decimal, push_opt_str_debug, push_str,
    push_string, str_debug,
};
use vstd::prelude::*;

verus! {

/// Classify how a [`Command`] interacts with the runtime.
#[derive(Clone, Copy, Debug, PartialEq, Eq, Structural)]
pub enum CommandKind {
    /// Emit a message synchronously back into the program queue.
    Emit,
    /// Run an effect on the foreground executor.
    Foreground,
    /// Run an effect on the background executor.
    Background,
}

/// An effect: where it runs and what runs it.
#[derive(Debug)]
pub struct Effect<F> {
    pub kind: CommandKind,
    pub run: F,
}

/// The execution payload of a command.
#[derive(Debug)]
pub enum CommandInner<Msg, F> {
    /// No action.
    NoOp,
    /// Emit a single message.
    Emit(Msg),
    /// Execute multiple commands, in order.
    Batch(Vec<Command<Msg, F>>),
    /// Execute an asynchronous effect.
    Effect(Effect<F>),
    /// Execute a keyed effect, replacing earlier work with the same key.
    Keyed { key: Key, effect: Effect<F> },
    /// Cancel a running keyed effect.
    Cancel(Key),
}

/// Describe work the runtime should perform after a model transition.
///
/// Commands are pure values. A model returns them from its `init` and
/// `update`, and the runtime executes them after the transition completes.
#[derive(Debug)]
pub struct Command<Msg, F> {
    pub inner: CommandInner<Msg, F>,
    pub label: Option<String>,
}

/// A command's label, as characters.
pub open spec fn label_view(label: Option<String>) -> Option<Seq<char>> {
    match label {
        Some(l) => Some(l@),
        None => None,
    }
}

/// The commands a batch lists in place of `c`: a batch's items, nothing for
/// an empty command, `c` itself otherwise.
pub open spec fn batch_expansion<Msg, F>(c: Command<Msg, F>) -> Seq<Command<Msg, F>> {
    match c.inner {
        CommandInner::Batch(items) => items@,
        CommandInner::NoOp => Seq::empty(),
        _ => seq![c],
    }
}

/// The expansions of `cs`, concatenated in order.
pub open spec fn batch_items<Msg, F>(cs: Seq<Command<Msg, F>>) -> Seq<Command<Msg, F>>
    decreases cs.len(),
{
    if cs.len() == 0 {
        Seq::empty()
    } else {
        batch_items(cs.drop_last()) + batch_expansion(cs.last())
    }
}

/// `c` is what batching `cs` gives: nothing when no item remains, the single
/// item when one remains, an unlabeled batch of the items otherwise.
pub open spec fn is_batch_of<Msg, F>(c: Command<Msg, F>, cs: Seq<Command<Msg, F>>) -> bool {
    let items = batch_items(cs);
    if items.len() == 0 {
        c.inner is NoOp && c.label is None
    } else if items.len() == 1 {
        c == items[0]
    } else {
        c.label is None && (c.inner matches CommandInner::Batch(v) && v@ == items)
    }
}

/// The work a command performs, in the order the runtime performs it: every
/// emit, effect, keyed effect and cancellation in the tree, left to right.
pub open spec fn steps<Msg, F>(c: Command<Msg, F>) -> Seq<Command<Msg, F>>
    decreases c, 0nat,
{
    match c.inner {
        CommandInner::NoOp => Seq::empty(),
        CommandInner::Batch(items) => steps_of(items@),
        _ => seq![c],
    }
}

/// The steps of each command of `cs`, concatenated in order.
pub open spec fn steps_of<Msg, F>(cs: Seq<Command<Msg, F>>) -> Seq<Command<Msg, F>>
    decreases cs, cs.len(),
{
    if cs.len() == 0 {
        Seq::empty()
    } else {
        steps_of(cs.drop_last()) + steps(cs.last())
    }
}


/// A leaf command: one unit of work (an emit, an effect, a keyed effect or a
/// cancellation).
pub open spec fn is_leaf<Msg, F>(c: Command<Msg, F>) -> bool {
    !(c.inner is NoOp) && !(c.inner is Batch)
}

/// A command in the shape batching produces: a batch holds at least two
/// items and each of them is a leaf.
pub open spec fn is_flat<Msg, F>(c: Command<Msg, F>) -> bool {
    c.inner matches CommandInner::Batch(v) ==> (v@.len() >= 2 && forall|i: int|
        0 <= i < v@.len() ==> is_leaf(#[trigger] v@[i]))
}

/// `d` is `c` with every message turned by `f` and every effect payload by
/// `g`, keeping the tree, the keys, the effect kinds and the labels.
pub open spec fn mapped_from<Msg, F, N, E, G, H>(
    c: Command<Msg, F>,
    d: Command<N, E>,
    f: G,
    g: H,
) -> bool where G: Fn(Msg) -> N, H: Fn(F) -> E
    decreases c,
{
    &&& label_view(d.label) == label_view(c.label)
    &&& match c.inner {
        CommandInner::NoOp => d.inner is NoOp,
        CommandInner::Emit(m) => d.inner matches CommandInner::Emit(n) && f.ensures((m,), n),
        CommandInner::Batch(v) => d.inner matches CommandInner::Batch(w) && w@.len() == v@.len()
            && forall|i: int|
            0 <= i < v@.len() ==> mapped_from(#[trigger] v@[i], w@[i], f, g),
        CommandInner::Effect(e) => d.inner matches CommandInner::Effect(e2) && e2.kind == e.kind
            && g.ensures((e.run,), e2.run),
        CommandInner::Keyed { key, effect } => d.inner matches CommandInner::Keyed {
            key: k2,
            effect: e2,
        } && k2@ == key@ && e2.kind == effect.kind && g.ensures((effect.run,), e2.run),
        CommandInner::Cancel(key) => d.inner matches CommandInner::Cancel(k2) && k2@ == key@,
    }
}

/// What a mapping keeps and turns, one level of the tree at a time: the
/// label; an empty command stays empty; an emitted message is turned by `f`;
/// a batch keeps its length and each item is mapped in turn; an effect keeps
/// its kind and its payload is turned by `g`; a keyed effect also keeps its
/// key; a cancellation keeps its key.
pub proof fn lemma_mapped_from_unfold<Msg, F, N, E, G, H>(
    c: Command<Msg, F>,
    d: Command<N, E>,
    f: G,
    g: H,
) where G: Fn(Msg) -> N, H: Fn(F) -> E
    requires
        mapped_from(c, d, f, g),
    ensures
        label_view(d.label) == label_view(c.label),
        c.inner is NoOp ==> d.inner is NoOp,
        c.inner matches CommandInner::Emit(m) ==> (d.inner matches CommandInner::Emit(n) && f.ensures(
            (m,),
            n,
        )),
        c.inner matches CommandInner::Batch(v) ==> (d.inner matches CommandInner::Batch(w)
            && w@.len() == v@.len() && forall|i: int|
            0 <= i < v@.len() ==> mapped_from(#[trigger] v@[i], w@[i], f, g)),
        c.inner matches CommandInner::Effect(e) ==> (d.inner matches CommandInner::Effect(e2)
            && e2.kind == e.kind && g.ensures((e.run,), e2.run)),
        c.inner matches CommandInner::Keyed { key, effect } ==> (d.inner matches CommandInner::Keyed {
            key: k2,
            effect: e2,
        } && k2@ == key@ && e2.kind == effect.kind && g.ensures((effect.run,), e2.run)),
        c.inner matches CommandInner::Cancel(key) ==> (d.inner matches CommandInner::Cancel(k2) && k2@
            == key@),
{
}

/// `d` is `c` with every key rebased under `path` (see
/// [`crate::key::spec_scoped`]); messages, effects, labels and the tree are
/// kept.
pub open spec fn scoped_from<Msg, F>(
    c: Command<Msg, F>,
    d: Command<Msg, F>,
    path: Seq<Seq<char>>,
) -> bool
    decreases c,
{
    &&& label_view(d.label) == label_view(c.label)
    &&& match c.inner {
        CommandInner::NoOp => d.inner is NoOp,
        CommandInner::Emit(m) => d.inner == CommandInner::<Msg, F>::Emit(m),
        CommandInner::Batch(v) => d.inner matches CommandInner::Batch(w) && w@.len() == v@.len()
            && forall|i: int| 0 <= i < v@.len() ==> scoped_from(#[trigger] v@[i], w@[i], path),
        CommandInner::Effect(e) => d.inner == CommandInner::<Msg, F>::Effect(e),
        CommandInner::Keyed { key, effect } => d.inner matches CommandInner::Keyed {
            key: k2,
            effect: e2,
        } && k2@ == spec_scoped(key@, path) && e2 == effect,
        CommandInner::Cancel(key) => d.inner matches CommandInner::Cancel(k2) && k2@ == spec_scoped(
            key@,
            path,
        ),
    }
}

/// The name of a payload's variant.
pub open spec fn variant_text<Msg, F>(inner: CommandInner<Msg, F>) -> Seq<char> {
    match inner {
        CommandInner::NoOp => "None"@,
        CommandInner::Emit(_) => "Emit"@,
        CommandInner::Batch(_) => "Batch"@,
        CommandInner::Effect(_) => "Effect"@,
        CommandInner::Keyed { .. } => "Keyed"@,
        CommandInner::Cancel(_) => "Cancel"@,
    }
}

/// Where a payload's effect runs, for an effect or keyed effect.
pub open spec fn exec_kind<Msg, F>(inner: CommandInner<Msg, F>) -> Option<CommandKind> {
    match inner {
        CommandInner::Effect(e) => Some(e.kind),
        CommandInner::Keyed { effect, .. } => Some(effect.kind),
        _ => None,
    }
}

/// How a command reads in debug output: its variant, execution kind, label,
/// key and, for a batch, the number of commands in it.
pub open spec fn command_debug<Msg, F>(c: Command<Msg, F>) -> Seq<char> {
    "Command { variant: "@ + str_debug(variant_text(c.inner)) + ", execution_kind: "@ + match exec_kind(
        c.inner,
    ) {
        Some(k) => "Some("@ + kind_debug(k) + ")"@,
        None => "None"@,
    } + ", label: "@ + opt_str_debug(label_view(c.label)) + ", key: "@ + match c.inner {
        CommandInner::Keyed { key, .. } => "Some("@ + key_debug(key@) + ")"@,
        CommandInner::Cancel(key) => "Some("@ + key_debug(key@) + ")"@,
        _ => "None"@,
    } + match c.inner {
        CommandInner::Batch(v) => ", batch_len: "@ + dec_digits(v@.len()),
        _ => Seq::empty(),
    } + ", .. }"@
}

impl<Msg, F> Command<Msg, F> {
    /// Return a command that performs no work.
    pub fn none() -> (c: Self)
        ensures
            c.inner is NoOp,
            c.label is None,
    {
        Command { inner: CommandInner::NoOp, label: None }
    }

    /// Return a command that enqueues `message` immediately.
    pub fn emit(message: Msg) -> (c: Self)
        ensures
            c.inner == CommandInner::<Msg, F>::Emit(message),
            c.label is None,
    {
        Command { inner: CommandInner::Emit(message), label: None }
    }

    /// Return a command that runs `run` on the foreground executor.
    pub fn foreground(run: F) -> (c: Self)
        ensures
            c.inner == CommandInner::<Msg, F>::Effect(Effect { kind: CommandKind::Foreground, run }),
            c.label is None,
    {
        Command { inner: CommandInner::Effect(Effect { kind: CommandKind::Foreground, run }), label: None }
    }

    /// Return a command that runs `run` on the background executor.
    pub fn background(run: F) -> (c: Self)
        ensures
            c.inner == CommandInner::<Msg, F>::Effect(Effect { kind: CommandKind::Background, run }),
            c.label is None,
    {
        Command { inner: CommandInner::Effect(Effect { kind: CommandKind::Background, run }), label: None }
    }

    /// Return a keyed foreground effect that replaces any in-flight effect
    /// with the same key.
    pub fn foreground_keyed(key: Key, run: F) -> (c: Self)
        ensures
            c.inner == (CommandInner::<Msg, F>::Keyed {
                key,
                effect: Effect { kind: CommandKind::Foreground, run },
            }),
            c.label is None,
    {
        Command {
            inner: CommandInner::Keyed { key, effect: Effect { kind: CommandKind::Foreground, run } },
            label: None,
        }
    }

    /// Return a keyed background effect that replaces any in-flight effect
    /// with the same key.
    pub fn background_keyed(key: Key, run: F) -> (c: Self)
        ensures
            c.inner == (CommandInner::<Msg, F>::Keyed {
                key,
                effect: Effect { kind: CommandKind::Background, run },
            }),
            c.label is None,
    {
        Command {
            inner: CommandInner::Keyed { key, effect: Effect { kind: CommandKind::Background, run } },
            label: None,
        }
    }

    /// Return a command that cancels the keyed effect associated with `key`.
    pub fn cancel_key(key: Key) -> (c: Self)
        ensures
            c.inner == CommandInner::<Msg, F>::Cancel(key),
            c.label is None,
    {
        Command { inner: CommandInner::Cancel(key), label: None }
    }

    /// Attach a human-readable label for observability output.
    pub fn label(self, label: &str) -> (c: Self)
        ensures
            c.inner == self.inner,
            label_view(c.label) == Some(label@),
    {
        Command { inner: self.inner, label: Some(copy_str(label)) }
    }

    /// Combine multiple commands into a single command.
    ///
    /// Nested batches are flattened and empty commands are discarded.
    pub fn batch(commands: Vec<Command<Msg, F>>) -> (c: Self)
        ensures
            is_batch_of(c, commands@),
    {
        let total = commands.len();
        let ghost all = commands@;
        let mut rest = commands;
        let mut items: Vec<Command<Msg, F>> = Vec::new();
        let mut i: usize = 0;
        while rest.len() > 0
            invariant
                i <= all.len(),
                rest@ == all.subrange(i as int, all.len() as int),
                items@ == batch_items(all.take(i as int)),
                all.len() <= usize::MAX,
            decreases rest.len(),
        {
            let command = rest.remove(0);
            proof {
                assert(command == all[i as int]);
                assert(all.take(i + 1).drop_last() =~= all.take(i as int));
                assert(all.take(i + 1).last() == all[i as int]);
            }
            let label = command.label;
            match command.inner {
                CommandInner::Batch(inner) => {
                    let mut inner = inner;
                    items.append(&mut inner);
                },
                CommandInner::NoOp => {
                    proof {
                        assert(items@ + Seq::<Command<Msg, F>>::empty() =~= items@);
                    }
                },
                other => {
                    items.push(Command { inner: other, label });
                },
            }
            i = i + 1;
            proof {
                assert(rest@ =~= all.subrange(i as int, all.len() as int));
            }
        }
        proof {
            assert(all.take(i as int) =~= all);
        }
        if items.len() == 0 {
            Command::none()
        } else if items.len() == 1 {
            items.remove(0)
        } else {
            Command { inner: CommandInner::Batch(items), label: None }
        }
    }

    /// Transform the messages this command produces with `f` and the effect
    /// payloads with `g` (which makes them produce the transformed messages).
    /// The tree, keys, effect kinds and labels are kept.
    pub fn map<N, E, G, H>(self, f: &G, g: &H) -> (c: Command<N, E>) where
        G: Fn(Msg) -> N,
        H: Fn(F) -> E,

        requires
            forall|m: Msg| f.requires((m,)),
            forall|e: F| g.requires((e,)),
        ensures
            mapped_from(self, c, *f, *g),
        decreases self,
    {
        let label = self.label;
        let inner = match self.inner {
            CommandInner::NoOp => CommandInner::NoOp,
            CommandInner::Emit(message) => CommandInner::Emit(f(message)),
            CommandInner::Batch(commands) => {
                let total = commands.len();
                let ghost all = commands@;
                let mut rest = commands;
                let mut out: Vec<Command<N, E>> = Vec::new();
                let mut i: usize = 0;
                while rest.len() > 0
                    invariant
                        i <= all.len(),
                        rest@ == all.subrange(i as int, all.len() as int),
                        out@.len() == i,
                        forall|j: int| 0 <= j < i ==> mapped_from(#[trigger] all[j], out@[j], *f, *g),
                        forall|m: Msg| f.requires((m,)),
                        forall|e: F| g.requires((e,)),
                        self.inner matches CommandInner::Batch(v) && v@ == all,
                        all.len() <= usize::MAX,
                    decreases rest.len(),
                {
                    let command = rest.remove(0);
                    proof {
                        assert(command == all[i as int]);
                    }
                    let mapped = command.map(f, g);
                    out.push(mapped);
                    i = i + 1;
                    proof {
                        assert(rest@ =~= all.subrange(i as int, all.len() as int));
                    }
                }
                CommandInner::Batch(out)
            },
            CommandInner::Effect(effect) => CommandInner::Effect(
                Effect { kind: effect.kind, run: g(effect.run) },
            ),
            CommandInner::Keyed { key, effect } => CommandInner::Keyed {
                key,
                effect: Effect { kind: effect.kind, run: g(effect.run) },
            },
            CommandInner::Cancel(key) => CommandInner::Cancel(key),
        };
        Command { inner, label }
    }

    /// Scope keyed effects and cancellations under `path`.
    ///
    /// Commands that do not carry a [`Key`] are kept unchanged. The operation
    /// is recursive for nested batches.
    pub fn scoped(self, path: &ChildPath) -> (c: Self)
        ensures
            scoped_from(self, c, path@),
        decreases self,
    {
        let label = self.label;
        let inner = match self.inner {
            CommandInner::Batch(commands) => {
                let total = commands.len();
                let ghost all = commands@;
                let mut rest = commands;
                let mut out: Vec<Command<Msg, F>> = Vec::new();
                let mut i: usize = 0;
                while rest.len() > 0
                    invariant
                        i <= all.len(),
                        rest@ == all.subrange(i as int, all.len() as int),
                        out@.len() == i,
                        forall|j: int| 0 <= j < i ==> scoped_from(#[trigger] all[j], out@[j], path@),
                        self.inner matches CommandInner::Batch(v) && v@ == all,
                        all.len() <= usize::MAX,
                    decreases rest.len(),
                {
                    let command = rest.remove(0);
                    proof {
                        assert(command == all[i as int]);
                    }
                    let scoped = command.scoped(path);
                    out.push(scoped);
                    i = i + 1;
                    proof {
                        assert(rest@ =~= all.subrange(i as int, all.len() as int));
                    }
                }
                CommandInner::Batch(out)
            },
            CommandInner::Keyed { key, effect } => CommandInner::Keyed {
                key: key.scoped(path),
                effect,
            },
            CommandInner::Cancel(key) => CommandInner::Cancel(key.scoped(path)),
            other => other,
        };
        Command { inner, label }
    }

    /// The work this command performs, in order: every leaf of the tree.
    pub fn into_steps(self) -> (v: Vec<Command<Msg, F>>)
        ensures
            v@ == steps(self),
        decreases self,
    {
        match self.inner {
            CommandInner::NoOp => Vec::new(),
            CommandInner::Batch(commands) => {
                let total = commands.len();
                let ghost all = commands@;
                let mut rest = commands;
                let mut out: Vec<Command<Msg, F>> = Vec::new();
                let mut i: usize = 0;
                while rest.len() > 0
                    invariant
                        i <= all.len(),
                        rest@ == all.subrange(i as int, all.len() as int),
                        out@ == steps_of(all.take(i as int)),
                        self.inner matches CommandInner::Batch(v) && v@ == all,
                        all.len() <= usize::MAX,
                    decreases rest.len(),
                {
                    let command = rest.remove(0);
                    proof {
                        assert(command == all[i as int]);
                        assert(all.take(i + 1).drop_last() =~= all.take(i as int));
                    }
                    let mut sub = command.into_steps();
                    out.append(&mut sub);
                    i = i + 1;
                    proof {
                        assert(rest@ =~= all.subrange(i as int, all.len() as int));
                    }
                }
                proof {
                    assert(all.take(i as int) =~= all);
                }
                out
            },
            other => {
                let mut v = Vec::new();
                v.push(Command { inner: other, label: self.label });
                v
            },
        }
    }

    /// Split the command into its label and payload.
    pub fn into_parts(self) -> (parts: (Option<String>, CommandInner<Msg, F>))
        ensures
            parts.0 == self.label,
            parts.1 == self.inner,
    {
        (self.label, self.inner)
    }

    /// The name of the payload's variant.
    pub fn variant_name(&self) -> (s: &'static str)
        ensures
            s@ == variant_text(self.inner),
    {
        match &self.inner {
            CommandInner::NoOp => "None",
            CommandInner::Emit(_) => "Emit",
            CommandInner::Batch(_) => "Batch",
            CommandInner::Effect(_) => "Effect",
            CommandInner::Keyed { .. } => "Keyed",
            CommandInner::Cancel(_) => "Cancel",
        }
    }

    /// Where the command's effect runs, for an effect or keyed effect.
    pub fn execution_kind(&self) -> (k: Option<CommandKind>)
        ensures
            k == exec_kind(self.inner),
    {
        match &self.inner {
            CommandInner::Effect(effect) => Some(effect.kind),
            CommandInner::Keyed { effect, .. } => Some(effect.kind),
            _ => None,
        }
    }

    /// The key of a keyed effect or cancellation.
    pub fn key(&self) -> (k: Option<&Key>)
        ensures
            k == match self.inner {
                CommandInner::Keyed { key, .. } => Some(&key),
                CommandInner::Cancel(key) => Some(&key),
                _ => None,
            },
    {
        match &self.inner {
            CommandInner::Keyed { key, .. } => Some(key),
            CommandInner::Cancel(key) => Some(key),
            _ => None,
        }
    }

    /// The text of the command's debug form, e.g.
    /// `Command { variant: "Emit", execution_kind: None, label: None, key: None, .. }`.
    pub fn debug_string(&self) -> (s: String)
        ensures
            s@ == command_debug(*self),
    {
        let mut out = copy_str("Command { variant: ");
        let variant = debug_str(self.variant_name());
        push_str(&mut out, variant.as_str());
        push_str(&mut out, ", execution_kind: ");
        match self.execution_kind() {
            Some(kind) => {
                push_str(&mut out, "Some(");
                push_string(&mut out, kind.debug_string());
                push_str(&mut out, ")");
            },
            None => push_str(&mut out, "None"),
        }
        push_str(&mut out, ", label: ");
        let label = match &self.label {
            Some(l) => Some(l.as_str()),
            None => None,
        };
        push_opt_str_debug(&mut out, label);
        push_str(&mut out, ", key: ");
        match self.key() {
            Some(key) => {
                push_str(&mut out, "Some(");
                push_string(&mut out, key.debug_string());
                push_str(&mut out, ")");
            },
            None => push_str(&mut out, "None"),
        }
        match &self.inner {
            CommandInner::Batch(items) => {
                push_str(&mut out, ", batch_len: ");
                push_decimal(&mut out, items.len());
            },
            _ => {},
        }
        push_str(&mut out, ", .. }");
        proof {
            assert(out@ =~= command_debug(*self));
        }
        out
    }
}

impl<Msg, F> Default for Command<Msg, F> {
    fn default() -> (c: Self)
        ensures
            c.inner is NoOp,
            c.label is None,
    {
        Command::none()
    }
}

/// The steps of a concatenation are the concatenated steps.
pub proof fn lemma_steps_of_concat<Msg, F>(a: Seq<Command<Msg, F>>, b: Seq<Command<Msg, F>>)
    ensures
        steps_of(a + b) == steps_of(a) + steps_of(b),
    decreases b.len(),
{
    if b.len() == 0 {
        assert(a + b =~= a);
        assert(steps_of(a) + Seq::<Command<Msg, F>>::empty() =~= steps_of(a));
    } else {
        assert((a + b).drop_last() =~= a + b.drop_last());
        lemma_steps_of_concat(a, b.drop_last());
        assert(steps_of(a) + steps_of(b) =~= steps_of(a) + steps_of(b.drop_last()) + steps(b.last()));
    }
}

proof fn lemma_steps_of_single<Msg, F>(c: Command<Msg, F>)
    ensures
        steps_of(seq![c]) == steps(c),
{
    let s = seq![c];
    assert(s.drop_last() =~= Seq::<Command<Msg, F>>::empty());
    assert(s.last() == c);
    assert(steps_of(s) == steps_of(s.drop_last()) + steps(s.last()));
    assert(steps_of(Seq::<Command<Msg, F>>::empty()) =~= Seq::<Command<Msg, F>>::empty());
    assert(Seq::<Command<Msg, F>>::empty() + steps(c) =~= steps(c));
}

proof fn lemma_steps_of_expansion<Msg, F>(c: Command<Msg, F>)
    ensures
        steps_of(batch_expansion(c)) == steps(c),
{
    match c.inner {
        CommandInner::Batch(v) => {
            assert(batch_expansion(c) == v@);
            assert(steps(c) == steps_of(v@));
        },
        CommandInner::NoOp => {
            assert(steps_of(batch_expansion(c)) =~= Seq::<Command<Msg, F>>::empty());
        },
        _ => {
            lemma_steps_of_single(c);
        },
    }
}

proof fn lemma_steps_of_batch_items<Msg, F>(cs: Seq<Command<Msg, F>>)
    ensures
        steps_of(batch_items(cs)) == steps_of(cs),
    decreases cs.len(),
{
    if cs.len() > 0 {
        lemma_steps_of_batch_items(cs.drop_last());
        lemma_steps_of_concat(batch_items(cs.drop_last()), batch_expansion(cs.last()));
        lemma_steps_of_expansion(cs.last());
    }
}

/// Batching runs the batched commands as one linear sequence, in order,
/// skipping empty commands: the work of a batch is the work of its inputs,
/// one after the other.
pub proof fn lemma_batch_steps<Msg, F>(c: Command<Msg, F>, cs: Seq<Command<Msg, F>>)
    requires
        is_batch_of(c, cs),
    ensures
        steps(c) == steps_of(cs),
{
    let items = batch_items(cs);
    lemma_steps_of_batch_items(cs);
    if items.len() == 0 {
        assert(steps_of(items) =~= Seq::<Command<Msg, F>>::empty());
        assert(steps(c) =~= Seq::<Command<Msg, F>>::empty());
    } else if items.len() >= 2 {
        if let CommandInner::Batch(v) = c.inner {
            assert(steps(c) == steps_of(v@));
        }
    }
    if items.len() == 1 {
        assert(items =~= seq![items[0]]);
        lemma_steps_of_single(items[0]);
    }
}

proof fn lemma_batch_items_leaves<Msg, F>(cs: Seq<Command<Msg, F>>)
    requires
        forall|i: int| 0 <= i < cs.len() ==> is_flat(#[trigger] cs[i]),
    ensures
        forall|j: int| 0 <= j < batch_items(cs).len() ==> is_leaf(#[trigger] batch_items(cs)[j]),
    decreases cs.len(),
{
    if cs.len() > 0 {
        lemma_batch_items_leaves(cs.drop_last());
        let a = batch_items(cs.drop_last());
        let b = batch_expansion(cs.last());
        assert(is_flat(cs.last()));
        assert forall|j: int| 0 <= j < batch_items(cs).len() implies is_leaf(#[trigger] batch_items(cs)[j]) by {
            if j >= a.len() {
                assert(batch_items(cs)[j] == b[j - a.len()]);
            } else {
                assert(batch_items(cs)[j] == a[j]);
            }
        }
    }
}

/// Batching flattens: batching commands that are each flat (as batching
/// makes them) gives a flat command, in which no batch holds an empty
/// command or another batch.
pub proof fn lemma_batch_is_flat<Msg, F>(c: Command<Msg, F>, cs: Seq<Command<Msg, F>>)
    requires
        is_batch_of(c, cs),
        forall|i: int| 0 <= i < cs.len() ==> is_flat(#[trigger] cs[i]),
    ensures
        is_flat(c),
{
    lemma_batch_items_leaves(cs);
    let items = batch_items(cs);
    if items.len() == 1 {
        assert(is_leaf(items[0]));
    }
}

} // verus!
