//! Tracking of keyed effects: the latest effect scheduled under a key is the
//! current one, and only its completion is applied.
use crate::command::CommandKind;
use crate::key::{Key, KeyView};
use crate::keyed_map::KeyedMap;
use crate::text::copy_str;
use vstd::prelude::*;

verus! {

/// The number that comes after `n` (wrapping).
pub open spec fn wrapping_next(n: u64) -> u64 {
    if n == u64::MAX {
        0
    } else {
        (n + 1) as u64
    }
}

/// The number that comes before `n` (wrapping).
pub open spec fn wrapping_prev(n: u64) -> u64 {
    if n == 0 {
        u64::MAX
    } else {
        (n - 1) as u64
    }
}

/// Generation counter for keyed tasks.
#[derive(Clone, Copy, Debug, PartialEq, Eq, Structural)]
pub struct TaskGeneration(pub u64);

impl TaskGeneration {
    /// Advance `counter` and return the generation it now names.
    pub fn next(counter: &mut u64) -> (g: Self)
        ensures
            *final(counter) == wrapping_next(*old(counter)),
            g.0 == *final(counter),
    {
        *counter = if *counter == u64::MAX {
            0
        } else {
            *counter + 1
        };
        TaskGeneration(*counter)
    }

    /// The generation before this one.
    pub fn previous(self) -> (g: Self)
        ensures
            g.0 == wrapping_prev(self.0),
    {
        TaskGeneration(
            if self.0 == 0 {
                u64::MAX
            } else {
                self.0 - 1
            },
        )
    }
}

/// What a tracked command is: its execution kind and label.
pub struct CommandMeta {
    pub kind: CommandKind,
    pub label: Option<String>,
}

impl CommandMeta {
    /// The label, as characters.
    pub open spec fn label_view(&self) -> Option<Seq<char>> {
        match self.label {
            Some(l) => Some(l@),
            None => None,
        }
    }

    /// Describe a command of `kind` labelled `label`.
    pub fn new(kind: CommandKind, label: Option<String>) -> (m: Self)
        ensures
            m.kind == kind,
            m.label_view() == match label {
                Some(l) => Some(l@),
                None => None,
            },
    {
        CommandMeta { kind, label }
    }

    /// The label, if any.
    pub fn label(&self) -> (l: Option<&str>)
        ensures
            l is Some == self.label_view() is Some,
            l is Some ==> l->0@ == self.label_view()->0,
    {
        match &self.label {
            Some(l) => Some(l.as_str()),
            None => None,
        }
    }

    /// A copy of this description.
    pub fn duplicate(&self) -> (m: Self)
        ensures
            m.kind == self.kind,
            m.label_view() == self.label_view(),
    {
        CommandMeta {
            kind: self.kind,
            label: match &self.label {
                Some(l) => Some(copy_str(l.as_str())),
                None => None,
            },
        }
    }
}

/// Which keyed effect a completion belongs to.
pub struct KeyedEffectContext {
    pub key: Key,
    pub generation: TaskGeneration,
}

/// A keyed effect that is running: its generation, its description and the
/// handle that keeps it alive.
pub struct RunningTask<T> {
    pub generation: TaskGeneration,
    pub meta: CommandMeta,
    pub task: T,
}

/// `true` when the effect tracked under `key` in `active` has generation `g`.
pub open spec fn is_current_in<T>(active: Map<KeyView, RunningTask<T>>, key: KeyView, g: u64) -> bool {
    active.contains_key(key) && active[key].generation.0 == g
}

/// The tracked effects after the completion of generation `g` of `key`: the
/// entry goes away when it is the current one, and nothing changes otherwise.
pub open spec fn after_completion<T>(active: Map<KeyView, RunningTask<T>>, key: KeyView, g: u64) -> Map<
    KeyView,
    RunningTask<T>,
> {
    if is_current_in(active, key, g) {
        active.remove(key)
    } else {
        active
    }
}

/// Every tracked generation has been handed out by the counter.
pub open spec fn generations_issued<T>(active: Map<KeyView, RunningTask<T>>, next_generation: u64) -> bool {
    forall|k: KeyView| #[trigger] active.contains_key(k) ==> active[k].generation.0 <= next_generation
}

/// The registry of keyed effects that are running, keyed by [`Key`].
pub struct KeyedTasks<T> {
    next_generation: u64,
    active: KeyedMap<RunningTask<T>>,
}

impl<T> KeyedTasks<T> {
    /// The running effects by key.
    pub closed spec fn spec_active(&self) -> Map<KeyView, RunningTask<T>> {
        self.active.spec_map()
    }

    /// The last generation handed out.
    pub closed spec fn spec_next_generation(&self) -> u64 {
        self.next_generation
    }

    /// The registry's internal consistency.
    pub closed spec fn wf(&self) -> bool {
        self.active.wf()
    }

    /// An empty registry.
    pub fn new() -> (t: Self)
        ensures
            t.wf(),
            t.spec_active() == Map::<KeyView, RunningTask<T>>::empty(),
            t.spec_next_generation() == 0,
    {
        KeyedTasks { next_generation: 0, active: KeyedMap::new() }
    }

    /// Hand out the next generation.
    pub fn next_generation(&mut self) -> (g: TaskGeneration)
        requires
            old(self).wf(),
        ensures
            final(self).wf(),
            g.0 == wrapping_next(old(self).spec_next_generation()),
            final(self).spec_next_generation() == g.0,
            final(self).spec_active() == old(self).spec_active(),
    {
        TaskGeneration::next(&mut self.next_generation)
    }

    /// Track `task` as the current effect for `key`, returning the effect it
    /// replaces, if any.
    pub fn insert(&mut self, key: Key, generation: TaskGeneration, meta: CommandMeta, task: T) -> (previous: Option<
        RunningTask<T>,
    >)
        requires
            old(self).wf(),
        ensures
            final(self).wf(),
            final(self).spec_active() == old(self).spec_active().insert(
                key@,
                RunningTask { generation, meta, task },
            ),
            final(self).spec_next_generation() == old(self).spec_next_generation(),
            previous is Some <==> old(self).spec_active().contains_key(key@),
            previous is Some ==> previous->0 == old(self).spec_active()[key@],
    {
        self.active.insert(key, RunningTask { generation, meta, task })
    }

    /// `true` when the effect tracked under `key` has generation `generation`.
    pub fn is_current(&self, key: &Key, generation: TaskGeneration) -> (r: bool)
        requires
            self.wf(),
        ensures
            r == is_current_in(self.spec_active(), key@, generation.0),
    {
        match self.active.get(key) {
            Some(active) => active.generation.0 == generation.0,
            None => false,
        }
    }

    /// Stop tracking `key` if its current effect has generation `generation`.
    pub fn clear_current(&mut self, key: &Key, generation: TaskGeneration)
        requires
            old(self).wf(),
        ensures
            final(self).wf(),
            final(self).spec_active() == after_completion(old(self).spec_active(), key@, generation.0),
            final(self).spec_next_generation() == old(self).spec_next_generation(),
    {
        if self.is_current(key, generation) {
            self.active.remove(key);
        }
    }

    /// Record the completion of generation `generation` of `key`: returns
    /// whether it was the current effect, which then stops being tracked.
    pub fn complete(&mut self, key: &Key, generation: TaskGeneration) -> (current: bool)
        requires
            old(self).wf(),
        ensures
            final(self).wf(),
            current == is_current_in(old(self).spec_active(), key@, generation.0),
            final(self).spec_active() == after_completion(old(self).spec_active(), key@, generation.0),
            final(self).spec_next_generation() == old(self).spec_next_generation(),
    {
        let current = self.is_current(key, generation);
        if current {
            self.active.remove(key);
        }
        current
    }

    /// Stop tracking `key`, returning the effect that was tracked, if any.
    pub fn cancel(&mut self, key: &Key) -> (removed: Option<RunningTask<T>>)
        requires
            old(self).wf(),
        ensures
            final(self).wf(),
            final(self).spec_active() == old(self).spec_active().remove(key@),
            final(self).spec_next_generation() == old(self).spec_next_generation(),
            removed is Some <==> old(self).spec_active().contains_key(key@),
            removed is Some ==> removed->0 == old(self).spec_active()[key@],
    {
        self.active.remove(key)
    }

    /// Number of tracked effects.
    pub fn len(&self) -> (n: usize)
        requires
            self.wf(),
        ensures
            n == self.spec_active().dom().len(),
            self.spec_active().dom().finite(),
    {
        self.active.len()
    }
}

/// Latest wins: once an effect with generation `g_new` is tracked for a key,
/// a completion of any other generation `g_old` of that key is stale: it is
/// not current and changes nothing, while the completion of `g_new` is
/// current and stops tracking the key.
pub proof fn lemma_latest_wins<T>(
    active: Map<KeyView, RunningTask<T>>,
    key: KeyView,
    g_new: TaskGeneration,
    g_old: u64,
    meta: CommandMeta,
    task: T,
)
    requires
        g_old != g_new.0,
    ensures
        ({
            let next = active.insert(key, RunningTask { generation: g_new, meta, task });
            &&& !is_current_in(next, key, g_old)
            &&& after_completion(next, key, g_old) == next
            &&& is_current_in(next, key, g_new.0)
            &&& after_completion(next, key, g_new.0) == active.remove(key)
        }),
{
    let next = active.insert(key, RunningTask { generation: g_new, meta, task });
    assert(next.remove(key) =~= active.remove(key));
}

/// A freshly handed-out generation is not current for any key, as long as
/// the counter has not reached its maximum; tracking it keeps every tracked
/// generation issued.
pub proof fn lemma_fresh_generation<T>(
    active: Map<KeyView, RunningTask<T>>,
    next_generation: u64,
    key: KeyView,
    other: KeyView,
    meta: CommandMeta,
    task: T,
)
    requires
        generations_issued(active, next_generation),
        next_generation < u64::MAX,
    ensures
        !is_current_in(active, other, wrapping_next(next_generation)),
        generations_issued(
            active.insert(
                key,
                RunningTask { generation: TaskGeneration(wrapping_next(next_generation)), meta, task },
            ),
            wrapping_next(next_generation),
        ),
{
}

/// Cancelling a key makes every later completion for it stale.
pub proof fn lemma_cancel_makes_stale<T>(active: Map<KeyView, RunningTask<T>>, key: KeyView, g: u64)
    ensures
        !is_current_in(active.remove(key), key, g),
        after_completion(active.remove(key), key, g) == active.remove(key),
{
}

} // verus!
