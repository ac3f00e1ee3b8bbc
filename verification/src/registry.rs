//! Reconciliation of declared subscriptions against the active ones: a key
//! that stays declared keeps its resource, a key that is no longer declared
//! loses it, and a newly declared key gets a new one.
use crate::key::{Key, KeyView};
use crate::keyed_map::{assoc_map, unique_keys, KeyedMap};
use crate::subscription::{sub_keys, sub_label, Subscription, Subscriptions};
use crate::text::copy_str;
use vstd::prelude::*;

verus! {

/// An active subscription: the resource that keeps it alive and its latest
/// label.
pub struct ActiveSubscription<H> {
    pub handle: H,
    pub label: Option<String>,
}

/// The state of a reconciliation after going through some declared
/// subscriptions: the active subscriptions not yet claimed, the ones kept so
/// far, the keys kept (in order) and the subscriptions still to build.
pub ghost struct ReconcileFold<H, B> {
    pub current: Map<KeyView, ActiveSubscription<H>>,
    pub next: Map<KeyView, ActiveSubscription<H>>,
    pub retained: Seq<KeyView>,
    pub pending: Seq<Subscription<B>>,
}

/// Reconciliation of the declared subscriptions `decl`, in order, against the
/// active subscriptions `active`: a declared key that is still unclaimed in
/// the active ones keeps its resource (with the declared label); any other
/// declared subscription is to be built.
pub open spec fn reconcile_fold<H, B>(
    active: Map<KeyView, ActiveSubscription<H>>,
    decl: Seq<Subscription<B>>,
) -> ReconcileFold<H, B>
    decreases decl.len(),
{
    if decl.len() == 0 {
        ReconcileFold { current: active, next: Map::empty(), retained: Seq::empty(), pending: Seq::empty() }
    } else {
        let f = reconcile_fold(active, decl.drop_last());
        let s = decl.last();
        let k = s.key@;
        if f.current.contains_key(k) {
            ReconcileFold {
                current: f.current.remove(k),
                next: f.next.insert(k, ActiveSubscription { handle: f.current[k].handle, label: s.label }),
                retained: f.retained.push(k),
                pending: f.pending,
            }
        } else {
            ReconcileFold {
                current: f.current,
                next: f.next,
                retained: f.retained,
                pending: f.pending.push(s),
            }
        }
    }
}

/// What a reconciliation pass decided, for the caller to act on: the kept
/// keys with their labels (in declaration order), the removed subscriptions
/// and the subscriptions to build (in declaration order).
pub struct ReconcilePlan<H, B> {
    pub retained: Vec<(Key, Option<String>)>,
    pub removed: Vec<(Key, ActiveSubscription<H>)>,
    pub pending: Vec<Subscription<B>>,
}

impl<H, B> ReconcilePlan<H, B> {
    /// Number of subscriptions to build.
    pub fn added(&self) -> (n: usize)
        ensures
            n == self.pending@.len(),
    {
        self.pending.len()
    }

    /// Number of removed subscriptions.
    pub fn removed_count(&self) -> (n: usize)
        ensures
            n == self.removed@.len(),
    {
        self.removed.len()
    }

    /// Number of kept subscriptions.
    pub fn retained_count(&self) -> (n: usize)
        ensures
            n == self.retained@.len(),
    {
        self.retained.len()
    }
}

/// The active subscriptions of a program, keyed by [`Key`].
pub struct SubscriptionRegistry<H> {
    active: KeyedMap<ActiveSubscription<H>>,
}

fn copy_label(label: &Option<String>) -> (l: Option<String>)
    ensures
        sub_label(l) == sub_label(*label),
{
    match label {
        Some(s) => Some(copy_str(s.as_str())),
        None => None,
    }
}

impl<H> SubscriptionRegistry<H> {
    /// The active subscriptions by key.
    pub closed spec fn spec_active(&self) -> Map<KeyView, ActiveSubscription<H>> {
        self.active.spec_map()
    }

    /// The registry's internal consistency.
    pub closed spec fn wf(&self) -> bool {
        self.active.wf()
    }

    /// An empty registry.
    pub fn new() -> (r: Self)
        ensures
            r.wf(),
            r.spec_active() == Map::<KeyView, ActiveSubscription<H>>::empty(),
    {
        SubscriptionRegistry { active: KeyedMap::new() }
    }

    /// Number of active subscriptions.
    pub fn len(&self) -> (n: usize)
        requires
            self.wf(),
        ensures
            n == self.spec_active().dom().len(),
            self.spec_active().dom().finite(),
    {
        self.active.len()
    }

    /// Reconcile the declared subscriptions against the active ones (see
    /// [`reconcile_fold`]): kept subscriptions stay active with their
    /// declared labels, the others are handed back as removed, and the
    /// subscriptions to build are handed back as pending.
    pub fn reconcile<B>(&mut self, declared: Subscriptions<B>) -> (plan: ReconcilePlan<H, B>)
        requires
            old(self).wf(),
        ensures
            final(self).wf(),
            ({
                let f = reconcile_fold(old(self).spec_active(), declared.items());
                &&& final(self).spec_active() == f.next
                &&& plan.retained@.map_values(|e: (Key, Option<String>)| e.0@) == f.retained
                &&& forall|i: int|
                    0 <= i < plan.retained@.len() ==> sub_label(plan.retained@[i].1) == sub_label(f.next[#[trigger] plan.retained@[i].0@].label)
                &&& unique_keys(plan.removed@.map_values(|e: (Key, ActiveSubscription<H>)| (e.0@, e.1)))
                &&& assoc_map(plan.removed@.map_values(|e: (Key, ActiveSubscription<H>)| (e.0@, e.1))) == f.current
                &&& plan.pending@ == f.pending
            }),
    {
        let ghost old_active = self.active.spec_map();
        let mut current: KeyedMap<ActiveSubscription<H>> = KeyedMap::new();
        std::mem::swap(&mut current, &mut self.active);
        let ghost all = declared.items();
        let mut rest = declared.into_vec();
        let total = rest.len();
        let mut next: KeyedMap<ActiveSubscription<H>> = KeyedMap::new();
        let mut retained: Vec<(Key, Option<String>)> = Vec::new();
        let mut pending: Vec<Subscription<B>> = Vec::new();
        let mut i: usize = 0;
        while rest.len() > 0
            invariant
                i <= all.len(),
                all.len() == total,
                rest@ == all.subrange(i as int, all.len() as int),
                current.wf(),
                next.wf(),
                ({
                    let f = reconcile_fold(old_active, all.take(i as int));
                    &&& current.spec_map() == f.current
                    &&& next.spec_map() == f.next
                    &&& retained@.map_values(|e: (Key, Option<String>)| e.0@) == f.retained
                    &&& forall|j: int|
                        0 <= j < retained@.len() ==> sub_label(retained@[j].1) == sub_label(f.next[#[trigger] retained@[j].0@].label)
                    &&& pending@ == f.pending
                }),
            decreases rest.len(),
        {
            let subscription = rest.remove(0);
            let ghost f = reconcile_fold(old_active, all.take(i as int));
            proof {
                assert(subscription == all[i as int]);
                assert(all.take(i + 1).drop_last() =~= all.take(i as int));
                assert(all.take(i + 1).last() == subscription);
            }
            let ghost kv = subscription.key@;
            let Subscription { key, label, builder } = subscription;
            match current.remove(&key) {
                Some(active) => {
                    let kept = (key.duplicate(), copy_label(&label));
                    let ghost before = retained@;
                    retained.push(kept);
                    next.insert(key, ActiveSubscription { handle: active.handle, label });
                    proof {
                        let nf = reconcile_fold(old_active, all.take(i + 1));
                        assert(retained@.map_values(|e: (Key, Option<String>)| e.0@) =~= f.retained.push(kv));
                        assert forall|j: int|
                            0 <= j < retained@.len() implies sub_label(retained@[j].1) == sub_label(nf.next[#[trigger] retained@[j].0@].label) by {
                            if j < before.len() {
                                assert(retained@[j] == before[j]);
                                if retained@[j].0@ == kv {
                                    assert(f.retained[j] == kv);
                                    assert(f.next.contains_key(kv)) by {
                                        lemma_fold_retained_in_next(old_active, all.take(i as int), j);
                                    }
                                    lemma_fold_next_current_disjoint(old_active, all.take(i as int), kv);
                                }
                            }
                        }
                    }
                },
                None => {
                    pending.push(Subscription { key, label, builder });
                    proof {
                        let nf = reconcile_fold(old_active, all.take(i + 1));
                        assert(pending@ =~= f.pending.push(all[i as int]));
                        assert(retained@.map_values(|e: (Key, Option<String>)| e.0@) =~= nf.retained);
                    }
                },
            }
            i = i + 1;
            proof {
                assert(rest@ =~= all.subrange(i as int, all.len() as int));
            }
        }
        proof {
            assert(all.take(i as int) =~= all);
        }
        let removed = current.drain_entries();
        self.active = next;
        ReconcilePlan { retained, removed, pending }
    }

    /// Make the subscription under `key`, labelled `label`, active with the
    /// resource `handle` (after it was built for a pending subscription).
    pub fn activate(&mut self, key: Key, label: Option<String>, handle: H)
        requires
            old(self).wf(),
        ensures
            final(self).wf(),
            final(self).spec_active() == old(self).spec_active().insert(
                key@,
                ActiveSubscription { handle, label },
            ),
    {
        self.active.insert(key, ActiveSubscription { handle, label });
    }
}

/// A kept key is active in the new map.
proof fn lemma_fold_retained_in_next<H, B>(
    active: Map<KeyView, ActiveSubscription<H>>,
    decl: Seq<Subscription<B>>,
    j: int,
)
    requires
        0 <= j < reconcile_fold(active, decl).retained.len(),
    ensures
        reconcile_fold(active, decl).next.contains_key(reconcile_fold(active, decl).retained[j]),
    decreases decl.len(),
{
    if decl.len() > 0 {
        let f = reconcile_fold(active, decl.drop_last());
        if j < f.retained.len() {
            lemma_fold_retained_in_next(active, decl.drop_last(), j);
        }
    }
}

/// No key is both kept and still unclaimed.
proof fn lemma_fold_next_current_disjoint<H, B>(
    active: Map<KeyView, ActiveSubscription<H>>,
    decl: Seq<Subscription<B>>,
    k: KeyView,
)
    ensures
        !(reconcile_fold(active, decl).next.contains_key(k) && reconcile_fold(
            active,
            decl,
        ).current.contains_key(k)),
    decreases decl.len(),
{
    if decl.len() > 0 {
        lemma_fold_next_current_disjoint(active, decl.drop_last(), k);
    }
}

/// The shape of a reconciliation of subscriptions with unique keys, after
/// any prefix of the declared list.
proof fn lemma_fold_shape<H, B>(active: Map<KeyView, ActiveSubscription<H>>, decl: Seq<Subscription<B>>)
    requires
        sub_keys(decl).no_duplicates(),
        active.dom().finite(),
    ensures
        ({
            let f = reconcile_fold(active, decl);
            let declared = sub_keys(decl).to_set();
            &&& f.current.dom() == active.dom().difference(declared)
            &&& forall|k: KeyView| #[trigger] f.current.contains_key(k) ==> f.current[k] == active[k]
            &&& f.next.dom() == active.dom().intersect(declared)
            &&& forall|k: KeyView| #[trigger] f.next.contains_key(k) ==> f.next[k].handle == active[k].handle
            &&& sub_keys(f.pending).to_set() == declared.difference(active.dom())
            &&& f.retained.len() + f.pending.len() == decl.len()
            &&& f.current.dom().finite()
            &&& f.retained.len() + f.current.dom().len() == active.dom().len()
        }),
    decreases decl.len(),
{
    if decl.len() == 0 {
        let f = reconcile_fold(active, decl);
        assert(sub_keys(decl).to_set() =~= Set::<KeyView>::empty());
        assert(f.current.dom() =~= active.dom().difference(Set::<KeyView>::empty()));
        assert(f.next.dom() =~= active.dom().intersect(Set::<KeyView>::empty()));
        assert(sub_keys(f.pending).to_set() =~= Set::<KeyView>::empty().difference(active.dom()));
    } else {
        let init = decl.drop_last();
        let s = decl.last();
        let k = s.key@;
        assert(sub_keys(init) =~= sub_keys(decl).drop_last());
        assert(sub_keys(init).no_duplicates());
        lemma_fold_shape(active, init);
        let f = reconcile_fold(active, init);
        let g = reconcile_fold(active, decl);
        let before = sub_keys(init).to_set();
        let declared = sub_keys(decl).to_set();
        assert(sub_keys(decl) =~= sub_keys(init).push(k));
        sub_keys(init).lemma_push_to_set_commute(k);
        assert(declared =~= before.insert(k));
        assert(!before.contains(k)) by {
            if before.contains(k) {
                let j = choose|j: int| 0 <= j < sub_keys(init).len() && sub_keys(init)[j] == k;
                assert(sub_keys(decl)[j] == sub_keys(decl)[decl.len() - 1]);
            }
        }
        if f.current.contains_key(k) {
            assert(g.current.dom() =~= active.dom().difference(declared));
            assert(g.next.dom() =~= active.dom().intersect(declared));
            assert(sub_keys(g.pending).to_set() =~= declared.difference(active.dom()));
        } else {
            assert(!active.dom().contains(k));
            assert(g.current.dom() =~= active.dom().difference(declared));
            assert(g.next.dom() =~= active.dom().intersect(declared));
            assert(sub_keys(g.pending) =~= sub_keys(f.pending).push(k));
            sub_keys(f.pending).lemma_push_to_set_commute(k);
            assert(sub_keys(g.pending).to_set() =~= declared.difference(active.dom()));
        }
    }
}

/// Reconciling subscriptions whose keys are unique (as every
/// [`Subscriptions`] set built with `push` or `batch`): a key that stays
/// declared keeps its existing resource; a key that is no longer declared is
/// removed with its resource untouched; exactly the newly declared keys are
/// to be built; and the counts add up: kept plus built is the number
/// declared, kept plus removed the number that was active.
pub proof fn lemma_reconcile_by_key<H, B>(
    active: Map<KeyView, ActiveSubscription<H>>,
    decl: Seq<Subscription<B>>,
)
    requires
        sub_keys(decl).no_duplicates(),
        active.dom().finite(),
    ensures
        ({
            let f = reconcile_fold(active, decl);
            let declared = sub_keys(decl).to_set();
            &&& f.next.dom() == active.dom().intersect(declared)
            &&& forall|k: KeyView| #[trigger] f.next.contains_key(k) ==> f.next[k].handle == active[k].handle
            &&& f.current.dom() == active.dom().difference(declared)
            &&& forall|k: KeyView| #[trigger] f.current.contains_key(k) ==> f.current[k] == active[k]
            &&& sub_keys(f.pending).to_set() == declared.difference(active.dom())
            &&& f.retained.len() + f.pending.len() == decl.len()
            &&& f.retained.len() + f.current.dom().len() == active.dom().len()
        }),
{
    lemma_fold_shape(active, decl);
}

/// After the pending subscriptions are built and activated, the active keys
/// are exactly the declared keys.
pub proof fn lemma_reconcile_active_keys<H, B>(
    active: Map<KeyView, ActiveSubscription<H>>,
    decl: Seq<Subscription<B>>,
)
    requires
        sub_keys(decl).no_duplicates(),
        active.dom().finite(),
    ensures
        ({
            let f = reconcile_fold(active, decl);
            f.next.dom() + sub_keys(f.pending).to_set() == sub_keys(decl).to_set()
        }),
{
    lemma_fold_shape(active, decl);
    let f = reconcile_fold(active, decl);
    assert(f.next.dom() + sub_keys(f.pending).to_set() =~= sub_keys(decl).to_set());
}

} // verus!
