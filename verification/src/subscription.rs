//! Declarative subscriptions: long-lived external event sources identified by
//! [`Key`]. The builder payload `B` is opaque here: it is whatever builds the
//! resource that keeps the event source alive.
use crate::error::Error;
use crate::key::{key_debug, spec_scoped, Key, KeyView};
use crate::scope::ChildPath;
use crate::text::{
    copy_str, dec_digits, list_debug, opt_str_debug, push_decimal, push_list_debug,
    push_opt_str_debug, push_str, push_string, sort_texts, text_order, texts_of,
};
use vstd::prelude::*;

verus! {

/// Declare a long-lived external event source for a program.
///
/// The runtime reconciles subscriptions by [`Key`], retaining existing
/// resources whose keys are still declared and building new resources for
/// newly introduced keys.
#[derive(Debug)]
pub struct Subscription<B> {
    pub key: Key,
    pub label: Option<String>,
    pub builder: B,
}

/// A subscription's label, as characters.
pub open spec fn sub_label(label: Option<String>) -> Option<Seq<char>> {
    match label {
        Some(l) => Some(l@),
        None => None,
    }
}

/// The keys of a list of subscriptions, in order.
pub open spec fn sub_keys<B>(subs: Seq<Subscription<B>>) -> Seq<KeyView> {
    subs.map_values(|s: Subscription<B>| s.key@)
}

/// How a subscription reads in debug output: its key and label.
pub open spec fn subscription_debug<B>(s: Subscription<B>) -> Seq<char> {
    "Subscription { key: "@ + key_debug(s.key@) + ", label: "@ + opt_str_debug(sub_label(s.label))
        + ", .. }"@
}

/// The debug forms of the keys of a list of subscriptions, in order.
pub open spec fn key_texts<B>(subs: Seq<Subscription<B>>) -> Seq<Seq<char>> {
    subs.map_values(|s: Subscription<B>| key_debug(s.key@))
}

/// How a set of subscriptions reads in debug output: how many there are and
/// the debug forms of their keys, in the order of strings.
pub open spec fn subscriptions_debug<B>(subs: Seq<Subscription<B>>) -> Seq<char> {
    "Subscriptions { len: "@ + dec_digits(subs.len()) + ", keys: "@ + list_debug(
        key_texts(subs).sort_by(text_order()),
    ) + ", .. }"@
}

/// The position of the first subscription whose key occurs earlier in the
/// list, if any.
pub open spec fn first_duplicate(keys: Seq<KeyView>) -> Option<int>
    decreases keys.len(),
{
    if keys.len() == 0 {
        None
    } else {
        match first_duplicate(keys.drop_last()) {
            Some(j) => Some(j),
            None => if keys.drop_last().contains(keys.last()) {
                Some(keys.len() - 1)
            } else {
                None
            },
        }
    }
}

impl<B> Subscription<B> {
    /// Build a subscription with the given `key` and `builder`.
    pub fn new(key: Key, builder: B) -> (s: Self)
        ensures
            s.key == key,
            s.label is None,
            s.builder == builder,
    {
        Subscription { key, label: None, builder }
    }

    /// Attach a human-readable label for observability output.
    pub fn label(self, label: &str) -> (s: Self)
        ensures
            s.key == self.key,
            s.builder == self.builder,
            sub_label(s.label) == Some(label@),
    {
        Subscription { key: self.key, label: Some(copy_str(label)), builder: self.builder }
    }

    /// Replace the builder by what `g` makes of it (a builder emitting
    /// transformed messages), keeping the key and label.
    pub fn map<C, G>(self, g: &G) -> (s: Subscription<C>) where G: Fn(B) -> C
        requires
            g.requires((self.builder,)),
        ensures
            s.key == self.key,
            s.label == self.label,
            g.ensures((self.builder,), s.builder),
    {
        Subscription { key: self.key, label: self.label, builder: g(self.builder) }
    }

    /// Scope this subscription's key under `path`.
    pub fn scoped(self, path: &ChildPath) -> (s: Self)
        ensures
            s.key@ == spec_scoped(self.key@, path@),
            s.label == self.label,
            s.builder == self.builder,
    {
        if path.is_root() {
            return self;
        }
        Subscription { key: self.key.scoped(path), label: self.label, builder: self.builder }
    }
}

impl<B> Subscription<B> {
    /// The text of the subscription's debug form, e.g.
    /// `Subscription { key: Key("clock"), label: Some("tick"), .. }`.
    pub fn debug_string(&self) -> (s: String)
        ensures
            s@ == subscription_debug(*self),
    {
        let mut out = copy_str("Subscription { key: ");
        push_string(&mut out, self.key.debug_string());
        push_str(&mut out, ", label: ");
        let label = match &self.label {
            Some(l) => Some(l.as_str()),
            None => None,
        };
        push_opt_str_debug(&mut out, label);
        push_str(&mut out, ", .. }");
        proof {
            assert(out@ =~= subscription_debug(*self));
        }
        out
    }
}

/// Collect a set of [`Subscription`] values, in declaration order.
#[derive(Debug)]
pub struct Subscriptions<B> {
    subscriptions: Vec<Subscription<B>>,
}

impl<B> Subscriptions<B> {
    /// The subscriptions, in order.
    pub closed spec fn items(&self) -> Seq<Subscription<B>> {
        self.subscriptions@
    }

    /// The keys of the subscriptions, in order.
    pub open spec fn keys(&self) -> Seq<KeyView> {
        sub_keys(self.items())
    }

    /// Return an empty subscription set.
    pub fn none() -> (s: Self)
        ensures
            s.items() == Seq::<Subscription<B>>::empty(),
    {
        Subscriptions { subscriptions: Vec::new() }
    }

    /// Return a set containing a single subscription.
    pub fn one(subscription: Subscription<B>) -> (s: Self)
        ensures
            s.items() == seq![subscription],
    {
        let mut subscriptions = Vec::new();
        subscriptions.push(subscription);
        Subscriptions { subscriptions }
    }

    /// `true` when some subscription of the set has the key `key`.
    pub fn contains_key(&self, key: &Key) -> (r: bool)
        ensures
            r == self.keys().contains(key@),
    {
        let n = self.subscriptions.len();
        for i in 0..n
            invariant
                n == self.subscriptions@.len(),
                forall|j: int| 0 <= j < i ==> self.keys()[j] != key@,
        {
            if self.subscriptions[i].key.same_as(key) {
                proof {
                    assert(self.keys()[i as int] == key@);
                }
                return true;
            }
        }
        proof {
            if self.keys().contains(key@) {
                let j = choose|j: int| 0 <= j < self.keys().len() && self.keys()[j] == key@;
                assert(self.keys()[j] != key@);
            }
        }
        false
    }

    /// Append `subscription` to the set.
    ///
    /// Returns [`Error::DuplicateSubscriptionKey`], and leaves the set as it
    /// was, when the key already exists in the set.
    pub fn push(&mut self, subscription: Subscription<B>) -> (r: Result<(), Error>)
        ensures
            old(self).keys().contains(subscription.key@) ==> {
                &&& r matches Err(Error::DuplicateSubscriptionKey { key }) && key@ == subscription.key@
                &&& final(self).items() == old(self).items()
            },
            !old(self).keys().contains(subscription.key@) ==> {
                &&& r is Ok
                &&& final(self).items() == old(self).items().push(subscription)
            },
    {
        if self.contains_key(&subscription.key) {
            return Err(Error::DuplicateSubscriptionKey { key: subscription.key.duplicate() });
        }
        self.subscriptions.push(subscription);
        Ok(())
    }

    /// Build a subscription set from `subscriptions`, in order.
    ///
    /// Returns [`Error::DuplicateSubscriptionKey`] with the first key that
    /// occurs a second time, when one does.
    pub fn batch(subscriptions: Vec<Subscription<B>>) -> (r: Result<Self, Error>)
        ensures
            first_duplicate(sub_keys(subscriptions@)) is None ==> (r matches Ok(s) && s.items()
                == subscriptions@),
            first_duplicate(sub_keys(subscriptions@)) matches Some(j) ==> (r matches Err(
                Error::DuplicateSubscriptionKey { key },
            ) && key@ == sub_keys(subscriptions@)[j]),
    {
        let ghost all = subscriptions@;
        let total = subscriptions.len();
        let mut rest = subscriptions;
        let mut result = Self::none();
        let mut i: usize = 0;
        while rest.len() > 0
            invariant
                i <= all.len(),
                all.len() == total,
                rest@ == all.subrange(i as int, all.len() as int),
                result.items() == all.take(i as int),
                first_duplicate(sub_keys(all.take(i as int))) is None,
                all == subscriptions@,
            decreases rest.len(),
        {
            let subscription = rest.remove(0);
            proof {
                assert(subscription == all[i as int]);
                assert(all.take(i + 1) =~= all.take(i as int).push(subscription));
                assert(sub_keys(all.take(i + 1)).drop_last() =~= sub_keys(all.take(i as int)));
                assert(sub_keys(all.take(i + 1)).last() == subscription.key@);
                assert(sub_keys(all.take(i as int)) =~= sub_keys(all).take(i as int));
                assert(sub_keys(all.take(i + 1)) =~= sub_keys(all).take(i + 1));
                lemma_first_duplicate_prefix(sub_keys(all), i as int + 1);
            }
            match result.push(subscription) {
                Ok(()) => {},
                Err(e) => {
                    proof {
                        assert(sub_keys(all.take(i as int)) =~= result.keys());
                        assert(sub_keys(all.take(i as int)) =~= sub_keys(all).take(i as int));
                        assert(sub_keys(all.take(i + 1)) =~= sub_keys(all).take(i + 1));
                        assert(sub_keys(all)[i as int] == all[i as int].key@);
                        assert(sub_keys(all).take(i as int).contains(sub_keys(all)[i as int]));
                        assert(first_duplicate(sub_keys(all).take(i + 1)) == Some(i as int));
                        lemma_first_duplicate_extends(sub_keys(all), i + 1);
                        assert(first_duplicate(sub_keys(all)) == Some(i as int));
                    }
                    return Err(e);
                },
            }
            i = i + 1;
            proof {
                assert(rest@ =~= all.subrange(i as int, all.len() as int));
            }
        }
        proof {
            assert(all.take(i as int) =~= all);
        }
        Ok(result)
    }

    /// Replace every builder by what `g` makes of it, keeping keys, labels
    /// and order.
    pub fn map<C, G>(self, g: &G) -> (s: Subscriptions<C>) where G: Fn(B) -> C
        requires
            forall|b: B| g.requires((b,)),
        ensures
            s.items().len() == self.items().len(),
            forall|i: int|
                0 <= i < self.items().len() ==> {
                    &&& (#[trigger] s.items()[i]).key == self.items()[i].key
                    &&& s.items()[i].label == self.items()[i].label
                    &&& g.ensures((self.items()[i].builder,), s.items()[i].builder)
                },
    {
        let ghost all = self.items();
        let total = self.subscriptions.len();
        let mut rest = self.subscriptions;
        let mut out: Vec<Subscription<C>> = Vec::new();
        let mut i: usize = 0;
        while rest.len() > 0
            invariant
                i <= all.len(),
                all.len() == total,
                rest@ == all.subrange(i as int, all.len() as int),
                out@.len() == i,
                forall|j: int|
                    0 <= j < i ==> {
                        &&& (#[trigger] out@[j]).key == all[j].key
                        &&& out@[j].label == all[j].label
                        &&& g.ensures((all[j].builder,), out@[j].builder)
                    },
                forall|b: B| g.requires((b,)),
            decreases rest.len(),
        {
            let subscription = rest.remove(0);
            proof {
                assert(subscription == all[i as int]);
            }
            out.push(subscription.map(g));
            i = i + 1;
            proof {
                assert(rest@ =~= all.subrange(i as int, all.len() as int));
            }
        }
        Subscriptions { subscriptions: out }
    }

    /// Scope every subscription key under `path`, keeping labels, builders
    /// and order.
    pub fn scoped(self, path: &ChildPath) -> (s: Self)
        ensures
            s.items().len() == self.items().len(),
            forall|i: int|
                0 <= i < self.items().len() ==> {
                    &&& (#[trigger] s.items()[i]).key@ == spec_scoped(self.items()[i].key@, path@)
                    &&& s.items()[i].label == self.items()[i].label
                    &&& s.items()[i].builder == self.items()[i].builder
                },
    {
        let ghost all = self.items();
        let total = self.subscriptions.len();
        let mut rest = self.subscriptions;
        let mut out: Vec<Subscription<B>> = Vec::new();
        let mut i: usize = 0;
        while rest.len() > 0
            invariant
                i <= all.len(),
                all.len() == total,
                rest@ == all.subrange(i as int, all.len() as int),
                out@.len() == i,
                forall|j: int|
                    0 <= j < i ==> {
                        &&& (#[trigger] out@[j]).key@ == spec_scoped(all[j].key@, path@)
                        &&& out@[j].label == all[j].label
                        &&& out@[j].builder == all[j].builder
                    },
            decreases rest.len(),
        {
            let subscription = rest.remove(0);
            proof {
                assert(subscription == all[i as int]);
            }
            out.push(subscription.scoped(path));
            i = i + 1;
            proof {
                assert(rest@ =~= all.subrange(i as int, all.len() as int));
            }
        }
        Subscriptions { subscriptions: out }
    }

    /// Return the number of subscriptions in the set.
    pub fn len(&self) -> (n: usize)
        ensures
            n == self.items().len(),
    {
        self.subscriptions.len()
    }

    /// Return `true` when the set contains no subscriptions.
    pub fn is_empty(&self) -> (r: bool)
        ensures
            r == (self.items().len() == 0),
    {
        self.subscriptions.len() == 0
    }

    /// The subscriptions, in order.
    pub fn into_vec(self) -> (v: Vec<Subscription<B>>)
        ensures
            v@ == self.items(),
    {
        self.subscriptions
    }
}

impl<B> Subscriptions<B> {
    /// The text of the set's debug form: its size and the debug forms of its
    /// keys in the order of strings, e.g.
    /// `Subscriptions { len: 2, keys: ["Key(\"a\")", "Key(\"b\")"], .. }`.
    pub fn debug_string(&self) -> (s: String)
        ensures
            s@ == subscriptions_debug(self.items()),
    {
        let n = self.subscriptions.len();
        let mut names: Vec<String> = Vec::new();
        let mut i: usize = 0;
        while i < n
            invariant
                n == self.items().len(),
                i <= n,
                texts_of(names@) == key_texts(self.items().take(i as int)),
            decreases n - i,
        {
            let ghost before = names@;
            let name = self.subscriptions[i].key.debug_string();
            names.push(name);
            proof {
                assert(texts_of(names@) =~= texts_of(before).push(key_debug(self.items()[i as int].key@)));
                assert(self.items().take(i as int + 1) =~= self.items().take(i as int).push(
                    self.items()[i as int],
                ));
                assert(key_texts(self.items().take(i as int + 1)) =~= key_texts(self.items().take(i as int)).push(
                    key_debug(self.items()[i as int].key@),
                ));
            }
            i = i + 1;
        }
        proof {
            assert(self.items().take(n as int) =~= self.items());
        }
        let sorted = sort_texts(names);
        let mut out = copy_str("Subscriptions { len: ");
        push_decimal(&mut out, n);
        push_str(&mut out, ", keys: ");
        push_list_debug(&mut out, &sorted);
        push_str(&mut out, ", .. }");
        proof {
            assert(out@ =~= subscriptions_debug(self.items()));
        }
        out
    }
}

impl<B> Default for Subscriptions<B> {
    fn default() -> (s: Self)
        ensures
            s.items() == Seq::<Subscription<B>>::empty(),
    {
        Self::none()
    }
}

/// Extending a list keeps its first duplicate, and a list without one that
/// is extended by a key it does not hold still has none.
proof fn lemma_first_duplicate_prefix(keys: Seq<KeyView>, n: int)
    requires
        0 < n <= keys.len(),
    ensures
        first_duplicate(keys.take(n - 1)) is None ==> (first_duplicate(keys.take(n)) is None
            <==> !keys.take(n - 1).contains(keys[n - 1])),
        first_duplicate(keys.take(n - 1)) is None && keys.take(n - 1).contains(keys[n - 1])
            ==> first_duplicate(keys.take(n)) == Some(n - 1),
{
    assert(keys.take(n).drop_last() =~= keys.take(n - 1));
    assert(keys.take(n).last() == keys[n - 1]);
}

/// A duplicate found in a prefix is the first duplicate of the whole list.
proof fn lemma_first_duplicate_extends(keys: Seq<KeyView>, n: int)
    requires
        0 <= n <= keys.len(),
        first_duplicate(keys.take(n)) is Some,
    ensures
        first_duplicate(keys) == first_duplicate(keys.take(n)),
    decreases keys.len() - n,
{
    if n < keys.len() {
        assert(keys.take(n + 1).drop_last() =~= keys.take(n));
        lemma_first_duplicate_extends(keys, n + 1);
    } else {
        assert(keys.take(n) =~= keys);
    }
}

/// A set built by [`Subscriptions::push`] and [`Subscriptions::batch`] never
/// holds a key twice.
pub proof fn lemma_unique_keys_without_duplicate(keys: Seq<KeyView>)
    requires
        first_duplicate(keys) is None,
    ensures
        keys.no_duplicates(),
    decreases keys.len(),
{
    if keys.len() > 0 {
        let init = keys.drop_last();
        lemma_unique_keys_without_duplicate(init);
        assert(!init.contains(keys.last()));
        assert forall|i: int, j: int| 0 <= i < keys.len() && 0 <= j < keys.len() && i != j implies keys[i] != keys[j] by {
            if j == keys.len() - 1 {
                assert(init[i] == keys[i]);
            } else if i == keys.len() - 1 {
                assert(init[j] == keys[j]);
            } else {
                assert(init[i] == keys[i]);
                assert(init[j] == keys[j]);
            }
        }
    }
}

impl<B> From<Subscription<B>> for Subscriptions<B> {
    /// The set [`Subscriptions::one`] builds from `subscription`.
    fn from(subscription: Subscription<B>) -> (s: Self)
        ensures
            s.items() == seq![subscription],
    {
        Self::one(subscription)
    }
}

impl<B> vstd::std_specs::convert::FromSpecImpl<Subscription<B>> for Subscriptions<B> {
    /// Two sets with the same items need not be the same value, so the
    /// result is stated by its items, in the `ensures` of `from`.
    open spec fn obeys_from_spec() -> bool {
        false
    }

    open spec fn from_spec(subscription: Subscription<B>) -> Self {
        choose|s: Subscriptions<B>| s.items() == seq![subscription]
    }
}

} // verus!
