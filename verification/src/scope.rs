//! Paths of nested models and the contexts that carry them.
//!
//! A [`ChildPath`] names a model's position inside a program's model tree.
//! Keyed commands and subscriptions created by a child are rebased under its
//! path, so siblings can reuse local keys without colliding.
use crate::text::{
    copy_str, dec_digits, is_digit, lemma_dec_digits_shape, push_char, push_decimal, push_str,
    push_string, str_len, utf8_len,
};
use crate::command::{label_view, mapped_from, scoped_from, Command, CommandInner};
use crate::key::{segments_fit, spec_scoped};
use crate::subscription::Subscriptions;
use std::marker::PhantomData;
use vstd::prelude::*;
use vstd::std_specs::cmp::PartialEqSpecImpl;

verus! {

/// The encoding of one path segment inside a runtime prefix:
/// the segment's byte length in decimal, `:`, the segment, `/`.
pub open spec fn segment_record(s: Seq<char>) -> Seq<char> {
    dec_digits(str_len(s)) + seq![':'] + s + seq!['/']
}

/// The concatenated records of `segs`, in order.
pub open spec fn encode_segments(segs: Seq<Seq<char>>) -> Seq<char>
    decreases segs.len(),
{
    if segs.len() == 0 {
        Seq::empty()
    } else {
        segment_record(segs[0]) + encode_segments(segs.drop_first())
    }
}

/// The runtime prefix of a path: `root` for the root path, the segment
/// records otherwise.
pub open spec fn runtime_prefix_of(segs: Seq<Seq<char>>) -> Seq<char> {
    if segs.len() == 0 {
        seq!['r', 'o', 'o', 't']
    } else {
        encode_segments(segs)
    }
}

/// Segments separated by `/`.
pub open spec fn joined_segments(segs: Seq<Seq<char>>) -> Seq<char>
    decreases segs.len(),
{
    if segs.len() == 0 {
        Seq::empty()
    } else if segs.len() == 1 {
        segs[0]
    } else {
        joined_segments(segs.drop_last()) + seq!['/'] + segs.last()
    }
}

/// How a path reads to a person: `<root>`, or the segments joined by `/`.
pub open spec fn path_display(segs: Seq<Seq<char>>) -> Seq<char> {
    if segs.len() == 0 {
        seq!['<', 'r', 'o', 'o', 't', '>']
    } else {
        joined_segments(segs)
    }
}

/// Appending a segment appends its record.
pub proof fn lemma_encode_segments_push(segs: Seq<Seq<char>>, s: Seq<char>)
    ensures
        encode_segments(segs.push(s)) =~= encode_segments(segs) + segment_record(s),
    decreases segs.len(),
{
    if segs.len() == 0 {
        assert(segs.push(s).drop_first() =~= Seq::<Seq<char>>::empty());
        assert(encode_segments(Seq::<Seq<char>>::empty()) =~= Seq::<char>::empty());
    } else {
        assert(segs.push(s).drop_first() =~= segs.drop_first().push(s));
        lemma_encode_segments_push(segs.drop_first(), s);
    }
}

/// Identify a model's position inside a nested program tree.
///
/// Child paths scope keyed commands and subscriptions so sibling models can
/// reuse local keys safely.
#[derive(Clone, Debug)]
pub struct ChildPath {
    segments: Vec<String>,
}

impl View for ChildPath {
    type V = Seq<Seq<char>>;

    closed spec fn view(&self) -> Seq<Seq<char>> {
        self.segments.deep_view()
    }
}

impl ChildPath {
    /// Return the root path.
    pub fn root() -> (p: Self)
        ensures
            p@ == Seq::<Seq<char>>::empty(),
    {
        let p = ChildPath { segments: Vec::new() };
        proof {
            assert(p@ =~= Seq::<Seq<char>>::empty());
        }
        p
    }

    /// Return a path with a single child segment.
    pub fn new(segment: &str) -> (p: Self)
        ensures
            p@ == seq![segment@],
    {
        let root = Self::root();
        let p = root.child(segment);
        proof {
            assert(p@ =~= seq![segment@]);
        }
        p
    }

    /// Return `true` when this path points at the root model.
    pub fn is_root(&self) -> (r: bool)
        ensures
            r == (self@.len() == 0),
    {
        self.segments.len() == 0
    }

    /// Number of segments.
    pub fn depth(&self) -> (n: usize)
        ensures
            n == self@.len(),
    {
        self.segments.len()
    }

    /// Append `segment` to this path and return the resulting child path.
    pub fn child(&self, segment: &str) -> (p: Self)
        ensures
            p@ == self@.push(segment@),
    {
        let mut segments = self.copy_segments();
        segments.push(copy_str(segment));
        let p = ChildPath { segments };
        proof {
            assert(p@ =~= self@.push(segment@));
        }
        p
    }

    /// A fresh copy of the segments.
    fn copy_segments(&self) -> (v: Vec<String>)
        ensures
            v.deep_view() == self@,
    {
        let mut v: Vec<String> = Vec::new();
        let n = self.segments.len();
        for i in 0..n
            invariant
                n == self.segments.len(),
                v.deep_view() =~= self@.take(i as int),
        {
            let seg = copy_str(self.segments[i].as_str());
            let ghost before = v.deep_view();
            v.push(seg);
            proof {
                assert(self@[i as int] == self.segments@[i as int]@);
                assert(v.deep_view() =~= before.push(seg@));
                assert(self@.take(i + 1) =~= self@.take(i as int).push(self@[i as int]));
            }
        }
        proof {
            assert(self@.take(n as int) =~= self@);
        }
        v
    }

    /// Concatenate this path with `suffix`.
    pub fn join(&self, suffix: &Self) -> (p: Self)
        ensures
            p@ == self@ + suffix@,
    {
        if self.is_root() {
            proof {
                assert(self@ + suffix@ =~= suffix@);
            }
            return suffix.duplicate();
        }
        if suffix.is_root() {
            proof {
                assert(self@ + suffix@ =~= self@);
            }
            return self.duplicate();
        }
        let mut segments = self.copy_segments();
        let n = suffix.segments.len();
        for i in 0..n
            invariant
                n == suffix.segments.len(),
                segments.deep_view() =~= self@ + suffix@.take(i as int),
        {
            let seg = copy_str(suffix.segments[i].as_str());
            let ghost before = segments.deep_view();
            segments.push(seg);
            proof {
                assert(suffix@[i as int] == suffix.segments@[i as int]@);
                assert(segments.deep_view() =~= before.push(seg@));
                assert(suffix@.take(i + 1) =~= suffix@.take(i as int).push(suffix@[i as int]));
            }
        }
        let p = ChildPath { segments };
        proof {
            assert(suffix@.take(n as int) =~= suffix@);
        }
        p
    }

    /// A copy of this path.
    pub fn duplicate(&self) -> (p: Self)
        ensures
            p@ == self@,
    {
        ChildPath { segments: self.copy_segments() }
    }

    /// Return the path segments in order from root to leaf.
    pub fn segments(&self) -> (s: &[String])
        ensures
            s.deep_view() == self@,
    {
        let s = self.segments.as_slice();
        proof {
            assert(s.deep_view() =~= self@);
        }
        s
    }

    /// Return the segment at `i`.
    pub fn segment(&self, i: usize) -> (s: &str)
        requires
            i < self@.len(),
        ensures
            s@ == self@[i as int],
    {
        self.segments[i].as_str()
    }

    /// Compare two paths segment by segment.
    pub fn same_as(&self, other: &Self) -> (r: bool)
        ensures
            r == (self@ == other@),
    {
        let n = self.segments.len();
        assert(self@.len() == self.segments@.len());
        assert(other@.len() == other.segments@.len());
        if n != other.segments.len() {
            return false;
        }
        for i in 0..n
            invariant
                n == self.segments.len(),
                n == other.segments.len(),
                self@.len() == other@.len(),
                forall|j: int| 0 <= j < i ==> self@[j] == other@[j],
        {
            assert(self@[i as int] == self.segments@[i as int]@);
            assert(other@[i as int] == other.segments@[i as int]@);
            if self.segments[i] != other.segments[i] {
                return false;
            }
        }
        proof {
            assert(self@ =~= other@);
        }
        true
    }

    /// The prefix that keys scoped under this path carry in their runtime
    /// identifier: `root` for the root path; otherwise, for each segment in
    /// order, its byte length in decimal, `:`, the segment and `/`.
    pub fn runtime_prefix(&self) -> (s: String)
        ensures
            s@ == runtime_prefix_of(self@),
            segments_fit(self@),
    {
        if self.is_root() {
            let s = copy_str("root");
            proof {
                reveal_strlit("root");
                assert(s@ =~= seq!['r', 'o', 'o', 't']);
            }
            return s;
        }
        let mut encoded = String::new();
        let n = self.segments.len();
        for i in 0..n
            invariant
                n == self.segments.len(),
                n == self@.len(),
                encoded@ =~= encode_segments(self@.take(i as int)),
                segments_fit(self@.take(i as int)),
        {
            let segment = self.segments[i].as_str();
            let width = utf8_len(segment);
            proof {
                assert(self@[i as int] == segment@);
                assert(self@.take(i + 1) =~= self@.take(i as int).push(self@[i as int]));
            }
            push_decimal(&mut encoded, width);
            push_char(&mut encoded, ':');
            push_str(&mut encoded, segment);
            push_char(&mut encoded, '/');
            proof {
                assert(self@.take(i + 1) =~= self@.take(i as int).push(self@[i as int]));
                lemma_encode_segments_push(self@.take(i as int), self@[i as int]);
            }
        }
        proof {
            assert(self@.take(n as int) =~= self@);
        }
        encoded
    }

    /// How the path reads to a person: `<root>` for the root path, the
    /// segments joined by `/` otherwise.
    pub fn display_string(&self) -> (s: String)
        ensures
            s@ == path_display(self@),
    {
        if self.is_root() {
            let s = copy_str("<root>");
            proof {
                reveal_strlit("<root>");
                assert(s@ =~= seq!['<', 'r', 'o', 'o', 't', '>']);
            }
            return s;
        }
        let mut out = copy_str(self.segments[0].as_str());
        let n = self.segments.len();
        proof {
            assert(self@.take(1).drop_last() =~= Seq::<Seq<char>>::empty());
            assert(joined_segments(self@.take(1)) == self@[0]);
        }
        for i in 1..n
            invariant
                n == self.segments.len(),
                n == self@.len(),
                n >= 1,
                out@ =~= joined_segments(self@.take(i as int)),
        {
            push_char(&mut out, '/');
            push_str(&mut out, self.segments[i].as_str());
            proof {
                assert(self@.take(i + 1).drop_last() =~= self@.take(i as int));
            }
        }
        proof {
            assert(self@.take(n as int) =~= self@);
        }
        out
    }
}

/// Carry structural context for a model invocation: the model's path.
///
/// The context is threaded through model callbacks so child-aware helpers can
/// derive scoped commands and subscriptions.
#[derive(Debug)]
pub struct ModelContext<Msg> {
    path: ChildPath,
    _message: PhantomData<Msg>,
}

impl<Msg> ModelContext<Msg> {
    /// The path this context carries.
    pub closed spec fn spec_path(&self) -> Seq<Seq<char>> {
        self.path@
    }

    /// Return the root context used by a top-level program.
    pub fn root() -> (c: Self)
        ensures
            c.spec_path() == Seq::<Seq<char>>::empty(),
    {
        ModelContext { path: ChildPath::root(), _message: PhantomData }
    }

    /// A context at `path`.
    pub fn at(path: ChildPath) -> (c: Self)
        ensures
            c.spec_path() == path@,
    {
        ModelContext { path, _message: PhantomData }
    }

    /// Return the current model path.
    pub fn path(&self) -> (p: &ChildPath)
        ensures
            p@ == self.spec_path(),
    {
        &self.path
    }

    /// A copy of this context.
    pub fn duplicate(&self) -> (c: Self)
        ensures
            c.spec_path() == self.spec_path(),
    {
        ModelContext { path: self.path.duplicate(), _message: PhantomData }
    }

    /// Create a scope for a child model under `path`, relative to this
    /// context, whose messages `lift` turns into this model's messages.
    ///
    /// The caller chooses a path that stays stable for the lifetime of the
    /// child model and is unique among siblings.
    pub fn scope<ChildMsg, F>(&self, path: &ChildPath, lift: F) -> (s: ChildScope<
        ChildMsg,
        Msg,
        F,
    >) where F: Fn(ChildMsg) -> Msg
        ensures
            s.spec_path() == self.spec_path() + path@,
            s.lift() == lift,
    {
        let joined = self.path.join(path);
        ChildScope {
            context: ModelContext { path: joined, _message: PhantomData },
            lift,
            _messages: PhantomData,
        }
    }
}

/// Bridge a child model into a parent model's message space.
pub struct ChildScope<ChildMsg, ParentMsg, Lift> {
    context: ModelContext<ChildMsg>,
    lift: Lift,
    _messages: PhantomData<ParentMsg>,
}

impl<ChildMsg, ParentMsg, Lift> ChildScope<ChildMsg, ParentMsg, Lift> {
    /// The child's full path.
    pub closed spec fn spec_path(&self) -> Seq<Seq<char>> {
        self.context.spec_path()
    }

    /// The function that lifts child messages.
    pub closed spec fn lift(&self) -> Lift {
        self.lift
    }

    /// Return the fully qualified path of the child model.
    pub fn path(&self) -> (p: &ChildPath)
        ensures
            p@ == self.spec_path(),
    {
        self.context.path()
    }

    /// Return the child model context used for nested lifecycle calls.
    pub fn context(&self) -> (c: &ModelContext<ChildMsg>)
        ensures
            c.spec_path() == self.spec_path(),
    {
        &self.context
    }

    /// Borrow the function that lifts child messages into parent messages.
    pub fn lift_fn(&self) -> (f: &Lift)
        ensures
            *f == self.lift(),
    {
        &self.lift
    }
}

/// `d` is `c` scoped under `path` and then mapped by `f` and `g`: what a
/// child's command becomes in its parent's message space.
pub open spec fn lifted_from<ChildMsg, ParentMsg, F, E, G, H>(
    c: Command<ChildMsg, F>,
    d: Command<ParentMsg, E>,
    path: Seq<Seq<char>>,
    f: G,
    g: H,
) -> bool where G: Fn(ChildMsg) -> ParentMsg, H: Fn(F) -> E {
    exists|mid: Command<ChildMsg, F>| #[trigger]
        scoped_from(c, mid, path) && mapped_from(mid, d, f, g)
}

/// Lifting a child's command into its parent keeps the command's label,
/// turns an emitted message by the lift function, and rebases the key of a
/// keyed effect or cancellation under the child's path.
pub proof fn lemma_lift_keeps_label_and_scopes_keys<ChildMsg, ParentMsg, F, E, G, H>(
    c: Command<ChildMsg, F>,
    d: Command<ParentMsg, E>,
    path: Seq<Seq<char>>,
    f: G,
    g: H,
) where G: Fn(ChildMsg) -> ParentMsg, H: Fn(F) -> E
    requires
        lifted_from(c, d, path, f, g),
    ensures
        label_view(d.label) == label_view(c.label),
        c.inner matches CommandInner::Emit(m) ==> (d.inner matches CommandInner::Emit(n) && f.ensures(
            (m,),
            n,
        )),
        c.inner matches CommandInner::Keyed { key, .. } ==> (d.inner matches CommandInner::Keyed {
            key: k2,
            ..
        } && k2@ == spec_scoped(key@, path)),
        c.inner matches CommandInner::Cancel(key) ==> (d.inner matches CommandInner::Cancel(k2)
            && k2@ == spec_scoped(key@, path)),
{
    let mid = choose|mid: Command<ChildMsg, F>| #[trigger]
        scoped_from(c, mid, path) && mapped_from(mid, d, f, g);
    assert(scoped_from(c, mid, path) && mapped_from(mid, d, f, g));
}

impl<ChildMsg, ParentMsg, Lift> ChildScope<ChildMsg, ParentMsg, Lift> {
    /// The text of the scope's debug form: `ChildScope { path: <path>, .. }`
    /// with the path in its debug form.
    pub fn debug_string(&self) -> (s: String)
        ensures
            s@ == "ChildScope { path: "@ + ("ChildPath(\""@ + path_display(self.spec_path())
                + "\")"@) + ", .. }"@,
    {
        let mut out = copy_str("ChildScope { path: ");
        push_string(&mut out, self.context.path.debug_string());
        push_str(&mut out, ", .. }");
        out
    }
}

impl<ChildMsg, ParentMsg, Lift> ChildScope<ChildMsg, ParentMsg, Lift> where
    Lift: Fn(ChildMsg) -> ParentMsg,
 {
    /// Bring a command that the child returned into the parent: its keys are
    /// scoped under the child's path, its messages lifted, and its effect
    /// payloads turned by `g` so that they yield parent messages. Labels and
    /// the shape of the command are kept.
    pub fn lift_command<F, E, H>(&self, command: Command<ChildMsg, F>, g: &H) -> (c: Command<
        ParentMsg,
        E,
    >) where H: Fn(F) -> E
        requires
            forall|m: ChildMsg| self.lift().requires((m,)),
            forall|e: F| g.requires((e,)),
        ensures
            lifted_from(command, c, self.spec_path(), self.lift(), *g),
    {
        let scoped = command.scoped(self.context.path());
        let lifted = scoped.map(&self.lift, g);
        proof {
            assert(scoped_from(command, scoped, self.spec_path()) && mapped_from(
                scoped,
                lifted,
                self.lift(),
                *g,
            ));
        }
        lifted
    }

    /// Bring the child's subscriptions into the parent: every key is scoped
    /// under the child's path and every builder turned by `g` so that it
    /// dispatches parent messages. Labels and order are kept.
    pub fn lift_subscriptions<B, C, G>(&self, subscriptions: Subscriptions<B>, g: &G) -> (s:
        Subscriptions<C>) where G: Fn(B) -> C
        requires
            forall|b: B| g.requires((b,)),
        ensures
            s.items().len() == subscriptions.items().len(),
            forall|i: int|
                0 <= i < subscriptions.items().len() ==> {
                    &&& (#[trigger] s.items()[i]).key@ == spec_scoped(
                        subscriptions.items()[i].key@,
                        self.spec_path(),
                    )
                    &&& s.items()[i].label == subscriptions.items()[i].label
                    &&& g.ensures((subscriptions.items()[i].builder,), s.items()[i].builder)
                },
    {
        let scoped = subscriptions.scoped(self.context.path());
        scoped.map(g)
    }
}

impl ChildPath {
    /// The text of the path's debug form: `ChildPath("<display>")`.
    pub fn debug_string(&self) -> (s: String)
        ensures
            s@ == "ChildPath(\""@ + path_display(self@) + "\")"@,
    {
        let mut out = copy_str("ChildPath(\"");
        let shown = self.display_string();
        push_str(&mut out, shown.as_str());
        push_str(&mut out, "\")");
        out
    }
}

impl Default for ChildPath {
    fn default() -> (p: Self)
        ensures
            p@ == Seq::<Seq<char>>::empty(),
    {
        ChildPath::root()
    }
}

impl<Msg> Default for ModelContext<Msg> {
    fn default() -> (c: Self)
        ensures
            c.spec_path() == Seq::<Seq<char>>::empty(),
    {
        ModelContext::root()
    }
}

impl PartialEq for ChildPath {
    fn eq(&self, other: &Self) -> (r: bool) {
        self.same_as(other)
    }
}

impl Eq for ChildPath {

}

impl PartialEqSpecImpl for ChildPath {
    open spec fn obeys_eq_spec() -> bool {
        true
    }

    open spec fn eq_spec(&self, other: &Self) -> bool {
        self@ == other@
    }
}

impl<'a> From<&'a str> for ChildPath {
    /// The single-segment path [`ChildPath::new`] builds from `segment`.
    fn from(segment: &'a str) -> (p: Self)
        ensures
            p@ == seq![segment@],
    {
        ChildPath::new(segment)
    }
}

impl<'a> vstd::std_specs::convert::FromSpecImpl<&'a str> for ChildPath {
    /// Two paths with the same segments need not be the same value, so the
    /// result is stated by the view, in the `ensures` of `from`.
    open spec fn obeys_from_spec() -> bool {
        false
    }

    open spec fn from_spec(segment: &'a str) -> Self {
        choose|p: ChildPath| p@ == seq![segment@]
    }
}

impl From<String> for ChildPath {
    /// The single-segment path [`ChildPath::new`] builds from `segment`.
    fn from(segment: String) -> (p: Self)
        ensures
            p@ == seq![segment@],
    {
        ChildPath::new(segment.as_str())
    }
}

impl vstd::std_specs::convert::FromSpecImpl<String> for ChildPath {
    /// Two paths with the same segments need not be the same value, so the
    /// result is stated by the view, in the `ensures` of `from`.
    open spec fn obeys_from_spec() -> bool {
        false
    }

    open spec fn from_spec(segment: String) -> Self {
        choose|p: ChildPath| p@ == seq![segment@]
    }
}

} // verus!
