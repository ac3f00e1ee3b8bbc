//! Stable identities of keyed effects and subscriptions.
use crate::scope::{
    encode_segments, lemma_encode_segments_push, path_display, runtime_prefix_of, segment_record,
    ChildPath,
};
use crate::text::{
    byte_len, copy_str, dec_digits, is_digit, lemma_dec_digits_injective, lemma_dec_digits_shape,
    lemma_same_byte_len_prefix, push_char, push_decimal, push_str, str_len, utf8_len,
};
use vstd::prelude::*;
use vstd::std_specs::cmp::PartialEqSpecImpl;

verus! {

/// What a [`Key`] holds: its runtime identifier, the path that scoped it (if
/// any) and the identifier it had before scoping (if any).
pub ghost struct KeyView {
    pub id: Seq<char>,
    pub child_path: Option<Seq<Seq<char>>>,
    pub local_id: Option<Seq<char>>,
}

/// The runtime identifier of a key with local identifier `local` scoped under
/// a path whose runtime prefix is `prefix`: the prefix, `#`, the byte length
/// of `local` in decimal, `:`, and `local`.
pub open spec fn scoped_id(prefix: Seq<char>, local: Seq<char>) -> Seq<char> {
    prefix + seq!['#'] + dec_digits(str_len(local)) + seq![':'] + local
}

/// The key that scoping `k` under `path` gives: `k` itself when the path is
/// the root or `k` is already scoped; otherwise a key whose identifier is
/// rebased under the path and which remembers the path and its local
/// identifier.
pub open spec fn spec_scoped(k: KeyView, path: Seq<Seq<char>>) -> KeyView {
    if path.len() == 0 || k.child_path is Some {
        k
    } else {
        KeyView {
            id: scoped_id(runtime_prefix_of(path), k.id),
            child_path: Some(path),
            local_id: Some(k.id),
        }
    }
}

/// How a key reads in debug output: `Key("<path>:<local id>")` for a scoped
/// key, `Key("<id>")` otherwise.
pub open spec fn key_debug(k: KeyView) -> Seq<char> {
    let open = seq!['K', 'e', 'y', '(', '"'];
    let close = seq!['"', ')'];
    if k.child_path is Some && k.local_id is Some {
        open + path_display(k.child_path->0) + seq![':'] + k.local_id->0 + close
    } else {
        open + k.id + close
    }
}

/// `true` when every segment fits the `usize` byte length that encodes it.
pub open spec fn segments_fit(path: Seq<Seq<char>>) -> bool {
    forall|i: int| 0 <= i < path.len() ==> byte_len(#[trigger] path[i]) <= usize::MAX
}

/// Identify a keyed effect or subscription across reconciliations.
///
/// A `Key` is stable application-level identity. The runtime augments keys
/// created in child models with their [`ChildPath`] so sibling models can
/// reuse the same local identifiers without colliding.
#[derive(Clone, Debug)]
pub struct Key {
    id: String,
    child_path: Option<ChildPath>,
    local_id: Option<String>,
}

impl View for Key {
    type V = KeyView;

    closed spec fn view(&self) -> KeyView {
        KeyView {
            id: self.id@,
            child_path: match self.child_path {
                Some(p) => Some(p@),
                None => None,
            },
            local_id: match self.local_id {
                Some(l) => Some(l@),
                None => None,
            },
        }
    }
}

impl Key {
    /// Build a key from an application-defined identifier.
    pub fn new(id: &str) -> (k: Self)
        ensures
            k@ == (KeyView { id: id@, child_path: None, local_id: None }),
    {
        Key { id: copy_str(id), child_path: None, local_id: None }
    }

    /// Return the runtime identifier used for equality and deduplication.
    pub fn id(&self) -> (s: &str)
        ensures
            s@ == self@.id,
    {
        self.id.as_str()
    }

    /// Return the child path that scoped this key, if any.
    pub fn child_path(&self) -> (p: Option<&ChildPath>)
        ensures
            p is Some == self@.child_path is Some,
            p is Some ==> p->0@ == self@.child_path->0,
    {
        match &self.child_path {
            Some(p) => Some(p),
            None => None,
        }
    }

    /// Return the identifier the caller gave a scoped key before scoping.
    pub fn local_id(&self) -> (s: Option<&str>)
        ensures
            s is Some == self@.local_id is Some,
            s is Some ==> s->0@ == self@.local_id->0,
    {
        match &self.local_id {
            Some(l) => Some(l.as_str()),
            None => None,
        }
    }

    /// A copy of this key.
    pub fn duplicate(&self) -> (k: Self)
        ensures
            k@ == self@,
    {
        Key {
            id: copy_str(self.id.as_str()),
            child_path: match &self.child_path {
                Some(p) => Some(p.duplicate()),
                None => None,
            },
            local_id: match &self.local_id {
                Some(l) => Some(copy_str(l.as_str())),
                None => None,
            },
        }
    }

    /// Compare two keys field by field.
    pub fn same_as(&self, other: &Self) -> (r: bool)
        ensures
            r == (self@ == other@),
    {
        if self.id != other.id {
            return false;
        }
        let same_path = match (&self.child_path, &other.child_path) {
            (Some(a), Some(b)) => a.same_as(b),
            (None, None) => true,
            _ => false,
        };
        if !same_path {
            return false;
        }
        match (&self.local_id, &other.local_id) {
            (Some(a), Some(b)) => *a == *b,
            (None, None) => true,
            _ => false,
        }
    }

    /// Return a new key scoped to the provided path.
    ///
    /// A key that already carries a child path, or any key scoped to the root
    /// path, is returned unchanged.
    pub fn scoped(&self, path: &ChildPath) -> (k: Self)
        ensures
            k@ == spec_scoped(self@, path@),
            self@.child_path is None ==> segments_fit(path@),
    {
        if path.is_root() || self.child_path.is_some() {
            return self.duplicate();
        }
        let local_id = copy_str(self.id.as_str());
        let mut runtime_id = path.runtime_prefix();
        push_char(&mut runtime_id, '#');
        push_decimal(&mut runtime_id, utf8_len(local_id.as_str()));
        push_char(&mut runtime_id, ':');
        push_str(&mut runtime_id, local_id.as_str());
        proof {
            assert(runtime_id@ =~= scoped_id(runtime_prefix_of(path@), self@.id));
        }
        let k = Key { id: runtime_id, child_path: Some(path.duplicate()), local_id: Some(local_id) };
        proof {
            assert(k@ =~= spec_scoped(self@, path@));
        }
        k
    }

    /// The text of the key's debug form: `Key("<path>:<local id>")` for a
    /// scoped key, `Key("<id>")` otherwise.
    pub fn debug_string(&self) -> (s: String)
        ensures
            s@ == key_debug(self@),
    {
        let mut out = copy_str("Key(\"");
        proof {
            reveal_strlit("Key(\"");
            assert(out@ =~= seq!['K', 'e', 'y', '(', '"']);
        }
        match (&self.child_path, &self.local_id) {
            (Some(path), Some(local)) => {
                let shown = path.display_string();
                push_str(&mut out, shown.as_str());
                push_char(&mut out, ':');
                push_str(&mut out, local.as_str());
            },
            _ => {
                push_str(&mut out, self.id.as_str());
            },
        }
        push_char(&mut out, '"');
        push_char(&mut out, ')');
        proof {
            assert(out@ =~= key_debug(self@));
        }
        out
    }
}

/// Digits, a colon, then anything: the digits and the tail are determined.
proof fn lemma_colon_split(n1: nat, r1: Seq<char>, n2: nat, r2: Seq<char>)
    requires
        dec_digits(n1) + seq![':'] + r1 == dec_digits(n2) + seq![':'] + r2,
    ensures
        n1 == n2,
        r1 == r2,
{
    let d1 = dec_digits(n1);
    let d2 = dec_digits(n2);
    let x = d1 + seq![':'] + r1;
    lemma_dec_digits_shape(n1);
    lemma_dec_digits_shape(n2);
    if d1.len() < d2.len() {
        assert(x[d1.len() as int] == ':');
        assert(x[d1.len() as int] == d2[d1.len() as int]);
        assert(is_digit(d2[d1.len() as int]));
    } else if d2.len() < d1.len() {
        assert(x[d2.len() as int] == d1[d2.len() as int]);
        assert(is_digit(d1[d2.len() as int]));
        assert((d2 + seq![':'] + r2)[d2.len() as int] == ':');
    } else {
        assert(d1 =~= x.subrange(0, d1.len() as int));
        assert(d2 =~= x.subrange(0, d1.len() as int));
        lemma_dec_digits_injective(n1, n2);
        assert(r1 =~= x.subrange(d1.len() as int + 1, x.len() as int));
        assert(r2 =~= x.subrange(d1.len() as int + 1, x.len() as int));
    }
}

/// A segment record followed by anything determines the segment and the tail.
proof fn lemma_record_split(a: Seq<char>, r1: Seq<char>, b: Seq<char>, r2: Seq<char>)
    requires
        segment_record(a) + r1 == segment_record(b) + r2,
        byte_len(a) <= usize::MAX,
        byte_len(b) <= usize::MAX,
    ensures
        a == b,
        r1 == r2,
{
    let t1 = a + (seq!['/'] + r1);
    let t2 = b + (seq!['/'] + r2);
    assert(segment_record(a) + r1 =~= dec_digits(str_len(a)) + seq![':'] + t1);
    assert(segment_record(b) + r2 =~= dec_digits(str_len(b)) + seq![':'] + t2);
    lemma_colon_split(str_len(a), t1, str_len(b), t2);
    lemma_same_byte_len_prefix(a, seq!['/'] + r1, b, seq!['/'] + r2);
    assert(r1 =~= (seq!['/'] + r1).drop_first());
    assert(r2 =~= (seq!['/'] + r2).drop_first());
}

/// The segment records before a `#` determine the segments and the tail.
proof fn lemma_encoded_split(s1: Seq<Seq<char>>, t1: Seq<char>, s2: Seq<Seq<char>>, t2: Seq<char>)
    requires
        encode_segments(s1) + seq!['#'] + t1 == encode_segments(s2) + seq!['#'] + t2,
        segments_fit(s1),
        segments_fit(s2),
    ensures
        s1 == s2,
        t1 == t2,
    decreases s1.len(),
{
    if s1.len() == 0 && s2.len() == 0 {
        assert(encode_segments(s1) =~= Seq::<char>::empty());
        assert(encode_segments(s2) =~= Seq::<char>::empty());
        assert(t1 =~= (seq!['#'] + t1).drop_first());
        assert(t2 =~= (seq!['#'] + t2).drop_first());
        assert(s1 =~= s2);
    } else if s1.len() == 0 {
        lemma_dec_digits_shape(str_len(s2[0]));
        assert(encode_segments(s1) =~= Seq::<char>::empty());
        let x = encode_segments(s2) + seq!['#'] + t2;
        assert(x[0] == dec_digits(str_len(s2[0]))[0]);
        assert(is_digit(dec_digits(str_len(s2[0]))[0]));
        assert((encode_segments(s1) + seq!['#'] + t1)[0] == '#');
    } else if s2.len() == 0 {
        lemma_dec_digits_shape(str_len(s1[0]));
        assert(encode_segments(s2) =~= Seq::<char>::empty());
        let x = encode_segments(s1) + seq!['#'] + t1;
        assert(x[0] == dec_digits(str_len(s1[0]))[0]);
        assert(is_digit(dec_digits(str_len(s1[0]))[0]));
        assert((encode_segments(s2) + seq!['#'] + t2)[0] == '#');
    } else {
        let rest1 = encode_segments(s1.drop_first()) + seq!['#'] + t1;
        let rest2 = encode_segments(s2.drop_first()) + seq!['#'] + t2;
        assert(encode_segments(s1) + seq!['#'] + t1 =~= segment_record(s1[0]) + rest1);
        assert(encode_segments(s2) + seq!['#'] + t2 =~= segment_record(s2[0]) + rest2);
        assert(byte_len(s1[0]) <= usize::MAX);
        assert(byte_len(s2[0]) <= usize::MAX);
        lemma_record_split(s1[0], rest1, s2[0], rest2);
        assert(segments_fit(s1.drop_first()));
        assert(segments_fit(s2.drop_first()));
        lemma_encoded_split(s1.drop_first(), t1, s2.drop_first(), t2);
        assert(s1 =~= seq![s1[0]] + s1.drop_first());
        assert(s2 =~= seq![s2[0]] + s2.drop_first());
    }
}

/// Scoped identifiers never collide: two keys scoped under non-root paths get
/// the same runtime identifier only when both the paths and the local
/// identifiers are the same.
///
/// It needs each path segment's byte length to fit in a `usize`, as the
/// length written into the identifier is a `usize`; [`Key::scoped`] ensures
/// this of every path it scopes an unscoped key under.
pub proof fn lemma_scoped_id_injective(
    p1: Seq<Seq<char>>,
    l1: Seq<char>,
    p2: Seq<Seq<char>>,
    l2: Seq<char>,
)
    requires
        p1.len() > 0,
        p2.len() > 0,
        segments_fit(p1),
        segments_fit(p2),
        scoped_id(runtime_prefix_of(p1), l1) == scoped_id(runtime_prefix_of(p2), l2),
    ensures
        p1 == p2,
        l1 == l2,
{
    let t1 = dec_digits(str_len(l1)) + seq![':'] + l1;
    let t2 = dec_digits(str_len(l2)) + seq![':'] + l2;
    assert(scoped_id(runtime_prefix_of(p1), l1) =~= encode_segments(p1) + seq!['#'] + t1);
    assert(scoped_id(runtime_prefix_of(p2), l2) =~= encode_segments(p2) + seq!['#'] + t2);
    lemma_encoded_split(p1, t1, p2, t2);
    lemma_colon_split(str_len(l1), l1, str_len(l2), l2);
}

/// Scoping the same local identifier under two different non-root paths never
/// yields the same key, not even the same runtime identifier: sibling models
/// can reuse local keys.
pub proof fn lemma_sibling_keys_distinct(k: KeyView, p1: Seq<Seq<char>>, p2: Seq<Seq<char>>)
    requires
        k.child_path is None,
        p1.len() > 0,
        p2.len() > 0,
        segments_fit(p1),
        segments_fit(p2),
        p1 != p2,
    ensures
        spec_scoped(k, p1).id != spec_scoped(k, p2).id,
{
    if spec_scoped(k, p1).id == spec_scoped(k, p2).id {
        lemma_scoped_id_injective(p1, k.id, p2, k.id);
    }
}

/// Scoping is applied once: a key scoped under a non-root path is left
/// unchanged by scoping it again, under any path; scoping under the root path
/// changes nothing.
pub proof fn lemma_scoped_once(k: KeyView, p: Seq<Seq<char>>, q: Seq<Seq<char>>)
    requires
        p.len() > 0,
    ensures
        spec_scoped(spec_scoped(k, p), q) == spec_scoped(k, p),
        spec_scoped(k, Seq::<Seq<char>>::empty()) == k,
{
}

/// A key scoped under a non-root path remembers both the path and the
/// identifier it had before.
pub proof fn lemma_scoped_remembers(k: KeyView, p: Seq<Seq<char>>)
    requires
        k.child_path is None,
        p.len() > 0,
    ensures
        spec_scoped(k, p).child_path == Some(p),
        spec_scoped(k, p).local_id == Some(k.id),
{
}

impl PartialEq for Key {
    fn eq(&self, other: &Self) -> (r: bool) {
        self.same_as(other)
    }
}

impl Eq for Key {

}

impl PartialEqSpecImpl for Key {
    open spec fn obeys_eq_spec() -> bool {
        true
    }

    open spec fn eq_spec(&self, other: &Self) -> bool {
        self@ == other@
    }
}

impl<'a> From<&'a str> for Key {
    /// The key [`Key::new`] builds from `id`.
    fn from(id: &'a str) -> (k: Self)
        ensures
            k@ == (KeyView { id: id@, child_path: None, local_id: None }),
    {
        Key::new(id)
    }
}

impl<'a> vstd::std_specs::convert::FromSpecImpl<&'a str> for Key {
    /// Two keys with the same view need not be the same value, so the result
    /// is stated by the view, in the `ensures` of `from`.
    open spec fn obeys_from_spec() -> bool {
        false
    }

    open spec fn from_spec(id: &'a str) -> Self {
        choose|k: Key| k@ == (KeyView { id: id@, child_path: None, local_id: None })
    }
}

impl From<String> for Key {
    /// The key [`Key::new`] builds from `id`.
    fn from(id: String) -> (k: Self)
        ensures
            k@ == (KeyView { id: id@, child_path: None, local_id: None }),
    {
        Key::new(id.as_str())
    }
}

impl vstd::std_specs::convert::FromSpecImpl<String> for Key {
    /// Two keys with the same view need not be the same value, so the result
    /// is stated by the view, in the `ensures` of `from`.
    open spec fn obeys_from_spec() -> bool {
        false
    }

    open spec fn from_spec(id: String) -> Self {
        choose|k: Key| k@ == (KeyView { id: id@, child_path: None, local_id: None })
    }
}

} // verus!
