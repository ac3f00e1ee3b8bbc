//! Character-level helpers: decimal rendering, UTF-8 byte lengths and the
//! string building blocks used by key and path encodings.
use vstd::prelude::*;
use vstd::relations::{sorted_by, total_ordering};
use vstd::string::*;
use vstd::utf8::encode_utf8;

verus! {

/// The ASCII digit that stands for `d` (`d < 10`).
pub open spec fn digit_char(d: nat) -> char {
    if d == 0 {
        '0'
    } else if d == 1 {
        '1'
    } else if d == 2 {
        '2'
    } else if d == 3 {
        '3'
    } else if d == 4 {
        '4'
    } else if d == 5 {
        '5'
    } else if d == 6 {
        '6'
    } else if d == 7 {
        '7'
    } else if d == 8 {
        '8'
    } else {
        '9'
    }
}

/// `true` for the ten ASCII digits.
pub open spec fn is_digit(c: char) -> bool {
    '0' <= c && c <= '9'
}

/// The decimal rendering of `n`, most significant digit first, without
/// leading zeros (what `usize::to_string` prints).
pub open spec fn dec_digits(n: nat) -> Seq<char>
    decreases n,
{
    if n < 10 {
        seq![digit_char(n)]
    } else {
        dec_digits(n / 10).push(digit_char(n % 10))
    }
}

/// Number of bytes of the UTF-8 encoding of `s`.
pub open spec fn byte_len(s: Seq<char>) -> nat {
    encode_utf8(s).len()
}

/// What `str::len` returns for a string whose characters are `s`: the byte
/// length, as a `usize`.
pub open spec fn str_len(s: Seq<char>) -> nat {
    (byte_len(s) as usize) as nat
}

/// Every decimal rendering is a non-empty run of digits.
pub proof fn lemma_dec_digits_shape(n: nat)
    ensures
        dec_digits(n).len() >= 1,
        forall|i: int| 0 <= i < dec_digits(n).len() ==> is_digit(#[trigger] dec_digits(n)[i]),
    decreases n,
{
    if n >= 10 {
        lemma_dec_digits_shape(n / 10);
    }
}

proof fn lemma_digit_char_injective(a: nat, b: nat)
    requires
        a < 10,
        b < 10,
        digit_char(a) == digit_char(b),
    ensures
        a == b,
{
}

/// Distinct numbers have distinct decimal renderings.
pub proof fn lemma_dec_digits_injective(a: nat, b: nat)
    requires
        dec_digits(a) == dec_digits(b),
    ensures
        a == b,
    decreases a,
{
    if a < 10 && b < 10 {
        assert(dec_digits(a)[0] == digit_char(a));
        assert(dec_digits(b)[0] == digit_char(b));
        lemma_digit_char_injective(a, b);
    } else if a < 10 {
        lemma_dec_digits_shape(b / 10);
        assert(dec_digits(b).len() >= 2);
    } else if b < 10 {
        lemma_dec_digits_shape(a / 10);
        assert(dec_digits(a).len() >= 2);
    } else {
        let da = dec_digits(a);
        let db = dec_digits(b);
        assert(da.last() == db.last());
        lemma_digit_char_injective(a % 10, b % 10);
        assert(da.drop_last() =~= dec_digits(a / 10));
        assert(db.drop_last() =~= dec_digits(b / 10));
        lemma_dec_digits_injective(a / 10, b / 10);
    }
}

/// The UTF-8 encoding of a concatenation is the concatenation of encodings.
pub proof fn lemma_encode_utf8_concat(a: Seq<char>, b: Seq<char>)
    ensures
        encode_utf8(a + b) =~= encode_utf8(a) + encode_utf8(b),
    decreases a.len(),
{
    if a.len() == 0 {
        assert(a + b =~= b);
    } else {
        assert((a + b).drop_first() =~= a.drop_first() + b);
        lemma_encode_utf8_concat(a.drop_first(), b);
    }
}

/// Byte length is additive over concatenation.
pub proof fn lemma_byte_len_concat(a: Seq<char>, b: Seq<char>)
    ensures
        byte_len(a + b) == byte_len(a) + byte_len(b),
{
    lemma_encode_utf8_concat(a, b);
}

/// A non-empty character sequence takes at least one byte per character.
pub proof fn lemma_byte_len_positive(s: Seq<char>)
    requires
        s.len() > 0,
    ensures
        byte_len(s) > 0,
{
    reveal_with_fuel(encode_utf8, 2);
}

/// Two prefixes of one sequence with the same byte length are equal.
pub proof fn lemma_same_byte_len_prefix(s1: Seq<char>, r1: Seq<char>, s2: Seq<char>, r2: Seq<char>)
    requires
        s1 + r1 == s2 + r2,
        byte_len(s1) == byte_len(s2),
    ensures
        s1 == s2,
        r1 == r2,
{
    let x = s1 + r1;
    if s1.len() < s2.len() {
        let t = s2.subrange(s1.len() as int, s2.len() as int);
        assert(s1 =~= x.subrange(0, s1.len() as int));
        assert(s1 =~= s2.subrange(0, s1.len() as int));
        assert(s2 =~= s1 + t);
        lemma_byte_len_concat(s1, t);
        lemma_byte_len_positive(t);
    } else if s2.len() < s1.len() {
        let t = s1.subrange(s2.len() as int, s1.len() as int);
        assert(s2 =~= x.subrange(0, s2.len() as int));
        assert(s2 =~= s1.subrange(0, s2.len() as int));
        assert(s1 =~= s2 + t);
        lemma_byte_len_concat(s2, t);
        lemma_byte_len_positive(t);
    } else {
        assert(s1 =~= x.subrange(0, s1.len() as int));
        assert(s2 =~= x.subrange(0, s2.len() as int));
        assert(r1 =~= x.subrange(s1.len() as int, x.len() as int));
        assert(r2 =~= x.subrange(s2.len() as int, x.len() as int));
    }
}

/// Appends one character; `String::push` as the standard library documents it.
#[verifier::external_body]
pub(crate) fn push_char(s: &mut String, c: char)
    ensures
        final(s)@ == old(s)@.push(c),
{
    s.push(c);
}

/// Appends a string slice.
pub(crate) fn push_str(s: &mut String, tail: &str)
    ensures
        final(s)@ == old(s)@ + tail@,
{
    s.append(tail);
}

/// Appends an owned string.
pub(crate) fn push_string(s: &mut String, tail: String)
    ensures
        final(s)@ == old(s)@ + tail@,
{
    s.append(tail.as_str());
}

/// A fresh copy of `s`.
pub(crate) fn copy_str(s: &str) -> (r: String)
    ensures
        r@ == s@,
{
    s.to_owned()
}

/// The digit character for `d`.
fn digit(d: usize) -> (c: char)
    requires
        d < 10,
    ensures
        c == digit_char(d as nat),
{
    if d == 0 {
        '0'
    } else if d == 1 {
        '1'
    } else if d == 2 {
        '2'
    } else if d == 3 {
        '3'
    } else if d == 4 {
        '4'
    } else if d == 5 {
        '5'
    } else if d == 6 {
        '6'
    } else if d == 7 {
        '7'
    } else if d == 8 {
        '8'
    } else {
        '9'
    }
}

/// Appends the decimal rendering of `n` to `out`.
pub fn push_decimal_u64(out: &mut String, n: u64)
    ensures
        final(out)@ == old(out)@ + dec_digits(n as nat),
    decreases n,
{
    if n >= 10 {
        push_decimal_u64(out, n / 10);
    }
    push_char(out, digit((n % 10) as usize));
    proof {
        assert(n < 10 ==> n % 10 == n);
    }
}

/// Appends the decimal rendering of `n` to `out`.
pub fn push_decimal(out: &mut String, n: usize)
    ensures
        final(out)@ == old(out)@ + dec_digits(n as nat),
{
    push_decimal_u64(out, n as u64);
}

/// The decimal rendering of `n`.
pub fn decimal_string_u64(n: u64) -> (s: String)
    ensures
        s@ == dec_digits(n as nat),
{
    let mut s = String::new();
    push_decimal_u64(&mut s, n);
    proof {
        assert(s@ =~= dec_digits(n as nat));
    }
    s
}

/// The decimal rendering of `n`.
pub fn decimal_string(n: usize) -> (s: String)
    ensures
        s@ == dec_digits(n as nat),
{
    let mut s = String::new();
    push_decimal(&mut s, n);
    proof {
        assert(s@ =~= dec_digits(n as nat));
    }
    s
}

/// Number of bytes of the UTF-8 encoding of `s`.
pub fn utf8_len(s: &str) -> (n: usize)
    ensures
        n == str_len(s@),
        n == byte_len(s@),
{
    s.as_bytes().len()
}

// ---------------------------------------------------------------------------
// Debug text
// ---------------------------------------------------------------------------

/// What `{:?}` prints for a string whose characters are `s`.
pub uninterp spec fn str_debug(s: Seq<char>) -> Seq<char>;

/// The debug form of `s`, as `{:?}` prints it.
///
/// Calls the standard library's `Debug` formatting of `str` (through
/// `format!`): the string in double quotes, with quotes, backslashes and
/// characters that do not print escaped. The result depends on `s` alone and
/// is named [`str_debug`]; the escaping rules are not written out here.
#[verifier::external_body]
pub(crate) fn debug_str(s: &str) -> (r: String)
    ensures
        r@ == str_debug(s@),
{
    format!("{:?}", s)
}

/// How an optional string reads in debug output: `Some(<debug form>)` or
/// `None`.
pub open spec fn opt_str_debug(o: Option<Seq<char>>) -> Seq<char> {
    match o {
        Some(s) => "Some("@ + str_debug(s) + ")"@,
        None => "None"@,
    }
}

/// Appends how an optional string reads in debug output.
pub(crate) fn push_opt_str_debug(out: &mut String, o: Option<&str>)
    ensures
        final(out)@ == old(out)@ + opt_str_debug(
            match o {
                Some(s) => Some(s@),
                None => None,
            },
        ),
{
    match o {
        Some(s) => {
            push_str(out, "Some(");
            let shown = debug_str(s);
            push_str(out, shown.as_str());
            push_str(out, ")");
        },
        None => push_str(out, "None"),
    }
}

// ---------------------------------------------------------------------------
// The order of strings
// ---------------------------------------------------------------------------

/// `a` comes no later than `b` in the lexicographic order of characters
/// (which for UTF-8 strings is the order of their bytes).
pub open spec fn text_le(a: Seq<char>, b: Seq<char>) -> bool
    decreases a.len(),
{
    if a.len() == 0 {
        true
    } else if b.len() == 0 {
        false
    } else if a[0] == b[0] {
        text_le(a.drop_first(), b.drop_first())
    } else {
        (a[0] as int) < (b[0] as int)
    }
}

/// [`text_le`] as a relation.
pub open spec fn text_order() -> spec_fn(Seq<char>, Seq<char>) -> bool {
    |a: Seq<char>, b: Seq<char>| text_le(a, b)
}

proof fn lemma_text_le_reflexive(a: Seq<char>)
    ensures
        text_le(a, a),
    decreases a.len(),
{
    if a.len() > 0 {
        lemma_text_le_reflexive(a.drop_first());
    }
}

proof fn lemma_text_le_antisymmetric(a: Seq<char>, b: Seq<char>)
    requires
        text_le(a, b),
        text_le(b, a),
    ensures
        a == b,
    decreases a.len(),
{
    if a.len() > 0 && b.len() > 0 {
        lemma_text_le_antisymmetric(a.drop_first(), b.drop_first());
        assert(a =~= seq![a[0]] + a.drop_first());
        assert(b =~= seq![b[0]] + b.drop_first());
    }
}

proof fn lemma_text_le_transitive(a: Seq<char>, b: Seq<char>, c: Seq<char>)
    requires
        text_le(a, b),
        text_le(b, c),
    ensures
        text_le(a, c),
    decreases a.len(),
{
    if a.len() > 0 && b.len() > 0 && c.len() > 0 {
        if a[0] == b[0] && b[0] == c[0] {
            lemma_text_le_transitive(a.drop_first(), b.drop_first(), c.drop_first());
        }
    }
}

proof fn lemma_text_le_connected(a: Seq<char>, b: Seq<char>)
    ensures
        text_le(a, b) || text_le(b, a),
    decreases a.len(),
{
    if a.len() > 0 && b.len() > 0 {
        if a[0] == b[0] {
            lemma_text_le_connected(a.drop_first(), b.drop_first());
        } else {
            assert((a[0] as int) != (b[0] as int));
        }
    }
}

/// The order of strings is a total order.
pub proof fn lemma_text_order_total()
    ensures
        total_ordering(text_order()),
{
    let r = text_order();
    assert forall|x: Seq<char>| #[trigger] r(x, x) by {
        lemma_text_le_reflexive(x);
    }
    assert forall|x: Seq<char>, y: Seq<char>| #[trigger] r(x, y) && #[trigger] r(y, x) implies x
        == y by {
        lemma_text_le_antisymmetric(x, y);
    }
    assert forall|x: Seq<char>, y: Seq<char>, z: Seq<char>| #[trigger] r(x, y) && #[trigger] r(
        y,
        z,
    ) implies r(x, z) by {
        lemma_text_le_transitive(x, y, z);
    }
    assert forall|x: Seq<char>, y: Seq<char>| #[trigger] r(x, y) || #[trigger] r(y, x) by {
        lemma_text_le_connected(x, y);
    }
}

/// Whether `a` comes no later than `b` in the order of strings.
pub fn text_le_exec(a: &str, b: &str) -> (r: bool)
    ensures
        r == text_le(a@, b@),
{
    let n = a.unicode_len();
    let m = b.unicode_len();
    let mut i: usize = 0;
    proof {
        assert(a@.skip(0) =~= a@);
        assert(b@.skip(0) =~= b@);
    }
    while i < n && i < m
        invariant
            n == a@.len(),
            m == b@.len(),
            i <= n,
            i <= m,
            text_le(a@, b@) == text_le(a@.skip(i as int), b@.skip(i as int)),
        decreases n - i,
    {
        let x = a.get_char(i);
        let y = b.get_char(i);
        proof {
            assert(a@.skip(i as int)[0] == x);
            assert(b@.skip(i as int)[0] == y);
            assert(a@.skip(i as int).drop_first() =~= a@.skip(i as int + 1));
            assert(b@.skip(i as int).drop_first() =~= b@.skip(i as int + 1));
        }
        if x != y {
            return (x as u32) < (y as u32);
        }
        i = i + 1;
    }
    proof {
        if i == n {
            assert(a@.skip(i as int).len() == 0);
        } else {
            assert(b@.skip(i as int).len() == 0);
        }
    }
    i == n
}

/// Inserting into a sorted list after every element that comes no later and
/// before every element that comes later keeps it sorted.
proof fn lemma_insert_keeps_sorted(t: Seq<Seq<char>>, p: int, x: Seq<char>)
    requires
        sorted_by(t, text_order()),
        0 <= p <= t.len(),
        forall|k: int| 0 <= k < p ==> text_le(#[trigger] t[k], x),
        p < t.len() ==> !text_le(t[p], x),
    ensures
        sorted_by(t.insert(p, x), text_order()),
{
    lemma_text_order_total();
    let u = t.insert(p, x);
    if p < t.len() {
        lemma_text_le_connected(t[p], x);
    }
    assert forall|i: int, j: int| 0 <= i < j < u.len() implies #[trigger] text_order()(
        u[i],
        u[j],
    ) by {
        if j < p {
            assert(u[i] == t[i] && u[j] == t[j]);
        } else if j == p {
            assert(u[i] == t[i] && u[j] == x);
        } else if i < p {
            assert(u[i] == t[i] && u[j] == t[j - 1]);
        } else if i == p {
            assert(u[i] == x && u[j] == t[j - 1]);
            assert(text_le(x, t[p]));
            if j - 1 > p {
                assert(text_order()(t[p], t[j - 1]));
                lemma_text_le_transitive(x, t[p], t[j - 1]);
            }
        } else {
            assert(u[i] == t[i - 1] && u[j] == t[j - 1]);
        }
    }
}

/// The strings of `v` in the order of strings.
pub fn sort_texts(v: Vec<String>) -> (r: Vec<String>)
    ensures
        texts_of(r@) == texts_of(v@).sort_by(text_order()),
{
    let ghost all = texts_of(v@);
    let n = v.len();
    let mut out: Vec<String> = Vec::new();
    let mut i: usize = 0;
    proof {
        lemma_text_order_total();
        assert(texts_of(out@) =~= Seq::<Seq<char>>::empty());
        assert(all.take(0) =~= Seq::<Seq<char>>::empty());
    }
    while i < n
        invariant
            n == v@.len(),
            all == texts_of(v@),
            i <= n,
            sorted_by(texts_of(out@), text_order()),
            texts_of(out@).to_multiset() == all.take(i as int).to_multiset(),
            total_ordering(text_order()),
        decreases n - i,
    {
        let x = copy_str(v[i].as_str());
        let m = out.len();
        let mut p: usize = 0;
        while p < m && text_le_exec(out[p].as_str(), x.as_str())
            invariant
                m == out@.len(),
                p <= m,
                forall|k: int| 0 <= k < p ==> text_le(#[trigger] texts_of(out@)[k], x@),
            decreases m - p,
        {
            p = p + 1;
        }
        let ghost before = texts_of(out@);
        proof {
            lemma_insert_keeps_sorted(before, p as int, x@);
            broadcast use vstd::seq_lib::to_multiset_insert, vstd::seq_lib::to_multiset_build;
            assert(all.take(i as int + 1) =~= all.take(i as int).push(all[i as int]));
        }
        out.insert(p, x);
        proof {
            assert(texts_of(out@) =~= before.insert(p as int, x@));
            broadcast use vstd::seq_lib::to_multiset_insert, vstd::seq_lib::to_multiset_build;
            assert(all[i as int] == x@);
        }
        i = i + 1;
    }
    proof {
        assert(all.take(n as int) =~= all);
        all.lemma_sort_by_ensures(text_order());
        vstd::seq_lib::lemma_sorted_unique(texts_of(out@), all.sort_by(text_order()), text_order());
    }
    out
}

/// The characters of each string, in order.
pub open spec fn texts_of(v: Seq<String>) -> Seq<Seq<char>> {
    v.map_values(|s: String| s@)
}

/// The debug forms of `xs`, separated by `, `.
pub open spec fn joined_debug(xs: Seq<Seq<char>>) -> Seq<char>
    decreases xs.len(),
{
    if xs.len() == 0 {
        Seq::empty()
    } else if xs.len() == 1 {
        str_debug(xs[0])
    } else {
        joined_debug(xs.drop_last()) + ", "@ + str_debug(xs.last())
    }
}

/// How a list of strings reads in debug output: `[` and the debug forms of
/// its strings, separated by `, `, then `]`.
pub open spec fn list_debug(xs: Seq<Seq<char>>) -> Seq<char> {
    "["@ + joined_debug(xs) + "]"@
}

/// Appends how the list of strings `v` reads in debug output.
pub(crate) fn push_list_debug(out: &mut String, v: &Vec<String>)
    ensures
        final(out)@ == old(out)@ + list_debug(texts_of(v@)),
{
    let ghost start = out@;
    let ghost xs = texts_of(v@);
    push_str(out, "[");
    let n = v.len();
    let mut i: usize = 0;
    while i < n
        invariant
            n == v@.len(),
            xs == texts_of(v@),
            i <= n,
            out@ == start + "["@ + joined_debug(xs.take(i as int)),
        decreases n - i,
    {
        if i > 0 {
            push_str(out, ", ");
        }
        let shown = debug_str(v[i].as_str());
        push_str(out, shown.as_str());
        proof {
            let t = xs.take(i as int + 1);
            assert(t.drop_last() =~= xs.take(i as int));
            assert(t.last() == v@[i as int]@);
            if i == 0 {
                assert(xs.take(0) =~= Seq::<Seq<char>>::empty());
            }
        }
        i = i + 1;
    }
    push_str(out, "]");
    proof {
        assert(xs.take(n as int) =~= xs);
    }
}

} // verus!
