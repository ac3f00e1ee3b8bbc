//! Reading the attributes of a struct declaration into the values that the
//! `Composite` rules check.
//!
//! An attribute arrives as the source text of its meta (`child(path = "a",
//! lift = L, extract = E)`). `syn` reads that text: the shape of the meta,
//! the comma-separated arguments between its parentheses, whether a value is
//! a string literal, and whether it reads as a type. Which attributes are
//! looked at, in which order, and what happens when one does not read, is
//! decided here.
//!
//! Token text is printed by `proc-macro2`'s own printer in every case: the
//! wrappers that print tokens switch `proc-macro2` to its fallback
//! implementation for the call, so the text does not depend on whether a
//! compiler runs the derive.
use crate::composite::{
    attrs_view, is_named, metas_view, opt_text, MetaItem, MetaItemView, MetaValue,
    MetaValueView,
};
use crate::text::{copy_str, texts_of};
use quote::ToTokens;
use syn::parse::Parser;
use syn::punctuated::Punctuated;
use vstd::prelude::*;

verus! {

/// The shape of one meta, each part as source text.
pub enum MetaShape {
    /// A bare path, such as `strict`.
    Path(String),
    /// `path(..)`, by its path.
    List(String),
    /// `name = value`.
    NameValue { name: String, value: String },
}

/// What a [`MetaShape`] holds.
pub ghost enum ShapeView {
    Path(Seq<char>),
    List(Seq<char>),
    NameValue { name: Seq<char>, value: Seq<char> },
}

impl View for MetaShape {
    type V = ShapeView;

    open spec fn view(&self) -> ShapeView {
        match self {
            MetaShape::Path(p) => ShapeView::Path(p@),
            MetaShape::List(p) => ShapeView::List(p@),
            MetaShape::NameValue { name, value } => ShapeView::NameValue {
                name: name@,
                value: value@,
            },
        }
    }
}

/// The view of an optional shape.
pub open spec fn shape_option_view(o: Option<MetaShape>) -> Option<ShapeView> {
    match o {
        Some(s) => Some(s@),
        None => None,
    }
}

/// The path of a meta, whatever its shape.
pub open spec fn shape_path(shape: ShapeView) -> Seq<char> {
    match shape {
        ShapeView::Path(p) => p,
        ShapeView::List(p) => p,
        ShapeView::NameValue { name, .. } => name,
    }
}

/// The shape of the meta written as `text`, as `syn` reads it; `None` when
/// it does not read as a meta.
pub uninterp spec fn parsed_meta(text: Seq<char>) -> Option<ShapeView>;

/// The source texts of the comma-separated metas between the parentheses of
/// the attribute whose meta is written as `meta`, as `syn` reads them, or
/// `syn`'s error.
pub uninterp spec fn parsed_attribute_args(meta: Seq<char>) -> Result<Seq<Seq<char>>, Seq<char>>;

/// The value of the string literal written as `text`; `None` when `text`
/// is not one.
pub uninterp spec fn literal_value(text: Seq<char>) -> Option<Seq<char>>;

/// `syn`'s error for `text` read as a type; `None` when it reads as one.
pub uninterp spec fn type_error_of(text: Seq<char>) -> Option<Seq<char>>;

/// Reads `text` as one meta.
///
/// Calls `syn::parse_str::<syn::Meta>` with `proc-macro2` switched to its
/// fallback implementation (`proc_macro2::fallback::force`, then `unforce`)
/// and gives each part of the result back as its token text; the contract
/// names the outcome `parsed_meta` and says no more of it.
#[verifier::external_body]
fn parse_meta(text: &str) -> (r: Option<MetaShape>)
    ensures
        shape_option_view(r) == parsed_meta(text@),
{
    proc_macro2::fallback::force();
    let r = match syn::parse_str::<syn::Meta>(text) {
        Ok(syn::Meta::Path(p)) => Some(MetaShape::Path(p.to_token_stream().to_string())),
        Ok(syn::Meta::List(l)) => Some(MetaShape::List(l.path.to_token_stream().to_string())),
        Ok(syn::Meta::NameValue(nv)) => Some(
            MetaShape::NameValue { name: nv.path.to_token_stream().to_string(), value: nv.value.to_token_stream().to_string() },
        ),
        Err(_) => None,
    };
    proc_macro2::fallback::unforce();
    r
}

/// Reads the arguments of the outer attribute whose meta is `meta`.
///
/// Calls `syn::Attribute::parse_args_with` with
/// `Punctuated::<syn::Meta, syn::token::Comma>::parse_terminated` on the
/// attribute `#[meta]`, with `proc-macro2` switched to its fallback
/// implementation for the call; each argument comes back as its token text,
/// an error as its message. The contract names the outcome
/// `parsed_attribute_args`.
#[verifier::external_body]
fn parse_attribute_args(meta: &str) -> (r: Result<Vec<String>, String>)
    ensures
        match r {
            Ok(v) => parsed_attribute_args(meta@) == Ok::<Seq<Seq<char>>, Seq<char>>(
                texts_of(v@),
            ),
            Err(e) => parsed_attribute_args(meta@) == Err::<Seq<Seq<char>>, Seq<char>>(e@),
        },
{
    proc_macro2::fallback::force();
    let parsed = syn::parse_str::<syn::Meta>(meta).and_then(|meta| {
        let attr = syn::Attribute { pound_token: Default::default(), style: syn::AttrStyle::Outer, bracket_token: Default::default(), meta };
        attr.parse_args_with(Punctuated::<syn::Meta, syn::token::Comma>::parse_terminated)
    });
    let r = parsed.map(|metas| metas.iter().map(|m| m.to_token_stream().to_string()).collect()).map_err(|e| e.to_string());
    proc_macro2::fallback::unforce();
    r
}

/// The value of the string literal written as `text`, if it is one.
///
/// Calls `syn::parse_str::<syn::LitStr>` and `LitStr::value`; the contract
/// names the outcome `literal_value`.
#[verifier::external_body]
fn string_literal(text: &str) -> (r: Option<String>)
    ensures
        opt_text(r) == literal_value(text@),
{
    syn::parse_str::<syn::LitStr>(text).ok().map(|lit| lit.value())
}

/// Why `text` does not read as a type, if it does not.
///
/// Calls `syn::parse_str::<syn::Type>` and keeps the error's message; the
/// contract names the outcome `type_error_of`.
#[verifier::external_body]
fn type_error(text: &str) -> (r: Option<String>)
    ensures
        opt_text(r) == type_error_of(text@),
{
    syn::parse_str::<syn::Type>(text).err().map(|e| e.to_string())
}

/// One argument of an attribute, from its source text. A `name = value`
/// argument carries what its value reads as; text that does not read as a
/// meta is taken as a bare path, which no rule accepts.
pub open spec fn item_of(text: Seq<char>) -> MetaItemView {
    match parsed_meta(text) {
        Some(ShapeView::NameValue { name, value }) => MetaItemView::NameValue {
            name,
            value: MetaValueView {
                text: value,
                string_literal: literal_value(value),
                type_error: type_error_of(value),
            },
        },
        Some(ShapeView::List(path)) => MetaItemView::List(path),
        Some(ShapeView::Path(p)) => MetaItemView::Path(p),
        None => MetaItemView::Path(text),
    }
}

/// The arguments of the attribute whose meta is written as `meta`, or why
/// they do not read.
pub open spec fn attribute_args_of(meta: Seq<char>) -> Result<Seq<MetaItemView>, Seq<char>> {
    match parsed_attribute_args(meta) {
        Ok(texts) => Ok(texts.map_values(|t: Seq<char>| item_of(t))),
        Err(e) => Err(e),
    }
}

/// The argument lists of the attributes named `name` among the metas
/// `metas`, in order, up to the first whose arguments do not read, and that
/// one's diagnostic. Other attributes are passed over.
pub open spec fn read_attrs(metas: Seq<Seq<char>>, name: Seq<char>) -> (
    Seq<Seq<MetaItemView>>,
    Option<Seq<char>>,
)
    decreases metas.len(),
{
    if metas.len() == 0 {
        (Seq::empty(), None)
    } else {
        let prev = read_attrs(metas.drop_last(), name);
        if prev.1 is Some {
            prev
        } else {
            match parsed_meta(metas.last()) {
                Some(shape) => if shape_path(shape) == name {
                    match attribute_args_of(metas.last()) {
                        Ok(items) => (prev.0.push(items), None),
                        Err(e) => (prev.0, Some(e)),
                    }
                } else {
                    prev
                },
                None => prev,
            }
        }
    }
}

/// Reads one attribute argument from its source text; see [`item_of`].
pub fn read_item(text: &str) -> (r: MetaItem)
    ensures
        r@ == item_of(text@),
{
    match parse_meta(text) {
        Some(MetaShape::NameValue { name, value }) => {
            let string_literal = string_literal(value.as_str());
            let type_error = type_error(value.as_str());
            MetaItem::NameValue { name, value: MetaValue { text: value, string_literal, type_error } }
        },
        Some(MetaShape::List(path)) => MetaItem::List(path),
        Some(MetaShape::Path(p)) => MetaItem::Path(p),
        None => MetaItem::Path(copy_str(text)),
    }
}

/// The arguments of the attribute whose meta is written as `meta`; see
/// [`attribute_args_of`].
pub fn read_args(meta: &str) -> (r: Result<Vec<MetaItem>, String>)
    ensures
        match r {
            Ok(v) => attribute_args_of(meta@) == Ok::<Seq<MetaItemView>, Seq<char>>(
                metas_view(v),
            ),
            Err(e) => attribute_args_of(meta@) == Err::<Seq<MetaItemView>, Seq<char>>(e@),
        },
{
    match parse_attribute_args(meta) {
        Ok(texts) => {
            let ghost tv = texts_of(texts@);
            let mut items: Vec<MetaItem> = Vec::new();
            let n = texts.len();
            let mut i: usize = 0;
            while i < n
                invariant
                    n == texts@.len(),
                    i <= n,
                    tv == texts_of(texts@),
                    metas_view(items) =~= tv.take(i as int).map_values(|t: Seq<char>| item_of(t)),
                decreases n - i,
            {
                let item = read_item(texts[i].as_str());
                let ghost before = items@;
                items.push(item);
                proof {
                    assert(tv.take(i as int + 1) =~= tv.take(i as int).push(tv[i as int]));
                    assert(items@ =~= before.push(item));
                    assert(tv[i as int] == texts@[i as int]@);
                    assert(tv.take(i as int + 1).map_values(|t: Seq<char>| item_of(t))
                        =~= tv.take(i as int).map_values(|t: Seq<char>| item_of(t)).push(
                        item_of(tv[i as int]),
                    ));
                }
                i = i + 1;
            }
            proof {
                assert(tv.take(n as int) =~= tv);
            }
            Ok(items)
        },
        Err(e) => Err(e),
    }
}

/// Whether `shape`'s path reads exactly `name`.
fn has_path(shape: &MetaShape, name: &str) -> (r: bool)
    ensures
        r == (shape_path(shape@) == name@),
{
    match shape {
        MetaShape::Path(p) => is_named(p, name),
        MetaShape::List(path) => is_named(path, name),
        MetaShape::NameValue { name: n, .. } => is_named(n, name),
    }
}

/// The argument lists of the attributes named `name` among `metas`, and the
/// diagnostic of the first whose arguments do not read; see [`read_attrs`].
pub fn read_attributes(metas: &Vec<String>, name: &str) -> (r: (
    Vec<Vec<MetaItem>>,
    Option<String>,
))
    ensures
        (attrs_view(r.0@), opt_text(r.1)) == read_attrs(texts_of(metas@), name@),
{
    let ghost mv = texts_of(metas@);
    let mut lists: Vec<Vec<MetaItem>> = Vec::new();
    let mut failure: Option<String> = None;
    let n = metas.len();
    let mut i: usize = 0;
    proof {
        assert(mv.take(0) =~= Seq::<Seq<char>>::empty());
        assert(attrs_view(lists@) =~= Seq::<Seq<MetaItemView>>::empty());
    }
    while i < n
        invariant
            n == metas@.len(),
            i <= n,
            mv == texts_of(metas@),
            (attrs_view(lists@), opt_text(failure)) == read_attrs(mv.take(i as int), name@),
        decreases n - i,
    {
        proof {
            assert(mv.take(i as int + 1).drop_last() =~= mv.take(i as int));
            assert(mv.take(i as int + 1).last() == metas@[i as int]@);
        }
        if failure.is_none() {
            match parse_meta(metas[i].as_str()) {
                Some(shape) => {
                    if has_path(&shape, name) {
                        match read_args(metas[i].as_str()) {
                            Ok(items) => {
                                let ghost before = lists@;
                                lists.push(items);
                                proof {
                                    assert(lists@ =~= before.push(items));
                                    assert(attrs_view(lists@) =~= attrs_view(before).push(
                                        metas_view(items),
                                    ));
                                }
                            },
                            Err(e) => {
                                failure = Some(e);
                            },
                        }
                    }
                },
                None => {},
            }
        }
        i = i + 1;
    }
    proof {
        assert(mv.take(n as int) =~= mv);
    }
    (lists, failure)
}

} // verus!
