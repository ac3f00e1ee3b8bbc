//! The rules of the `Composite` derive: which attributes a composite model
//! struct may carry, what each child field must declare, and the names of the
//! helpers generated per child.
//!
//! The derive reads a struct declaration: its name, its generics, the meta of
//! each attribute, and each field's name, type and attributes, all as source
//! text ([`CompositeSource`]). The attributes are read into argument values
//! (see the `attribute` module), which the rules then check
//! ([`CompositeInput`]). Every diagnostic is kept, in the order in which the
//! derive reports them.
use crate::attribute::{read_attrs, read_attributes};
use crate::key::{lemma_sibling_keys_distinct, segments_fit, spec_scoped, KeyView};
use crate::text::{copy_str, push_str, texts_of};
use vstd::prelude::*;
use vstd::string::*;

verus! {

/// The value given to a `name = value` attribute argument, with what it
/// reads as.
pub struct MetaValue {
    /// The value's source text.
    pub text: String,
    /// The contents of the value when it is a string literal.
    pub string_literal: Option<String>,
    /// Why the value does not read as a type; `None` when it does.
    pub type_error: Option<String>,
}

/// What a [`MetaValue`] holds.
pub ghost struct MetaValueView {
    pub text: Seq<char>,
    pub string_literal: Option<Seq<char>>,
    pub type_error: Option<Seq<char>>,
}

impl View for MetaValue {
    type V = MetaValueView;

    open spec fn view(&self) -> MetaValueView {
        MetaValueView {
            text: self.text@,
            string_literal: opt_text(self.string_literal),
            type_error: opt_text(self.type_error),
        }
    }
}

/// One argument of an attribute such as `#[child(path = "left", lift = ..)]`.
pub enum MetaItem {
    /// `name = value`.
    NameValue { name: String, value: MetaValue },
    /// A bare path, such as `strict`.
    Path(String),
    /// A list, such as `extra(..)`, by its path.
    List(String),
}

/// What a [`MetaItem`] holds.
pub ghost enum MetaItemView {
    NameValue { name: Seq<char>, value: MetaValueView },
    Path(Seq<char>),
    List(Seq<char>),
}

impl View for MetaItem {
    type V = MetaItemView;

    open spec fn view(&self) -> MetaItemView {
        match self {
            MetaItem::NameValue { name, value } => MetaItemView::NameValue {
                name: name@,
                value: value@,
            },
            MetaItem::Path(p) => MetaItemView::Path(p@),
            MetaItem::List(p) => MetaItemView::List(p@),
        }
    }
}

/// The arguments of one attribute, as views.
pub open spec fn metas_view(v: Vec<MetaItem>) -> Seq<MetaItemView> {
    v@.map_values(|m: MetaItem| m@)
}

/// The argument lists of several attributes, as views.
pub open spec fn attrs_view(a: Seq<Vec<MetaItem>>) -> Seq<Seq<MetaItemView>> {
    a.map_values(|v: Vec<MetaItem>| metas_view(v))
}

/// A field of the derived struct.
pub struct FieldInput {
    /// The field's name as the compiler spells it (`r#type` for a raw name);
    /// `None` for a positional field.
    pub ident: Option<String>,
    /// The field's type, as source text.
    pub ty: String,
    /// The argument lists of the field's `#[child(..)]` attributes, in order.
    pub child_attrs: Vec<Vec<MetaItem>>,
    /// The error of the first `#[child(..)]` attribute whose arguments do not
    /// read as a list of attribute arguments, if any.
    pub args_error: Option<String>,
}

/// What a [`FieldInput`] holds.
pub ghost struct FieldView {
    pub ident: Option<Seq<char>>,
    pub ty: Seq<char>,
    pub child_attrs: Seq<Seq<MetaItemView>>,
    pub args_error: Option<Seq<char>>,
}

impl View for FieldInput {
    type V = FieldView;

    open spec fn view(&self) -> FieldView {
        FieldView {
            ident: opt_text(self.ident),
            ty: self.ty@,
            child_attrs: attrs_view(self.child_attrs@),
            args_error: opt_text(self.args_error),
        }
    }
}

/// The views of a list of fields.
pub open spec fn fields_view(fs: Seq<FieldInput>) -> Seq<FieldView> {
    fs.map_values(|f: FieldInput| f@)
}

/// The body of the derived item.
pub enum FieldsInput {
    /// A struct with named fields.
    Named(Vec<FieldInput>),
    /// A tuple struct, a unit struct, an enum or a union.
    Unsupported,
}

/// The declaration that `#[derive(Composite)]` is applied to.
pub struct CompositeInput {
    /// The struct's name.
    pub ident: String,
    /// The struct's generic parameters, as source text.
    pub generics: String,
    /// The argument lists of the struct's `#[composite(..)]` attributes, in order.
    pub composite_attrs: Vec<Vec<MetaItem>>,
    /// The error of the first `#[composite(..)]` attribute whose arguments
    /// do not read as a list of attribute arguments, if any.
    pub args_error: Option<String>,
    pub fields: FieldsInput,
}

/// What a [`CompositeInput`] holds; `fields` is `None` for anything but a
/// struct with named fields.
pub ghost struct InputView {
    pub ident: Seq<char>,
    pub generics: Seq<char>,
    pub composite_attrs: Seq<Seq<MetaItemView>>,
    pub args_error: Option<Seq<char>>,
    pub fields: Option<Seq<FieldView>>,
}

impl View for CompositeInput {
    type V = InputView;

    open spec fn view(&self) -> InputView {
        InputView {
            ident: self.ident@,
            generics: self.generics@,
            composite_attrs: attrs_view(self.composite_attrs@),
            args_error: opt_text(self.args_error),
            fields: match self.fields {
                FieldsInput::Named(fs) => Some(fields_view(fs@)),
                FieldsInput::Unsupported => None,
            },
        }
    }
}

/// A child field and how messages cross its boundary.
pub struct ChildSpec {
    pub field_ident: String,
    pub field_ty: String,
    /// The child path segment used for key scoping.
    pub path: String,
    /// The expression that lifts child messages into parent messages.
    pub lift: String,
    /// The expression that extracts a child message from a parent message.
    pub extract: String,
}

/// A parsed composite model.
pub struct CompositeSpec {
    pub struct_ident: String,
    pub generics: String,
    pub message_ty: String,
    pub children: Vec<ChildSpec>,
}

/// The diagnostics of a rejected declaration, in the order reported.
pub struct CompositeErrors {
    pub messages: Vec<String>,
}

/// What a [`ChildSpec`] holds.
pub ghost struct ChildView {
    pub field_ident: Seq<char>,
    pub field_ty: Seq<char>,
    pub path: Seq<char>,
    pub lift: Seq<char>,
    pub extract: Seq<char>,
}

/// What a [`CompositeSpec`] holds.
pub ghost struct CompositeView {
    pub struct_ident: Seq<char>,
    pub generics: Seq<char>,
    pub message_ty: Seq<char>,
    pub children: Seq<ChildView>,
}

impl View for ChildSpec {
    type V = ChildView;

    open spec fn view(&self) -> ChildView {
        ChildView {
            field_ident: self.field_ident@,
            field_ty: self.field_ty@,
            path: self.path@,
            lift: self.lift@,
            extract: self.extract@,
        }
    }
}

/// The views of a list of children.
pub open spec fn children_view(cs: Seq<ChildSpec>) -> Seq<ChildView> {
    cs.map_values(|c: ChildSpec| c@)
}

impl View for CompositeSpec {
    type V = CompositeView;

    open spec fn view(&self) -> CompositeView {
        CompositeView {
            struct_ident: self.struct_ident@,
            generics: self.generics@,
            message_ty: self.message_ty@,
            children: children_view(self.children@),
        }
    }
}

impl View for CompositeErrors {
    type V = Seq<Seq<char>>;

    open spec fn view(&self) -> Seq<Seq<char>> {
        texts_of(self.messages@)
    }
}

/// An optional string, by its characters.
pub open spec fn opt_text(o: Option<String>) -> Option<Seq<char>> {
    match o {
        Some(s) => Some(s@),
        None => None,
    }
}


// ---------------------------------------------------------------------------
// Diagnostics
// ---------------------------------------------------------------------------

/// "missing `<what>`"
pub open spec fn missing_text(what: Seq<char>) -> Seq<char> {
    "missing `"@ + what + "`"@
}

/// "duplicate `<what>` attribute"
pub open spec fn duplicate_text(what: Seq<char>) -> Seq<char> {
    "duplicate `"@ + what + "` attribute"@
}

/// "unsupported `<what>` attribute"
pub open spec fn unsupported_text(what: Seq<char>) -> Seq<char> {
    "unsupported `"@ + what + "` attribute"@
}

/// "duplicate generated helper name `<name>`"
pub open spec fn duplicate_helper_text(name: Seq<char>) -> Seq<char> {
    "duplicate generated helper name `"@ + name + "`"@
}

/// "duplicate child path `<path>` for fields `<first>` and `<second>`"
pub open spec fn duplicate_path_text(path: Seq<char>, first: Seq<char>, second: Seq<char>) -> Seq<
    char,
> {
    "duplicate child path `"@ + path + "` for fields `"@ + first + "` and `"@ + second + "`"@
}

/// The diagnostic for a `path` that is not a string literal.
pub open spec fn path_literal_text() -> Seq<char> {
    "`path` must be a string literal"@
}

/// The diagnostic for a derive on anything but a struct with named fields.
pub open spec fn named_struct_text() -> Seq<char> {
    "`Composite` supports only structs with named fields"@
}

/// The diagnostic for a positional child field.
pub open spec fn named_field_text() -> Seq<char> {
    "`Composite` supports only named child fields"@
}

/// `open`, then `middle`, then `close`.
pub(crate) fn wrap_text(open: &str, middle: &str, close: &str) -> (s: String)
    ensures
        s@ == open@ + middle@ + close@,
{
    let mut s = copy_str(open);
    push_str(&mut s, middle);
    push_str(&mut s, close);
    s
}

/// Whether `name` reads exactly `expected`.
pub(crate) fn is_named(name: &String, expected: &str) -> (r: bool)
    ensures
        r == (name@ == expected@),
{
    *name == copy_str(expected)
}

// ---------------------------------------------------------------------------
// Generated helper names
// ---------------------------------------------------------------------------

/// A field name without the `r#` prefix of a raw identifier.
pub open spec fn sanitized(name: Seq<char>) -> Seq<char> {
    if name.len() >= 2 && name[0] == 'r' && name[1] == '#' {
        name.subrange(2, name.len() as int)
    } else {
        name
    }
}

/// The name of the view helper generated for a child field.
pub open spec fn view_name(field: Seq<char>) -> Seq<char> {
    sanitized(field) + "_view"@
}

/// The name of the bindings helper generated for a child field.
pub open spec fn bindings_name(field: Seq<char>) -> Seq<char> {
    "__"@ + sanitized(field) + "_composite_bindings"@
}

/// `name` without the `r#` prefix of a raw identifier.
fn sanitized_field_name(name: &str) -> (s: String)
    ensures
        s@ == sanitized(name@),
{
    let n = name.unicode_len();
    if n >= 2 && name.get_char(0) == 'r' && name.get_char(1) == '#' {
        copy_str(name.substring_char(2, n))
    } else {
        copy_str(name)
    }
}

impl ChildSpec {
    /// The name of the view helper generated for this child: the field name,
    /// without a raw-identifier prefix, followed by `_view`.
    pub fn view_method_name(&self) -> (s: String)
        ensures
            s@ == view_name(self.field_ident@),
    {
        let mut s = sanitized_field_name(self.field_ident.as_str());
        push_str(&mut s, "_view");
        s
    }

    /// The name of the bindings helper generated for this child:
    /// `__<field>_composite_bindings`, the field name without a
    /// raw-identifier prefix.
    pub fn bindings_method_name(&self) -> (s: String)
        ensures
            s@ == bindings_name(self.field_ident@),
    {
        let base = sanitized_field_name(self.field_ident.as_str());
        wrap_text("__", base.as_str(), "_composite_bindings")
    }
}

// ---------------------------------------------------------------------------
// `#[composite(..)]`
// ---------------------------------------------------------------------------

/// The message type found so far and the diagnostics so far.
pub type MessageState = (Option<Seq<char>>, Seq<Seq<char>>);

/// One argument of `#[composite(..)]`: `message = <type>` sets the message
/// type, once; anything else is reported.
pub open spec fn composite_step(st: MessageState, meta: MetaItemView) -> MessageState {
    match meta {
        MetaItemView::NameValue { name, value } => if name == "message"@ {
            if st.0 is Some {
                (st.0, st.1.push(duplicate_text("message"@)))
            } else {
                match value.type_error {
                    None => (Some(value.text), st.1),
                    Some(e) => (st.0, st.1.push(e)),
                }
            }
        } else {
            (st.0, st.1.push(unsupported_text("composite"@)))
        },
        _ => (st.0, st.1.push(unsupported_text("composite"@))),
    }
}

/// The arguments of one `#[composite(..)]` attribute, in order.
pub open spec fn composite_metas(st: MessageState, metas: Seq<MetaItemView>) -> MessageState
    decreases metas.len(),
{
    if metas.len() == 0 {
        st
    } else {
        composite_step(composite_metas(st, metas.drop_last()), metas.last())
    }
}

/// Every `#[composite(..)]` attribute, in order.
pub open spec fn composite_attrs_state(attrs: Seq<Seq<MetaItemView>>) -> MessageState
    decreases attrs.len(),
{
    if attrs.len() == 0 {
        (None, Seq::empty())
    } else {
        composite_metas(composite_attrs_state(attrs.drop_last()), attrs.last())
    }
}

/// The message type of a composite, or its diagnostics: the error of
/// arguments that do not read as such, if any; otherwise those of the
/// arguments, then `missing `message`` when none was given.
pub open spec fn message_outcome(attrs: Seq<Seq<MetaItemView>>, args_error: Option<Seq<char>>) -> Result<
    Seq<char>,
    Seq<Seq<char>>,
> {
    let st = composite_attrs_state(attrs);
    let errors = if st.0 is None {
        st.1.push(missing_text("message"@))
    } else {
        st.1
    };
    if args_error is Some {
        Err(seq![args_error->0])
    } else if errors.len() > 0 {
        Err(errors)
    } else {
        Ok(st.0->0)
    }
}

/// Pushes `s` onto `v`, keeping the texts in step.
fn push_text(v: &mut Vec<String>, s: String)
    ensures
        texts_of(final(v)@) == texts_of(old(v)@).push(s@),
        final(v)@.len() == old(v)@.len() + 1,
{
    v.push(s);
    proof {
        assert(texts_of(final(v)@) =~= texts_of(old(v)@).push(s@));
    }
}

/// Applies one `#[composite(..)]` argument.
fn composite_meta(meta: &MetaItem, message: &mut Option<String>, errors: &mut Vec<String>)
    ensures
        composite_step((opt_text(*old(message)), texts_of(old(errors)@)), meta@) == (
        opt_text(*final(message)), texts_of(final(errors)@)),
{
    match meta {
        MetaItem::NameValue { name, value } => {
            if is_named(name, "message") {
                if message.is_some() {
                    push_text(errors, wrap_text("duplicate `", "message", "` attribute"));
                } else {
                    match &value.type_error {
                        None => {
                            *message = Some(copy_str(value.text.as_str()));
                        },
                        Some(e) => {
                            push_text(errors, copy_str(e.as_str()));
                        },
                    }
                }
            } else {
                push_text(errors, wrap_text("unsupported `", "composite", "` attribute"));
            }
        },
        _ => {
            push_text(errors, wrap_text("unsupported `", "composite", "` attribute"));
        },
    }
}

/// The message type of a composite, from its `#[composite(..)]` attributes.
fn parse_message_type(attrs: &Vec<Vec<MetaItem>>, args_error: &Option<String>) -> (r: Result<
    String,
    Vec<String>,
>)
    ensures
        match r {
            Ok(t) => message_outcome(attrs_view(attrs@), opt_text(*args_error)) == Ok::<
                Seq<char>,
                Seq<Seq<char>>,
            >(t@),
            Err(e) => message_outcome(attrs_view(attrs@), opt_text(*args_error)) == Err::<
                Seq<char>,
                Seq<Seq<char>>,
            >(texts_of(e@)),
        },
{
    if let Some(e) = args_error {
        let mut errors: Vec<String> = Vec::new();
        push_text(&mut errors, copy_str(e.as_str()));
        proof {
            assert(texts_of(errors@) =~= seq![e@]);
        }
        return Err(errors);
    }
    let ghost av = attrs_view(attrs@);
    let mut message: Option<String> = None;
    let mut errors: Vec<String> = Vec::new();
    let n = attrs.len();
    let mut i: usize = 0;
    while i < n
        invariant
            n == attrs@.len(),
            i <= n,
            av == attrs_view(attrs@),
            (opt_text(message), texts_of(errors@)) == composite_attrs_state(av.take(i as int)),
        decreases n - i,
    {
        let metas = &attrs[i];
        let ghost mv = metas_view(*metas);
        let m = metas.len();
        let mut j: usize = 0;
        proof {
            assert(av.take(i as int + 1).drop_last() =~= av.take(i as int));
            assert(mv.take(0) =~= Seq::<MetaItemView>::empty());
        }
        while j < m
            invariant
                n == attrs@.len(),
                i < n,
                m == metas@.len(),
                metas == attrs@[i as int],
                mv == metas_view(*metas),
                j <= m,
                (opt_text(message), texts_of(errors@)) == composite_metas(
                    composite_attrs_state(av.take(i as int)),
                    mv.take(j as int),
                ),
            decreases m - j,
        {
            composite_meta(&metas[j], &mut message, &mut errors);
            proof {
                assert(mv.take(j as int + 1).drop_last() =~= mv.take(j as int));
            }
            j = j + 1;
        }
        proof {
            assert(mv.take(m as int) =~= mv);
            assert(av.take(i as int + 1).last() == mv);
        }
        i = i + 1;
    }
    proof {
        assert(av.take(n as int) =~= av);
    }
    if message.is_none() {
        push_text(&mut errors, wrap_text("missing `", "message", "`"));
    }
    if errors.len() > 0 {
        Err(errors)
    } else {
        match message {
            Some(t) => Ok(t),
            None => {
                proof {
                    assert(false);
                }
                Err(errors)
            },
        }
    }
}

// ---------------------------------------------------------------------------
// `#[child(..)]`
// ---------------------------------------------------------------------------

/// What the `#[child(..)]` arguments of one field have given so far.
pub ghost struct ChildState {
    /// Whether a `path = ..` argument was seen, valid or not.
    pub saw_path: bool,
    pub path: Option<Seq<char>>,
    pub lift: Option<Seq<char>>,
    pub extract: Option<Seq<char>>,
    pub errors: Seq<Seq<char>>,
}

/// Before any `#[child(..)]` argument.
pub open spec fn child_initial() -> ChildState {
    ChildState { saw_path: false, path: None, lift: None, extract: None, errors: Seq::empty() }
}

/// `st` with `e` reported.
pub open spec fn child_report(st: ChildState, e: Seq<char>) -> ChildState {
    ChildState {
        saw_path: st.saw_path,
        path: st.path,
        lift: st.lift,
        extract: st.extract,
        errors: st.errors.push(e),
    }
}

/// One argument of `#[child(..)]`: `path` takes a string literal, `lift` and
/// `extract` take any expression, each once; anything else is reported.
pub open spec fn child_step(st: ChildState, meta: MetaItemView) -> ChildState {
    match meta {
        MetaItemView::NameValue { name, value } => if name == "path"@ {
            let seen = ChildState {
                saw_path: true,
                path: st.path,
                lift: st.lift,
                extract: st.extract,
                errors: st.errors,
            };
            if st.path is Some {
                child_report(seen, duplicate_text("path"@))
            } else {
                match value.string_literal {
                    Some(p) => ChildState {
                        saw_path: true,
                        path: Some(p),
                        lift: st.lift,
                        extract: st.extract,
                        errors: st.errors,
                    },
                    None => child_report(seen, path_literal_text()),
                }
            }
        } else if name == "lift"@ {
            if st.lift is Some {
                child_report(st, duplicate_text("lift"@))
            } else {
                ChildState {
                    saw_path: st.saw_path,
                    path: st.path,
                    lift: Some(value.text),
                    extract: st.extract,
                    errors: st.errors,
                }
            }
        } else if name == "extract"@ {
            if st.extract is Some {
                child_report(st, duplicate_text("extract"@))
            } else {
                ChildState {
                    saw_path: st.saw_path,
                    path: st.path,
                    lift: st.lift,
                    extract: Some(value.text),
                    errors: st.errors,
                }
            }
        } else {
            child_report(st, unsupported_text("child"@))
        },
        _ => child_report(st, unsupported_text("child"@)),
    }
}

/// The arguments of one `#[child(..)]` attribute, in order.
pub open spec fn child_metas(st: ChildState, metas: Seq<MetaItemView>) -> ChildState
    decreases metas.len(),
{
    if metas.len() == 0 {
        st
    } else {
        child_step(child_metas(st, metas.drop_last()), metas.last())
    }
}

/// Every `#[child(..)]` attribute of a field, in order.
pub open spec fn child_attrs_state(attrs: Seq<Seq<MetaItemView>>) -> ChildState
    decreases attrs.len(),
{
    if attrs.len() == 0 {
        child_initial()
    } else {
        child_metas(child_attrs_state(attrs.drop_last()), attrs.last())
    }
}

/// A field's outcome: not a child (`Ok(None)`), a child, or its diagnostics.
/// A positional field is refused; a `#[child(..)]` attribute whose
/// arguments do not read as such gives its error alone; a field with
/// `#[child(..)]` must give `path`, `lift` and `extract`, and each one
/// missing is reported after the diagnostics of the arguments.
pub open spec fn child_outcome(field: FieldView) -> Result<Option<ChildView>, Seq<Seq<char>>> {
    match field.ident {
        None => Err(seq![named_field_text()]),
        Some(id) => if field.args_error is Some {
            Err(seq![field.args_error->0])
        } else if field.child_attrs.len() == 0 {
            Ok(None)
        } else {
            let st = child_attrs_state(field.child_attrs);
            let e1 = if st.saw_path {
                st.errors
            } else {
                st.errors.push(missing_text("path"@))
            };
            let e2 = if st.lift is Some {
                e1
            } else {
                e1.push(missing_text("lift"@))
            };
            let e3 = if st.extract is Some {
                e2
            } else {
                e2.push(missing_text("extract"@))
            };
            if e3.len() > 0 {
                Err(e3)
            } else {
                Ok(
                    Some(
                        ChildView {
                            field_ident: id,
                            field_ty: field.ty,
                            path: st.path->0,
                            lift: st.lift->0,
                            extract: st.extract->0,
                        },
                    ),
                )
            }
        },
    }
}

/// The state that the exec values of a field's parse stand for.
pub open spec fn child_state_of(
    saw_path: bool,
    path: Option<String>,
    lift: Option<String>,
    extract: Option<String>,
    errors: Seq<String>,
) -> ChildState {
    ChildState {
        saw_path,
        path: opt_text(path),
        lift: opt_text(lift),
        extract: opt_text(extract),
        errors: texts_of(errors),
    }
}

/// Applies one `#[child(..)]` argument.
fn child_meta(
    meta: &MetaItem,
    saw_path: &mut bool,
    path: &mut Option<String>,
    lift: &mut Option<String>,
    extract: &mut Option<String>,
    errors: &mut Vec<String>,
)
    ensures
        child_step(
            child_state_of(*old(saw_path), *old(path), *old(lift), *old(extract), old(errors)@),
            meta@,
        ) == child_state_of(
            *final(saw_path),
            *final(path),
            *final(lift),
            *final(extract),
            final(errors)@,
        ),
        (*old(saw_path) ==> *old(path) is Some || old(errors)@.len() > 0) ==> (*final(saw_path)
            ==> *final(path) is Some || final(errors)@.len() > 0),
{
    match meta {
        MetaItem::NameValue { name, value } => {
            if is_named(name, "path") {
                *saw_path = true;
                if path.is_some() {
                    push_text(errors, wrap_text("duplicate `", "path", "` attribute"));
                } else {
                    match &value.string_literal {
                        Some(p) => {
                            *path = Some(copy_str(p.as_str()));
                        },
                        None => {
                            push_text(errors, copy_str("`path` must be a string literal"));
                        },
                    }
                }
            } else if is_named(name, "lift") {
                if lift.is_some() {
                    push_text(errors, wrap_text("duplicate `", "lift", "` attribute"));
                } else {
                    *lift = Some(copy_str(value.text.as_str()));
                }
            } else if is_named(name, "extract") {
                if extract.is_some() {
                    push_text(errors, wrap_text("duplicate `", "extract", "` attribute"));
                } else {
                    *extract = Some(copy_str(value.text.as_str()));
                }
            } else {
                push_text(errors, wrap_text("unsupported `", "child", "` attribute"));
            }
        },
        _ => {
            push_text(errors, wrap_text("unsupported `", "child", "` attribute"));
        },
    }
}

/// A field's outcome; see [`child_outcome`].
pub fn parse_child(field: &FieldInput) -> (r: Result<Option<ChildSpec>, CompositeErrors>)
    ensures
        match r {
            Ok(None) => child_outcome(field@) == Ok::<Option<ChildView>, Seq<Seq<char>>>(None),
            Ok(Some(c)) => child_outcome(field@) == Ok::<Option<ChildView>, Seq<Seq<char>>>(
                Some(c@),
            ),
            Err(e) => child_outcome(field@) == Err::<Option<ChildView>, Seq<Seq<char>>>(e@),
        },
{
    let ident = match &field.ident {
        Some(id) => id,
        None => {
            let mut messages: Vec<String> = Vec::new();
            push_text(&mut messages, copy_str("`Composite` supports only named child fields"));
            proof {
                assert(texts_of(messages@) =~= seq![named_field_text()]);
            }
            return Err(CompositeErrors { messages });
        },
    };
    if let Some(e) = &field.args_error {
        let mut messages: Vec<String> = Vec::new();
        push_text(&mut messages, copy_str(e.as_str()));
        proof {
            assert(texts_of(messages@) =~= seq![e@]);
        }
        return Err(CompositeErrors { messages });
    }
    let attrs = &field.child_attrs;
    let ghost av = attrs_view(attrs@);
    let n = attrs.len();
    if n == 0 {
        return Ok(None);
    }
    let mut saw_path = false;
    let mut path: Option<String> = None;
    let mut lift: Option<String> = None;
    let mut extract: Option<String> = None;
    let mut errors: Vec<String> = Vec::new();
    let mut i: usize = 0;
    proof {
        assert(texts_of(errors@) =~= Seq::<Seq<char>>::empty());
        assert(av.take(0) =~= Seq::<Seq<MetaItemView>>::empty());
    }
    while i < n
        invariant
            n == attrs@.len(),
            i <= n,
            av == attrs_view(attrs@),
            child_state_of(saw_path, path, lift, extract, errors@) == child_attrs_state(
                av.take(i as int),
            ),
            saw_path ==> path is Some || errors@.len() > 0,
        decreases n - i,
    {
        let metas = &attrs[i];
        let ghost mv = metas_view(*metas);
        let m = metas.len();
        let mut j: usize = 0;
        proof {
            assert(av.take(i as int + 1).drop_last() =~= av.take(i as int));
            assert(mv.take(0) =~= Seq::<MetaItemView>::empty());
        }
        while j < m
            invariant
                n == attrs@.len(),
                i < n,
                m == metas@.len(),
                metas == attrs@[i as int],
                mv == metas_view(*metas),
                j <= m,
                child_state_of(saw_path, path, lift, extract, errors@) == child_metas(
                    child_attrs_state(av.take(i as int)),
                    mv.take(j as int),
                ),
                saw_path ==> path is Some || errors@.len() > 0,
            decreases m - j,
        {
            child_meta(&metas[j], &mut saw_path, &mut path, &mut lift, &mut extract, &mut errors);
            proof {
                assert(mv.take(j as int + 1).drop_last() =~= mv.take(j as int));
            }
            j = j + 1;
        }
        proof {
            assert(mv.take(m as int) =~= mv);
            assert(av.take(i as int + 1).last() == mv);
        }
        i = i + 1;
    }
    proof {
        assert(av.take(n as int) =~= av);
    }
    if !saw_path {
        push_text(&mut errors, wrap_text("missing `", "path", "`"));
    }
    if lift.is_none() {
        push_text(&mut errors, wrap_text("missing `", "lift", "`"));
    }
    if extract.is_none() {
        push_text(&mut errors, wrap_text("missing `", "extract", "`"));
    }
    if errors.len() > 0 {
        return Err(CompositeErrors { messages: errors });
    }
    match (path, lift, extract) {
        (Some(path), Some(lift), Some(extract)) => Ok(
            Some(
                ChildSpec {
                    field_ident: copy_str(ident.as_str()),
                    field_ty: copy_str(field.ty.as_str()),
                    path,
                    lift,
                    extract,
                },
            ),
        ),
        _ => {
            proof {
                assert(false);
            }
            Err(CompositeErrors { messages: errors })
        },
    }
}

// ---------------------------------------------------------------------------
// Fields and children
// ---------------------------------------------------------------------------

/// The children found so far and the diagnostics so far.
pub ghost struct ChildrenState {
    pub children: Seq<ChildView>,
    pub errors: Seq<Seq<char>>,
}

/// Every field, in order: children are kept, the diagnostics of each
/// rejected field are appended.
pub open spec fn children_state(fields: Seq<FieldView>) -> ChildrenState
    decreases fields.len(),
{
    if fields.len() == 0 {
        ChildrenState { children: Seq::empty(), errors: Seq::empty() }
    } else {
        let st = children_state(fields.drop_last());
        match child_outcome(fields.last()) {
            Ok(Some(c)) => ChildrenState { children: st.children.push(c), errors: st.errors },
            Ok(None) => st,
            Err(e) => ChildrenState { children: st.children, errors: st.errors + e },
        }
    }
}

/// One diagnostic for each child whose view helper name an earlier child
/// already takes.
pub open spec fn helper_errors(cs: Seq<ChildView>) -> Seq<Seq<char>>
    decreases cs.len(),
{
    if cs.len() == 0 {
        Seq::empty()
    } else {
        let prev = helper_errors(cs.drop_last());
        let name = view_name(cs.last().field_ident);
        if exists|j: int| 0 <= j < cs.len() - 1 && #[trigger] view_name(cs[j].field_ident) == name {
            prev.push(duplicate_helper_text(name))
        } else {
            prev
        }
    }
}

/// The position of the last child with path `p`, or -1.
pub open spec fn last_with_path(cs: Seq<ChildView>, p: Seq<char>) -> int
    decreases cs.len(),
{
    if cs.len() == 0 {
        -1
    } else if cs.last().path == p {
        cs.len() - 1
    } else {
        last_with_path(cs.drop_last(), p)
    }
}

/// One diagnostic for each child whose path an earlier child already uses,
/// naming the latest such earlier child.
pub open spec fn path_errors(cs: Seq<ChildView>) -> Seq<Seq<char>>
    decreases cs.len(),
{
    if cs.len() == 0 {
        Seq::empty()
    } else {
        let prev = path_errors(cs.drop_last());
        let c = cs.last();
        let j = last_with_path(cs.drop_last(), c.path);
        if j >= 0 {
            prev.push(duplicate_path_text(c.path, cs[j].field_ident, c.field_ident))
        } else {
            prev
        }
    }
}

/// The children of a struct with named fields, or every diagnostic: those of
/// the fields, then helper name collisions, then path collisions.
pub open spec fn children_outcome(fields: Seq<FieldView>) -> Result<
    Seq<ChildView>,
    Seq<Seq<char>>,
> {
    let st = children_state(fields);
    let errors = st.errors + helper_errors(st.children) + path_errors(st.children);
    if errors.len() > 0 {
        Err(errors)
    } else {
        Ok(st.children)
    }
}

/// The outcome of deriving `Composite` on `input`: its message type comes
/// first, then its shape, then its children.
pub open spec fn composite_outcome(input: InputView) -> Result<CompositeView, Seq<Seq<char>>> {
    match message_outcome(input.composite_attrs, input.args_error) {
        Err(e) => Err(e),
        Ok(m) => match input.fields {
            None => Err(seq![named_struct_text()]),
            Some(fs) => match children_outcome(fs) {
                Err(e) => Err(e),
                Ok(cs) => Ok(
                    CompositeView {
                        struct_ident: input.ident,
                        generics: input.generics,
                        message_ty: m,
                        children: cs,
                    },
                ),
            },
        },
    }
}

/// Appends every message of `more` to `v`.
fn append_texts(v: &mut Vec<String>, more: &Vec<String>)
    ensures
        texts_of(final(v)@) == texts_of(old(v)@) + texts_of(more@),
{
    let ghost start = texts_of(v@);
    let ghost all = texts_of(more@);
    let n = more.len();
    let mut i: usize = 0;
    while i < n
        invariant
            n == more@.len(),
            i <= n,
            all == texts_of(more@),
            texts_of(v@) == start + all.take(i as int),
        decreases n - i,
    {
        proof {
            assert(all.take(i as int + 1) =~= all.take(i as int).push(more@[i as int]@));
        }
        push_text(v, copy_str(more[i].as_str()));
        i = i + 1;
    }
    proof {
        assert(all.take(n as int) =~= all);
    }
}

/// Reports each child whose view helper name an earlier child already takes.
pub fn ensure_unique_view_method_names(children: &[ChildSpec]) -> (r: Result<(), CompositeErrors>)
    ensures
        match r {
            Ok(()) => helper_errors(children_view(children@)).len() == 0,
            Err(e) => e@ == helper_errors(children_view(children@)) && e@.len() > 0,
        },
{
    let ghost cs = children_view(children@);
    let n = children.len();
    let mut names: Vec<String> = Vec::new();
    let mut errors: Vec<String> = Vec::new();
    let mut k: usize = 0;
    proof {
        assert(texts_of(errors@) =~= Seq::<Seq<char>>::empty());
    }
    while k < n
        invariant
            n == children@.len(),
            cs == children_view(children@),
            k <= n,
            names@.len() == k,
            forall|j: int| 0 <= j < k ==> #[trigger] names@[j]@ == view_name(cs[j].field_ident),
            texts_of(errors@) == helper_errors(cs.take(k as int)),
        decreases n - k,
    {
        let name = children[k].view_method_name();
        let mut seen = false;
        let mut j: usize = 0;
        while j < k
            invariant
                n == children@.len(),
                cs == children_view(children@),
                k < n,
                j <= k,
                names@.len() == k,
                forall|i: int| 0 <= i < k ==> #[trigger] names@[i]@ == view_name(cs[i].field_ident),
                name@ == view_name(cs[k as int].field_ident),
                seen == exists|i: int| 0 <= i < j && #[trigger] view_name(cs[i].field_ident) == name@,
            decreases k - j,
        {
            if names[j] == name {
                seen = true;
            }
            j = j + 1;
        }
        proof {
            let t = cs.take(k as int + 1);
            assert(t.drop_last() =~= cs.take(k as int));
            assert(t.last() == cs[k as int]);
            assert forall|i: int| 0 <= i < t.len() - 1 implies #[trigger] view_name(t[i].field_ident)
                == view_name(cs[i].field_ident) by {}
            if seen {
                let i = choose|i: int| 0 <= i < k && #[trigger] view_name(cs[i].field_ident) == name@;
                assert(view_name(t[i].field_ident) == name@);
            }
        }
        if seen {
            push_text(
                &mut errors,
                wrap_text("duplicate generated helper name `", name.as_str(), "`"),
            );
        }
        names.push(name);
        k = k + 1;
    }
    proof {
        assert(cs.take(n as int) =~= cs);
    }
    if errors.len() > 0 {
        Err(CompositeErrors { messages: errors })
    } else {
        Ok(())
    }
}

/// Reports each child whose path an earlier child already uses.
pub fn ensure_unique_child_paths(children: &[ChildSpec]) -> (r: Result<(), CompositeErrors>)
    ensures
        match r {
            Ok(()) => path_errors(children_view(children@)).len() == 0,
            Err(e) => e@ == path_errors(children_view(children@)) && e@.len() > 0,
        },
{
    let ghost cs = children_view(children@);
    let n = children.len();
    let mut errors: Vec<String> = Vec::new();
    let mut k: usize = 0;
    proof {
        assert(texts_of(errors@) =~= Seq::<Seq<char>>::empty());
    }
    while k < n
        invariant
            n == children@.len(),
            cs == children_view(children@),
            k <= n,
            texts_of(errors@) == path_errors(cs.take(k as int)),
        decreases n - k,
    {
        let child = &children[k];
        let mut found: Option<usize> = None;
        let mut j: usize = 0;
        proof {
            assert(cs.take(0) =~= Seq::<ChildView>::empty());
        }
        while j < k
            invariant
                n == children@.len(),
                cs == children_view(children@),
                k < n,
                j <= k,
                *child == children@[k as int],
                match found {
                    Some(f) => f as int == last_with_path(cs.take(j as int), child.path@),
                    None => last_with_path(cs.take(j as int), child.path@) == -1,
                },
                found is Some ==> found->0 < j,
            decreases k - j,
        {
            proof {
                assert(cs.take(j as int + 1).drop_last() =~= cs.take(j as int));
            }
            if children[j].path == child.path {
                found = Some(j);
            }
            j = j + 1;
        }
        proof {
            let t = cs.take(k as int + 1);
            assert(t.drop_last() =~= cs.take(k as int));
            assert(t.last() == cs[k as int]);
        }
        match found {
            Some(f) => {
                let mut text = wrap_text("duplicate child path `", child.path.as_str(), "` for fields `");
                push_str(&mut text, children[f].field_ident.as_str());
                push_str(&mut text, "` and `");
                push_str(&mut text, child.field_ident.as_str());
                push_str(&mut text, "`");
                proof {
                    let t = cs.take(k as int + 1);
                    assert(t[f as int] == cs[f as int]);
                    assert(text@ =~= duplicate_path_text(
                        cs[k as int].path,
                        cs[f as int].field_ident,
                        cs[k as int].field_ident,
                    ));
                }
                push_text(&mut errors, text);
            },
            None => {},
        }
        k = k + 1;
    }
    proof {
        assert(cs.take(n as int) =~= cs);
    }
    if errors.len() > 0 {
        Err(CompositeErrors { messages: errors })
    } else {
        Ok(())
    }
}

/// The children of a struct with named fields; see [`children_outcome`].
pub fn parse_children(fields: &Vec<FieldInput>) -> (r: Result<Vec<ChildSpec>, CompositeErrors>)
    ensures
        match r {
            Ok(cs) => children_outcome(fields_view(fields@)) == Ok::<
                Seq<ChildView>,
                Seq<Seq<char>>,
            >(children_view(cs@)),
            Err(e) => children_outcome(fields_view(fields@)) == Err::<
                Seq<ChildView>,
                Seq<Seq<char>>,
            >(e@),
        },
{
    let ghost fv = fields_view(fields@);
    let n = fields.len();
    let mut children: Vec<ChildSpec> = Vec::new();
    let mut errors: Vec<String> = Vec::new();
    let mut i: usize = 0;
    proof {
        assert(fv.take(0) =~= Seq::<FieldView>::empty());
        assert(children_view(children@) =~= Seq::<ChildView>::empty());
        assert(texts_of(errors@) =~= Seq::<Seq<char>>::empty());
    }
    while i < n
        invariant
            n == fields@.len(),
            i <= n,
            fv == fields_view(fields@),
            children_view(children@) == children_state(fv.take(i as int)).children,
            texts_of(errors@) == children_state(fv.take(i as int)).errors,
        decreases n - i,
    {
        proof {
            assert(fv.take(i as int + 1).drop_last() =~= fv.take(i as int));
            assert(fv.take(i as int + 1).last() == fields@[i as int]@);
        }
        match parse_child(&fields[i]) {
            Ok(Some(c)) => {
                let ghost before = children@;
                children.push(c);
                proof {
                    assert(children_view(children@) =~= children_view(before).push(c@));
                }
            },
            Ok(None) => {},
            Err(e) => {
                append_texts(&mut errors, &e.messages);
            },
        }
        i = i + 1;
    }
    proof {
        assert(fv.take(n as int) =~= fv);
    }
    match ensure_unique_view_method_names(children.as_slice()) {
        Ok(()) => {},
        Err(e) => {
            append_texts(&mut errors, &e.messages);
        },
    }
    match ensure_unique_child_paths(children.as_slice()) {
        Ok(()) => {},
        Err(e) => {
            append_texts(&mut errors, &e.messages);
        },
    }
    proof {
        let st = children_state(fv);
        assert(texts_of(errors@) =~= st.errors + helper_errors(st.children) + path_errors(
            st.children,
        ));
    }
    if errors.len() > 0 {
        Err(CompositeErrors { messages: errors })
    } else {
        Ok(children)
    }
}

/// Derives the composite description of `input`, or reports why it cannot.
pub fn parse_composite(input: CompositeInput) -> (r: Result<CompositeSpec, CompositeErrors>)
    ensures
        match r {
            Ok(spec) => composite_outcome(input@) == Ok::<CompositeView, Seq<Seq<char>>>(spec@),
            Err(e) => composite_outcome(input@) == Err::<CompositeView, Seq<Seq<char>>>(e@),
        },
{
    let CompositeInput { ident, generics, composite_attrs, args_error, fields } = input;
    let message_ty = match parse_message_type(&composite_attrs, &args_error) {
        Ok(t) => t,
        Err(messages) => {
            return Err(CompositeErrors { messages });
        },
    };
    match fields {
        FieldsInput::Unsupported => {
            let mut messages: Vec<String> = Vec::new();
            push_text(
                &mut messages,
                copy_str("`Composite` supports only structs with named fields"),
            );
            proof {
                assert(texts_of(messages@) =~= seq![named_struct_text()]);
            }
            Err(CompositeErrors { messages })
        },
        FieldsInput::Named(fs) => match parse_children(&fs) {
            Err(e) => Err(e),
            Ok(children) => Ok(
                CompositeSpec { struct_ident: ident, generics, message_ty, children },
            ),
        },
    }
}

// ---------------------------------------------------------------------------
// From the declaration's source
// ---------------------------------------------------------------------------

/// A field of the derived struct as the derive receives it.
pub struct FieldSource {
    /// The field's name as the compiler spells it; `None` for a positional
    /// field.
    pub ident: Option<String>,
    /// The field's type, as source text.
    pub ty: String,
    /// The source text of the meta of each of the field's attributes, in
    /// order, such as `child(path = "left", lift = L, extract = E)`.
    pub attrs: Vec<String>,
}

/// What a [`FieldSource`] holds.
pub ghost struct FieldSourceView {
    pub ident: Option<Seq<char>>,
    pub ty: Seq<char>,
    pub attrs: Seq<Seq<char>>,
}

impl View for FieldSource {
    type V = FieldSourceView;

    open spec fn view(&self) -> FieldSourceView {
        FieldSourceView { ident: opt_text(self.ident), ty: self.ty@, attrs: texts_of(self.attrs@) }
    }
}

/// The body of the derived item as the derive receives it.
pub enum FieldsSource {
    /// A struct with named fields.
    Named(Vec<FieldSource>),
    /// A tuple struct, a unit struct, an enum or a union.
    Unsupported,
}

/// The declaration that `#[derive(Composite)]` is applied to, as source text.
pub struct CompositeSource {
    /// The struct's name.
    pub ident: String,
    /// The struct's generic parameters, as source text.
    pub generics: String,
    /// The source text of the meta of each of the struct's attributes, in
    /// order, such as `composite(message = ParentMsg)`.
    pub attrs: Vec<String>,
    pub fields: FieldsSource,
}

/// What a [`CompositeSource`] holds; `fields` is `None` for anything but a
/// struct with named fields.
pub ghost struct SourceView {
    pub ident: Seq<char>,
    pub generics: Seq<char>,
    pub attrs: Seq<Seq<char>>,
    pub fields: Option<Seq<FieldSourceView>>,
}

impl View for CompositeSource {
    type V = SourceView;

    open spec fn view(&self) -> SourceView {
        SourceView {
            ident: self.ident@,
            generics: self.generics@,
            attrs: texts_of(self.attrs@),
            fields: match self.fields {
                FieldsSource::Named(fs) => Some(fs@.map_values(|f: FieldSource| f@)),
                FieldsSource::Unsupported => None,
            },
        }
    }
}

/// What the rules read of a field: the arguments of its `#[child(..)]`
/// attributes.
pub open spec fn field_input_of(f: FieldSourceView) -> FieldView {
    let read = read_attrs(f.attrs, "child"@);
    FieldView { ident: f.ident, ty: f.ty, child_attrs: read.0, args_error: read.1 }
}

/// What the rules read of a declaration: the arguments of its
/// `#[composite(..)]` attributes and what they read of each field.
pub open spec fn source_input(src: SourceView) -> InputView {
    let read = read_attrs(src.attrs, "composite"@);
    InputView {
        ident: src.ident,
        generics: src.generics,
        composite_attrs: read.0,
        args_error: read.1,
        fields: match src.fields {
            Some(fs) => Some(fs.map_values(|f: FieldSourceView| field_input_of(f))),
            None => None,
        },
    }
}

/// A copy of an optional text.
fn copy_opt(o: &Option<String>) -> (r: Option<String>)
    ensures
        opt_text(r) == opt_text(*o),
{
    match o {
        Some(t) => Some(copy_str(t.as_str())),
        None => None,
    }
}

/// Reads a field's `#[child(..)]` attributes; see [`field_input_of`].
pub fn read_field(field: &FieldSource) -> (r: FieldInput)
    ensures
        r@ == field_input_of(field@),
{
    let (child_attrs, args_error) = read_attributes(&field.attrs, "child");
    FieldInput {
        ident: copy_opt(&field.ident),
        ty: copy_str(field.ty.as_str()),
        child_attrs,
        args_error,
    }
}

/// A field's outcome, from its source; see [`child_outcome`].
pub fn parse_child_source(field: &FieldSource) -> (r: Result<Option<ChildSpec>, CompositeErrors>)
    ensures
        match r {
            Ok(None) => child_outcome(field_input_of(field@)) == Ok::<
                Option<ChildView>,
                Seq<Seq<char>>,
            >(None),
            Ok(Some(c)) => child_outcome(field_input_of(field@)) == Ok::<
                Option<ChildView>,
                Seq<Seq<char>>,
            >(Some(c@)),
            Err(e) => child_outcome(field_input_of(field@)) == Err::<
                Option<ChildView>,
                Seq<Seq<char>>,
            >(e@),
        },
{
    let input = read_field(field);
    parse_child(&input)
}

/// Reads a declaration's attributes; see [`source_input`].
pub fn read_composite(src: &CompositeSource) -> (r: CompositeInput)
    ensures
        r@ == source_input(src@),
{
    let (composite_attrs, args_error) = read_attributes(&src.attrs, "composite");
    let fields = match &src.fields {
        FieldsSource::Named(fs) => {
            let ghost sv = fs@.map_values(|f: FieldSource| f@);
            let mut out: Vec<FieldInput> = Vec::new();
            let n = fs.len();
            let mut i: usize = 0;
            while i < n
                invariant
                    n == fs@.len(),
                    i <= n,
                    sv == fs@.map_values(|f: FieldSource| f@),
                    fields_view(out@) =~= sv.take(i as int).map_values(
                        |f: FieldSourceView| field_input_of(f),
                    ),
                decreases n - i,
            {
                let field = read_field(&fs[i]);
                let ghost before = out@;
                out.push(field);
                proof {
                    assert(out@ =~= before.push(field));
                    assert(fields_view(out@) =~= fields_view(before).push(field@));
                    assert(sv.take(i as int + 1).map_values(|f: FieldSourceView| field_input_of(f))
                        =~= sv.take(i as int).map_values(|f: FieldSourceView| field_input_of(f)).push(
                        field_input_of(sv[i as int]),
                    ));
                }
                i = i + 1;
            }
            proof {
                assert(sv.take(n as int) =~= sv);
            }
            FieldsInput::Named(out)
        },
        FieldsSource::Unsupported => FieldsInput::Unsupported,
    };
    CompositeInput {
        ident: copy_str(src.ident.as_str()),
        generics: copy_str(src.generics.as_str()),
        composite_attrs,
        args_error,
        fields,
    }
}

/// Derives the composite description of a declaration given as source
/// text, or reports why it cannot; see [`composite_outcome`] and
/// [`source_input`].
pub fn parse_composite_source(src: &CompositeSource) -> (r: Result<CompositeSpec, CompositeErrors>)
    ensures
        match r {
            Ok(spec) => composite_outcome(source_input(src@)) == Ok::<
                CompositeView,
                Seq<Seq<char>>,
            >(spec@),
            Err(e) => composite_outcome(source_input(src@)) == Err::<
                CompositeView,
                Seq<Seq<char>>,
            >(e@),
        },
{
    parse_composite(read_composite(src))
}

impl CompositeErrors {
    /// The first diagnostic, as the derive reports the whole error; empty
    /// when there is none.
    pub fn message(&self) -> (s: String)
        ensures
            s@ == (if self@.len() > 0 {
                self@[0]
            } else {
                Seq::empty()
            }),
    {
        if self.messages.len() > 0 {
            copy_str(self.messages[0].as_str())
        } else {
            String::new()
        }
    }

    /// Whether some diagnostic reads exactly `text`.
    pub fn contains(&self, text: &str) -> (r: bool)
        ensures
            r == self@.contains(text@),
    {
        let n = self.messages.len();
        let mut i: usize = 0;
        while i < n
            invariant
                n == self.messages@.len(),
                i <= n,
                forall|j: int| 0 <= j < i ==> self@[j] != text@,
            decreases n - i,
        {
            if is_named(&self.messages[i], text) {
                proof {
                    assert(self@[i as int] == text@);
                }
                return true;
            }
            i = i + 1;
        }
        false
    }
}

// ---------------------------------------------------------------------------
// Laws
// ---------------------------------------------------------------------------

/// No child has a path that another child of the list also has.
pub open spec fn paths_distinct(cs: Seq<ChildView>) -> bool {
    forall|i: int, j: int| 0 <= i < j < cs.len() ==> #[trigger] cs[i].path != #[trigger] cs[j].path
}

/// No two children of the list get the same view helper name.
pub open spec fn helper_names_distinct(cs: Seq<ChildView>) -> bool {
    forall|i: int, j: int|
        0 <= i < j < cs.len() ==> view_name(#[trigger] cs[i].field_ident) != view_name(
            #[trigger] cs[j].field_ident,
        )
}

/// `last_with_path` finds nothing only when no child has the path.
proof fn lemma_last_with_path_none(cs: Seq<ChildView>, p: Seq<char>)
    requires
        last_with_path(cs, p) < 0,
    ensures
        forall|k: int| 0 <= k < cs.len() ==> #[trigger] cs[k].path != p,
    decreases cs.len(),
{
    if cs.len() > 0 {
        lemma_last_with_path_none(cs.drop_last(), p);
        assert forall|k: int| 0 <= k < cs.len() implies #[trigger] cs[k].path != p by {
            if k < cs.len() - 1 {
                assert(cs[k] == cs.drop_last()[k]);
            }
        }
    }
}

/// Without path diagnostics, the paths are distinct.
proof fn lemma_no_path_errors(cs: Seq<ChildView>)
    requires
        path_errors(cs).len() == 0,
    ensures
        paths_distinct(cs),
    decreases cs.len(),
{
    if cs.len() > 0 {
        let prev = cs.drop_last();
        let j0 = last_with_path(prev, cs.last().path);
        if j0 >= 0 {
            assert(path_errors(cs).len() == path_errors(prev).len() + 1);
        }
        assert(path_errors(prev).len() == 0);
        lemma_no_path_errors(prev);
        lemma_last_with_path_none(prev, cs.last().path);
        assert forall|i: int, j: int| 0 <= i < j < cs.len() implies #[trigger] cs[i].path
            != #[trigger] cs[j].path by {
            assert(cs[i] == prev[i]);
            if j < cs.len() - 1 {
                assert(cs[j] == prev[j]);
            }
        }
    }
}

/// Without helper name diagnostics, the view helper names are distinct.
proof fn lemma_no_helper_errors(cs: Seq<ChildView>)
    requires
        helper_errors(cs).len() == 0,
    ensures
        helper_names_distinct(cs),
    decreases cs.len(),
{
    if cs.len() > 0 {
        let prev = cs.drop_last();
        let name = view_name(cs.last().field_ident);
        if exists|j: int| 0 <= j < cs.len() - 1 && #[trigger] view_name(cs[j].field_ident) == name {
            assert(helper_errors(cs).len() == helper_errors(prev).len() + 1);
        }
        assert(helper_errors(prev).len() == 0);
        lemma_no_helper_errors(prev);
        assert forall|i: int, j: int| 0 <= i < j < cs.len() implies view_name(
            #[trigger] cs[i].field_ident,
        ) != view_name(#[trigger] cs[j].field_ident) by {
            assert(cs[i] == prev[i]);
            if j < cs.len() - 1 {
                assert(cs[j] == prev[j]);
            }
        }
    }
}

/// A composite that derives cleanly has siblings with pairwise distinct child
/// paths and pairwise distinct view helper names.
pub proof fn lemma_composite_children_distinct(input: InputView)
    requires
        composite_outcome(input) is Ok,
    ensures
        paths_distinct(composite_outcome(input)->Ok_0.children),
        helper_names_distinct(composite_outcome(input)->Ok_0.children),
{
    let fs = match input.fields {
        Some(fs) => fs,
        None => Seq::empty(),
    };
    let st = children_state(fs);
    assert(composite_outcome(input)->Ok_0.children == st.children);
    assert((st.errors + helper_errors(st.children) + path_errors(st.children)).len() == 0);
    lemma_no_helper_errors(st.children);
    lemma_no_path_errors(st.children);
}

/// Keys of sibling children never collide: the same local key, declared by
/// two different children of a composite that derives cleanly, gets two
/// different runtime identifiers once each child scopes it under its path
/// (the parent's path `base` followed by the child's own segment).
pub proof fn lemma_composite_sibling_keys_distinct(
    input: InputView,
    base: Seq<Seq<char>>,
    k: KeyView,
    i: int,
    j: int,
)
    requires
        composite_outcome(input) is Ok,
        0 <= i < composite_outcome(input)->Ok_0.children.len(),
        0 <= j < composite_outcome(input)->Ok_0.children.len(),
        i != j,
        k.child_path is None,
        segments_fit(base.push(composite_outcome(input)->Ok_0.children[i].path)),
        segments_fit(base.push(composite_outcome(input)->Ok_0.children[j].path)),
    ensures
        spec_scoped(k, base.push(composite_outcome(input)->Ok_0.children[i].path)).id
            != spec_scoped(k, base.push(composite_outcome(input)->Ok_0.children[j].path)).id,
{
    let cs = composite_outcome(input)->Ok_0.children;
    lemma_composite_children_distinct(input);
    let pi = base.push(cs[i].path);
    let pj = base.push(cs[j].path);
    if i < j {
        assert(cs[i].path != cs[j].path);
    } else {
        assert(cs[j].path != cs[i].path);
    }
    assert(pi.last() != pj.last());
    assert(pi != pj);
    lemma_sibling_keys_distinct(k, pi, pj);
}

} // verus!
