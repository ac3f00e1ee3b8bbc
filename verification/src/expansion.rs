//! The helpers that `#[derive(Composite)]` writes for a valid composite
//! model, as Rust source text.
//!
//! For each child, in declaration order, the derive writes a bindings helper
//! (the child's `lift` and `extract`) and a view helper; the model gets an
//! init helper that batches the children's init commands, an update helper
//! that hands a message to the first child whose `extract` accepts it (and
//! gives the message back when none does), and a subscriptions helper that
//! merges the children's subscriptions, panicking when two scoped keys
//! collide. Every child runs in the scope of its path under the model's own
//! context.
use crate::composite::{
    bindings_name, children_view, view_name, ChildSpec, ChildView, CompositeSpec, CompositeView,
};
use crate::text::{debug_str, push_str, str_debug};
use quote::ToTokens;
use vstd::prelude::*;

verus! {

/// The three parts of a declaration's generics that an `impl` block needs,
/// as source text.
pub struct SplitGenerics {
    /// What follows `impl`, such as `< T : Clone >`.
    pub impl_generics: String,
    /// What follows the type's name, such as `< T >`.
    pub ty_generics: String,
    /// The `where` clause, or nothing.
    pub where_clause: String,
}

/// What a [`SplitGenerics`] holds.
pub ghost struct GenericsView {
    pub impl_generics: Seq<char>,
    pub ty_generics: Seq<char>,
    pub where_clause: Seq<char>,
}

impl View for SplitGenerics {
    type V = GenericsView;

    open spec fn view(&self) -> GenericsView {
        GenericsView {
            impl_generics: self.impl_generics@,
            ty_generics: self.ty_generics@,
            where_clause: self.where_clause@,
        }
    }
}

/// The view of an optional split.
pub open spec fn split_option_view(o: Option<SplitGenerics>) -> Option<GenericsView> {
    match o {
        Some(g) => Some(g@),
        None => None,
    }
}

/// The split of the generic parameters written as `params` with the `where`
/// clause written as `where_clause`, as `syn` prints it; `None` when either
/// does not read.
pub uninterp spec fn split_generics_of(params: Seq<char>, where_clause: Seq<char>) -> Option<
    GenericsView,
>;

/// Splits generics for an `impl` block.
///
/// Reads `params` with `syn::parse_str::<syn::Generics>` and `where_clause`
/// with `syn::parse_str::<Option<syn::WhereClause>>`, calls
/// `Generics::split_for_impl`, and prints the three parts as token text, with
/// `proc-macro2` switched to its fallback implementation for the call. The
/// contract names the outcome `split_generics_of`.
#[verifier::external_body]
fn split_generics(params: &str, where_clause: &str) -> (r: Option<SplitGenerics>)
    ensures
        split_option_view(r) == split_generics_of(params@, where_clause@),
{
    proc_macro2::fallback::force();
    let split = syn::parse_str::<syn::Generics>(params).and_then(|mut generics| {
        generics.where_clause = syn::parse_str::<Option<syn::WhereClause>>(where_clause)?;
        let (i, t, w) = generics.split_for_impl();
        let text = |x: &dyn ToTokens| x.to_token_stream().to_string();
        Ok(SplitGenerics { impl_generics: text(&i), ty_generics: text(&t), where_clause: text(&w) })
    });
    proc_macro2::fallback::unforce();
    split.ok()
}

/// The statement that puts child `c` in the scope of its path:
/// `let __child_scope = scope.scope(&<root>::ChildPath::new("<path>"), __lift);`.
pub open spec fn scope_text(c: ChildView, root: Seq<char>) -> Seq<char> {
    "let __child_scope = scope.scope(&"@ + root + "::ChildPath::new("@ + str_debug(c.path)
        + "), __lift); "@
}

/// The bindings helper of child `c`: its `lift` and `extract`, typed by the
/// child model's message type and the parent's message type `msg`.
pub open spec fn bindings_text(c: ChildView, msg: Seq<char>, root: Seq<char>) -> Seq<char> {
    "#[doc(hidden)] fn "@ + bindings_name(c.field_ident) + "() -> (fn(<"@ + c.field_ty + " as "@
        + root + "::Model>::Msg) -> "@ + msg + ", fn("@ + msg
        + ") -> ::core::result::Result<<"@ + c.field_ty + " as "@ + root + "::Model>::Msg, "@ + msg
        + ">) { ("@ + c.lift + ", "@ + c.extract + ") } "@
}

/// The init command of child `c`, run in its scope, followed by a comma.
pub open spec fn init_text(c: ChildView, root: Seq<char>) -> Seq<char> {
    "{ let (__lift, _) = Self::"@ + bindings_name(c.field_ident) + "(); "@ + scope_text(c, root)
        + root + "::ChildScopeExt::init(&__child_scope, &mut self."@ + c.field_ident + ", cx) }, "@
}

/// The update step of child `c`: when its `extract` accepts the message, the
/// child updates in its scope and its command is returned; otherwise the
/// message goes on.
pub open spec fn update_text(c: ChildView, root: Seq<char>) -> Seq<char> {
    "let (__lift, __extract) = Self::"@ + bindings_name(c.field_ident) + "(); "@ + scope_text(
        c,
        root,
    ) + "let msg = match __extract(msg) { ::core::result::Result::Ok(child_msg) => { return ::core::result::Result::Ok("@
        + root + "::ChildScopeExt::update(&__child_scope, &mut self."@ + c.field_ident
        + ", child_msg, cx)); } ::core::result::Result::Err(msg) => msg, }; "@
}

/// The subscription step of child `c`: each of its subscriptions, in its
/// scope, is added to the set; a collision of scoped keys panics.
pub open spec fn subscription_text(c: ChildView, root: Seq<char>) -> Seq<char> {
    "let (__lift, _) = Self::"@ + bindings_name(c.field_ident) + "(); "@ + scope_text(c, root)
        + "for __subscription in "@ + root + "::ChildScopeExt::subscriptions(&__child_scope, &self."@
        + c.field_ident
        + ", cx).into_vec() { __subscriptions.push(__subscription).expect(\"composite child subscriptions must preserve unique scoped keys\"); } "@
}

/// The view helper of child `c`: the child's view, rendered in its scope.
pub open spec fn view_text(c: ChildView, msg: Seq<char>, root: Seq<char>) -> Seq<char> {
    "#[doc(hidden)] fn "@ + view_name(c.field_ident)
        + "(&self, window: &mut ::gpui::Window, cx: &mut ::gpui::App, scope: &"@ + root
        + "::ModelContext<"@ + msg + ">, dispatcher: &"@ + root + "::Dispatcher<"@ + msg + ">) -> "@
        + root + "::View { let (__lift, _) = Self::"@ + bindings_name(c.field_ident) + "(); "@
        + scope_text(c, root) + root + "::ChildScopeExt::view(&__child_scope, &self."@
        + c.field_ident + ", window, cx, dispatcher) } "@
}

/// One kind of text per child: the bindings helper (0), the init command
/// (1), the update step (2), the subscription step (3) or the view helper
/// (4).
pub open spec fn child_text(part: nat, c: ChildView, msg: Seq<char>, root: Seq<char>) -> Seq<char> {
    if part == 0 {
        bindings_text(c, msg, root)
    } else if part == 1 {
        init_text(c, root)
    } else if part == 2 {
        update_text(c, root)
    } else if part == 3 {
        subscription_text(c, root)
    } else {
        view_text(c, msg, root)
    }
}

/// The texts of one kind for each child, in order.
pub open spec fn each_child(part: nat, cs: Seq<ChildView>, msg: Seq<char>, root: Seq<char>) -> Seq<
    char,
>
    decreases cs.len(),
{
    if cs.len() == 0 {
        Seq::empty()
    } else {
        each_child(part, cs.drop_last(), msg, root) + child_text(part, cs.last(), msg, root)
    }
}

/// The body of the init helper: no command without children, otherwise a
/// batch of the children's init commands in order.
pub open spec fn init_body(cs: Seq<ChildView>, msg: Seq<char>, root: Seq<char>) -> Seq<char> {
    if cs.len() == 0 {
        root + "::Command::none()"@
    } else {
        root + "::Command::batch(::std::vec!["@ + each_child(1, cs, msg, root) + "])"@
    }
}

/// The start of the `impl` block of the model `spec`.
pub open spec fn header_text(spec: CompositeView, g: GenericsView) -> Seq<char> {
    "impl"@ + g.impl_generics + " "@ + spec.struct_ident + g.ty_generics + " "@ + g.where_clause
        + " { "@
}

/// The init helper: the init commands of the children, batched.
pub open spec fn init_section(cs: Seq<ChildView>, m: Seq<char>, root: Seq<char>) -> Seq<char> {
    "#[doc(hidden)] fn __composite_init(&mut self, cx: &mut ::gpui::App, scope: &"@ + root
        + "::ModelContext<"@ + m + ">) -> "@ + root + "::Command<"@ + m + "> { "@ + init_body(
        cs,
        m,
        root,
    ) + " } "@
}

/// The update helper: the update steps of the children in order, then the
/// message handed back when no child takes it.
pub open spec fn update_section(cs: Seq<ChildView>, m: Seq<char>, root: Seq<char>) -> Seq<char> {
    "#[doc(hidden)] fn __composite_update(&mut self, msg: "@ + m
        + ", cx: &mut ::gpui::App, scope: &"@ + root + "::ModelContext<"@ + m
        + ">) -> ::core::result::Result<"@ + root + "::Command<"@ + m + ">, "@ + m
        + "> { let msg = msg; "@ + each_child(2, cs, m, root)
        + "::core::result::Result::Err(msg) } "@
}

/// The subscriptions helper: the subscription steps of the children in
/// order, into one set.
pub open spec fn subscriptions_section(cs: Seq<ChildView>, m: Seq<char>, root: Seq<char>) -> Seq<
    char,
> {
    "#[doc(hidden)] fn __composite_subscriptions(&self, cx: &mut ::gpui::App, scope: &"@ + root
        + "::ModelContext<"@ + m + ">) -> "@ + root + "::Subscriptions<"@ + m
        + "> { let mut __subscriptions = "@ + root + "::Subscriptions::none(); "@ + each_child(
        3,
        cs,
        m,
        root,
    ) + "__subscriptions } "@
}

/// The helpers written for the composite model `spec`, whose generics split
/// as `g`, with `root` the path of the runtime crate: the bindings helpers,
/// the init, update and subscriptions helpers, then the view helpers.
pub open spec fn expansion_text(spec: CompositeView, g: GenericsView, root: Seq<char>) -> Seq<char> {
    let cs = spec.children;
    let m = spec.message_ty;
    header_text(spec, g) + each_child(0, cs, m, root) + init_section(cs, m, root) + update_section(
        cs,
        m,
        root,
    ) + subscriptions_section(cs, m, root) + each_child(4, cs, m, root) + "}"@
}

/// Appends the scope statement of `c`.
fn push_scope(out: &mut String, c: &ChildSpec, root: &str)
    ensures
        final(out)@ == old(out)@ + scope_text(c@, root@),
{
    let path = debug_str(c.path.as_str());
    push_str(out, "let __child_scope = scope.scope(&");
    push_str(out, root);
    push_str(out, "::ChildPath::new(");
    push_str(out, path.as_str());
    push_str(out, "), __lift); ");
    proof {
        assert(final(out)@ =~= old(out)@ + scope_text(c@, root@));
    }
}

/// Appends the bindings helper of `c`.
#[verifier::rlimit(50)]
fn push_bindings(out: &mut String, c: &ChildSpec, msg: &str, root: &str)
    ensures
        final(out)@ == old(out)@ + bindings_text(c@, msg@, root@),
{
    let bindings = c.bindings_method_name();
    push_str(out, "#[doc(hidden)] fn ");
    push_str(out, bindings.as_str());
    push_str(out, "() -> (fn(<");
    push_str(out, c.field_ty.as_str());
    push_str(out, " as ");
    push_str(out, root);
    push_str(out, "::Model>::Msg) -> ");
    push_str(out, msg);
    push_str(out, ", fn(");
    push_str(out, msg);
    push_str(out, ") -> ::core::result::Result<<");
    push_str(out, c.field_ty.as_str());
    push_str(out, " as ");
    push_str(out, root);
    push_str(out, "::Model>::Msg, ");
    push_str(out, msg);
    push_str(out, ">) { (");
    push_str(out, c.lift.as_str());
    push_str(out, ", ");
    push_str(out, c.extract.as_str());
    push_str(out, ") } ");
    proof {
        assert(final(out)@ =~= old(out)@ + bindings_text(c@, msg@, root@));
    }
}

/// Appends the init command of `c`.
fn push_init(out: &mut String, c: &ChildSpec, root: &str)
    ensures
        final(out)@ == old(out)@ + init_text(c@, root@),
{
    let bindings = c.bindings_method_name();
    push_str(out, "{ let (__lift, _) = Self::");
    push_str(out, bindings.as_str());
    push_str(out, "(); ");
    push_scope(out, c, root);
    push_str(out, root);
    push_str(out, "::ChildScopeExt::init(&__child_scope, &mut self.");
    push_str(out, c.field_ident.as_str());
    push_str(out, ", cx) }, ");
    proof {
        assert(final(out)@ =~= old(out)@ + init_text(c@, root@));
    }
}

/// Appends the update step of `c`.
fn push_update(out: &mut String, c: &ChildSpec, root: &str)
    ensures
        final(out)@ == old(out)@ + update_text(c@, root@),
{
    let bindings = c.bindings_method_name();
    push_str(out, "let (__lift, __extract) = Self::");
    push_str(out, bindings.as_str());
    push_str(out, "(); ");
    push_scope(out, c, root);
    push_str(
        out,
        "let msg = match __extract(msg) { ::core::result::Result::Ok(child_msg) => { return ::core::result::Result::Ok(",
    );
    push_str(out, root);
    push_str(out, "::ChildScopeExt::update(&__child_scope, &mut self.");
    push_str(out, c.field_ident.as_str());
    push_str(out, ", child_msg, cx)); } ::core::result::Result::Err(msg) => msg, }; ");
    proof {
        assert(final(out)@ =~= old(out)@ + update_text(c@, root@));
    }
}

/// Appends the subscription step of `c`.
fn push_subscription(out: &mut String, c: &ChildSpec, root: &str)
    ensures
        final(out)@ == old(out)@ + subscription_text(c@, root@),
{
    let bindings = c.bindings_method_name();
    push_str(out, "let (__lift, _) = Self::");
    push_str(out, bindings.as_str());
    push_str(out, "(); ");
    push_scope(out, c, root);
    push_str(out, "for __subscription in ");
    push_str(out, root);
    push_str(out, "::ChildScopeExt::subscriptions(&__child_scope, &self.");
    push_str(out, c.field_ident.as_str());
    push_str(
        out,
        ", cx).into_vec() { __subscriptions.push(__subscription).expect(\"composite child subscriptions must preserve unique scoped keys\"); } ",
    );
    proof {
        assert(final(out)@ =~= old(out)@ + subscription_text(c@, root@));
    }
}

/// Appends the view helper of `c`.
#[verifier::rlimit(50)]
fn push_view(out: &mut String, c: &ChildSpec, msg: &str, root: &str)
    ensures
        final(out)@ == old(out)@ + view_text(c@, msg@, root@),
{
    let bindings = c.bindings_method_name();
    let view = c.view_method_name();
    push_str(out, "#[doc(hidden)] fn ");
    push_str(out, view.as_str());
    push_str(out, "(&self, window: &mut ::gpui::Window, cx: &mut ::gpui::App, scope: &");
    push_str(out, root);
    push_str(out, "::ModelContext<");
    push_str(out, msg);
    push_str(out, ">, dispatcher: &");
    push_str(out, root);
    push_str(out, "::Dispatcher<");
    push_str(out, msg);
    push_str(out, ">) -> ");
    push_str(out, root);
    push_str(out, "::View { let (__lift, _) = Self::");
    push_str(out, bindings.as_str());
    push_str(out, "(); ");
    push_scope(out, c, root);
    push_str(out, root);
    push_str(out, "::ChildScopeExt::view(&__child_scope, &self.");
    push_str(out, c.field_ident.as_str());
    push_str(out, ", window, cx, dispatcher) } ");
    proof {
        assert(final(out)@ =~= old(out)@ + view_text(c@, msg@, root@));
    }
}

/// Appends the text of kind `part` for child `c`.
fn push_child(out: &mut String, part: u8, c: &ChildSpec, msg: &str, root: &str)
    requires
        part <= 4,
    ensures
        final(out)@ == old(out)@ + child_text(part as nat, c@, msg@, root@),
{
    if part == 0 {
        push_bindings(out, c, msg, root);
    } else if part == 1 {
        push_init(out, c, root);
    } else if part == 2 {
        push_update(out, c, root);
    } else if part == 3 {
        push_subscription(out, c, root);
    } else {
        push_view(out, c, msg, root);
    }
}

/// Appends the texts of kind `part` for every child, in order.
fn push_each(out: &mut String, part: u8, children: &Vec<ChildSpec>, msg: &str, root: &str)
    requires
        part <= 4,
    ensures
        final(out)@ == old(out)@ + each_child(
            part as nat,
            children_view(children@),
            msg@,
            root@,
        ),
{
    let ghost cs = children_view(children@);
    let ghost start = out@;
    let n = children.len();
    let mut i: usize = 0;
    proof {
        assert(cs.take(0) =~= Seq::<ChildView>::empty());
        assert(out@ =~= start + each_child(part as nat, cs.take(0), msg@, root@));
    }
    while i < n
        invariant
            n == children@.len(),
            i <= n,
            part <= 4,
            cs == children_view(children@),
            out@ == start + each_child(part as nat, cs.take(i as int), msg@, root@),
        decreases n - i,
    {
        let ghost before = out@;
        push_child(out, part, &children[i], msg, root);
        proof {
            let t = cs.take(i as int + 1);
            assert(t.drop_last() =~= cs.take(i as int));
            assert(t.last() == children@[i as int]@);
            assert(out@ =~= start + each_child(part as nat, t, msg@, root@));
        }
        i = i + 1;
    }
    proof {
        assert(cs.take(n as int) =~= cs);
    }
}

/// Appends the start of the `impl` block.
fn push_header(out: &mut String, spec: &CompositeSpec, generics: &SplitGenerics)
    ensures
        final(out)@ == old(out)@ + header_text(spec@, generics@),
{
    push_str(out, "impl");
    push_str(out, generics.impl_generics.as_str());
    push_str(out, " ");
    push_str(out, spec.struct_ident.as_str());
    push_str(out, generics.ty_generics.as_str());
    push_str(out, " ");
    push_str(out, generics.where_clause.as_str());
    push_str(out, " { ");
    proof {
        assert(final(out)@ =~= old(out)@ + header_text(spec@, generics@));
    }
}

/// Appends the init helper.
fn push_init_section(out: &mut String, children: &Vec<ChildSpec>, m: &str, root: &str)
    ensures
        final(out)@ == old(out)@ + init_section(children_view(children@), m@, root@),
{
    let ghost cs = children_view(children@);
    let ghost start = out@;
    push_str(out, "#[doc(hidden)] fn __composite_init(&mut self, cx: &mut ::gpui::App, scope: &");
    push_str(out, root);
    push_str(out, "::ModelContext<");
    push_str(out, m);
    push_str(out, ">) -> ");
    push_str(out, root);
    push_str(out, "::Command<");
    push_str(out, m);
    push_str(out, "> { ");
    let ghost head = out@;
    if children.len() == 0 {
        push_str(out, root);
        push_str(out, "::Command::none()");
    } else {
        push_str(out, root);
        push_str(out, "::Command::batch(::std::vec![");
        push_each(out, 1, children, m, root);
        push_str(out, "])");
    }
    proof {
        assert(out@ =~= head + init_body(cs, m@, root@));
    }
    push_str(out, " } ");
    proof {
        assert(final(out)@ =~= start + init_section(cs, m@, root@));
    }
}

/// Appends the update helper.
fn push_update_section(out: &mut String, children: &Vec<ChildSpec>, m: &str, root: &str)
    ensures
        final(out)@ == old(out)@ + update_section(children_view(children@), m@, root@),
{
    push_str(out, "#[doc(hidden)] fn __composite_update(&mut self, msg: ");
    push_str(out, m);
    push_str(out, ", cx: &mut ::gpui::App, scope: &");
    push_str(out, root);
    push_str(out, "::ModelContext<");
    push_str(out, m);
    push_str(out, ">) -> ::core::result::Result<");
    push_str(out, root);
    push_str(out, "::Command<");
    push_str(out, m);
    push_str(out, ">, ");
    push_str(out, m);
    push_str(out, "> { let msg = msg; ");
    push_each(out, 2, children, m, root);
    push_str(out, "::core::result::Result::Err(msg) } ");
    proof {
        assert(final(out)@ =~= old(out)@ + update_section(children_view(children@), m@, root@));
    }
}

/// Appends the subscriptions helper.
fn push_subscriptions_section(out: &mut String, children: &Vec<ChildSpec>, m: &str, root: &str)
    ensures
        final(out)@ == old(out)@ + subscriptions_section(children_view(children@), m@, root@),
{
    push_str(
        out,
        "#[doc(hidden)] fn __composite_subscriptions(&self, cx: &mut ::gpui::App, scope: &",
    );
    push_str(out, root);
    push_str(out, "::ModelContext<");
    push_str(out, m);
    push_str(out, ">) -> ");
    push_str(out, root);
    push_str(out, "::Subscriptions<");
    push_str(out, m);
    push_str(out, "> { let mut __subscriptions = ");
    push_str(out, root);
    push_str(out, "::Subscriptions::none(); ");
    push_each(out, 3, children, m, root);
    push_str(out, "__subscriptions } ");
    proof {
        assert(final(out)@ =~= old(out)@ + subscriptions_section(
            children_view(children@),
            m@,
            root@,
        ));
    }
}

/// The helpers that the derive writes for `spec`, whose generics split as
/// `generics`, with `root` the path of the runtime crate; see
/// [`expansion_text`].
pub fn composite_expansion(spec: &CompositeSpec, generics: &SplitGenerics, root: &str) -> (out:
    String)
    ensures
        out@ == expansion_text(spec@, generics@, root@),
{
    let ghost cs = spec@.children;
    let m = spec.message_ty.as_str();
    let mut out = String::new();
    proof {
        assert(out@ =~= Seq::<char>::empty());
    }
    push_header(&mut out, spec, generics);
    push_each(&mut out, 0, &spec.children, m, root);
    push_init_section(&mut out, &spec.children, m, root);
    push_update_section(&mut out, &spec.children, m, root);
    push_subscriptions_section(&mut out, &spec.children, m, root);
    push_each(&mut out, 4, &spec.children, m, root);
    push_str(&mut out, "}");
    proof {
        assert(out@ =~= expansion_text(spec@, generics@, root@));
    }
    out
}

/// The helpers that the derive writes for `spec`, whose generic parameters
/// are `spec.generics` and whose `where` clause is written as
/// `where_clause`; `None` when the generics do not read.
pub fn expand_composite_source(spec: &CompositeSpec, where_clause: &str, root: &str) -> (r: Option<
    String,
>)
    ensures
        match split_generics_of(spec@.generics, where_clause@) {
            Some(g) => r matches Some(t) && t@ == expansion_text(spec@, g, root@),
            None => r is None,
        },
{
    match split_generics(spec.generics.as_str(), where_clause) {
        Some(generics) => Some(composite_expansion(spec, &generics, root)),
        None => None,
    }
}

// ---------------------------------------------------------------------------
// Laws
// ---------------------------------------------------------------------------

/// `s` ends with `t`.
pub open spec fn ends_with(s: Seq<char>, t: Seq<char>) -> bool {
    t.len() <= s.len() && s.subrange(s.len() - t.len(), s.len() as int) == t
}

/// The fallback arm of a child's update step: a message that the child's
/// `extract` refuses is bound again as `msg`, for the steps after it.
pub open spec fn passes_on_text() -> Seq<char> {
    "::core::result::Result::Err(msg) => msg, }; "@
}

/// What the update helper does once no child took the message: hand it
/// back as unhandled.
pub open spec fn unhandled_text() -> Seq<char> {
    "::core::result::Result::Err(msg) } "@
}

proof fn lemma_ends_with_concat(a: Seq<char>, b: Seq<char>)
    ensures
        ends_with(a + b, b),
{
    assert((a + b).subrange(a.len() as int, (a + b).len() as int) =~= b);
}

/// The texts of the children split at any position into those before it
/// and those from it on.
proof fn lemma_each_child_split(part: nat, cs: Seq<ChildView>, msg: Seq<char>, root: Seq<char>, i: int)
    requires
        0 <= i <= cs.len(),
    ensures
        each_child(part, cs, msg, root) == each_child(part, cs.take(i), msg, root) + each_child(
            part,
            cs.skip(i),
            msg,
            root,
        ),
    decreases cs.len(),
{
    if i == cs.len() {
        assert(cs.take(i) =~= cs);
        assert(cs.skip(i) =~= Seq::<ChildView>::empty());
        assert(each_child(part, cs, msg, root) + Seq::<char>::empty() =~= each_child(part, cs, msg, root));
    } else {
        let dl = cs.drop_last();
        lemma_each_child_split(part, dl, msg, root, i);
        assert(dl.take(i) =~= cs.take(i));
        assert(cs.skip(i).drop_last() =~= dl.skip(i));
        assert(cs.skip(i).last() == cs.last());
        assert(each_child(part, cs, msg, root) =~= each_child(part, cs.take(i), msg, root) + (
        each_child(part, dl.skip(i), msg, root) + child_text(part, cs.last(), msg, root)));
    }
}

/// From position `i` on, the texts of the children are child `i`'s text and
/// then those of the children after it.
proof fn lemma_each_child_from(part: nat, cs: Seq<ChildView>, msg: Seq<char>, root: Seq<char>, i: int)
    requires
        0 <= i < cs.len(),
    ensures
        each_child(part, cs.skip(i), msg, root) == child_text(part, cs[i], msg, root) + each_child(
            part,
            cs.skip(i + 1),
            msg,
            root,
        ),
{
    let t = cs.skip(i);
    lemma_each_child_split(part, t, msg, root, 1);
    assert(t.take(1).drop_last() =~= Seq::<ChildView>::empty());
    assert(t.take(1).last() == cs[i]);
    assert(each_child(part, t.take(1).drop_last(), msg, root) =~= Seq::<char>::empty());
    assert(each_child(part, t.take(1), msg, root) =~= child_text(part, cs[i], msg, root));
    assert(t.skip(1) =~= cs.skip(i + 1));
}

/// The init helper of a composite with children batches the init command of
/// every child, each once and in field order: child `i`'s init sits between
/// those of the children before it and those after it. Each child's init
/// runs the child's own `init` on its own field.
pub proof fn lemma_init_batches_every_child(cs: Seq<ChildView>, msg: Seq<char>, root: Seq<char>, i: int)
    requires
        0 <= i < cs.len(),
    ensures
        init_body(cs, msg, root) == root + "::Command::batch(::std::vec!["@ + each_child(
            1,
            cs.take(i),
            msg,
            root,
        ) + init_text(cs[i], root) + each_child(1, cs.skip(i + 1), msg, root) + "])"@,
        ends_with(
            init_text(cs[i], root),
            root + "::ChildScopeExt::init(&__child_scope, &mut self."@ + cs[i].field_ident
                + ", cx) }, "@,
        ),
{
    lemma_each_child_split(1, cs, msg, root, i);
    lemma_each_child_from(1, cs, msg, root, i);
    let c = cs[i];
    let tail = root + "::ChildScopeExt::init(&__child_scope, &mut self."@ + c.field_ident
        + ", cx) }, "@;
    let head = "{ let (__lift, _) = Self::"@ + bindings_name(c.field_ident) + "(); "@ + scope_text(
        c,
        root,
    );
    assert(init_text(c, root) =~= head + tail);
    lemma_ends_with_concat(head, tail);
    assert(init_body(cs, msg, root) =~= root + "::Command::batch(::std::vec!["@ + each_child(
        1,
        cs.take(i),
        msg,
        root,
    ) + init_text(cs[i], root) + each_child(1, cs.skip(i + 1), msg, root) + "])"@);
}

/// A composite without children initializes with no command.
pub proof fn lemma_init_without_children(msg: Seq<char>, root: Seq<char>)
    ensures
        init_body(Seq::empty(), msg, root) == root + "::Command::none()"@,
{
}

/// A message that a child's `extract` refuses goes on to the next child:
/// each child's update step ends by binding the refused message again as
/// `msg` (it returns only the child's own command, when the child takes the
/// message), the steps run in field order, and the update helper hands the
/// message back as unhandled only after the last child's step.
pub proof fn lemma_update_passes_refused_messages_on(
    cs: Seq<ChildView>,
    msg: Seq<char>,
    root: Seq<char>,
    i: int,
)
    requires
        0 <= i < cs.len(),
    ensures
        ends_with(update_text(cs[i], root), passes_on_text()),
        ends_with(
            update_section(cs, msg, root),
            update_text(cs[i], root) + each_child(2, cs.skip(i + 1), msg, root) + unhandled_text(),
        ),
{
    let c = cs[i];
    let head = "let (__lift, __extract) = Self::"@ + bindings_name(c.field_ident) + "(); "@
        + scope_text(c, root)
        + "let msg = match __extract(msg) { ::core::result::Result::Ok(child_msg) => { return ::core::result::Result::Ok("@
        + root + "::ChildScopeExt::update(&__child_scope, &mut self."@ + c.field_ident
        + ", child_msg, cx)); } "@;
    reveal_strlit(", child_msg, cx)); } ::core::result::Result::Err(msg) => msg, }; ");
    reveal_strlit(", child_msg, cx)); } ");
    reveal_strlit("::core::result::Result::Err(msg) => msg, }; ");
    assert(", child_msg, cx)); } ::core::result::Result::Err(msg) => msg, }; "@ =~= ", child_msg, cx)); } "@
        + passes_on_text());
    assert(update_text(c, root) =~= head + passes_on_text());
    lemma_ends_with_concat(head, passes_on_text());
    lemma_each_child_split(2, cs, msg, root, i);
    lemma_each_child_from(2, cs, msg, root, i);
    let steps_from = update_text(cs[i], root) + each_child(2, cs.skip(i + 1), msg, root)
        + unhandled_text();
    let sig = "#[doc(hidden)] fn __composite_update(&mut self, msg: "@ + msg
        + ", cx: &mut ::gpui::App, scope: &"@ + root + "::ModelContext<"@ + msg
        + ">) -> ::core::result::Result<"@ + root + "::Command<"@ + msg + ">, "@ + msg
        + "> { let msg = msg; "@ + each_child(2, cs.take(i), msg, root);
    assert(update_section(cs, msg, root) =~= sig + steps_from);
    lemma_ends_with_concat(sig, steps_from);
}

/// Every child gets its subscription step, in field order: the
/// subscriptions helper runs child `i`'s step after those of the children
/// before it and before those after it, and only then returns the merged
/// set; each step panics when a scoped key collides.
pub proof fn lemma_every_child_subscribes(cs: Seq<ChildView>, m: Seq<char>, root: Seq<char>, i: int)
    requires
        0 <= i < cs.len(),
    ensures
        ends_with(
            subscriptions_section(cs, m, root),
            subscription_text(cs[i], root) + each_child(3, cs.skip(i + 1), m, root)
                + "__subscriptions } "@,
        ),
        ends_with(
            subscription_text(cs[i], root),
            ", cx).into_vec() { __subscriptions.push(__subscription).expect(\"composite child subscriptions must preserve unique scoped keys\"); } "@,
        ),
{
    let c = cs[i];
    lemma_each_child_split(3, cs, m, root, i);
    lemma_each_child_from(3, cs, m, root, i);
    let sub_head = "#[doc(hidden)] fn __composite_subscriptions(&self, cx: &mut ::gpui::App, scope: &"@
        + root + "::ModelContext<"@ + m + ">) -> "@ + root + "::Subscriptions<"@ + m
        + "> { let mut __subscriptions = "@ + root + "::Subscriptions::none(); "@ + each_child(
        3,
        cs.take(i),
        m,
        root,
    );
    let sub_tail = subscription_text(c, root) + each_child(3, cs.skip(i + 1), m, root)
        + "__subscriptions } "@;
    assert(subscriptions_section(cs, m, root) =~= sub_head + sub_tail);
    lemma_ends_with_concat(sub_head, sub_tail);
    let step_head = "let (__lift, _) = Self::"@ + bindings_name(c.field_ident) + "(); "@
        + scope_text(c, root) + "for __subscription in "@ + root
        + "::ChildScopeExt::subscriptions(&__child_scope, &self."@ + c.field_ident;
    let expect = ", cx).into_vec() { __subscriptions.push(__subscription).expect(\"composite child subscriptions must preserve unique scoped keys\"); } "@;
    assert(subscription_text(c, root) =~= step_head + expect);
    lemma_ends_with_concat(step_head, expect);
}

/// Every child gets its view helper: the view helpers close the `impl`
/// block, in field order.
pub proof fn lemma_every_child_renders(spec: CompositeView, g: GenericsView, root: Seq<char>, i: int)
    requires
        0 <= i < spec.children.len(),
    ensures
        ends_with(
            expansion_text(spec, g, root),
            view_text(spec.children[i], spec.message_ty, root) + each_child(
                4,
                spec.children.skip(i + 1),
                spec.message_ty,
                root,
            ) + "}"@,
        ),
{
    let cs = spec.children;
    let m = spec.message_ty;
    lemma_each_child_split(4, cs, m, root, i);
    lemma_each_child_from(4, cs, m, root, i);
    let pre = header_text(spec, g) + each_child(0, cs, m, root) + init_section(cs, m, root)
        + update_section(cs, m, root) + subscriptions_section(cs, m, root);
    assert(expansion_text(spec, g, root) == pre + each_child(4, cs, m, root) + "}"@);
    let a = each_child(4, cs.take(i), m, root);
    let b = view_text(cs[i], m, root) + each_child(4, cs.skip(i + 1), m, root);
    assert(each_child(4, cs, m, root) =~= a + b);
    assert(pre + (a + b) + "}"@ =~= (pre + a) + (b + "}"@));
    lemma_ends_with_concat(pre + a, b + "}"@);
}

} // verus!
