use gpui_tea::attribute::read_item;
use gpui_tea::expansion::{composite_expansion, expand_composite_source, SplitGenerics};
use quote::ToTokens;
use gpui_tea::composite::{
    ensure_unique_view_method_names, parse_child_source, parse_composite, parse_composite_source,
    ChildSpec, CompositeErrors, CompositeInput, CompositeSource, CompositeSpec, FieldInput,
    FieldSource, FieldsInput, FieldsSource, MetaItem, MetaValue,
};

fn s(text: &str) -> String {
    text.to_string()
}

fn name_value(name: &str, value: MetaValue) -> MetaItem {
    MetaItem::NameValue { name: s(name), value }
}

fn path(value: &str) -> MetaValue {
    MetaValue { text: s(value), string_literal: None, type_error: None }
}

fn lit(value: &str) -> MetaValue {
    MetaValue {
        text: format!("{value:?}"),
        string_literal: Some(s(value)),
        type_error: Some(s("not a type")),
    }
}

fn expr(value: &str) -> MetaValue {
    MetaValue { text: s(value), string_literal: None, type_error: Some(s("not a type")) }
}

fn message(ty: &str) -> Vec<Vec<MetaItem>> {
    vec![vec![name_value("message", path(ty))]]
}

fn child_attr(p: &str, lift: &str, extract: &str) -> Vec<MetaItem> {
    vec![
        name_value("path", lit(p)),
        name_value("lift", path(lift)),
        name_value("extract", path(extract)),
    ]
}

fn field(ident: &str, ty: &str, child_attrs: Vec<Vec<MetaItem>>) -> FieldInput {
    FieldInput { ident: Some(s(ident)), ty: s(ty), child_attrs, args_error: None }
}

fn input(composite_attrs: Vec<Vec<MetaItem>>, fields: Vec<FieldInput>) -> CompositeInput {
    CompositeInput {
        ident: s("Parent"),
        generics: s(""),
        composite_attrs,
        args_error: None,
        fields: FieldsInput::Named(fields),
    }
}

fn child(field_ident: &str) -> ChildSpec {
    ChildSpec {
        field_ident: s(field_ident),
        field_ty: s("ChildModel"),
        path: s("child"),
        lift: s("ParentMsg::Child"),
        extract: s("ParentMsg::into_child"),
    }
}

fn parse_error(input: CompositeInput) -> CompositeErrors {
    match parse_composite(input) {
        Ok(_) => panic!("expected parse failure"),
        Err(error) => error,
    }
}

fn parse_ok(input: CompositeInput) -> CompositeSpec {
    match parse_composite(input) {
        Ok(spec) => spec,
        Err(error) => panic!("expected valid composite, got {:?}", error.messages),
    }
}

fn source_field(ident: &str, ty: &str, attrs: &[&str]) -> FieldSource {
    FieldSource {
        ident: Some(s(ident)),
        ty: s(ty),
        attrs: attrs.iter().map(|a| s(a)).collect(),
    }
}

fn source(attrs: &[&str], fields: Vec<FieldSource>) -> CompositeSource {
    CompositeSource {
        ident: s("Parent"),
        generics: s(""),
        attrs: attrs.iter().map(|a| s(a)).collect(),
        fields: FieldsSource::Named(fields),
    }
}

fn source_error(src: CompositeSource) -> CompositeErrors {
    match parse_composite_source(&src) {
        Ok(_) => panic!("expected parse failure"),
        Err(error) => error,
    }
}

fn source_ok(src: CompositeSource) -> CompositeSpec {
    match parse_composite_source(&src) {
        Ok(spec) => spec,
        Err(error) => panic!("expected valid composite, got {:?}", error.messages),
    }
}

fn type_error_text(text: &str) -> String {
    match syn::parse_str::<syn::Type>(text) {
        Ok(_) => String::new(),
        Err(error) => error.to_string(),
    }
}

#[test]
fn view_method_name_strips_raw_identifier_prefix() {
    let child = child("r#type");
    assert_eq!(child.view_method_name(), "type_view");
}

#[test]
fn bindings_method_name_strips_raw_identifier_prefix() {
    let child = child("r#type");
    assert_eq!(child.bindings_method_name(), "__type_composite_bindings");
}

#[test]
fn helper_names_of_a_plain_field() {
    let child = child("sidebar");
    assert_eq!(child.view_method_name(), "sidebar_view");
    assert_eq!(child.bindings_method_name(), "__sidebar_composite_bindings");
}

#[test]
fn child_spec_keeps_original_field_components() {
    let child = child("sidebar");
    assert_eq!(child.field_ident, "sidebar");
    assert_eq!(child.field_ty, "ChildModel");
    assert_eq!(child.path, "child");
    assert_eq!(child.lift, "ParentMsg::Child");
    assert_eq!(child.extract, "ParentMsg::into_child");
}

#[test]
fn parses_valid_composite_spec() {
    let mut src = source(
        &["derive(Composite)", "composite(message = ParentMsg)"],
        vec![
            source_field(
                "left",
                "LeftChild < T >",
                &["child(path = \"left\", lift = ParentMsg::Left, extract = ParentMsg::into_left)"],
            ),
            source_field("ignored", "usize", &[]),
        ],
    );
    src.generics = s("< T >");
    let spec = source_ok(src);
    assert_eq!(spec.struct_ident, "Parent");
    assert_eq!(spec.children.len(), 1);
    assert_eq!(spec.message_ty, "ParentMsg");
    assert_eq!(spec.generics, "< T >");
    assert_eq!(spec.children[0].field_ident, "left");
    assert_eq!(spec.children[0].field_ty, "LeftChild < T >");
    assert_eq!(spec.children[0].path, "left");
    assert_eq!(spec.children[0].lift, "ParentMsg :: Left");
    assert_eq!(spec.children[0].extract, "ParentMsg :: into_left");
}

#[test]
fn reports_missing_message_on_derive_attribute() {
    let error = source_error(source(
        &["derive(Composite)"],
        vec![source_field(
            "child",
            "ChildModel",
            &["child(path = \"child\", lift = ParentMsg::Child, extract = ParentMsg::into_child)"],
        )],
    ));
    assert_eq!(error.message(), "missing `message`");
}

#[test]
fn aggregates_duplicate_and_unsupported_child_attributes() {
    let error = source_error(source(
        &["derive(Composite)", "composite(message = ParentMsg)"],
        vec![source_field(
            "child",
            "ChildModel",
            &["child(path = \"left\", path = \"right\", extra = true, lift = ParentMsg::Child, extract = ParentMsg::into_child)"],
        )],
    ));
    assert!(error.contains("duplicate `path` attribute"));
    assert!(error.contains("unsupported `child` attribute"));
    assert_eq!(error.messages.len(), 2);
}

#[test]
fn aggregates_duplicate_view_helper_names() {
    let children = [child("child"), child("r#child")];
    let error = ensure_unique_view_method_names(&children).expect_err("expected collision");
    assert_eq!(error.message(), "duplicate generated helper name `child_view`");
}

#[test]
fn rejects_duplicate_sibling_child_paths() {
    let error = source_error(source(
        &["derive(Composite)", "composite(message = ParentMsg)"],
        vec![
            source_field(
                "first",
                "FirstChild",
                &["child(path = \"shared\", lift = ParentMsg::First, extract = ParentMsg::into_first)"],
            ),
            source_field(
                "second",
                "SecondChild",
                &["child(path = \"shared\", lift = ParentMsg::Second, extract = ParentMsg::into_second)"],
            ),
        ],
    ));
    assert_eq!(
        error.message(),
        "duplicate child path `shared` for fields `first` and `second`"
    );
}

#[test]
fn rejects_non_literal_child_path() {
    let error = source_error(source(
        &["derive(Composite)", "composite(message = ParentMsg)"],
        vec![source_field(
            "child",
            "ChildModel",
            &["child(path = make_path(), lift = ParentMsg::Child, extract = ParentMsg::into_child)"],
        )],
    ));
    assert_eq!(error.message(), "`path` must be a string literal");
    assert_eq!(error.messages.len(), 1);
}

#[test]
fn rejects_unsupported_composite_attributes() {
    let error = source_error(source(
        &["derive(Composite)", "composite(message = ParentMsg, mode = \"strict\")"],
        vec![source_field(
            "child",
            "ChildModel",
            &["child(path = \"child\", lift = ParentMsg::Child, extract = ParentMsg::into_child)"],
        )],
    ));
    assert_eq!(error.message(), "unsupported `composite` attribute");
}

#[test]
fn a_message_that_is_not_a_type_reports_the_type_parse_error() {
    let error = source_error(source(&["composite(message = \"ParentMsg\")"], vec![]));
    let expected = type_error_text("\"ParentMsg\"");
    assert!(!expected.is_empty());
    assert_eq!(error.messages, vec![expected, s("missing `message`")]);
}

#[test]
fn child_arguments_that_do_not_parse_report_the_parse_error_alone() {
    let tokens = "path = \"a\" lift = M::A";
    let expected = match syn::parse::Parser::parse_str(
        syn::punctuated::Punctuated::<syn::Meta, syn::token::Comma>::parse_terminated,
        tokens,
    ) {
        Ok(_) => String::new(),
        Err(error) => error.to_string(),
    };
    assert!(!expected.is_empty());
    let field = source_field("a", "A", &["child(path = \"a\" lift = M::A)"]);
    match parse_child_source(&field) {
        Err(error) => assert_eq!(error.messages, vec![expected]),
        Ok(_) => panic!("expected parse failure"),
    }
}

#[test]
fn composite_arguments_that_do_not_parse_stop_the_derive() {
    let error = source_error(source(
        &["composite(message = M, = broken)", "composite(extra)"],
        vec![source_field("a", "A", &["child(path = 1)"])],
    ));
    assert_eq!(error.messages.len(), 1);
    assert_ne!(error.message(), "unsupported `composite` attribute");
}

#[test]
fn child_attributes_without_parentheses_are_refused() {
    let bare = parse_child_source(&source_field("a", "A", &["child"]));
    match bare {
        Err(error) => assert_eq!(
            error.messages,
            vec![s("expected attribute arguments in parentheses: #[child(...)]")]
        ),
        Ok(_) => panic!("expected parse failure"),
    }
    let name_value = parse_child_source(&source_field("a", "A", &["child = \"a\""]));
    match name_value {
        Err(error) => assert_eq!(error.messages, vec![s("expected parentheses: #[child(...)]")]),
        Ok(_) => panic!("expected parse failure"),
    }
}

#[test]
fn other_attributes_of_a_field_are_passed_over() {
    let field = source_field(
        "a",
        "A",
        &["doc = \" a child \"", "serde(skip)", "allow(dead_code)"],
    );
    assert!(matches!(parse_child_source(&field), Ok(None)));
}

#[test]
fn a_source_child_keeps_the_literal_value_of_its_path() {
    let field = source_field(
        "left",
        "Left",
        &["child(path = \"left pane\", lift = M::Left, extract = M::left)"],
    );
    match parse_child_source(&field) {
        Ok(Some(child)) => {
            assert_eq!(child.path, "left pane");
            assert_eq!(child.lift, "M :: Left");
            assert_eq!(child.extract, "M :: left");
            assert_eq!(child.view_method_name(), "left_view");
        }
        _ => panic!("expected a child"),
    }
}

#[test]
fn reading_an_argument_classifies_it() {
    match read_item("message = crate::Msg") {
        MetaItem::NameValue { name, value } => {
            assert_eq!(name, "message");
            assert_eq!(value.text, "crate :: Msg");
            assert_eq!(value.string_literal, None);
            assert_eq!(value.type_error, None);
        }
        _ => panic!("expected a name-value argument"),
    }
    match read_item("path = \"p\"") {
        MetaItem::NameValue { value, .. } => {
            assert_eq!(value.string_literal, Some(s("p")));
            assert!(value.type_error.is_some());
        }
        _ => panic!("expected a name-value argument"),
    }
    assert!(matches!(read_item("strict"), MetaItem::Path(p) if p == "strict"));
    assert!(matches!(read_item("extra(a, b)"), MetaItem::List(p) if p == "extra"));
}

#[test]
fn a_positional_source_field_with_a_child_attribute_is_refused() {
    let field = FieldSource {
        ident: None,
        ty: s("A"),
        attrs: vec![s("child(path = \"a\", lift = M::A, extract = M::a)")],
    };
    match parse_child_source(&field) {
        Err(error) => assert_eq!(
            error.messages,
            vec![s("`Composite` supports only named child fields")]
        ),
        Ok(_) => panic!("expected parse failure"),
    }
}

#[test]
fn a_source_that_is_not_a_named_struct_is_refused_after_its_message() {
    let src = CompositeSource {
        ident: s("Parent"),
        generics: s(""),
        attrs: vec![s("composite(message = M)")],
        fields: FieldsSource::Unsupported,
    };
    assert_eq!(
        source_error(src).messages,
        vec![s("`Composite` supports only structs with named fields")]
    );
}

#[test]
fn parses_a_valid_composite_from_argument_values() {
    let mut parsed = input(
        message("ParentMsg"),
        vec![
            field(
                "left",
                "LeftChild<T>",
                vec![child_attr("left", "ParentMsg::Left", "ParentMsg::into_left")],
            ),
            field("ignored", "usize", vec![]),
        ],
    );
    parsed.generics = s("<T>");
    let spec = parse_ok(parsed);
    assert_eq!(spec.struct_ident, "Parent");
    assert_eq!(spec.message_ty, "ParentMsg");
    assert_eq!(spec.generics, "<T>");
    assert_eq!(spec.children.len(), 1);
    assert_eq!(spec.children[0].path, "left");
    assert_eq!(spec.children[0].lift, "ParentMsg::Left");
    assert_eq!(spec.children[0].extract, "ParentMsg::into_left");
}

#[test]
fn argument_values_with_duplicates_and_unknown_names_are_aggregated() {
    let error = parse_error(input(
        message("ParentMsg"),
        vec![field(
            "child",
            "ChildModel",
            vec![vec![
                name_value("path", lit("left")),
                name_value("path", lit("right")),
                name_value("extra", expr("true")),
                name_value("lift", path("ParentMsg::Child")),
                name_value("extract", path("ParentMsg::into_child")),
            ]],
        )],
    ));
    assert_eq!(
        error.messages,
        vec![s("duplicate `path` attribute"), s("unsupported `child` attribute")]
    );
}

#[test]
fn reports_each_missing_child_argument_in_order() {
    let error = parse_error(input(
        message("ParentMsg"),
        vec![field("child", "ChildModel", vec![vec![]])],
    ));
    assert_eq!(
        error.messages,
        vec![s("missing `path`"), s("missing `lift`"), s("missing `extract`")]
    );
}

#[test]
fn duplicate_message_and_non_type_message_are_reported() {
    let error = parse_error(input(
        vec![
            vec![name_value("message", path("A"))],
            vec![name_value("message", path("B")), MetaItem::Path(s("strict"))],
        ],
        vec![],
    ));
    assert_eq!(
        error.messages,
        vec![s("duplicate `message` attribute"), s("unsupported `composite` attribute")]
    );

    let error = parse_error(input(vec![vec![name_value("message", lit("A"))]], vec![]));
    assert_eq!(error.messages, vec![s("not a type"), s("missing `message`")]);
}

#[test]
fn an_arguments_error_replaces_every_other_diagnostic() {
    let mut parsed = input(vec![vec![MetaItem::Path(s("strict"))]], vec![]);
    parsed.args_error = Some(s("expected `,`"));
    assert_eq!(parse_error(parsed).messages, vec![s("expected `,`")]);

    let mut broken = field("c", "C", vec![vec![]]);
    broken.args_error = Some(s("unexpected end of input"));
    let error = parse_error(input(message("M"), vec![broken]));
    assert_eq!(error.messages, vec![s("unexpected end of input")]);
}

#[test]
fn only_structs_with_named_fields_are_supported() {
    let error = parse_error(CompositeInput {
        ident: s("Parent"),
        generics: s(""),
        composite_attrs: message("ParentMsg"),
        args_error: None,
        fields: FieldsInput::Unsupported,
    });
    assert_eq!(
        error.message(),
        "`Composite` supports only structs with named fields"
    );
}

#[test]
fn a_third_child_on_a_shared_path_names_the_latest_earlier_one() {
    let error = parse_error(input(
        message("M"),
        vec![
            field("a", "A", vec![child_attr("p", "M::A", "M::a")]),
            field("b", "B", vec![child_attr("p", "M::B", "M::b")]),
            field("c", "C", vec![child_attr("p", "M::C", "M::c")]),
        ],
    ));
    assert_eq!(
        error.messages,
        vec![
            s("duplicate child path `p` for fields `a` and `b`"),
            s("duplicate child path `p` for fields `b` and `c`"),
        ]
    );
}

#[test]
fn a_composite_without_children_is_valid() {
    let spec = parse_ok(input(message("M"), vec![field("count", "usize", vec![])]));
    assert!(spec.children.is_empty());
    assert_eq!(spec.message_ty, "M");
}

#[test]
fn positional_child_fields_are_refused() {
    let error = parse_error(input(
        message("M"),
        vec![FieldInput {
            ident: None,
            ty: s("Child"),
            child_attrs: vec![child_attr("c", "M::C", "M::c")],
            args_error: None,
        }],
    ));
    assert_eq!(error.messages, vec![s("`Composite` supports only named child fields")]);
}

#[test]
fn list_arguments_of_child_are_unsupported() {
    let error = parse_error(input(
        message("M"),
        vec![field(
            "c",
            "C",
            vec![vec![
                MetaItem::List(s("extra")),
                name_value("path", lit("c")),
                name_value("lift", path("M::C")),
                name_value("lift", path("M::D")),
                name_value("extract", expr("|m| m.into_c()")),
            ]],
        )],
    ));
    assert_eq!(
        error.messages,
        vec![s("unsupported `child` attribute"), s("duplicate `lift` attribute")]
    );
}

fn split(impl_generics: &str, ty_generics: &str, where_clause: &str) -> SplitGenerics {
    SplitGenerics {
        impl_generics: s(impl_generics),
        ty_generics: s(ty_generics),
        where_clause: s(where_clause),
    }
}

fn spec_with(children: Vec<ChildSpec>) -> CompositeSpec {
    CompositeSpec {
        struct_ident: s("Parent"),
        generics: s("<T>"),
        message_ty: s("ParentMsg"),
        children,
    }
}

fn tokens_of(text: &str) -> String {
    match text.parse::<proc_macro2::TokenStream>() {
        Ok(tokens) => tokens.to_string(),
        Err(error) => panic!("the expansion does not lex: {error}"),
    }
}

#[test]
fn expansion_emits_shared_bindings_helper_per_child() {
    let spec = spec_with(vec![ChildSpec {
        field_ident: s("left"),
        field_ty: s("LeftChild<T>"),
        path: s("left"),
        lift: s("ParentMsg::Left"),
        extract: s("ParentMsg::into_left"),
    }]);
    let text = composite_expansion(&spec, &split("<T>", "<T>", ""), "::gpui_tea");
    let tokens = tokens_of(&text);

    assert!(tokens.contains("__left_composite_bindings"));
    assert!(tokens.contains("let (__lift , _) = Self :: __left_composite_bindings () ;"));
    assert!(tokens.contains("let (__lift , __extract) = Self :: __left_composite_bindings () ;"));
}

#[test]
fn expansion_is_one_impl_block_with_every_helper() {
    let spec = spec_with(vec![
        ChildSpec {
            field_ident: s("left"),
            field_ty: s("LeftChild<T>"),
            path: s("left \"pane\""),
            lift: s("ParentMsg::Left"),
            extract: s("ParentMsg::into_left"),
        },
        ChildSpec {
            field_ident: s("r#type"),
            field_ty: s("TypeChild"),
            path: s("type"),
            lift: s("ParentMsg::Type"),
            extract: s("ParentMsg::into_type"),
        },
    ]);
    let text = composite_expansion(&spec, &split("<T>", "<T>", "where T: Clone"), "::gpui_tea");
    let item = match syn::parse_str::<syn::ItemImpl>(&text) {
        Ok(item) => item,
        Err(error) => panic!("the expansion is not an impl block: {error}"),
    };
    let names: Vec<String> = item
        .items
        .iter()
        .filter_map(|item| match item {
            syn::ImplItem::Fn(f) => Some(f.sig.ident.to_string()),
            _ => None,
        })
        .collect();
    assert_eq!(
        names,
        vec![
            "__left_composite_bindings",
            "__type_composite_bindings",
            "__composite_init",
            "__composite_update",
            "__composite_subscriptions",
            "left_view",
            "type_view",
        ]
    );
    assert!(item.generics.where_clause.is_some());
    assert!(text.contains("::gpui_tea::ChildPath::new(\"left \\\"pane\\\"\")"));
    let tokens = tokens_of(&text);
    assert!(tokens.contains(":: gpui_tea :: Command :: batch"));
    let left = tokens.find("ChildScopeExt :: update (& __child_scope , & mut self . left").unwrap();
    let right = tokens.find("ChildScopeExt :: update (& __child_scope , & mut self . r#type").unwrap();
    assert!(left < right);
    assert!(tokens.contains("composite child subscriptions must preserve unique scoped keys"));
}

#[test]
fn expansion_without_children_returns_no_command_and_hands_messages_back() {
    let text = composite_expansion(&spec_with(vec![]), &split("", "", ""), "::gpui_tea");
    let tokens = tokens_of(&text);
    assert!(tokens.contains(":: gpui_tea :: Command :: none ()"));
    assert!(tokens.contains("let msg = msg ; :: core :: result :: Result :: Err (msg)"));
    assert!(syn::parse_str::<syn::ItemImpl>(&text).is_ok());
}

#[test]
fn expansion_from_source_generics_splits_them() {
    let mut spec = spec_with(vec![]);
    spec.generics = s("<T: Clone, const N: usize>");
    let text = match expand_composite_source(&spec, "where T: Send", "::gpui_tea") {
        Some(text) => text,
        None => panic!("the generics read"),
    };
    let item = match syn::parse_str::<syn::ItemImpl>(&text) {
        Ok(item) => item,
        Err(error) => panic!("the expansion is not an impl block: {error}"),
    };
    assert_eq!(item.generics.params.len(), 2);
    assert!(item.generics.where_clause.is_some());
    assert_eq!(tokens_of(&item.self_ty.to_token_stream().to_string()), "Parent < T , N >");
    assert!(expand_composite_source(&spec, "when T: Send", "::gpui_tea").is_none());
}
