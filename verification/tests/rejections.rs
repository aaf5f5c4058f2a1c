use sonic_derive::attr::{AttrError, AttrErrorKind};
use sonic_derive::expand;
use sonic_derive::meta::{AttrKind, Attribute, InnerArg, InnerMeta, MetaArg, NestedMeta};
use sonic_derive::model::{Data, DeriveError, DeriveInput, Field, Fields};

fn s(x: &str) -> String {
    x.to_string()
}

fn serde(items: Vec<NestedMeta>) -> Attribute {
    Attribute { kind: AttrKind::Serde, items, syntax_error: None }
}

fn word(path: &str) -> NestedMeta {
    NestedMeta { path: s(path), arg: MetaArg::Empty, at_end: false }
}

fn kv(path: &str, value: &str) -> NestedMeta {
    NestedMeta { path: s(path), arg: MetaArg::Str(s(value)), at_end: false }
}

fn field(name: &str, ty: &str, attrs: Vec<Attribute>) -> Field {
    Field { ident: s(name), ty: s(ty), attrs }
}

fn named(ident: &str, attrs: Vec<Attribute>, fields: Vec<Field>) -> DeriveInput {
    DeriveInput { ident: s(ident), has_generics: false, attrs, data: Data::Struct(Fields::Named(fields)) }
}

fn assert_rejects(input: DeriveInput, expected: &str) {
    let error = expand(input).unwrap_err().message();
    assert!(error.contains(expected), "{error}");
}

#[test]
fn rejects_generics_instead_of_guessing_bounds() {
    // struct Generic<T> { value: T }
    let mut input = named("Generic", vec![], vec![field("value", "T", vec![])]);
    input.has_generics = true;
    assert_rejects(input, "non-generic");
}

#[test]
fn rejects_flatten_instead_of_changing_buffering_semantics() {
    assert_rejects(
        named(
            "Flattened",
            vec![],
            vec![field(
                "extra",
                "std::collections::BTreeMap<String, String>",
                vec![serde(vec![word("flatten")])],
            )],
        ),
        "field-level Serde option",
    );
}

#[test]
fn rejects_enums_until_variant_codegen_is_implemented() {
    let input = DeriveInput { ident: s("Choice"), has_generics: false, attrs: vec![], data: Data::Enum };
    assert_rejects(input, "does not yet support enums");
}

#[test]
fn rejects_container_options_that_change_field_or_type_semantics() {
    let value = || vec![field("value", "i64", vec![])];
    assert_rejects(
        named("RenameAll", vec![serde(vec![kv("rename_all", "camelCase")])], value()),
        "container-level Serde option",
    );
    assert_rejects(
        named("Transparent", vec![serde(vec![word("transparent")])], value()),
        "container-level Serde option",
    );
    assert_rejects(
        named("FromAttr", vec![serde(vec![kv("from", "i64")])], value()),
        "container-level Serde option",
    );
    assert_rejects(
        named("TryFromAttr", vec![serde(vec![kv("try_from", "i64")])], value()),
        "container-level Serde option",
    );
}

#[test]
fn rejects_field_options_that_need_extra_lifetime_or_buffering_logic() {
    assert_rejects(
        named(
            "Borrowed",
            vec![],
            vec![field("value", "std::borrow::Cow<'static, str>", vec![serde(vec![word("borrow")])])],
        ),
        "field-level Serde option",
    );
    let bound = NestedMeta {
        path: s("bound"),
        arg: MetaArg::List(
            vec![InnerMeta {
                path: s("deserialize"),
                arg: InnerArg::Str(s("String: serde::Deserialize<'de>")),
                at_end: true,
            }],
            None,
        ),
        at_end: true,
    };
    assert_rejects(
        named("Bounded", vec![], vec![field("value", "String", vec![serde(vec![bound])])]),
        "field-level Serde option",
    );
}

#[test]
fn rejects_unions_and_unnamed_structs() {
    let union = DeriveInput { ident: s("U"), has_generics: false, attrs: vec![], data: Data::Union };
    assert_eq!(expand(union).unwrap_err(), DeriveError::Union);
    assert_rejects(
        DeriveInput { ident: s("U"), has_generics: false, attrs: vec![], data: Data::Union },
        "does not support unions",
    );
    let tuple = DeriveInput {
        ident: s("T"),
        has_generics: false,
        attrs: vec![],
        data: Data::Struct(Fields::Unnamed),
    };
    assert_eq!(expand(tuple).unwrap_err(), DeriveError::NotNamedStruct);
    let unit =
        DeriveInput { ident: s("T"), has_generics: false, attrs: vec![], data: Data::Struct(Fields::Unit) };
    assert_rejects(unit, "only named structs");
}

#[test]
fn generics_are_refused_before_the_shape() {
    let input = DeriveInput { ident: s("E"), has_generics: true, attrs: vec![], data: Data::Enum };
    assert_eq!(expand(input).unwrap_err(), DeriveError::Generic);
}

#[test]
fn field_level_sonic_attribute_is_refused() {
    let sonic = Attribute { kind: AttrKind::Sonic, items: vec![word("force_phf")], syntax_error: None };
    let err = expand(named("S", vec![], vec![field("a", "i64", vec![sonic])])).unwrap_err();
    assert_eq!(
        err,
        DeriveError::FieldAttr(0, AttrError { kind: AttrErrorKind::FieldSonicAttribute, attr: 0, item: 0 })
    );
    assert_eq!(err.message(), "SonicDeserialize has no field-level #[sonic(...)] options");
}

#[test]
fn unknown_sonic_option_is_refused() {
    let sonic = Attribute { kind: AttrKind::Sonic, items: vec![word("fast")], syntax_error: None };
    let err = expand(named("S", vec![sonic], vec![field("a", "i64", vec![])])).unwrap_err();
    assert_eq!(
        err,
        DeriveError::ContainerAttr(AttrError {
            kind: AttrErrorKind::UnsupportedSonicOption,
            attr: 0,
            item: 0
        })
    );
    assert_eq!(err.message(), "unsupported #[sonic(...)] option");
}

#[test]
fn second_field_with_a_taken_name_is_refused() {
    let input = named(
        "S",
        vec![],
        vec![
            field("a", "i64", vec![serde(vec![kv("alias", "x")])]),
            field("x", "i64", vec![]),
        ],
    );
    let err = expand(input).unwrap_err();
    assert_eq!(err, DeriveError::DuplicateName(1, s("x")));
    assert_eq!(err.message(), "deserialize field name `x` is used by multiple fields");
}

#[test]
fn duplicate_reported_is_the_first_in_sorted_order() {
    let input = named(
        "S",
        vec![],
        vec![
            field("a", "i64", vec![serde(vec![kv("alias", "m"), kv("alias", "c")])]),
            field("z", "i64", vec![serde(vec![kv("alias", "m"), kv("alias", "c")])]),
        ],
    );
    assert_eq!(expand(input).unwrap_err(), DeriveError::DuplicateName(1, s("c")));
}

#[test]
fn skipped_field_may_reuse_a_name() {
    let input = named(
        "S",
        vec![],
        vec![field("a", "i64", vec![]), field("b", "i64", vec![serde(vec![kv("rename", "a"), word("skip")])])],
    );
    assert!(expand(input).is_ok());
}

#[test]
fn first_refused_field_wins() {
    let input = named(
        "S",
        vec![],
        vec![
            field("a", "i64", vec![]),
            field("a", "i64", vec![]),
            field("c", "i64", vec![serde(vec![word("flatten")])]),
        ],
    );
    assert_eq!(expand(input).unwrap_err(), DeriveError::DuplicateName(1, s("a")));
    let input = named(
        "S",
        vec![],
        vec![field("a", "i64", vec![serde(vec![word("ok"), word("flatten")])]), field("a", "i64", vec![])],
    );
    assert_eq!(
        expand(input).unwrap_err(),
        DeriveError::FieldAttr(0, AttrError { kind: AttrErrorKind::UnsupportedFieldOption, attr: 0, item: 0 })
    );
}

#[test]
fn value_shapes_are_checked() {
    let one = |m: NestedMeta| named("S", vec![], vec![field("a", "i64", vec![serde(vec![m])])]);
    let kind = |input: DeriveInput| match expand(input).unwrap_err() {
        DeriveError::FieldAttr(_, e) => e.kind,
        other => panic!("{other:?}"),
    };
    assert_eq!(kind(one(word("alias"))), AttrErrorKind::ExpectedEq);
    assert_eq!(kind(one(NestedMeta { path: s("alias"), arg: MetaArg::EqOther, at_end: false })), AttrErrorKind::ExpectedStrLit);
    assert_eq!(kind(one(kv("skip", "yes"))), AttrErrorKind::ExpectedComma);
    assert_eq!(kind(one(word("rename"))), AttrErrorKind::ExpectedParens);
    assert_eq!(
        kind(one(NestedMeta { path: s("default"), arg: MetaArg::List(vec![], None), at_end: false })),
        AttrErrorKind::ExpectedComma
    );
    let inner = |p: &str, a: InnerArg| NestedMeta {
        path: s("rename"),
        arg: MetaArg::List(vec![InnerMeta { path: s(p), arg: a, at_end: false }], None),
        at_end: false,
    };
    assert_eq!(kind(one(inner("both", InnerArg::Str(s("x"))))), AttrErrorKind::ExpectedSerializeOrDeserialize);
    assert_eq!(kind(one(inner("deserialize", InnerArg::List))), AttrErrorKind::ExpectedEq);
    assert_eq!(kind(one(inner("serialize", InnerArg::EqOther))), AttrErrorKind::ExpectedStrLit);
    assert_eq!(
        kind(one(NestedMeta {
            path: s("rename"),
            arg: MetaArg::List(vec![], Some(s("expected nested attribute"))),
            at_end: true,
        })),
        AttrErrorKind::Syntax(s("expected nested attribute"))
    );
    // `#[serde(alias)]`, `#[serde(alias =)]`, `#[serde(rename)]` and
    // `rename(deserialize)` that end their attribute or list
    let at_end = |p: &str, a: MetaArg| NestedMeta { path: s(p), arg: a, at_end: true };
    assert_eq!(kind(one(at_end("alias", MetaArg::Empty))), AttrErrorKind::EndBeforeEq);
    assert_eq!(kind(one(at_end("alias", MetaArg::EqOther))), AttrErrorKind::EndBeforeStrLit);
    assert_eq!(kind(one(at_end("rename", MetaArg::Empty))), AttrErrorKind::EndBeforeParens);
    assert_eq!(kind(one(at_end("deserialize_with", MetaArg::Empty))), AttrErrorKind::EndBeforeEq);
    let inner_end = NestedMeta {
        path: s("rename"),
        arg: MetaArg::List(vec![InnerMeta { path: s("deserialize"), arg: InnerArg::Empty, at_end: true }], None),
        at_end: true,
    };
    assert_eq!(kind(one(inner_end)), AttrErrorKind::EndBeforeEq);
    assert_eq!(AttrErrorKind::EndBeforeEq.message(), "unexpected end of input, expected `=`");
    assert_eq!(AttrErrorKind::EndBeforeStrLit.message(), "unexpected end of input, expected string literal");
    assert_eq!(AttrErrorKind::EndBeforeParens.message(), "unexpected end of input, expected parentheses");
    assert_eq!(AttrErrorKind::ExpectedComma.message(), "expected `,`");
    assert_eq!(AttrErrorKind::ExpectedEq.message(), "expected `=`");
    assert_eq!(AttrErrorKind::ExpectedStrLit.message(), "expected string literal");
    assert_eq!(AttrErrorKind::ExpectedParens.message(), "expected parentheses");
    assert_eq!(AttrErrorKind::ExpectedSerializeOrDeserialize.message(), "expected `serialize` or `deserialize`");
}

#[test]
fn syntax_error_after_the_options_is_reported_after_them() {
    let attr = Attribute {
        kind: AttrKind::Serde,
        items: vec![word("transparent")],
        syntax_error: Some(s("expected `,`")),
    };
    let err = expand(named("S", vec![attr], vec![field("a", "i64", vec![])])).unwrap_err();
    assert_eq!(
        err,
        DeriveError::ContainerAttr(AttrError {
            kind: AttrErrorKind::UnsupportedContainerOption,
            attr: 0,
            item: 0
        })
    );
    let attr = Attribute {
        kind: AttrKind::Serde,
        items: vec![word("deny_unknown_fields")],
        syntax_error: Some(s("expected `,`")),
    };
    let err = expand(named("S", vec![attr], vec![field("a", "i64", vec![])])).unwrap_err();
    assert_eq!(
        err,
        DeriveError::ContainerAttr(AttrError { kind: AttrErrorKind::Syntax(s("expected `,`")), attr: 0, item: 1 })
    );
    assert_eq!(err.message(), "expected `,`");
}

#[test]
fn strings_that_are_not_paths_are_refused() {
    let input = named("S", vec![serde(vec![kv("crate", "not a path!")])], vec![field("a", "i64", vec![])]);
    match expand(input).unwrap_err() {
        DeriveError::ContainerAttr(AttrError { kind: AttrErrorKind::InvalidPath(m), attr: 0, item: 0 }) => {
            assert!(!m.is_empty())
        }
        other => panic!("{other:?}"),
    }
    let input = named(
        "S",
        vec![],
        vec![field("a", "i64", vec![serde(vec![kv("deserialize_with", "1 + 1")])])],
    );
    assert!(matches!(
        expand(input).unwrap_err(),
        DeriveError::FieldAttr(0, AttrError { kind: AttrErrorKind::InvalidPath(_), .. })
    ));
    let input = named("S", vec![], vec![field("a", "i64", vec![serde(vec![kv("default", "my::path")])])]);
    assert!(expand(input).is_ok());
    // `skip_serializing_if` takes a string that is not read as a path here.
    let input =
        named("S", vec![], vec![field("a", "i64", vec![serde(vec![kv("skip_serializing_if", "1 + 1")])])]);
    assert!(expand(input).is_ok());
}

#[test]
fn other_attributes_are_ignored() {
    let doc = Attribute { kind: AttrKind::Other, items: vec![word("anything")], syntax_error: Some(s("x")) };
    let input = named("S", vec![doc.clone()], vec![field("a", "i64", vec![doc])]);
    assert!(expand(input).is_ok());
}
