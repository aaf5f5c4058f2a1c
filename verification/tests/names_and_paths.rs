use sonic_derive::attr::{
    parse_container_attrs, parse_container_attrs_with, parse_field_attrs, parse_field_attrs_with,
    AttrError, AttrErrorKind, DefaultKind, PathCheck,
};
use sonic_derive::codegen::numeric_field_entries;
use sonic_derive::expand;
use sonic_derive::meta::{AttrKind, Attribute, MetaArg, NestedMeta};
use sonic_derive::model::{Data, DeriveError, DeriveInput, Field, Fields, StructModel};
use sonic_derive::text::strip_raw;

fn s(x: &str) -> String {
    x.to_string()
}

fn serde(items: Vec<NestedMeta>) -> Attribute {
    Attribute { kind: AttrKind::Serde, items, syntax_error: None }
}

fn sonic(items: Vec<NestedMeta>) -> Attribute {
    Attribute { kind: AttrKind::Sonic, items, syntax_error: None }
}

fn other() -> Attribute {
    Attribute { kind: AttrKind::Other, items: vec![], syntax_error: None }
}

fn word(path: &str) -> NestedMeta {
    NestedMeta { path: s(path), arg: MetaArg::Empty, at_end: false }
}

fn kv(path: &str, value: &str) -> NestedMeta {
    NestedMeta { path: s(path), arg: MetaArg::Str(s(value)), at_end: false }
}

fn suffixed(path: &str, value: &str, suffix: &str) -> NestedMeta {
    NestedMeta { path: s(path), arg: MetaArg::SuffixedStr(s(value), s(suffix)), at_end: false }
}

fn check(text: &str, error: Option<&str>) -> Option<PathCheck> {
    Some(PathCheck { text: s(text), error: error.map(s) })
}

fn field(name: &str, ty: &str, attrs: Vec<Attribute>) -> Field {
    Field { ident: s(name), ty: s(ty), attrs }
}

fn named(ident: &str, attrs: Vec<Attribute>, fields: Vec<Field>) -> DeriveInput {
    DeriveInput { ident: s(ident), has_generics: false, attrs, data: Data::Struct(Fields::Named(fields)) }
}

#[test]
fn raw_identifiers_lose_their_prefix_in_names() {
    assert_eq!(strip_raw("r#type"), "type");
    assert_eq!(strip_raw("r#r#x"), "x");
    assert_eq!(strip_raw("ref"), "ref");
    assert_eq!(strip_raw("r"), "r");
    let m = StructModel::from_input(named("r#S", vec![], vec![field("r#type", "i64", vec![])])).unwrap();
    assert_eq!(m.fields[0].ident, "r#type");
    assert_eq!(m.fields[0].canonical, "type");
    assert_eq!(m.accepted, vec![(s("type"), 0)]);
    assert_eq!(m.ident, "r#S");
    assert_eq!(m.serde_name, "S");
    assert_eq!(m.expecting, "struct S");
    let x = expand(named("r#S", vec![], vec![field("r#type", "i64", vec![])])).unwrap();
    assert_eq!(x.field_names, vec![s("type")]);
}

#[test]
fn a_rename_of_a_raw_identifier_is_kept_as_written() {
    let m = StructModel::from_input(named(
        "S",
        vec![],
        vec![field("r#type", "i64", vec![serde(vec![kv("rename", "r#kind")])])],
    ))
    .unwrap();
    assert_eq!(m.fields[0].canonical, "r#kind");
}

#[test]
fn suffixed_path_literals_are_refused() {
    let err = parse_container_attrs(&vec![serde(vec![suffixed("crate", "my_serde", "sfx")])]).unwrap_err();
    assert_eq!(err, AttrError { kind: AttrErrorKind::LiteralSuffix(s("sfx")), attr: 0, item: 0 });
    assert_eq!(err.kind.message(), "unexpected suffix `sfx` on string literal");
    let err = parse_container_attrs(&vec![sonic(vec![suffixed("crate", "sonic_rs", "x")])]).unwrap_err();
    assert_eq!(err.kind, AttrErrorKind::LiteralSuffix(s("x")));
    let err = parse_field_attrs(&vec![serde(vec![suffixed("default", "make", "s")])]).unwrap_err();
    assert_eq!(err.kind, AttrErrorKind::LiteralSuffix(s("s")));
    let err = parse_field_attrs(&vec![serde(vec![suffixed("deserialize_with", "de::f", "s")])]).unwrap_err();
    assert_eq!(err.kind, AttrErrorKind::LiteralSuffix(s("s")));
}

#[test]
fn a_path_error_comes_before_the_suffix() {
    let err = parse_field_attrs(&vec![serde(vec![suffixed("deserialize_with", "1 + 1", "s")])]).unwrap_err();
    assert!(matches!(err.kind, AttrErrorKind::InvalidPath(_)));
}

#[test]
fn suffixes_on_plain_text_options_are_ignored() {
    let c = parse_container_attrs(&vec![serde(vec![suffixed("rename", "Outer", "a"), suffixed("expecting", "e", "b")])])
        .unwrap();
    assert_eq!(c.name, Some(s("Outer")));
    assert_eq!(c.expecting, Some(s("e")));
    let f = parse_field_attrs(&vec![serde(vec![suffixed("alias", "x", "c")])]).unwrap();
    assert_eq!(f.aliases, vec![s("x")]);
}

#[test]
fn verdicts_decide_path_options() {
    let attrs = vec![other(), serde(vec![kv("deny_unknown_fields", "no"), kv("crate", "whatever")])];
    // the first option is refused before the path is looked at
    let err = parse_container_attrs_with(&attrs, &vec![]).unwrap_err();
    assert_eq!(err, AttrError { kind: AttrErrorKind::ExpectedComma, attr: 1, item: 0 });
    let attrs = vec![other(), serde(vec![word("deny_unknown_fields"), kv("crate", "whatever")])];
    let refused = vec![vec![], vec![None, check("whatever", Some("not a path"))]];
    let err = parse_container_attrs_with(&attrs, &refused).unwrap_err();
    assert_eq!(err, AttrError { kind: AttrErrorKind::InvalidPath(s("not a path")), attr: 1, item: 1 });
    let accepted = vec![vec![], vec![None, check("whatever", None)]];
    let c = parse_container_attrs_with(&attrs, &accepted).unwrap();
    assert_eq!(c.serde_path, Some(s("whatever")));
    assert!(c.deny_unknown_fields);
    // a table that has no row for an attribute counts its paths as accepted
    assert_eq!(parse_container_attrs_with(&attrs, &vec![]).unwrap().serde_path, Some(s("whatever")));
    // a refusal of another text says nothing of this one
    let elsewhere = vec![vec![], vec![None, check("other", Some("not a path"))]];
    assert_eq!(parse_container_attrs_with(&attrs, &elsewhere).unwrap().serde_path, Some(s("whatever")));
    let f = parse_field_attrs_with(&vec![serde(vec![kv("default", "mk")])], &vec![vec![check("mk", Some("bad"))]]);
    assert_eq!(f.unwrap_err().kind, AttrErrorKind::InvalidPath(s("bad")));
    let f = parse_field_attrs_with(&vec![serde(vec![kv("default", "mk")])], &vec![vec![check("mk", None)]]).unwrap();
    assert_eq!(f.default, DefaultKind::Path(s("mk")));
}

#[test]
fn model_with_verdicts_reports_the_field() {
    let input = named(
        "S",
        vec![],
        vec![field("a", "i64", vec![]), field("b", "i64", vec![serde(vec![kv("deserialize_with", "de")])])],
    );
    let err = StructModel::from_input_with(input.clone(), &vec![], &vec![vec![], vec![vec![check("de", Some("no"))]]])
        .unwrap_err();
    assert_eq!(
        err,
        DeriveError::FieldAttr(1, AttrError { kind: AttrErrorKind::InvalidPath(s("no")), attr: 0, item: 0 })
    );
    let m = StructModel::from_input_with(input, &vec![], &vec![]).unwrap();
    assert_eq!(m.fields[1].attrs.deserialize_with, Some(s("de")));
}

#[test]
fn other_attributes_do_not_move_a_refusal() {
    let with_other = vec![other(), serde(vec![word("transparent")])];
    let without = vec![serde(vec![word("transparent")])];
    let a = parse_container_attrs(&with_other).unwrap_err();
    let b = parse_container_attrs(&without).unwrap_err();
    assert_eq!(a.kind, b.kind);
    assert_eq!(a.item, b.item);
    assert_eq!((a.attr, b.attr), (1, 0));
    let with_other = vec![serde(vec![kv("rename", "a")]), other(), serde(vec![kv("alias", "b")])];
    let without = vec![serde(vec![kv("rename", "a")]), serde(vec![kv("alias", "b")])];
    assert_eq!(parse_field_attrs(&with_other).unwrap(), parse_field_attrs(&without).unwrap());
}

#[test]
fn numeric_entries_cover_every_name_of_every_read_field() {
    let m = StructModel::from_input(named(
        "S",
        vec![],
        vec![
            field("a", "i64", vec![serde(vec![kv("alias", "z"), kv("alias", "b")])]),
            field("skipped", "i64", vec![serde(vec![word("skip")])]),
            field("c", "i64", vec![]),
        ],
    ))
    .unwrap();
    // FIELDS is a, b, z (field 0) then c (field 2, index 1)
    assert_eq!(numeric_field_entries(&m.fields), vec![(0, 0), (1, 0), (2, 0), (3, 1)]);
}

#[test]
fn plain_paths_are_read_as_paths() {
    for text in ["my_sonic", "crate::de::parse", "self::f", "super::x", "Self", "a1::_b::C"] {
        let f = parse_field_attrs(&vec![serde(vec![kv("deserialize_with", text)])]).unwrap();
        assert_eq!(f.deserialize_with, Some(s(text)));
    }
    let c = parse_container_attrs(&vec![sonic(vec![kv("crate", "my_sonic")])]).unwrap();
    assert_eq!(c.sonic_path, Some(s("my_sonic")));
}
