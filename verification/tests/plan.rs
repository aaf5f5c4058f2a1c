use sonic_derive::attr::{
    parse_container_attrs, parse_field_attrs, ContainerAttrs, DefaultKind, FieldAttrs,
};
use sonic_derive::codegen::{
    ConstructField, Expansion, FieldLookup, SeqField, ValueExpr, Wrapper,
};
use sonic_derive::expand;
use sonic_derive::meta::{AttrKind, Attribute, InnerArg, InnerMeta, MetaArg, NestedMeta};
use sonic_derive::model::{sorted_names, Data, DeriveInput, Field, Fields, StructModel};
use sonic_derive::text::{decimal_string, str_lt};

fn s(x: &str) -> String {
    x.to_string()
}

fn serde(items: Vec<NestedMeta>) -> Attribute {
    Attribute { kind: AttrKind::Serde, items, syntax_error: None }
}

fn sonic(items: Vec<NestedMeta>) -> Attribute {
    Attribute { kind: AttrKind::Sonic, items, syntax_error: None }
}

fn word(path: &str) -> NestedMeta {
    NestedMeta { path: s(path), arg: MetaArg::Empty, at_end: false }
}

fn kv(path: &str, value: &str) -> NestedMeta {
    NestedMeta { path: s(path), arg: MetaArg::Str(s(value)), at_end: false }
}

fn field(name: &str, ty: &str, attrs: Vec<Attribute>) -> Field {
    Field { ident: s(name), ty: s(ty), attrs }
}

fn named(ident: &str, attrs: Vec<Attribute>, fields: Vec<Field>) -> DeriveInput {
    DeriveInput { ident: s(ident), has_generics: false, attrs, data: Data::Struct(Fields::Named(fields)) }
}

fn entries(lookup: &FieldLookup) -> &Vec<(String, u32)> {
    match lookup {
        FieldLookup::Phf(e) | FieldLookup::Match(e) => e,
    }
}

fn lookup_text(x: &Expansion, name: &str) -> Option<u32> {
    entries(&x.lookup).iter().find(|(n, _)| n == name).map(|(_, id)| *id)
}

fn lookup_index(x: &Expansion, index: u64) -> Option<usize> {
    x.numeric_entries.iter().find(|(i, _)| *i == index).map(|(_, id)| *id)
}

/// The wide struct: `#[serde(default)]`, an alias, a field with its own decoder,
/// a field default, a skipped field, a renamed field, and 127 plain fields.
fn wide() -> DeriveInput {
    let mut fields = vec![
        field("user_id", "i64", vec![serde(vec![kv("alias", "uid")])]),
        field(
            "coerced",
            "i64",
            vec![serde(vec![word("default"), kv("deserialize_with", "number_or_string")])],
        ),
        field("tag", "i64", vec![serde(vec![kv("default", "default_tag")])]),
        field("skipped", "i64", vec![serde(vec![word("skip_deserializing")])]),
        field(
            "renamed",
            "i64",
            vec![serde(vec![
                NestedMeta {
                    path: s("rename"),
                    arg: MetaArg::List(
                        vec![
                            InnerMeta { path: s("deserialize"), arg: InnerArg::Str(s("wire_name")), at_end: false },
                            InnerMeta { path: s("serialize"), arg: InnerArg::Str(s("wire_out")), at_end: true },
                        ],
                        None,
                    ),
                    at_end: false,
                },
                word("default"),
            ])],
        ),
    ];
    for i in 1..=127 {
        fields.push(field(&format!("f{i:02}"), "i64", vec![]));
    }
    named("FastWide", vec![serde(vec![word("default")])], fields)
}

#[test]
fn phf_path_matches_serde_for_alias_rename_default_skip_and_custom_decoder() {
    let x = expand(wide()).unwrap();
    assert!(matches!(x.lookup, FieldLookup::Phf(_)));
    assert_eq!(lookup_text(&x, "uid"), Some(0));
    assert_eq!(lookup_text(&x, "user_id"), Some(0));
    assert_eq!(lookup_text(&x, "coerced"), Some(1));
    assert_eq!(lookup_text(&x, "tag"), Some(2));
    assert_eq!(lookup_text(&x, "wire_name"), Some(3));
    assert_eq!(lookup_text(&x, "renamed"), None);
    assert_eq!(lookup_text(&x, "skipped"), None);
    assert_eq!(lookup_text(&x, "f01"), Some(4));
    assert_eq!(lookup_text(&x, "f31"), Some(34));
    assert_eq!(lookup_text(&x, "unknown"), None);
    assert!(!x.deny_unknown_fields);
    assert_eq!(x.wrappers, vec![Wrapper { id: 1, ty: s("i64"), path: s("number_or_string") }]);
    assert_eq!(x.default_init, Some(ValueExpr::DefaultTrait));
    // tag = 77 comes from its own default; skipped = 0 from the struct's default.
    assert_eq!(x.map_fields[2].missing, ValueExpr::Call(s("default_tag")));
    assert_eq!(x.construct[3], (s("skipped"), ConstructField::Skipped(ValueExpr::ContainerField(s("skipped")))));
    assert_eq!(x.map_fields[3].canonical, s("wire_name"));
    assert!(x.map_fields[1].with_wrapper);
    assert_eq!(x.map_fields[1].missing, ValueExpr::DefaultTrait);
}

#[test]
fn canonical_plus_alias_is_a_duplicate() {
    // "user_id" and "uid" select the same field, whose second value is a duplicate.
    let x = expand(wide()).unwrap();
    assert_eq!(lookup_text(&x, "user_id"), lookup_text(&x, "uid"));
    assert_eq!(x.map_fields[0].id, 0);
    assert_eq!(x.map_fields[0].canonical, s("user_id"));
}

#[test]
fn deny_unknown_fields_matches_serde() {
    let input = named(
        "FastStrict",
        vec![serde(vec![word("deny_unknown_fields")]), sonic(vec![word("force_phf")])],
        vec![field("id", "i64", vec![])],
    );
    let x = expand(input).unwrap();
    assert!(x.deny_unknown_fields);
    assert_eq!(x.lookup, FieldLookup::Phf(vec![(s("id"), 0)]));
    assert_eq!(lookup_text(&x, "extra"), None);
    assert_eq!(x.unknown_index_message, "field index 0 <= i < 1");
}

#[test]
fn small_struct_uses_the_direct_match_fallback() {
    let input = named("FastSmall", vec![], vec![field("id", "i64", vec![serde(vec![kv("alias", "identifier")])])]);
    let x = expand(input).unwrap();
    assert_eq!(x.lookup, FieldLookup::Match(vec![(s("id"), 0), (s("identifier"), 0)]));
    assert_eq!(lookup_text(&x, "identifier"), Some(0));
}

fn fast_required() -> DeriveInput {
    named(
        "FastRequired",
        vec![sonic(vec![word("force_phf")])],
        vec![field("optional", "Option<i64>", vec![]), field("required", "i64", vec![])],
    )
}

#[test]
fn missing_option_and_required_field_match_serde() {
    let x = expand(fast_required()).unwrap();
    assert_eq!(x.map_fields[0].missing, ValueExpr::MissingFieldHelper(s("Option<i64>"), s("optional")));
    assert_eq!(x.map_fields[1].missing, ValueExpr::MissingFieldHelper(s("i64"), s("required")));
    assert_eq!(x.default_init, None);
}

#[test]
fn sequence_representation_matches_serde() {
    let x = expand(fast_required()).unwrap();
    assert_eq!(
        x.seq_fields,
        vec![
            (
                s("optional"),
                SeqField::Read {
                    id: 0,
                    ty: s("Option<i64>"),
                    with_wrapper: false,
                    missing: ValueExpr::InvalidLength(0, s("struct FastRequired")),
                }
            ),
            (
                s("required"),
                SeqField::Read {
                    id: 1,
                    ty: s("i64"),
                    with_wrapper: false,
                    missing: ValueExpr::InvalidLength(1, s("struct FastRequired")),
                }
            ),
        ]
    );
    assert_eq!(x.expecting, "struct FastRequired");
    assert_eq!(x.serde_name, "FastRequired");
}

#[test]
fn numeric_field_indexes_include_alias_entries() {
    let input = named(
        "FastNumericFields",
        vec![serde(vec![word("default")]), sonic(vec![word("force_phf")])],
        vec![field("first", "i64", vec![serde(vec![kv("alias", "alias")])]), field("second", "i64", vec![])],
    );
    let x = expand(input).unwrap();
    assert_eq!(x.field_names, vec![s("alias"), s("first"), s("second")]);
    // Index 2 selects `second`: (2, 20) fills second with 20 and leaves first at 0.
    assert_eq!(lookup_index(&x, 2), Some(1));
    assert_eq!(x.numeric_entries, vec![(0, 0), (1, 0), (2, 1)]);
    assert_eq!(x.map_fields[0].missing, ValueExpr::ContainerField(s("first")));
}

#[test]
fn required_custom_decoder_is_not_called_for_a_missing_field() {
    let input = named(
        "FastCustomRequired",
        vec![sonic(vec![word("force_phf")])],
        vec![field("value", "i64", vec![serde(vec![kv("deserialize_with", "number_or_string")])])],
    );
    let x = expand(input).unwrap();
    assert_eq!(x.map_fields[0].missing, ValueExpr::MissingFieldError(s("value")));
    assert!(x.map_fields[0].with_wrapper);
    assert_eq!(x.wrappers.len(), 1);
}

#[test]
fn text_and_numeric_lookup_agree_on_every_position() {
    let x = expand(wide()).unwrap();
    assert_eq!(x.field_names.len(), entries(&x.lookup).len());
    for (i, name) in x.field_names.iter().enumerate() {
        assert_eq!(x.numeric_entries[i].0, i as u64);
        assert_eq!(lookup_text(&x, name).map(|id| id as usize), Some(x.numeric_entries[i].1));
    }
    assert_eq!(x.unknown_index_message, "field index 0 <= i < 132");
}

#[test]
fn accepted_names_are_sorted_and_fields_numbered_in_order() {
    let model = StructModel::from_input(wide()).unwrap();
    let keys: Vec<&String> = model.accepted.iter().map(|(n, _)| n).collect();
    let mut sorted = keys.clone();
    sorted.sort();
    assert_eq!(keys, sorted);
    let ids: Vec<Option<usize>> = model.fields.iter().take(6).map(|f| f.de_id).collect();
    assert_eq!(ids, vec![Some(0), Some(1), Some(2), None, Some(3), Some(4)]);
    assert_eq!(model.fields[4].canonical, "wire_name");
    assert_eq!(model.fields[0].names, vec![s("uid"), s("user_id")]);
    assert_eq!(model.accepted.len(), 132);
}

#[test]
fn container_options_are_read() {
    let attrs = vec![
        serde(vec![
            kv("rename", "Wire"),
            kv("expecting", "a wire"),
            kv("crate", "my_serde"),
            kv("default", "make"),
        ]),
        sonic(vec![kv("crate", "my_sonic"), word("force_phf")]),
    ];
    let c = parse_container_attrs(&attrs).unwrap();
    assert_eq!(
        c,
        ContainerAttrs {
            default: DefaultKind::Path(s("make")),
            deny_unknown_fields: false,
            expecting: Some(s("a wire")),
            name: Some(s("Wire")),
            serde_path: Some(s("my_serde")),
            sonic_path: Some(s("my_sonic")),
            force_phf: true,
        }
    );
    let x = expand(named("S", attrs, vec![field("a", "i64", vec![])])).unwrap();
    assert_eq!(x.serde_path, "my_serde");
    assert_eq!(x.sonic_path, "my_sonic");
    assert_eq!(x.serde_name, "Wire");
    assert_eq!(x.expecting, "a wire");
    assert_eq!(x.default_init, Some(ValueExpr::Call(s("make"))));
    let plain = expand(named("S", vec![], vec![field("a", "i64", vec![])])).unwrap();
    assert_eq!(plain.serde_path, "::serde");
    assert_eq!(plain.sonic_path, "::sonic_rs");
    assert_eq!(plain.expecting, "struct S");
}

#[test]
fn later_rename_wins_and_aliases_accumulate() {
    let attrs = vec![
        serde(vec![kv("rename", "one"), kv("alias", "b")]),
        serde(vec![kv("alias", "a"), kv("rename", "two"), word("skip_serializing"), kv("getter", "g")]),
    ];
    let f = parse_field_attrs(&attrs).unwrap();
    assert_eq!(
        f,
        FieldAttrs {
            aliases: vec![s("b"), s("a")],
            default: DefaultKind::Unset,
            deserialize_name: Some(s("two")),
            deserialize_with: None,
            skip_deserializing: false,
        }
    );
    // `rename(serialize = ...)` alone leaves the name for deserializing as it was.
    let only_ser = vec![serde(vec![NestedMeta {
        path: s("rename"),
        arg: MetaArg::List(vec![InnerMeta { path: s("serialize"), arg: InnerArg::Str(s("out")), at_end: true }], None),
        at_end: true,
    }])];
    assert_eq!(parse_field_attrs(&only_ser).unwrap().deserialize_name, None);
}

#[test]
fn skipped_values_follow_the_defaults() {
    let input = named(
        "S",
        vec![],
        vec![
            field("a", "i64", vec![serde(vec![word("skip")])]),
            field("b", "i64", vec![serde(vec![word("skip"), kv("default", "mk")])]),
            field("c", "i64", vec![serde(vec![word("skip"), word("default")])]),
        ],
    );
    let x = expand(input).unwrap();
    assert_eq!(x.field_names, Vec::<String>::new());
    assert_eq!(x.unknown_index_message, "field index 0 <= i < 0");
    assert_eq!(
        x.construct,
        vec![
            (s("a"), ConstructField::Skipped(ValueExpr::DefaultTrait)),
            (s("b"), ConstructField::Skipped(ValueExpr::Call(s("mk")))),
            (s("c"), ConstructField::Skipped(ValueExpr::DefaultTrait)),
        ]
    );
    assert!(matches!(x.seq_fields[1].1, SeqField::Skipped(ValueExpr::Call(_))));
    assert!(x.map_fields.is_empty());
    assert!(x.field_ids.is_empty());
}

#[test]
fn names_are_sorted_as_strings_are() {
    let names = sorted_names(&s("first"), &vec![s("alias"), s("zeta"), s("first"), s("Alpha"), s("é")]);
    let mut expected = vec![s("alias"), s("first"), s("zeta"), s("Alpha"), s("é")];
    expected.sort();
    assert_eq!(names, expected);
    assert!(str_lt("ab", "b"));
    assert!(str_lt("a", "ab"));
    assert!(!str_lt("ab", "ab"));
    assert!(str_lt("Z", "a"));
}

#[test]
fn decimal_is_written_as_format_does() {
    for n in [0usize, 7, 10, 99, 100, 12345, usize::MAX] {
        assert_eq!(decimal_string(n), format!("{n}"));
    }
}

#[test]
fn map_fields_follow_the_field_indexes() {
    let input = named(
        "S",
        vec![],
        vec![
            field("a", "i64", vec![]),
            field("b", "i64", vec![serde(vec![word("skip")])]),
            field("c", "u8", vec![serde(vec![kv("rename", "see")])]),
        ],
    );
    let x = expand(input).unwrap();
    assert_eq!(x.field_ids, vec![0, 1]);
    let ids: Vec<usize> = x.map_fields.iter().map(|f| f.id).collect();
    assert_eq!(ids, vec![0, 1]);
    assert_eq!(x.map_fields[1].canonical, "see");
    assert_eq!(x.map_fields[1].ty, "u8");
    assert_eq!(
        x.seq_fields[2],
        (
            s("c"),
            SeqField::Read {
                id: 1,
                ty: s("u8"),
                with_wrapper: false,
                missing: ValueExpr::InvalidLength(1, s("struct S")),
            }
        )
    );
    assert_eq!(x.construct[2], (s("c"), ConstructField::Var(1)));
    assert_eq!(lookup_text(&x, "c"), None);
    assert_eq!(lookup_text(&x, "b"), None);
    assert_eq!(x.field_names, vec![s("a"), s("see")]);
}

#[test]
fn lookup_switches_to_the_table_at_the_threshold() {
    let make = |n: usize| {
        let fields = (0..n).map(|i| field(&format!("g{i:02}"), "i64", vec![])).collect();
        expand(named("S", vec![], fields)).unwrap()
    };
    assert!(matches!(make(31).lookup, FieldLookup::Match(_)));
    assert!(matches!(make(32).lookup, FieldLookup::Phf(_)));
    // Aliases count toward the threshold.
    let fields = (0..16)
        .map(|i| field(&format!("g{i:02}"), "i64", vec![serde(vec![kv("alias", &format!("a{i:02}"))])]))
        .collect();
    assert!(matches!(expand(named("S", vec![], fields)).unwrap().lookup, FieldLookup::Phf(_)));
}
