//! The plan of the generated `serde::Deserialize` impl: every name, index,
//! choice and value expression that the impl is written from.
use vstd::prelude::*;

use crate::attr::{DefaultKind, DefaultView};
use crate::model::{FieldInfo, FieldInfoView, StructModel, StructModelView, info_views};
use crate::text::{concat, decimal, decimal_string};

verus! {

/// At this many accepted names or more, field names are looked up in a perfect-hash table.
pub const PHF_THRESHOLD: usize = 32;

/// An expression that yields a field's value when the input does not give one.
#[derive(Clone, Debug, PartialEq, Eq)]
pub enum ValueExpr {
    /// `::core::default::Default::default()`
    DefaultTrait,
    /// A call of the function at this path with no arguments.
    Call(String),
    /// The field with this identifier of the struct's own default value `__default`.
    ContainerField(String),
    /// An early return of `missing_field` with this name, from the deserializer's error type.
    MissingFieldError(String),
    /// The runtime helper `__private::missing_field` for the field type (first)
    /// and the field name (second): `None` for an `Option`, else a `missing_field` error.
    MissingFieldHelper(String, String),
    /// An early return of `invalid_length` with this count of elements read and this
    /// description of what was expected.
    InvalidLength(usize, String),
}

pub enum ValueExprView {
    DefaultTrait,
    Call(Seq<char>),
    ContainerField(Seq<char>),
    MissingFieldError(Seq<char>),
    MissingFieldHelper(Seq<char>, Seq<char>),
    InvalidLength(usize, Seq<char>),
}

impl View for ValueExpr {
    type V = ValueExprView;

    open spec fn view(&self) -> ValueExprView {
        match self {
            ValueExpr::DefaultTrait => ValueExprView::DefaultTrait,
            ValueExpr::Call(p) => ValueExprView::Call(p@),
            ValueExpr::ContainerField(i) => ValueExprView::ContainerField(i@),
            ValueExpr::MissingFieldError(n) => ValueExprView::MissingFieldError(n@),
            ValueExpr::MissingFieldHelper(t, n) => ValueExprView::MissingFieldHelper(t@, n@),
            ValueExpr::InvalidLength(i, e) => ValueExprView::InvalidLength(*i, e@),
        }
    }
}

/// The view of an optional expression.
pub open spec fn opt_expr_view(e: Option<ValueExpr>) -> Option<ValueExprView> {
    match e {
        Some(x) => Some(x@),
        None => None,
    }
}

// ---------------------------------------------------------------- missing values

/// The expression of a default that a field or the struct names itself.
pub open spec fn explicit_default_spec(d: DefaultView) -> Option<ValueExprView> {
    match d {
        DefaultView::Unset => None,
        DefaultView::Default => Some(ValueExprView::DefaultTrait),
        DefaultView::Path(p) => Some(ValueExprView::Call(p)),
    }
}

/// The value of a field that a map did not hold: the field's own default, else
/// the field of the struct's default, else a missing-field error; the error is
/// returned at once for a field with its own decoder, which is then never called,
/// and otherwise comes from the helper, which gives `None` for an `Option`.
pub open spec fn missing_map_spec(f: FieldInfoView, container_default: DefaultView) -> ValueExprView {
    match explicit_default_spec(f.attrs.default) {
        Some(e) => e,
        None => if !(container_default is Unset) {
            ValueExprView::ContainerField(f.ident)
        } else if f.attrs.deserialize_with is Some {
            ValueExprView::MissingFieldError(f.canonical)
        } else {
            ValueExprView::MissingFieldHelper(f.ty, f.canonical)
        },
    }
}

/// The value of a field that a sequence ended before: the field's own default,
/// else the field of the struct's default, else an `invalid_length` error that
/// tells how many elements were read.
pub open spec fn missing_seq_spec(
    f: FieldInfoView,
    container_default: DefaultView,
    index: usize,
    expecting: Seq<char>,
) -> ValueExprView {
    match explicit_default_spec(f.attrs.default) {
        Some(e) => e,
        None => if !(container_default is Unset) {
            ValueExprView::ContainerField(f.ident)
        } else {
            ValueExprView::InvalidLength(index, expecting)
        },
    }
}

/// The value of a skipped field: the field's own default, else the field of the
/// struct's default, else `Default::default()`.
pub open spec fn skipped_spec(f: FieldInfoView, container_default: DefaultView) -> ValueExprView {
    match explicit_default_spec(f.attrs.default) {
        Some(e) => e,
        None => if !(container_default is Unset) {
            ValueExprView::ContainerField(f.ident)
        } else {
            ValueExprView::DefaultTrait
        },
    }
}

/// The expression of a default that a field or the struct names itself, if any.
pub fn explicit_default_expr(default: &DefaultKind) -> (r: Option<ValueExpr>)
    ensures
        opt_expr_view(r) == explicit_default_spec(default@),
{
    match default {
        DefaultKind::Unset => None,
        DefaultKind::Default => Some(ValueExpr::DefaultTrait),
        DefaultKind::Path(p) => Some(ValueExpr::Call(p.clone())),
    }
}

/// How the struct's own default value `__default` is made, if the struct has one.
pub fn container_default_init(default: &DefaultKind) -> (r: Option<ValueExpr>)
    ensures
        opt_expr_view(r) == explicit_default_spec(default@),
{
    explicit_default_expr(default)
}

fn is_unset(d: &DefaultKind) -> (r: bool)
    ensures
        r == (d@ is Unset),
{
    match d {
        DefaultKind::Unset => true,
        _ => false,
    }
}

/// The value of a field that a map did not hold.
pub fn missing_map_expr(field: &FieldInfo, container_default: &DefaultKind) -> (r: ValueExpr)
    ensures
        r@ == missing_map_spec(field@, container_default@),
{
    if let Some(expr) = explicit_default_expr(&field.attrs.default) {
        return expr;
    }
    if !is_unset(container_default) {
        return ValueExpr::ContainerField(field.ident.clone());
    }
    if field.attrs.deserialize_with.is_some() {
        ValueExpr::MissingFieldError(field.canonical.clone())
    } else {
        ValueExpr::MissingFieldHelper(field.ty.clone(), field.canonical.clone())
    }
}

/// The value of a field that a sequence ended before, `index` elements in.
pub fn missing_seq_expr(
    field: &FieldInfo,
    container_default: &DefaultKind,
    index: usize,
    expecting: &String,
) -> (r: ValueExpr)
    ensures
        r@ == missing_seq_spec(field@, container_default@, index, expecting@),
{
    if let Some(expr) = explicit_default_expr(&field.attrs.default) {
        return expr;
    }
    if !is_unset(container_default) {
        return ValueExpr::ContainerField(field.ident.clone());
    }
    ValueExpr::InvalidLength(index, expecting.clone())
}

/// The value of a skipped field.
pub fn skipped_expr(field: &FieldInfo, container_default: &DefaultKind) -> (r: ValueExpr)
    ensures
        r@ == skipped_spec(field@, container_default@),
{
    if let Some(expr) = explicit_default_expr(&field.attrs.default) {
        return expr;
    }
    if !is_unset(container_default) {
        ValueExpr::ContainerField(field.ident.clone())
    } else {
        ValueExpr::DefaultTrait
    }
}

// ---------------------------------------------------------------- field names and their indexes

/// The names of the deserialized fields among the first `k`, in field order and,
/// within a field, in sorted order: the `FIELDS` list of the generated impl.
pub open spec fn names_flat(fields: Seq<FieldInfoView>, k: int) -> Seq<Seq<char>>
    decreases k,
{
    if k <= 0 {
        Seq::empty()
    } else {
        let prev = names_flat(fields, k - 1);
        match fields[k - 1].de_id {
            Some(_) => prev + fields[k - 1].names,
            None => prev,
        }
    }
}

/// For each position of `FIELDS`, the position itself and the index of the field
/// whose name stands there: how a field given by number is dispatched.
pub open spec fn numeric_spec(fields: Seq<FieldInfoView>, k: int) -> Seq<(u64, usize)>
    decreases k,
{
    if k <= 0 {
        Seq::empty()
    } else {
        let prev = numeric_spec(fields, k - 1);
        match fields[k - 1].de_id {
            Some(id) => prev + Seq::new(
                fields[k - 1].names.len(),
                |j: int| ((prev.len() + j) as u64, id),
            ),
            None => prev,
        }
    }
}

pub proof fn lemma_numeric_len(fields: Seq<FieldInfoView>, k: int)
    ensures
        numeric_spec(fields, k).len() == names_flat(fields, k).len(),
    decreases k,
{
    if k > 0 {
        lemma_numeric_len(fields, k - 1);
    }
}

proof fn lemma_names_flat_grows(fields: Seq<FieldInfoView>, k: int, j: int)
    requires
        0 <= j <= k,
    ensures
        names_flat(fields, j).len() <= names_flat(fields, k).len(),
    decreases k,
{
    if j < k {
        lemma_names_flat_grows(fields, k - 1, j);
    }
}

/// Every name in `FIELDS` belongs to a deserialized field.
pub proof fn lemma_flat_owner(fields: Seq<FieldInfoView>, k: int, x: Seq<char>)
    requires
        0 <= k <= fields.len(),
        names_flat(fields, k).contains(x),
    ensures
        exists|i: int| 0 <= i < k && (#[trigger] fields[i]).de_id is Some && fields[i].names.contains(x),
    decreases k,
{
    let prev = names_flat(fields, k - 1);
    if prev.contains(x) {
        lemma_flat_owner(fields, k - 1, x);
    } else {
        let f = fields[k - 1];
        let j = choose|j: int| 0 <= j < names_flat(fields, k).len() && names_flat(fields, k)[j] == x;
        assert(f.names[j - prev.len()] == x);
    }
}

/// A name of a deserialized field is paired with the field's index.
pub proof fn lemma_pair_of_field(fields: Seq<FieldInfoView>, k: int, i: int, x: Seq<char>)
    requires
        0 <= i < k <= fields.len(),
        fields[i].de_id is Some,
        fields[i].names.contains(x),
    ensures
        crate::model::name_pairs(fields, k).contains((x, fields[i].de_id->0)),
    decreases k,
{
    if i < k - 1 {
        lemma_pair_of_field(fields, k - 1, i, x);
    }
}

pub proof fn lemma_flat_no_duplicates(m: StructModelView, k: int)
    requires
        m.wf(),
        0 <= k <= m.fields.len(),
    ensures
        names_flat(m.fields, k).no_duplicates(),
    decreases k,
{
    if k > 0 {
        lemma_flat_no_duplicates(m, k - 1);
        let f = m.fields[k - 1];
        if f.de_id is Some {
            let prev = names_flat(m.fields, k - 1);
            let all = names_flat(m.fields, k);
            assert(all == prev + f.names);
            assert forall|a: int, b: int| 0 <= a < all.len() && 0 <= b < all.len() && a != b implies all[a] != all[b] by {
                if a >= prev.len() && b >= prev.len() {
                    if a < b {
                        crate::text::lemma_lex_irreflexive(all[a]);
                        assert(crate::text::lex_lt(f.names[a - prev.len()], f.names[b - prev.len()]));
                    } else {
                        crate::text::lemma_lex_irreflexive(all[a]);
                        assert(crate::text::lex_lt(f.names[b - prev.len()], f.names[a - prev.len()]));
                    }
                } else if a < prev.len() && b >= prev.len() {
                    if all[a] == all[b] {
                        lemma_flat_owner(m.fields, k - 1, all[a]);
                        let i = choose|i: int| 0 <= i < k - 1 && (#[trigger] m.fields[i]).de_id is Some && m.fields[i].names.contains(all[a]);
                        assert(m.fields[i].names.to_set().disjoint(m.fields[k - 1].names.to_set()));
                        assert(f.names.contains(all[b]));
                        assert(m.fields[i].names.to_set().contains(all[a]));
                    }
                } else if a >= prev.len() && b < prev.len() {
                    if all[a] == all[b] {
                        lemma_flat_owner(m.fields, k - 1, all[b]);
                        let i = choose|i: int| 0 <= i < k - 1 && (#[trigger] m.fields[i]).de_id is Some && m.fields[i].names.contains(all[b]);
                        assert(m.fields[i].names.to_set().disjoint(m.fields[k - 1].names.to_set()));
                        assert(f.names.contains(all[a]));
                        assert(m.fields[i].names.to_set().contains(all[b]));
                    }
                } else {
                    assert(all[a] == prev[a] && all[b] == prev[b]);
                }
            }
        }
    }
}

/// `FIELDS` is no longer than `accepted`, so its positions fit in a `usize`.
pub proof fn lemma_names_flat_bound(m: StructModelView)
    requires
        m.wf(),
    ensures
        names_flat(m.fields, m.fields.len() as int).len() <= m.accepted.len(),
{
    let n = m.fields.len() as int;
    let flat = names_flat(m.fields, n);
    let keys = crate::model::keys_of(m.accepted);
    lemma_flat_no_duplicates(m, n);
    flat.unique_seq_to_set();
    assert forall|x: Seq<char>| flat.to_set().contains(x) implies keys.to_set().contains(x) by {
        lemma_flat_owner(m.fields, n, x);
        let i = choose|i: int| 0 <= i < n && (#[trigger] m.fields[i]).de_id is Some && m.fields[i].names.contains(x);
        lemma_pair_of_field(m.fields, n, i, x);
        let e = (x, m.fields[i].de_id->0);
        assert(m.accepted.to_set().contains(e));
        let j = choose|j: int| 0 <= j < m.accepted.len() && m.accepted[j] == e;
        assert(keys[j] == x);
    }
    vstd::set_lib::lemma_len_subset(flat.to_set(), keys.to_set());
    keys.lemma_cardinality_of_set();
}

/// The numeric index of each `FIELDS` position: the position, with the index of
/// the field whose name stands there.
pub fn numeric_field_entries(fields: &Vec<FieldInfo>) -> (r: Vec<(u64, usize)>)
    requires
        names_flat(info_views(fields@), fields.len() as int).len() <= usize::MAX,
    ensures
        r@ == numeric_spec(info_views(fields@), fields.len() as int),
{
    let ghost fv = info_views(fields@);
    let mut fields_index: u64 = 0;
    let mut entries: Vec<(u64, usize)> = Vec::new();
    let mut i: usize = 0;
    while i < fields.len()
        invariant
            i <= fields.len(),
            fv == info_views(fields@),
            names_flat(fv, fields.len() as int).len() <= usize::MAX,
            entries@ == numeric_spec(fv, i as int),
            fields_index == entries@.len(),
        decreases fields.len() - i,
    {
        let field = &fields[i];
        assert(fv[i as int] == field@);
        if let Some(id) = field.de_id {
            proof {
                lemma_numeric_len(fv, i + 1);
                lemma_names_flat_grows(fv, fields.len() as int, i + 1);
            }
            let ghost prev = entries@;
            let mut j: usize = 0;
            while j < field.names.len()
                invariant
                    j <= field.names.len(),
                    fields_index == entries@.len(),
                    entries@.len() == prev.len() + j,
                    prev.len() + field.names.len() <= usize::MAX,
                    entries@ == prev + Seq::new(j as nat, |t: int| ((prev.len() + t) as u64, id)),
                decreases field.names.len() - j,
            {
                entries.push((fields_index, id));
                fields_index = fields_index + 1;
                assert(entries@ =~= prev + Seq::new((j + 1) as nat, |t: int| ((prev.len() + t) as u64, id)));
                j = j + 1;
            }
            assert(field@.names.len() == field.names.len());
        }
        i = i + 1;
    }
    entries
}

// ---------------------------------------------------------------- the plan

/// How a deserialized field is read from a map.
#[derive(Clone, Debug, PartialEq, Eq)]
pub struct MapField {
    /// The field's index: its variable `__field{id}` and its variant of `__Field`.
    pub id: usize,
    /// The name reported when the field is given twice.
    pub canonical: String,
    pub ty: String,
    /// Whether the value is read through the field's `deserialize_with` wrapper.
    pub with_wrapper: bool,
    /// The value when the map does not hold the field.
    pub missing: ValueExpr,
}

/// The wrapper type `__SonicWith{id}` that reads a field with its own decoder.
#[derive(Clone, Debug, PartialEq, Eq)]
pub struct Wrapper {
    pub id: usize,
    pub ty: String,
    /// The decoder's path.
    pub path: String,
}

/// How a field is read from a sequence.
#[derive(Clone, Debug, PartialEq, Eq)]
pub enum SeqField {
    /// The next element, read as the field with this index; the value when the
    /// sequence has ended.
    Read { id: usize, ty: String, with_wrapper: bool, missing: ValueExpr },
    /// A skipped field, which takes this value.
    Skipped(ValueExpr),
}

/// Where the value of a field comes from when the struct read from a map is built.
#[derive(Clone, Debug, PartialEq, Eq)]
pub enum ConstructField {
    /// The variable `__field{id}`.
    Var(usize),
    /// A skipped field, which takes this value.
    Skipped(ValueExpr),
}

/// How a field name given as text finds its field: every accepted name with the
/// field's index, in a perfect-hash table or in a `match`.
#[derive(Clone, Debug, PartialEq, Eq)]
pub enum FieldLookup {
    Phf(Vec<(String, u32)>),
    Match(Vec<(String, u32)>),
}

/// Everything the generated `Deserialize` impl is written from.
#[derive(Clone, Debug, PartialEq, Eq)]
pub struct Expansion {
    pub struct_ident: String,
    /// The path of the `serde` crate.
    pub serde_path: String,
    /// The path of the crate that holds `__private`.
    pub sonic_path: String,
    /// `FIELDS`: the names of the deserialized fields.
    pub field_names: Vec<String>,
    /// The field index for each position of `FIELDS`.
    pub numeric_entries: Vec<(u64, usize)>,
    pub lookup: FieldLookup,
    /// The indexes of the deserialized fields, one `__Field` variant each.
    pub field_ids: Vec<usize>,
    /// Unknown field names are errors; otherwise they are ignored.
    pub deny_unknown_fields: bool,
    /// What a refused unknown field index is reported against.
    pub unknown_index_message: String,
    pub wrappers: Vec<Wrapper>,
    /// How the struct's own default value is made, if it has one.
    pub default_init: Option<ValueExpr>,
    /// The deserialized fields, in order of their indexes.
    pub map_fields: Vec<MapField>,
    /// Every field with its identifier, in order, as read from a sequence.
    pub seq_fields: Vec<(String, SeqField)>,
    /// Every field with its identifier, in order, as built after a map.
    pub construct: Vec<(String, ConstructField)>,
    /// The name given to the deserializer.
    pub serde_name: String,
    pub expecting: String,
}

pub struct MapFieldView {
    pub id: usize,
    pub canonical: Seq<char>,
    pub ty: Seq<char>,
    pub with_wrapper: bool,
    pub missing: ValueExprView,
}

pub struct WrapperView {
    pub id: usize,
    pub ty: Seq<char>,
    pub path: Seq<char>,
}

pub enum SeqFieldView {
    Read { id: usize, ty: Seq<char>, with_wrapper: bool, missing: ValueExprView },
    Skipped(ValueExprView),
}

pub enum ConstructFieldView {
    Var(usize),
    Skipped(ValueExprView),
}

pub enum FieldLookupView {
    Phf(Seq<(Seq<char>, u32)>),
    Match(Seq<(Seq<char>, u32)>),
}

pub struct ExpansionView {
    pub struct_ident: Seq<char>,
    pub serde_path: Seq<char>,
    pub sonic_path: Seq<char>,
    pub field_names: Seq<Seq<char>>,
    pub numeric_entries: Seq<(u64, usize)>,
    pub lookup: FieldLookupView,
    pub field_ids: Seq<usize>,
    pub deny_unknown_fields: bool,
    pub unknown_index_message: Seq<char>,
    pub wrappers: Seq<WrapperView>,
    pub default_init: Option<ValueExprView>,
    pub map_fields: Seq<MapFieldView>,
    pub seq_fields: Seq<(Seq<char>, SeqFieldView)>,
    pub construct: Seq<(Seq<char>, ConstructFieldView)>,
    pub serde_name: Seq<char>,
    pub expecting: Seq<char>,
}

impl View for MapField {
    type V = MapFieldView;

    open spec fn view(&self) -> MapFieldView {
        MapFieldView {
            id: self.id,
            canonical: self.canonical@,
            ty: self.ty@,
            with_wrapper: self.with_wrapper,
            missing: self.missing@,
        }
    }
}

impl View for Wrapper {
    type V = WrapperView;

    open spec fn view(&self) -> WrapperView {
        WrapperView { id: self.id, ty: self.ty@, path: self.path@ }
    }
}

impl View for SeqField {
    type V = SeqFieldView;

    open spec fn view(&self) -> SeqFieldView {
        match self {
            SeqField::Read { id, ty, with_wrapper, missing } => SeqFieldView::Read {
                id: *id,
                ty: ty@,
                with_wrapper: *with_wrapper,
                missing: missing@,
            },
            SeqField::Skipped(e) => SeqFieldView::Skipped(e@),
        }
    }
}

impl View for ConstructField {
    type V = ConstructFieldView;

    open spec fn view(&self) -> ConstructFieldView {
        match self {
            ConstructField::Var(id) => ConstructFieldView::Var(*id),
            ConstructField::Skipped(e) => ConstructFieldView::Skipped(e@),
        }
    }
}

impl View for FieldLookup {
    type V = FieldLookupView;

    open spec fn view(&self) -> FieldLookupView {
        match self {
            FieldLookup::Phf(e) => FieldLookupView::Phf(e.deep_view()),
            FieldLookup::Match(e) => FieldLookupView::Match(e.deep_view()),
        }
    }
}

impl View for Expansion {
    type V = ExpansionView;

    open spec fn view(&self) -> ExpansionView {
        ExpansionView {
            struct_ident: self.struct_ident@,
            serde_path: self.serde_path@,
            sonic_path: self.sonic_path@,
            field_names: self.field_names.deep_view(),
            numeric_entries: self.numeric_entries@,
            lookup: self.lookup@,
            field_ids: self.field_ids@,
            deny_unknown_fields: self.deny_unknown_fields,
            unknown_index_message: self.unknown_index_message@,
            wrappers: self.wrappers@.map_values(|w: Wrapper| w@),
            default_init: opt_expr_view(self.default_init),
            map_fields: self.map_fields@.map_values(|f: MapField| f@),
            seq_fields: self.seq_fields@.map_values(|p: (String, SeqField)| (p.0@, p.1@)),
            construct: self.construct@.map_values(|p: (String, ConstructField)| (p.0@, p.1@)),
            serde_name: self.serde_name@,
            expecting: self.expecting@,
        }
    }
}

/// The indexes of the deserialized fields among the first `k`.
pub open spec fn field_ids_spec(fields: Seq<FieldInfoView>, k: int) -> Seq<usize>
    decreases k,
{
    if k <= 0 {
        Seq::empty()
    } else {
        match fields[k - 1].de_id {
            Some(id) => field_ids_spec(fields, k - 1).push(id),
            None => field_ids_spec(fields, k - 1),
        }
    }
}

/// The wrappers of the deserialized fields among the first `k` that have their own decoder.
pub open spec fn wrappers_spec(fields: Seq<FieldInfoView>, k: int) -> Seq<WrapperView>
    decreases k,
{
    if k <= 0 {
        Seq::empty()
    } else {
        let f = fields[k - 1];
        match (f.de_id, f.attrs.deserialize_with) {
            (Some(id), Some(p)) => wrappers_spec(fields, k - 1).push(
                WrapperView { id, ty: f.ty, path: p },
            ),
            _ => wrappers_spec(fields, k - 1),
        }
    }
}

/// How a deserialized field is read from a map.
pub open spec fn map_field_spec(f: FieldInfoView, id: usize, container_default: DefaultView) -> MapFieldView {
    MapFieldView {
        id,
        canonical: f.canonical,
        ty: f.ty,
        with_wrapper: f.attrs.deserialize_with is Some,
        missing: missing_map_spec(f, container_default),
    }
}

/// How the deserialized fields among the first `k` are read from a map.
pub open spec fn map_fields_spec(fields: Seq<FieldInfoView>, container_default: DefaultView, k: int) -> Seq<
    MapFieldView,
>
    decreases k,
{
    if k <= 0 {
        Seq::empty()
    } else {
        match fields[k - 1].de_id {
            Some(id) => map_fields_spec(fields, container_default, k - 1).push(
                map_field_spec(fields[k - 1], id, container_default),
            ),
            None => map_fields_spec(fields, container_default, k - 1),
        }
    }
}

/// The number of fields among the first `k` that are deserialized, by their index.
pub open spec fn read_count(fields: Seq<FieldInfoView>, k: int) -> nat
    decreases k,
{
    if k <= 0 {
        0
    } else if fields[k - 1].de_id is Some {
        read_count(fields, k - 1) + 1
    } else {
        read_count(fields, k - 1)
    }
}

/// How the `i`-th field is read from a sequence: a deserialized field is the next
/// element, and when the sequence has ended, the count of elements read is the
/// number of deserialized fields before it.
pub open spec fn seq_field_spec(
    fields: Seq<FieldInfoView>,
    i: int,
    container_default: DefaultView,
    expecting: Seq<char>,
) -> SeqFieldView {
    let f = fields[i];
    match f.de_id {
        Some(id) => SeqFieldView::Read {
            id,
            ty: f.ty,
            with_wrapper: f.attrs.deserialize_with is Some,
            missing: missing_seq_spec(f, container_default, read_count(fields, i) as usize, expecting),
        },
        None => SeqFieldView::Skipped(skipped_spec(f, container_default)),
    }
}

/// Where the value of a field comes from when the struct read from a map is built.
pub open spec fn construct_spec(f: FieldInfoView, container_default: DefaultView) -> ConstructFieldView {
    match f.de_id {
        Some(id) => ConstructFieldView::Var(id),
        None => ConstructFieldView::Skipped(skipped_spec(f, container_default)),
    }
}

/// Whether field names are looked up in a perfect-hash table: when asked for, or
/// from `PHF_THRESHOLD` accepted names on.
pub open spec fn use_phf_spec(m: StructModelView) -> bool {
    m.container.force_phf || m.accepted.len() >= PHF_THRESHOLD
}

/// Every accepted name with its field index as a `u32`.
pub open spec fn accepted_entries_spec(accepted: Seq<(Seq<char>, usize)>) -> Seq<(Seq<char>, u32)> {
    accepted.map_values(|e: (Seq<char>, usize)| (e.0, e.1 as u32))
}

/// The text the generated impl reports a refused unknown field index against.
pub open spec fn unknown_index_message_spec(count: nat) -> Seq<char> {
    "field index 0 <= i < "@ + decimal(count)
}

/// The plan of the impl for a consistent model.
pub open spec fn expansion_spec(m: StructModelView, e: ExpansionView) -> bool {
    let n = m.fields.len() as int;
    let cd = m.container.default;
    &&& e.struct_ident == m.ident
    &&& e.serde_path == (match m.container.serde_path {
        Some(p) => p,
        None => "::serde"@,
    })
    &&& e.sonic_path == (match m.container.sonic_path {
        Some(p) => p,
        None => "::sonic_rs"@,
    })
    &&& e.field_names == names_flat(m.fields, n)
    &&& e.numeric_entries == numeric_spec(m.fields, n)
    &&& e.lookup == (if use_phf_spec(m) {
        FieldLookupView::Phf(accepted_entries_spec(m.accepted))
    } else {
        FieldLookupView::Match(accepted_entries_spec(m.accepted))
    })
    &&& e.field_ids == field_ids_spec(m.fields, n)
    &&& e.deny_unknown_fields == m.container.deny_unknown_fields
    &&& e.unknown_index_message == unknown_index_message_spec(e.field_names.len())
    &&& e.wrappers == wrappers_spec(m.fields, n)
    &&& e.default_init == explicit_default_spec(cd)
    &&& e.map_fields == map_fields_spec(m.fields, cd, n)
    &&& e.seq_fields == Seq::new(
        n as nat,
        |i: int| (m.fields[i].ident, seq_field_spec(m.fields, i, cd, m.expecting)),
    )
    &&& e.construct == Seq::new(n as nat, |i: int| (m.fields[i].ident, construct_spec(m.fields[i], cd)))
    &&& e.serde_name == m.serde_name
    &&& e.expecting == m.expecting
}

/// Every accepted name with its field index, looked up through a perfect-hash
/// table when `use_phf` holds and through a `match` otherwise.
pub fn field_lookup(use_phf: bool, accepted_entries: &Vec<(String, u32)>) -> (r: FieldLookup)
    ensures
        r@ == (if use_phf {
            FieldLookupView::Phf(accepted_entries.deep_view())
        } else {
            FieldLookupView::Match(accepted_entries.deep_view())
        }),
{
    let entries = clone_entries(accepted_entries);
    if use_phf {
        FieldLookup::Phf(entries)
    } else {
        FieldLookup::Match(entries)
    }
}

fn clone_entries(v: &Vec<(String, u32)>) -> (r: Vec<(String, u32)>)
    ensures
        r.deep_view() == v.deep_view(),
{
    let mut r: Vec<(String, u32)> = Vec::new();
    let mut i: usize = 0;
    while i < v.len()
        invariant
            i <= v.len(),
            r.deep_view() == v.deep_view().take(i as int),
        decreases v.len() - i,
    {
        let e = &v[i];
        let name = e.0.clone();
        let ghost prev = r.deep_view();
        assert(name@ == v.deep_view()[i as int].0);
        r.push((name, e.1));
        assert(r.deep_view() =~= prev.push(v.deep_view()[i as int]));
        assert(v.deep_view().take(i + 1) =~= v.deep_view().take(i as int).push(v.deep_view()[i as int]));
        i = i + 1;
    }
    assert(v.deep_view().take(v.len() as int) =~= v.deep_view());
    r
}

/// Every accepted name with its field index as a `u32`.
fn accepted_entries(accepted: &Vec<(String, usize)>) -> (r: Vec<(String, u32)>)
    ensures
        r.deep_view() == accepted_entries_spec(accepted.deep_view()),
{
    let ghost av = accepted.deep_view();
    let mut r: Vec<(String, u32)> = Vec::new();
    let mut i: usize = 0;
    while i < accepted.len()
        invariant
            i <= accepted.len(),
            av == accepted.deep_view(),
            r.deep_view() == accepted_entries_spec(av).take(i as int),
        decreases accepted.len() - i,
    {
        let e = &accepted[i];
        let name = e.0.clone();
        let id = #[verifier::truncate] (e.1 as u32);
        assert(name@ == av[i as int].0);
        let ghost prev = r.deep_view();
        r.push((name, id));
        assert(r.deep_view() =~= prev.push(accepted_entries_spec(av)[i as int]));
        assert(accepted_entries_spec(av).take(i + 1) =~= accepted_entries_spec(av).take(i as int).push(
            accepted_entries_spec(av)[i as int],
        ));
        i = i + 1;
    }
    assert(accepted_entries_spec(av).take(accepted.len() as int) =~= accepted_entries_spec(av));
    r
}

fn or_default_path(p: &Option<String>, default: &str) -> (r: String)
    ensures
        r@ == (match p.deep_view() {
            Some(s) => s,
            None => default@,
        }),
{
    match p {
        Some(s) => s.clone(),
        None => String::from_str(default),
    }
}

/// `FIELDS`: the names of the deserialized fields.
fn collect_field_names(fields: &Vec<FieldInfo>) -> (r: Vec<String>)
    ensures
        r.deep_view() == names_flat(info_views(fields@), fields.len() as int),
{
    let ghost fv = info_views(fields@);
    let mut out: Vec<String> = Vec::new();
    let mut i: usize = 0;
    assert(out.deep_view() =~= Seq::<Seq<char>>::empty());
    while i < fields.len()
        invariant
            i <= fields.len(),
            fv == info_views(fields@),
            out.deep_view() == names_flat(fv, i as int),
        decreases fields.len() - i,
    {
        let field = &fields[i];
        assert(fv[i as int] == field@);
        if field.de_id.is_some() {
            let ghost prev = out.deep_view();
            let mut j: usize = 0;
            while j < field.names.len()
                invariant
                    j <= field.names.len(),
                    out.deep_view() == prev + field@.names.take(j as int),
                decreases field.names.len() - j,
            {
                let name = field.names[j].clone();
                assert(name@ == field@.names[j as int]);
                let ghost before = out.deep_view();
                out.push(name);
                assert(out.deep_view() =~= before.push(field@.names[j as int]));
                assert(field@.names.take(j + 1) =~= field@.names.take(j as int).push(field@.names[j as int]));
                assert(out.deep_view() =~= prev + field@.names.take(j + 1));
                j = j + 1;
            }
            assert(field@.names.take(field.names.len() as int) =~= field@.names);
        }
        i = i + 1;
    }
    out
}

/// The indexes of the deserialized fields.
fn collect_field_ids(fields: &Vec<FieldInfo>) -> (r: Vec<usize>)
    ensures
        r@ == field_ids_spec(info_views(fields@), fields.len() as int),
{
    let ghost fv = info_views(fields@);
    let mut out: Vec<usize> = Vec::new();
    let mut i: usize = 0;
    while i < fields.len()
        invariant
            i <= fields.len(),
            fv == info_views(fields@),
            out@ == field_ids_spec(fv, i as int),
        decreases fields.len() - i,
    {
        assert(fv[i as int] == fields[i as int]@);
        if let Some(id) = fields[i].de_id {
            out.push(id);
        }
        i = i + 1;
    }
    out
}

/// The wrappers of the deserialized fields that have their own decoder.
fn collect_wrappers(fields: &Vec<FieldInfo>) -> (r: Vec<Wrapper>)
    ensures
        r@.map_values(|w: Wrapper| w@) == wrappers_spec(info_views(fields@), fields.len() as int),
{
    let ghost fv = info_views(fields@);
    let mut out: Vec<Wrapper> = Vec::new();
    let mut i: usize = 0;
    assert(out@.map_values(|w: Wrapper| w@) =~= Seq::<WrapperView>::empty());
    while i < fields.len()
        invariant
            i <= fields.len(),
            fv == info_views(fields@),
            out@.map_values(|w: Wrapper| w@) == wrappers_spec(fv, i as int),
        decreases fields.len() - i,
    {
        let field = &fields[i];
        assert(fv[i as int] == field@);
        let ghost prev = out@.map_values(|w: Wrapper| w@);
        if let Some(id) = field.de_id {
            if let Some(path) = &field.attrs.deserialize_with {
                let w = Wrapper { id, ty: field.ty.clone(), path: path.clone() };
                out.push(w);
                assert(out@.map_values(|w: Wrapper| w@) =~= prev.push(w@));
            }
        }
        i = i + 1;
    }
    out
}

/// How the deserialized fields are read from a map.
fn collect_map_fields(fields: &Vec<FieldInfo>, container_default: &DefaultKind) -> (r: Vec<MapField>)
    ensures
        r@.map_values(|f: MapField| f@) == map_fields_spec(
            info_views(fields@),
            container_default@,
            fields.len() as int,
        ),
{
    let ghost fv = info_views(fields@);
    let mut out: Vec<MapField> = Vec::new();
    let mut i: usize = 0;
    assert(out@.map_values(|f: MapField| f@) =~= Seq::<MapFieldView>::empty());
    while i < fields.len()
        invariant
            i <= fields.len(),
            fv == info_views(fields@),
            out@.map_values(|f: MapField| f@) == map_fields_spec(fv, container_default@, i as int),
        decreases fields.len() - i,
    {
        let field = &fields[i];
        assert(fv[i as int] == field@);
        let ghost prev = out@.map_values(|f: MapField| f@);
        if let Some(id) = field.de_id {
            let mf = MapField {
                id,
                canonical: field.canonical.clone(),
                ty: field.ty.clone(),
                with_wrapper: field.attrs.deserialize_with.is_some(),
                missing: missing_map_expr(field, container_default),
            };
            out.push(mf);
            assert(out@.map_values(|f: MapField| f@) =~= prev.push(mf@));
        }
        i = i + 1;
    }
    out
}

/// How every field is read from a sequence; the deserialized ones in order.
fn collect_seq_fields(
    fields: &Vec<FieldInfo>,
    container_default: &DefaultKind,
    expecting: &String,
) -> (r: Vec<(String, SeqField)>)
    ensures
        r@.map_values(|p: (String, SeqField)| (p.0@, p.1@)) == Seq::new(
            fields.len() as nat,
            |j: int|
                (
                    info_views(fields@)[j].ident,
                    seq_field_spec(info_views(fields@), j, container_default@, expecting@),
                ),
        ),
{
    let ghost fv = info_views(fields@);
    let mut out: Vec<(String, SeqField)> = Vec::new();
    let mut seq_index: usize = 0;
    let mut i: usize = 0;
    assert(out@.map_values(|p: (String, SeqField)| (p.0@, p.1@)) =~= Seq::new(
        0,
        |j: int| (fv[j].ident, seq_field_spec(fv, j, container_default@, expecting@)),
    ));
    while i < fields.len()
        invariant
            i <= fields.len(),
            fv == info_views(fields@),
            seq_index == read_count(fv, i as int),
            seq_index <= i,
            out@.map_values(|p: (String, SeqField)| (p.0@, p.1@)) == Seq::new(
                i as nat,
                |j: int| (fv[j].ident, seq_field_spec(fv, j, container_default@, expecting@)),
            ),
        decreases fields.len() - i,
    {
        let field = &fields[i];
        assert(fv[i as int] == field@);
        let ghost prev = out@.map_values(|p: (String, SeqField)| (p.0@, p.1@));
        let entry = match field.de_id {
            Some(id) => {
                let missing = missing_seq_expr(field, container_default, seq_index, expecting);
                seq_index = seq_index + 1;
                (
                    field.ident.clone(),
                    SeqField::Read {
                        id,
                        ty: field.ty.clone(),
                        with_wrapper: field.attrs.deserialize_with.is_some(),
                        missing,
                    },
                )
            },
            None => (field.ident.clone(), SeqField::Skipped(skipped_expr(field, container_default))),
        };
        let ghost ev = (entry.0@, entry.1@);
        out.push(entry);
        assert(out@.map_values(|p: (String, SeqField)| (p.0@, p.1@)) =~= prev.push(ev));
        assert(out@.map_values(|p: (String, SeqField)| (p.0@, p.1@)) =~= Seq::new(
            (i + 1) as nat,
            |j: int| (fv[j].ident, seq_field_spec(fv, j, container_default@, expecting@)),
        ));
        i = i + 1;
    }
    out
}

/// Where every field's value comes from when the struct read from a map is built.
fn collect_construct(fields: &Vec<FieldInfo>, container_default: &DefaultKind) -> (r: Vec<
    (String, ConstructField),
>)
    ensures
        r@.map_values(|p: (String, ConstructField)| (p.0@, p.1@)) == Seq::new(
            fields.len() as nat,
            |j: int| (info_views(fields@)[j].ident, construct_spec(info_views(fields@)[j], container_default@)),
        ),
{
    let ghost fv = info_views(fields@);
    let mut out: Vec<(String, ConstructField)> = Vec::new();
    let mut i: usize = 0;
    assert(out@.map_values(|p: (String, ConstructField)| (p.0@, p.1@)) =~= Seq::new(
        0,
        |j: int| (fv[j].ident, construct_spec(fv[j], container_default@)),
    ));
    while i < fields.len()
        invariant
            i <= fields.len(),
            fv == info_views(fields@),
            out@.map_values(|p: (String, ConstructField)| (p.0@, p.1@)) == Seq::new(
                i as nat,
                |j: int| (fv[j].ident, construct_spec(fv[j], container_default@)),
            ),
        decreases fields.len() - i,
    {
        let field = &fields[i];
        assert(fv[i as int] == field@);
        let ghost prev = out@.map_values(|p: (String, ConstructField)| (p.0@, p.1@));
        let entry = match field.de_id {
            Some(id) => (field.ident.clone(), ConstructField::Var(id)),
            None => (field.ident.clone(), ConstructField::Skipped(skipped_expr(field, container_default))),
        };
        let ghost ev = (entry.0@, entry.1@);
        out.push(entry);
        assert(out@.map_values(|p: (String, ConstructField)| (p.0@, p.1@)) =~= prev.push(ev));
        assert(out@.map_values(|p: (String, ConstructField)| (p.0@, p.1@)) =~= Seq::new(
            (i + 1) as nat,
            |j: int| (fv[j].ident, construct_spec(fv[j], container_default@)),
        ));
        i = i + 1;
    }
    out
}

/// The plan of the `Deserialize` impl of a model.
pub fn expand(model: &StructModel) -> (r: Expansion)
    requires
        model@.wf(),
    ensures
        expansion_spec(model@, r@),
{
    let ghost m = model@;
    let container = &model.container;
    let serde_path = or_default_path(&container.serde_path, "::serde");
    let sonic_path = or_default_path(&container.sonic_path, "::sonic_rs");
    let use_phf = container.force_phf || model.accepted.len() >= PHF_THRESHOLD;
    proof {
        lemma_names_flat_bound(m);
        assert(info_views(model.fields@) == m.fields);
        assert(m.accepted.len() == model.accepted.len());
    }
    let field_names = collect_field_names(&model.fields);
    let numeric_entries = numeric_field_entries(&model.fields);
    let entries = accepted_entries(&model.accepted);
    let lookup = field_lookup(use_phf, &entries);
    let field_ids = collect_field_ids(&model.fields);
    let wrappers = collect_wrappers(&model.fields);
    let default_init = container_default_init(&container.default);
    let map_fields = collect_map_fields(&model.fields, &container.default);
    let seq_fields = collect_seq_fields(&model.fields, &container.default, &model.expecting);
    let construct = collect_construct(&model.fields, &container.default);
    let count = field_names.len();
    let unknown_index_message = concat("field index 0 <= i < ", decimal_string(count).as_str());
    Expansion {
        struct_ident: model.ident.clone(),
        serde_path,
        sonic_path,
        field_names,
        numeric_entries,
        lookup,
        field_ids,
        deny_unknown_fields: container.deny_unknown_fields,
        unknown_index_message,
        wrappers,
        default_init,
        map_fields,
        seq_fields,
        construct,
        serde_name: model.serde_name.clone(),
        expecting: model.expecting.clone(),
    }
}

} // verus!
