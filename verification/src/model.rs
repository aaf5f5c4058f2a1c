//! The struct model: each field's options, the name it is known by, every name
//! it is accepted under, and the index that the generated code dispatches on.
use vstd::prelude::*;

use crate::attr::{
    AttrError, AttrErrorView, ContainerAttrs, ContainerView, FieldAttrs, FieldAttrsView,
    PathCheck, PathVerdicts, checks_path_texts, container_attrs_spec, field_attrs_spec, field_default, parse_container_attrs_with,
    parse_field_attrs_with, path_verdicts, res_view,
};
use crate::meta::{Attribute, AttributeView, attrs_view};
use crate::text::{concat, lemma_lex_asymmetric, lemma_lex_irreflexive, lemma_lex_total,
    lemma_lex_transitive, lex_lt, str_eq, str_lt, strip_raw, unraw};

verus! {

// ---------------------------------------------------------------- sorted sets of names

/// Each name comes before the next one: the order in which a `BTreeSet<String>`
/// holds them, without repetition.
pub open spec fn strictly_sorted(s: Seq<Seq<char>>) -> bool {
    forall|i: int, j: int| 0 <= i < j < s.len() ==> lex_lt(#[trigger] s[i], #[trigger] s[j])
}

/// The names of a list of (name, index) entries.
pub open spec fn keys_of(a: Seq<(Seq<char>, usize)>) -> Seq<Seq<char>> {
    a.map_values(|e: (Seq<char>, usize)| e.0)
}

/// Where `x` belongs in the sorted `s`: after every name that comes before it.
proof fn lemma_sorted_insert(s: Seq<Seq<char>>, p: int, x: Seq<char>)
    requires
        strictly_sorted(s),
        0 <= p <= s.len(),
        forall|i: int| 0 <= i < p ==> lex_lt(#[trigger] s[i], x),
        p < s.len() ==> lex_lt(x, s[p]),
    ensures
        strictly_sorted(s.insert(p, x)),
        s.insert(p, x).to_set() == s.to_set().insert(x),
{
    let t = s.insert(p, x);
    assert forall|i: int, j: int| 0 <= i < j < t.len() implies lex_lt(#[trigger] t[i], #[trigger] t[j]) by {
        if j < p {
            assert(t[i] == s[i] && t[j] == s[j]);
        } else if j == p {
            assert(t[i] == s[i]);
        } else if i < p {
            assert(t[i] == s[i] && t[j] == s[j - 1]);
            lemma_lex_transitive(s[i], x, s[p]);
            if j - 1 > p {
                lemma_lex_transitive(s[i], s[p], s[j - 1]);
            }
        } else if i == p {
            assert(t[j] == s[j - 1]);
            if j - 1 > p {
                lemma_lex_transitive(x, s[p], s[j - 1]);
            }
        } else {
            assert(t[i] == s[i - 1] && t[j] == s[j - 1]);
        }
    }
    assert forall|y: Seq<char>| #[trigger] t.to_set().contains(y) == s.to_set().insert(x).contains(y) by {
        if t.contains(y) {
            let k = choose|k: int| 0 <= k < t.len() && t[k] == y;
            if k < p {
                assert(s[k] == y);
            } else if k > p {
                assert(s[k - 1] == y);
            }
        }
        if s.contains(y) {
            let k = choose|k: int| 0 <= k < s.len() && s[k] == y;
            if k < p {
                assert(t[k] == y);
            } else {
                assert(t[k + 1] == y);
            }
        }
        if y == x {
            assert(t[p] == x);
        }
    }
    assert(t.to_set() =~= s.to_set().insert(x));
}

/// In a sorted list, a name that comes after an earlier one is not among those before it.
proof fn lemma_sorted_not_before(s: Seq<Seq<char>>, p: int, x: Seq<char>)
    requires
        strictly_sorted(s),
        0 <= p <= s.len(),
        forall|i: int| 0 <= i < p ==> lex_lt(#[trigger] s[i], x),
        p < s.len() ==> lex_lt(x, s[p]),
    ensures
        !s.contains(x),
{
    if s.contains(x) {
        let k = choose|k: int| 0 <= k < s.len() && s[k] == x;
        if k < p {
            lemma_lex_irreflexive(x);
        } else if k == p {
            lemma_lex_irreflexive(x);
        } else {
            lemma_lex_transitive(x, s[p], s[k]);
            lemma_lex_irreflexive(x);
        }
    }
}

/// Adds `name` to the sorted `names` unless it is there already.
fn insert_name(names: &mut Vec<String>, name: String)
    requires
        strictly_sorted(old(names).deep_view()),
    ensures
        strictly_sorted(final(names).deep_view()),
        final(names).deep_view().to_set() == old(names).deep_view().to_set().insert(name@),
{
    let ghost s = names.deep_view();
    let mut p: usize = 0;
    while p < names.len() && str_lt(names[p].as_str(), name.as_str())
        invariant
            p <= names.len(),
            s == names.deep_view(),
            forall|i: int| 0 <= i < p ==> lex_lt(#[trigger] s[i], name@),
        decreases names.len() - p,
    {
        p = p + 1;
    }
    if p < names.len() && str_eq(names[p].as_str(), name.as_str()) {
        assert(s.to_set().insert(name@) =~= s.to_set()) by {
            assert(s[p as int] == name@);
            assert(s.contains(name@));
        }
        return;
    }
    proof {
        if p < s.len() {
            lemma_lex_total(s[p as int], name@);
        }
        lemma_sorted_insert(s, p as int, name@);
    }
    let ghost v = name@;
    names.insert(p, name);
    assert(names.deep_view() =~= s.insert(p as int, v));
}

/// The names a field is accepted under: its canonical name and its aliases,
/// sorted, each once, as `BTreeSet` orders them.
pub fn sorted_names(canonical: &String, aliases: &Vec<String>) -> (r: Vec<String>)
    ensures
        strictly_sorted(r.deep_view()),
        r.deep_view().to_set() == aliases.deep_view().to_set().insert(canonical@),
{
    let mut names: Vec<String> = Vec::new();
    names.push(canonical.clone());
    proof {
        assert(names.deep_view() =~= seq![canonical@]);
        assert(names.deep_view().to_set() =~= Set::<Seq<char>>::empty().insert(canonical@)) by {
            assert(names.deep_view()[0] == canonical@);
        }
    }
    let ghost al = aliases.deep_view();
    let mut i: usize = 0;
    while i < aliases.len()
        invariant
            i <= aliases.len(),
            al == aliases.deep_view(),
            strictly_sorted(names.deep_view()),
            names.deep_view().to_set() == al.take(i as int).to_set().insert(canonical@),
        decreases aliases.len() - i,
    {
        let a = aliases[i].clone();
        insert_name(&mut names, a);
        proof {
            assert(al.take(i + 1) =~= al.take(i as int).push(al[i as int]));
            al.take(i as int).lemma_push_to_set_commute(al[i as int]);
            assert(names.deep_view().to_set() =~= al.take(i + 1).to_set().insert(canonical@));
        }
        i = i + 1;
    }
    assert(al.take(aliases.len() as int) =~= al);
    names
}

/// Adds `(name, id)` to `accepted`, kept sorted by name, unless the name is there
/// already; tells whether it was added.
fn insert_accepted(accepted: &mut Vec<(String, usize)>, name: &String, id: usize) -> (added: bool)
    requires
        strictly_sorted(keys_of(old(accepted).deep_view())),
    ensures
        added == !keys_of(old(accepted).deep_view()).contains(name@),
        added ==> {
            &&& strictly_sorted(keys_of(final(accepted).deep_view()))
            &&& keys_of(final(accepted).deep_view()).to_set() == keys_of(
                old(accepted).deep_view(),
            ).to_set().insert(name@)
            &&& final(accepted).deep_view().to_set() == old(accepted).deep_view().to_set().insert(
                (name@, id),
            )
        },
        !added ==> final(accepted).deep_view() == old(accepted).deep_view(),
{
    let ghost s = accepted.deep_view();
    let ghost ks = keys_of(s);
    let mut p: usize = 0;
    while p < accepted.len() && str_lt(accepted[p].0.as_str(), name.as_str())
        invariant
            p <= accepted.len(),
            s == accepted.deep_view(),
            ks == keys_of(s),
            forall|i: int| 0 <= i < p ==> lex_lt(#[trigger] ks[i], name@),
        decreases accepted.len() - p,
    {
        assert(ks[p as int] == accepted[p as int].0@);
        p = p + 1;
    }
    if p < accepted.len() && str_eq(accepted[p].0.as_str(), name.as_str()) {
        assert(ks[p as int] == name@);
        assert(ks.contains(name@));
        return false;
    }
    proof {
        if p < ks.len() {
            assert(ks[p as int] == accepted[p as int].0@);
            lemma_lex_total(ks[p as int], name@);
        }
        lemma_sorted_insert(ks, p as int, name@);
        lemma_sorted_not_before(ks, p as int, name@);
    }
    accepted.insert(p, (name.clone(), id));
    proof {
        let e = (name@, id);
        assert(accepted.deep_view() =~= s.insert(p as int, e));
        assert(keys_of(s.insert(p as int, e)) =~= ks.insert(p as int, name@));
        assert forall|y| #[trigger] s.insert(p as int, e).to_set().contains(y) == s.to_set().insert(e).contains(y) by {
            let t = s.insert(p as int, e);
            if t.contains(y) {
                let k = choose|k: int| 0 <= k < t.len() && t[k] == y;
                if k < p {
                    assert(s[k] == y);
                } else if k > p {
                    assert(s[k - 1] == y);
                }
            }
            if s.contains(y) {
                let k = choose|k: int| 0 <= k < s.len() && s[k] == y;
                if k < p {
                    assert(t[k] == y);
                } else {
                    assert(t[k + 1] == y);
                }
            }
            if y == e {
                assert(t[p as int] == e);
            }
        }
        assert(s.insert(p as int, e).to_set() =~= s.to_set().insert(e));
    }
    true
}

// ---------------------------------------------------------------- the input

/// A named field of the struct: its identifier, its type written out, and its attributes.
#[derive(Clone, Debug, PartialEq, Eq)]
pub struct Field {
    pub ident: String,
    pub ty: String,
    pub attrs: Vec<Attribute>,
}

/// The fields of a struct.
#[derive(Clone, Debug, PartialEq, Eq)]
pub enum Fields {
    Named(Vec<Field>),
    Unnamed,
    Unit,
}

/// What the derive is applied to.
#[derive(Clone, Debug, PartialEq, Eq)]
pub enum Data {
    Struct(Fields),
    Enum,
    Union,
}

/// The item the derive is applied to: its name, whether it has generic
/// parameters or a `where` clause, its attributes, and its body.
#[derive(Clone, Debug, PartialEq, Eq)]
pub struct DeriveInput {
    pub ident: String,
    pub has_generics: bool,
    pub attrs: Vec<Attribute>,
    pub data: Data,
}

pub struct FieldView {
    pub ident: Seq<char>,
    pub ty: Seq<char>,
    pub attrs: Seq<AttributeView>,
}

pub enum FieldsView {
    Named(Seq<FieldView>),
    Unnamed,
    Unit,
}

pub enum DataView {
    Struct(FieldsView),
    Enum,
    Union,
}

pub struct DeriveInputView {
    pub ident: Seq<char>,
    pub has_generics: bool,
    pub attrs: Seq<AttributeView>,
    pub data: DataView,
}

impl View for Field {
    type V = FieldView;

    open spec fn view(&self) -> FieldView {
        FieldView { ident: self.ident@, ty: self.ty@, attrs: attrs_view(self.attrs@) }
    }
}

/// The views of a list of fields.
pub open spec fn field_views(v: Seq<Field>) -> Seq<FieldView> {
    v.map_values(|f: Field| f@)
}

impl View for Fields {
    type V = FieldsView;

    open spec fn view(&self) -> FieldsView {
        match self {
            Fields::Named(v) => FieldsView::Named(field_views(v@)),
            Fields::Unnamed => FieldsView::Unnamed,
            Fields::Unit => FieldsView::Unit,
        }
    }
}

impl View for Data {
    type V = DataView;

    open spec fn view(&self) -> DataView {
        match self {
            Data::Struct(f) => DataView::Struct(f@),
            Data::Enum => DataView::Enum,
            Data::Union => DataView::Union,
        }
    }
}

impl View for DeriveInput {
    type V = DeriveInputView;

    open spec fn view(&self) -> DeriveInputView {
        DeriveInputView {
            ident: self.ident@,
            has_generics: self.has_generics,
            attrs: attrs_view(self.attrs@),
            data: self.data@,
        }
    }
}

// ---------------------------------------------------------------- the model

/// A field of the model.
#[derive(Clone, Debug, PartialEq, Eq)]
pub struct FieldInfo {
    pub ident: String,
    pub ty: String,
    pub attrs: FieldAttrs,
    /// The name the field is known by: its `rename`, else its identifier without `r#`.
    pub canonical: String,
    /// Every name the field is accepted under, sorted, each once.
    pub names: Vec<String>,
    /// The field's index among the fields that are deserialized; none when skipped.
    pub de_id: Option<usize>,
}

/// The struct the derive writes an impl for.
#[derive(Clone, Debug, PartialEq, Eq)]
pub struct StructModel {
    pub ident: String,
    pub container: ContainerAttrs,
    pub fields: Vec<FieldInfo>,
    /// Every accepted name with the index of its field, sorted by name.
    pub accepted: Vec<(String, usize)>,
    /// The name given to the deserializer: the struct's `rename`, else its identifier without `r#`.
    pub serde_name: String,
    /// What the deserializer reports it expected.
    pub expecting: String,
}

/// Why the derive refuses an item.
#[derive(Clone, Debug, PartialEq, Eq)]
pub enum DeriveError {
    /// The item has generic parameters or a `where` clause.
    Generic,
    /// A struct with unnamed fields or no fields.
    NotNamedStruct,
    Enum,
    Union,
    /// An attribute of the struct.
    ContainerAttr(AttrError),
    /// An attribute of the field with this index.
    FieldAttr(usize, AttrError),
    /// The field with this index is accepted under a name that an earlier field has.
    DuplicateName(usize, String),
}

pub struct FieldInfoView {
    pub ident: Seq<char>,
    pub ty: Seq<char>,
    pub attrs: FieldAttrsView,
    pub canonical: Seq<char>,
    pub names: Seq<Seq<char>>,
    pub de_id: Option<usize>,
}

pub struct StructModelView {
    pub ident: Seq<char>,
    pub container: ContainerView,
    pub fields: Seq<FieldInfoView>,
    pub accepted: Seq<(Seq<char>, usize)>,
    pub serde_name: Seq<char>,
    pub expecting: Seq<char>,
}

pub enum DeriveErrorView {
    Generic,
    NotNamedStruct,
    Enum,
    Union,
    ContainerAttr(AttrErrorView),
    FieldAttr(usize, AttrErrorView),
    DuplicateName(usize, Seq<char>),
}

impl View for FieldInfo {
    type V = FieldInfoView;

    open spec fn view(&self) -> FieldInfoView {
        FieldInfoView {
            ident: self.ident@,
            ty: self.ty@,
            attrs: self.attrs@,
            canonical: self.canonical@,
            names: self.names.deep_view(),
            de_id: self.de_id,
        }
    }
}

/// The views of a list of model fields.
pub open spec fn info_views(v: Seq<FieldInfo>) -> Seq<FieldInfoView> {
    v.map_values(|f: FieldInfo| f@)
}

impl View for StructModel {
    type V = StructModelView;

    open spec fn view(&self) -> StructModelView {
        StructModelView {
            ident: self.ident@,
            container: self.container@,
            fields: info_views(self.fields@),
            accepted: self.accepted.deep_view(),
            serde_name: self.serde_name@,
            expecting: self.expecting@,
        }
    }
}

impl View for DeriveError {
    type V = DeriveErrorView;

    open spec fn view(&self) -> DeriveErrorView {
        match self {
            DeriveError::Generic => DeriveErrorView::Generic,
            DeriveError::NotNamedStruct => DeriveErrorView::NotNamedStruct,
            DeriveError::Enum => DeriveErrorView::Enum,
            DeriveError::Union => DeriveErrorView::Union,
            DeriveError::ContainerAttr(e) => DeriveErrorView::ContainerAttr(e@),
            DeriveError::FieldAttr(i, e) => DeriveErrorView::FieldAttr(*i, e@),
            DeriveError::DuplicateName(i, n) => DeriveErrorView::DuplicateName(*i, n@),
        }
    }
}

// ---------------------------------------------------------------- what the model holds

/// The name a field is known by: its `rename`, else its identifier without the
/// `r#` of a raw identifier.
pub open spec fn canonical_of(ident: Seq<char>, a: FieldAttrsView) -> Seq<char> {
    match a.deserialize_name {
        Some(n) => n,
        None => unraw(ident),
    }
}

/// The names a field is accepted under.
pub open spec fn name_set(canonical: Seq<char>, aliases: Seq<Seq<char>>) -> Set<Seq<char>> {
    aliases.to_set().insert(canonical)
}

/// The number of fields among the first `k` that are deserialized.
pub open spec fn de_count(fields: Seq<FieldInfoView>, k: int) -> nat
    decreases k,
{
    if k <= 0 {
        0
    } else if fields[k - 1].attrs.skip_deserializing {
        de_count(fields, k - 1)
    } else {
        de_count(fields, k - 1) + 1
    }
}

/// Each of `names` paired with `id`.
pub open spec fn pairs_with(names: Set<Seq<char>>, id: usize) -> Set<(Seq<char>, usize)> {
    Set::new(|e: (Seq<char>, usize)| names.contains(e.0) && e.1 == id)
}

/// The (name, index) pairs of the deserialized fields among the first `k`.
pub open spec fn name_pairs(fields: Seq<FieldInfoView>, k: int) -> Set<(Seq<char>, usize)>
    decreases k,
{
    if k <= 0 {
        Set::empty()
    } else {
        let f = fields[k - 1];
        match f.de_id {
            Some(id) => name_pairs(fields, k - 1).union(pairs_with(f.names.to_set(), id)),
            None => name_pairs(fields, k - 1),
        }
    }
}

/// A field of the model is consistent with its options.
pub open spec fn field_info_wf(f: FieldInfoView) -> bool {
    &&& f.canonical == canonical_of(f.ident, f.attrs)
    &&& strictly_sorted(f.names)
    &&& f.names.to_set() == name_set(f.canonical, f.attrs.aliases)
}

/// The text of `format!("struct {}", serde_name)`.
pub open spec fn default_expecting(serde_name: Seq<char>) -> Seq<char> {
    "struct "@ + serde_name
}

impl StructModelView {
    /// The model is consistent: every field's names follow from its options,
    /// the deserialized fields are numbered in order from 0, no two of them share
    /// a name, and `accepted` lists exactly their names, sorted, with their indexes.
    pub open spec fn wf(self) -> bool {
        &&& self.fields.len() <= usize::MAX
        &&& self.accepted.len() <= usize::MAX
        &&& forall|i: int| 0 <= i < self.fields.len() ==> field_info_wf(#[trigger] self.fields[i])
        &&& forall|i: int|
            0 <= i < self.fields.len() ==> (#[trigger] self.fields[i]).de_id == (if self.fields[i].attrs.skip_deserializing {
                None
            } else {
                Some(de_count(self.fields, i) as usize)
            })
        &&& forall|i: int, j: int|
            0 <= i < j < self.fields.len() && (#[trigger] self.fields[i]).de_id is Some
                && (#[trigger] self.fields[j]).de_id is Some ==> self.fields[i].names.to_set().disjoint(
                self.fields[j].names.to_set(),
            )
        &&& strictly_sorted(keys_of(self.accepted))
        &&& self.accepted.to_set() == name_pairs(self.fields, self.fields.len() as int)
        &&& self.serde_name == (match self.container.name {
            Some(n) => n,
            None => unraw(self.ident),
        })
        &&& self.expecting == (match self.container.expecting {
            Some(e) => e,
            None => default_expecting(self.serde_name),
        })
    }
}

// ---------------------------------------------------------------- when the input is refused

/// An input field with the path check's verdicts on the options of its attributes.
pub struct CheckedField {
    pub field: FieldView,
    pub verdicts: PathVerdicts,
}

/// The table of verdicts of the `k`-th field; empty when there is none.
pub open spec fn field_verdicts(fvs: Seq<PathVerdicts>, k: int) -> PathVerdicts {
    if 0 <= k < fvs.len() {
        fvs[k]
    } else {
        Seq::empty()
    }
}

/// The named fields of the input, each with its table of verdicts from `fvs`.
pub open spec fn checked_fields(input: DeriveInputView, fvs: Seq<PathVerdicts>) -> Seq<CheckedField> {
    let fs = named_fields(input);
    Seq::new(fs.len(), |k: int| CheckedField { field: fs[k], verdicts: field_verdicts(fvs, k) })
}

/// The reading of a field's attributes.
pub open spec fn checked_attrs(f: CheckedField) -> Result<FieldAttrsView, AttrErrorView> {
    field_attrs_spec(f.field.attrs, f.verdicts)
}

/// The options of an input field, or none when its attributes are refused.
pub open spec fn in_attrs(f: CheckedField) -> FieldAttrsView {
    match checked_attrs(f) {
        Ok(a) => a,
        Err(_) => field_default(),
    }
}

/// The names an input field is accepted under.
pub open spec fn in_names(f: CheckedField) -> Set<Seq<char>> {
    let a = in_attrs(f);
    name_set(canonical_of(f.field.ident, a), a.aliases)
}

/// The names taken by the deserialized fields among the first `k`.
pub open spec fn taken_names(fs: Seq<CheckedField>, k: int) -> Set<Seq<char>>
    decreases k,
{
    if k <= 0 {
        Set::empty()
    } else if in_attrs(fs[k - 1]).skip_deserializing {
        taken_names(fs, k - 1)
    } else {
        taken_names(fs, k - 1).union(in_names(fs[k - 1]))
    }
}

/// Whether the `k`-th input field is refused: its attributes are, or it is
/// deserialized under a name an earlier deserialized field has.
pub open spec fn field_fails(fs: Seq<CheckedField>, k: int) -> bool {
    ||| checked_attrs(fs[k]) is Err
    ||| !in_attrs(fs[k]).skip_deserializing && exists|n: Seq<char>|
        #[trigger] in_names(fs[k]).contains(n) && taken_names(fs, k).contains(n)
}

/// None of the first `k` input fields is refused.
pub open spec fn fields_ok_upto(fs: Seq<CheckedField>, k: int) -> bool {
    forall|j: int| 0 <= j < k ==> !#[trigger] field_fails(fs, j)
}

/// The refusal that depends on the item's shape and attributes alone, if any,
/// given the path check's verdicts on the item's attributes.
pub open spec fn shape_error(input: DeriveInputView, cvs: PathVerdicts) -> Option<DeriveErrorView> {
    if input.has_generics {
        Some(DeriveErrorView::Generic)
    } else {
        match input.data {
            DataView::Struct(FieldsView::Named(_)) => match container_attrs_spec(input.attrs, cvs) {
                Err(e) => Some(DeriveErrorView::ContainerAttr(e)),
                Ok(_) => None,
            },
            DataView::Struct(_) => Some(DeriveErrorView::NotNamedStruct),
            DataView::Enum => Some(DeriveErrorView::Enum),
            DataView::Union => Some(DeriveErrorView::Union),
        }
    }
}

/// The named fields of the input.
pub open spec fn named_fields(input: DeriveInputView) -> Seq<FieldView> {
    match input.data {
        DataView::Struct(FieldsView::Named(fs)) => fs,
        _ => Seq::empty(),
    }
}

/// The refusal of the first refused field: of its attributes, or of the first of
/// its names, in sorted order, that an earlier field has.
pub open spec fn is_field_error(fs: Seq<CheckedField>, e: DeriveErrorView) -> bool {
    match e {
        DeriveErrorView::FieldAttr(k, ae) => {
            &&& 0 <= k < fs.len()
            &&& fields_ok_upto(fs, k as int)
            &&& checked_attrs(fs[k as int]) == Err::<FieldAttrsView, AttrErrorView>(ae)
        },
        DeriveErrorView::DuplicateName(k, n) => {
            &&& 0 <= k < fs.len()
            &&& fields_ok_upto(fs, k as int)
            &&& checked_attrs(fs[k as int]) is Ok
            &&& !in_attrs(fs[k as int]).skip_deserializing
            &&& in_names(fs[k as int]).contains(n)
            &&& taken_names(fs, k as int).contains(n)
            &&& forall|o: Seq<char>|
                #[trigger] in_names(fs[k as int]).contains(o) && taken_names(fs, k as int).contains(o)
                    ==> !lex_lt(o, n)
        },
        _ => false,
    }
}

/// The model describes the input: same name and options, and each field has the
/// identifier, type and options of the input field at its position, the options
/// read with the path check's verdicts `cvs` and `fvs`.
pub open spec fn model_of(input: DeriveInputView, cvs: PathVerdicts, fvs: Seq<PathVerdicts>, m: StructModelView) -> bool {
    let fs = checked_fields(input, fvs);
    &&& m.ident == input.ident
    &&& container_attrs_spec(input.attrs, cvs) == Ok::<ContainerView, AttrErrorView>(m.container)
    &&& m.fields.len() == fs.len()
    &&& forall|i: int|
        0 <= i < fs.len() ==> {
            &&& (#[trigger] m.fields[i]).ident == fs[i].field.ident
            &&& m.fields[i].ty == fs[i].field.ty
            &&& checked_attrs(fs[i]) == Ok::<FieldAttrsView, AttrErrorView>(m.fields[i].attrs)
        }
}

// ---------------------------------------------------------------- building the model

proof fn lemma_de_count_push(s: Seq<FieldInfoView>, x: FieldInfoView, j: int)
    requires
        0 <= j <= s.len(),
    ensures
        de_count(s.push(x), j) == de_count(s, j),
    decreases j,
{
    if j > 0 {
        assert(s.push(x)[j - 1] == s[j - 1]);
        lemma_de_count_push(s, x, j - 1);
    }
}

proof fn lemma_name_pairs_push(s: Seq<FieldInfoView>, x: FieldInfoView, j: int)
    requires
        0 <= j <= s.len(),
    ensures
        name_pairs(s.push(x), j) == name_pairs(s, j),
    decreases j,
{
    if j > 0 {
        assert(s.push(x)[j - 1] == s[j - 1]);
        lemma_name_pairs_push(s, x, j - 1);
    }
}

proof fn lemma_taken_contains(fs: Seq<CheckedField>, k: int, i: int)
    requires
        0 <= i < k,
        !in_attrs(fs[i]).skip_deserializing,
    ensures
        in_names(fs[i]).subset_of(taken_names(fs, k)),
    decreases k,
{
    if i < k - 1 {
        lemma_taken_contains(fs, k - 1, i);
    }
}

proof fn lemma_names_in_sorted(names: Seq<Seq<char>>, t: int, o: Seq<char>)
    requires
        strictly_sorted(names),
        0 <= t < names.len(),
        names.contains(o),
        lex_lt(o, names[t]),
    ensures
        exists|j: int| 0 <= j < t && names[j] == o,
{
    let j = choose|j: int| 0 <= j < names.len() && names[j] == o;
    if j == t {
        lemma_lex_irreflexive(o);
    } else if j > t {
        lemma_lex_asymmetric(names[t], o);
    }
}

/// Accepts each of the sorted `names` under `id`, in order, stopping at the first
/// one that is accepted already; gives the position of that name, if any.
fn accept_names(accepted: &mut Vec<(String, usize)>, names: &Vec<String>, id: usize) -> (dup: Option<usize>)
    requires
        strictly_sorted(keys_of(old(accepted).deep_view())),
        strictly_sorted(names.deep_view()),
    ensures
        strictly_sorted(keys_of(final(accepted).deep_view())),
        match dup {
            None => {
                &&& keys_of(final(accepted).deep_view()).to_set() == keys_of(
                    old(accepted).deep_view(),
                ).to_set().union(names.deep_view().to_set())
                &&& final(accepted).deep_view().to_set() == old(accepted).deep_view().to_set().union(
                    pairs_with(names.deep_view().to_set(), id),
                )
                &&& forall|j: int|
                    0 <= j < names.len() ==> !keys_of(old(accepted).deep_view()).to_set().contains(
                        #[trigger] names.deep_view()[j],
                    )
            },
            Some(t) => {
                &&& t < names.len()
                &&& keys_of(old(accepted).deep_view()).to_set().contains(names.deep_view()[t as int])
                &&& forall|j: int|
                    0 <= j < t ==> !keys_of(old(accepted).deep_view()).to_set().contains(
                        #[trigger] names.deep_view()[j],
                    )
            },
        },
{
    let ghost nv = names.deep_view();
    let ghost keys0 = keys_of(accepted.deep_view()).to_set();
    let ghost pairs0 = accepted.deep_view().to_set();
    let mut t: usize = 0;
    proof {
        assert(nv.take(0).to_set() =~= Set::<Seq<char>>::empty());
        assert(keys0.union(nv.take(0).to_set()) =~= keys0);
        assert(pairs_with(nv.take(0).to_set(), id) =~= Set::<(Seq<char>, usize)>::empty());
        assert(pairs0.union(pairs_with(nv.take(0).to_set(), id)) =~= pairs0);
    }
    while t < names.len()
        invariant
            t <= names.len(),
            nv == names.deep_view(),
            strictly_sorted(nv),
            strictly_sorted(keys_of(accepted.deep_view())),
            keys0 == keys_of(old(accepted).deep_view()).to_set(),
            pairs0 == old(accepted).deep_view().to_set(),
            keys_of(accepted.deep_view()).to_set() == keys0.union(nv.take(t as int).to_set()),
            accepted.deep_view().to_set() == pairs0.union(pairs_with(nv.take(t as int).to_set(), id)),
            forall|j: int| 0 <= j < t ==> !keys0.contains(#[trigger] nv[j]),
        decreases names.len() - t,
    {
        let ghost before = keys_of(accepted.deep_view());
        if !insert_accepted(accepted, &names[t], id) {
            proof {
                let n = nv[t as int];
                assert(before.contains(n));
                assert(before.to_set().contains(n));
                if nv.take(t as int).to_set().contains(n) {
                    let j = choose|j: int| 0 <= j < t && nv.take(t as int)[j] == n;
                    assert(nv[j] == n);
                    assert(lex_lt(nv[j], nv[t as int]));
                    lemma_lex_irreflexive(n);
                }
            }
            return Some(t);
        }
        proof {
            let n = nv[t as int];
            assert(nv.take(t + 1) =~= nv.take(t as int).push(n));
            nv.take(t as int).lemma_push_to_set_commute(n);
            assert(keys_of(accepted.deep_view()).to_set() =~= keys0.union(nv.take(t + 1).to_set()));
            assert(!keys0.contains(n)) by {
                if keys0.contains(n) {
                    assert(before.to_set().contains(n));
                }
            }
            assert(pairs_with(nv.take(t + 1).to_set(), id) =~= pairs_with(
                nv.take(t as int).to_set(),
                id,
            ).insert((n, id)));
            assert(accepted.deep_view().to_set() =~= pairs0.union(
                pairs_with(nv.take(t + 1).to_set(), id),
            ));
        }
        t = t + 1;
    }
    assert(nv.take(names.len() as int) =~= nv);
    None
}

/// The model field at `i` stands for the input field at `i`.
pub open spec fn field_matches(fs: Seq<CheckedField>, fv: Seq<FieldInfoView>, i: int) -> bool {
    let f = fv[i];
    &&& field_info_wf(f)
    &&& f.ident == fs[i].field.ident
    &&& f.ty == fs[i].field.ty
    &&& checked_attrs(fs[i]) == Ok::<FieldAttrsView, AttrErrorView>(f.attrs)
    &&& f.names.to_set() == in_names(fs[i])
    &&& f.de_id == (if f.attrs.skip_deserializing {
        None
    } else {
        Some(de_count(fv, i) as usize)
    })
}

/// No two deserialized fields among the first `k` share a name.
pub open spec fn names_disjoint(fv: Seq<FieldInfoView>, k: int) -> bool {
    forall|i: int, j: int|
        0 <= i < j < k && (#[trigger] fv[i]).de_id is Some && (#[trigger] fv[j]).de_id is Some
            ==> fv[i].names.to_set().disjoint(fv[j].names.to_set())
}

/// The model holds the first `k` input fields, the next index to give out, and
/// the accepted names and pairs so far.
pub open spec fn built_upto(
    fs: Seq<CheckedField>,
    fv: Seq<FieldInfoView>,
    k: int,
    next: int,
    keys: Set<Seq<char>>,
    pairs: Set<(Seq<char>, usize)>,
) -> bool {
    &&& 0 <= k <= fs.len()
    &&& fv.len() == k
    &&& fields_ok_upto(fs, k)
    &&& forall|i: int| 0 <= i < k ==> #[trigger] field_matches(fs, fv, i)
    &&& names_disjoint(fv, k)
    &&& next == de_count(fv, k)
    &&& keys == taken_names(fs, k)
    &&& pairs == name_pairs(fv, k)
}

proof fn lemma_built_step(
    fs: Seq<CheckedField>,
    fv: Seq<FieldInfoView>,
    k: int,
    next: int,
    keys: Set<Seq<char>>,
    pairs: Set<(Seq<char>, usize)>,
    iv: FieldInfoView,
    keys2: Set<Seq<char>>,
    pairs2: Set<(Seq<char>, usize)>,
)
    requires
        built_upto(fs, fv, k, next, keys, pairs),
        k < fs.len(),
        field_info_wf(iv),
        iv.ident == fs[k].field.ident,
        iv.ty == fs[k].field.ty,
        checked_attrs(fs[k]) == Ok::<FieldAttrsView, AttrErrorView>(iv.attrs),
        iv.names.to_set() == in_names(fs[k]),
        iv.attrs.skip_deserializing ==> iv.de_id is None && keys2 == keys && pairs2 == pairs,
        !iv.attrs.skip_deserializing ==> {
            &&& iv.de_id == Some(next as usize)
            &&& keys2 == keys.union(iv.names.to_set())
            &&& pairs2 == pairs.union(pairs_with(iv.names.to_set(), next as usize))
            &&& forall|n: Seq<char>| #[trigger] iv.names.to_set().contains(n) ==> !keys.contains(n)
        },
    ensures
        built_upto(
            fs,
            fv.push(iv),
            k + 1,
            if iv.attrs.skip_deserializing {
                next
            } else {
                next + 1
            },
            keys2,
            pairs2,
        ),
{
    let fv2 = fv.push(iv);
    lemma_de_count_push(fv, iv, k);
    lemma_name_pairs_push(fv, iv, k);
    assert(in_attrs(fs[k]) == iv.attrs);
    assert(!field_fails(fs, k)) by {
        if !iv.attrs.skip_deserializing && exists|n: Seq<char>|
            #[trigger] in_names(fs[k]).contains(n) && taken_names(fs, k).contains(n) {
            let n = choose|n: Seq<char>|
                #[trigger] in_names(fs[k]).contains(n) && taken_names(fs, k).contains(n);
            assert(iv.names.to_set().contains(n));
        }
    }
    assert forall|j: int| 0 <= j < k + 1 implies !#[trigger] field_fails(fs, j) by {
        if j < k {
            assert(!field_fails(fs, j));
        }
    }
    assert forall|i: int| 0 <= i < k + 1 implies #[trigger] field_matches(fs, fv2, i) by {
        if i < k {
            assert(field_matches(fs, fv, i));
            assert(fv2[i] == fv[i]);
            lemma_de_count_push(fv, iv, i);
        } else {
            assert(fv2[i] == iv);
        }
    }
    assert forall|i: int, j: int|
        0 <= i < j < k + 1 && (#[trigger] fv2[i]).de_id is Some && (#[trigger] fv2[j]).de_id is Some
            implies fv2[i].names.to_set().disjoint(fv2[j].names.to_set()) by {
        assert(fv2[i] == fv[i]);
        if j == k {
            assert(field_matches(fs, fv, i));
            assert(!fv[i].attrs.skip_deserializing);
            lemma_taken_contains(fs, k, i);
            assert forall|n: Seq<char>| fv2[i].names.to_set().contains(n) implies !fv2[j].names.to_set().contains(n) by {
                assert(taken_names(fs, k).contains(n));
            }
        } else {
            assert(fv2[j] == fv[j]);
        }
    }
    assert(fv2[k] == iv);
}

/// What building the model of `input` gives, with the path check's verdicts `cvs`
/// on the struct's attributes and `fvs[k]` on those of field `k`: the refusal of
/// the item's shape or attributes if any; else a model exactly when no field is
/// refused, one that describes the input, and otherwise the first field's refusal.
pub open spec fn builds_model(
    input: DeriveInputView,
    cvs: PathVerdicts,
    fvs: Seq<PathVerdicts>,
    r: Result<StructModelView, DeriveErrorView>,
) -> bool {
    match shape_error(input, cvs) {
        Some(e) => r == Err::<StructModelView, DeriveErrorView>(e),
        None => {
            let fs = checked_fields(input, fvs);
            &&& (r is Ok <==> fields_ok_upto(fs, fs.len() as int))
            &&& (r matches Ok(m) ==> m.wf() && model_of(input, cvs, fvs, m))
            &&& (r matches Err(e) ==> is_field_error(fs, e))
        },
    }
}

/// `cvs` and `fvs` hold checks made on the path texts of the struct's attributes
/// and of those of each named field, as `checks_path_texts` says.
pub open spec fn checks_input_texts(input: DeriveInputView, cvs: PathVerdicts, fvs: Seq<PathVerdicts>) -> bool {
    let fs = named_fields(input);
    &&& checks_path_texts(input.attrs, cvs, false)
    &&& fvs.len() == fs.len()
    &&& forall|k: int| 0 <= k < fvs.len() ==> checks_path_texts(fs[k].attrs, #[trigger] fvs[k], true)
}

impl StructModel {
    /// Builds the model of a named, non-generic struct, given the path check's
    /// verdicts on the struct's attributes and on each field's (`field_verdicts[k]`
    /// for field `k`): reads the options of the struct and of each field, gives
    /// each field the names it is accepted under, numbers the deserialized fields
    /// in order, and refuses a name that two deserialized fields share. Generic
    /// items, enums, unions and structs without named fields are refused first,
    /// then the struct's attributes, then the first field with a refused attribute
    /// or a taken name.
    pub fn from_input_with(
        input: DeriveInput,
        container_verdicts: &Vec<Vec<Option<PathCheck>>>,
        field_verdicts: &Vec<Vec<Vec<Option<PathCheck>>>>,
    ) -> (r: Result<StructModel, DeriveError>)
        ensures
            builds_model(input@, container_verdicts.deep_view(), field_verdicts.deep_view(), res_view(r)),
    {
        let ghost cvs = container_verdicts.deep_view();
        let ghost fvs = field_verdicts.deep_view();
        if input.has_generics {
            return Err(DeriveError::Generic);
        }
        let named: &Vec<Field> = match &input.data {
            Data::Struct(Fields::Named(f)) => f,
            Data::Struct(_) => {
                return Err(DeriveError::NotNamedStruct);
            },
            Data::Enum => {
                return Err(DeriveError::Enum);
            },
            Data::Union => {
                return Err(DeriveError::Union);
            },
        };
        let container = match parse_container_attrs_with(&input.attrs, container_verdicts) {
            Ok(c) => c,
            Err(e) => {
                return Err(DeriveError::ContainerAttr(e));
            },
        };
        let ghost fs = checked_fields(input@, fvs);
        assert(fs.len() == named.len());
        let mut fields: Vec<FieldInfo> = Vec::new();
        let mut accepted: Vec<(String, usize)> = Vec::new();
        let mut next_de_id: usize = 0;
        let mut k: usize = 0;
        proof {
            assert(info_views(fields@) =~= Seq::<FieldInfoView>::empty());
            assert(keys_of(accepted.deep_view()).to_set() =~= Set::<Seq<char>>::empty());
            assert(accepted.deep_view().to_set() =~= Set::<(Seq<char>, usize)>::empty());
        }
        while k < named.len()
            invariant
                fs == checked_fields(input@, fvs),
                fvs == field_verdicts.deep_view(),
                cvs == container_verdicts.deep_view(),
                named_fields(input@) == field_views(named@),
                fs.len() == named.len(),
                shape_error(input@, cvs) is None,
                container_attrs_spec(input@.attrs, cvs) == Ok::<ContainerView, AttrErrorView>(container@),
                built_upto(
                    fs,
                    info_views(fields@),
                    k as int,
                    next_de_id as int,
                    keys_of(accepted.deep_view()).to_set(),
                    accepted.deep_view().to_set(),
                ),
                next_de_id <= k,
                strictly_sorted(keys_of(accepted.deep_view())),
            decreases named.len() - k,
        {
            let field = &named[k];
            assert(fs[k as int].field == field@);
            let parsed = if k < field_verdicts.len() {
                assert(fs[k as int].verdicts == field_verdicts@[k as int].deep_view());
                parse_field_attrs_with(&field.attrs, &field_verdicts[k])
            } else {
                let none: Vec<Vec<Option<PathCheck>>> = Vec::new();
                assert(none.deep_view() =~= fs[k as int].verdicts);
                parse_field_attrs_with(&field.attrs, &none)
            };
            let attrs = match parsed {
                Ok(a) => a,
                Err(e) => {
                    proof {
                        assert(field_fails(fs, k as int));
                    }
                    return Err(DeriveError::FieldAttr(k, e));
                },
            };
            assert(in_attrs(fs[k as int]) == attrs@);
            let canonical = match &attrs.deserialize_name {
                Some(n) => n.clone(),
                None => strip_raw(field.ident.as_str()),
            };
            let names = sorted_names(&canonical, &attrs.aliases);
            let ghost nv = names.deep_view();
            assert(nv.to_set() == in_names(fs[k as int]));
            let ghost fv = info_views(fields@);
            let ghost keys = keys_of(accepted.deep_view()).to_set();
            let ghost pairs = accepted.deep_view().to_set();
            let de_id = if attrs.skip_deserializing {
                None
            } else {
                let id = next_de_id;
                match accept_names(&mut accepted, &names, id) {
                    Some(t) => {
                        proof {
                            let n = nv[t as int];
                            assert(nv.to_set().contains(n));
                            assert(in_names(fs[k as int]).contains(n));
                            assert(field_fails(fs, k as int));
                            assert forall|o: Seq<char>|
                                #[trigger] in_names(fs[k as int]).contains(o) && taken_names(
                                    fs,
                                    k as int,
                                ).contains(o) implies !lex_lt(o, n) by {
                                if lex_lt(o, n) {
                                    assert(nv.to_set().contains(o));
                                    lemma_names_in_sorted(nv, t as int, o);
                                }
                            }
                        }
                        return Err(DeriveError::DuplicateName(k, names[t].clone()));
                    },
                    None => {},
                }
                next_de_id = next_de_id + 1;
                proof {
                    assert forall|n: Seq<char>| #[trigger] nv.to_set().contains(n) implies !keys.contains(n) by {
                        let j = choose|j: int| 0 <= j < nv.len() && nv[j] == n;
                        assert(!keys.contains(nv[j]));
                    }
                }
                Some(id)
            };
            let info = FieldInfo {
                ident: field.ident.clone(),
                ty: field.ty.clone(),
                attrs,
                canonical,
                names,
                de_id,
            };
            let ghost iv = info@;
            fields.push(info);
            proof {
                assert(info_views(fields@) =~= fv.push(iv));
                lemma_built_step(
                    fs,
                    fv,
                    k as int,
                    de_count(fv, k as int) as int,
                    keys,
                    pairs,
                    iv,
                    keys_of(accepted.deep_view()).to_set(),
                    accepted.deep_view().to_set(),
                );
            }
            k = k + 1;
        }
        let serde_name = match &container.name {
            Some(n) => n.clone(),
            None => strip_raw(input.ident.as_str()),
        };
        let expecting = match &container.expecting {
            Some(e) => e.clone(),
            None => concat("struct ", serde_name.as_str()),
        };
        let m = StructModel { ident: input.ident, container, fields, accepted, serde_name, expecting };
        proof {
            let fv = info_views(m.fields@);
            assert(fv.len() == m.fields.len());
            assert(m@.accepted.len() == m.accepted.len());
            assert forall|i: int| 0 <= i < fv.len() implies field_info_wf(#[trigger] fv[i]) by {
                assert(field_matches(fs, fv, i));
            }
            assert forall|i: int| 0 <= i < fv.len() implies (#[trigger] fv[i]).de_id == (if fv[i].attrs.skip_deserializing {
                None
            } else {
                Some(de_count(fv, i) as usize)
            }) by {
                assert(field_matches(fs, fv, i));
            }
            assert forall|i: int| 0 <= i < fs.len() implies {
                &&& (#[trigger] m@.fields[i]).ident == fs[i].field.ident
                &&& m@.fields[i].ty == fs[i].field.ty
                &&& checked_attrs(fs[i]) == Ok::<FieldAttrsView, AttrErrorView>(m@.fields[i].attrs)
            } by {
                assert(field_matches(fs, fv, i));
            }
        }
        Ok(m)
    }

    /// Builds the model of `input` as `from_input_with` does, with the checks that
    /// `syn` makes (`check_path`) on the path texts of the struct's options and of
    /// its fields' options. Which texts that check accepts is not stated here: the
    /// result is the one built under some tables of checks made on those texts.
    pub fn from_input(input: DeriveInput) -> (r: Result<StructModel, DeriveError>)
        ensures
            exists|cvs: PathVerdicts, fvs: Seq<PathVerdicts>|
                checks_input_texts(input@, cvs, fvs) && builds_model(input@, cvs, fvs, res_view(r)),
    {
        let ghost iv = input@;
        let container_verdicts = path_verdicts(&input.attrs, false);
        let mut field_verdicts: Vec<Vec<Vec<Option<PathCheck>>>> = Vec::new();
        match &input.data {
            Data::Struct(Fields::Named(named)) => {
                let ghost fs = field_views(named@);
                assert(named_fields(iv) == fs);
                let mut k: usize = 0;
                while k < named.len()
                    invariant
                        k <= named.len(),
                        fs == field_views(named@),
                        field_verdicts.deep_view().len() == k,
                        forall|j: int|
                            0 <= j < k ==> checks_path_texts(fs[j].attrs, #[trigger] field_verdicts.deep_view()[j], true),
                    decreases named.len() - k,
                {
                    let ghost before = field_verdicts.deep_view();
                    let row = path_verdicts(&named[k].attrs, true);
                    assert(fs[k as int] == named@[k as int]@);
                    let ghost rv = row.deep_view();
                    field_verdicts.push(row);
                    assert(field_verdicts.deep_view() =~= before.push(rv));
                    k = k + 1;
                }
            },
            _ => {},
        }
        let r = Self::from_input_with(input, &container_verdicts, &field_verdicts);
        assert(builds_model(iv, container_verdicts.deep_view(), field_verdicts.deep_view(), res_view(r)));
        assert(checks_input_texts(iv, container_verdicts.deep_view(), field_verdicts.deep_view()));
        r
    }
}

// ---------------------------------------------------------------- messages

/// The text reported for a refused item.
pub open spec fn message_spec(e: DeriveErrorView) -> Seq<char> {
    match e {
        DeriveErrorView::Generic => "SonicDeserialize MVP supports only non-generic, non-borrowing structs"@,
        DeriveErrorView::NotNamedStruct => "SonicDeserialize MVP supports only named structs"@,
        DeriveErrorView::Enum => "SonicDeserialize MVP does not yet support enums"@,
        DeriveErrorView::Union => "SonicDeserialize does not support unions"@,
        DeriveErrorView::ContainerAttr(a) => crate::attr::attr_message_spec(a.kind),
        DeriveErrorView::FieldAttr(_, a) => crate::attr::attr_message_spec(a.kind),
        DeriveErrorView::DuplicateName(_, n) => "deserialize field name `"@ + n
            + "` is used by multiple fields"@,
    }
}

impl DeriveError {
    /// The text reported for this refusal.
    pub fn message(&self) -> (r: String)
        ensures
            r@ == message_spec(self@),
    {
        match self {
            DeriveError::Generic => String::from_str(
                "SonicDeserialize MVP supports only non-generic, non-borrowing structs",
            ),
            DeriveError::NotNamedStruct => String::from_str(
                "SonicDeserialize MVP supports only named structs",
            ),
            DeriveError::Enum => String::from_str("SonicDeserialize MVP does not yet support enums"),
            DeriveError::Union => String::from_str("SonicDeserialize does not support unions"),
            DeriveError::ContainerAttr(a) => a.kind.message(),
            DeriveError::FieldAttr(_, a) => a.kind.message(),
            DeriveError::DuplicateName(_, n) => {
                let mut s = concat("deserialize field name `", n.as_str());
                s.append("` is used by multiple fields");
                s
            },
        }
    }
}

} // verus!
