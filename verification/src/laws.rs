//! What holds of every model the derive builds and of every plan written from
//! one, across the functions that build them.
use vstd::prelude::*;

use crate::attr::{
    AttrErrorView, ContainerView, DefaultView, FieldAttrsView, PathCheckView, PathVerdicts,
    checks_path_texts, container_attrs_spec, container_items, field_attrs_spec, field_items,
    AttrErrorKindView, container_serde_step, container_sonic_step, field_serde_step, path_text,
    verdict_in, verdict_row,
};
use crate::meta::MetaArgView;
use crate::meta::NestedMetaView;
use crate::paths::plain_path;
use crate::meta::{AttrKind, AttributeView};
use crate::codegen::{
    ConstructFieldView, ExpansionView, FieldLookupView, SeqFieldView, ValueExprView, accepted_entries_spec,
    expansion_spec, lemma_flat_no_duplicates, lemma_flat_owner, lemma_numeric_len,
    lemma_pair_of_field, map_field_spec, map_fields_spec, names_flat, numeric_spec, read_count,
};
use crate::model::{FieldInfoView, StructModelView, de_count, keys_of, name_pairs, strictly_sorted};
use crate::text::{lemma_lex_asymmetric, lemma_lex_irreflexive, lex_lt};

verus! {

// ---------------------------------------------------------------- helpers

proof fn lemma_pairs_owner(fields: Seq<FieldInfoView>, k: int, x: Seq<char>, id: usize)
    requires
        0 <= k <= fields.len(),
        name_pairs(fields, k).contains((x, id)),
    ensures
        exists|i: int|
            0 <= i < k && (#[trigger] fields[i]).de_id == Some(id) && fields[i].names.contains(x),
    decreases k,
{
    let f = fields[k - 1];
    if name_pairs(fields, k - 1).contains((x, id)) {
        lemma_pairs_owner(fields, k - 1, x, id);
    } else {
        assert(f.de_id == Some(id));
        assert(f.names.to_set().contains(x));
    }
}

proof fn lemma_flat_has(fields: Seq<FieldInfoView>, k: int, i: int, x: Seq<char>)
    requires
        0 <= i < k <= fields.len(),
        fields[i].de_id is Some,
        fields[i].names.contains(x),
    ensures
        names_flat(fields, k).contains(x),
    decreases k,
{
    let prev = names_flat(fields, k - 1);
    if i < k - 1 {
        lemma_flat_has(fields, k - 1, i, x);
        let j = choose|j: int| 0 <= j < prev.len() && prev[j] == x;
        assert(names_flat(fields, k)[j] == x);
    } else {
        let j = choose|j: int| 0 <= j < fields[i].names.len() && fields[i].names[j] == x;
        assert(names_flat(fields, k)[prev.len() + j] == x);
    }
}

proof fn lemma_keys_no_duplicates(a: Seq<(Seq<char>, usize)>)
    requires
        strictly_sorted(keys_of(a)),
    ensures
        keys_of(a).no_duplicates(),
{
    let ks = keys_of(a);
    assert forall|i: int, j: int| 0 <= i < ks.len() && 0 <= j < ks.len() && i != j implies ks[i] != ks[j] by {
        if i < j {
            assert(lex_lt(ks[i], ks[j]));
        } else {
            assert(lex_lt(ks[j], ks[i]));
        }
        lemma_lex_irreflexive(ks[i]);
    }
}

proof fn lemma_de_count_le(fields: Seq<FieldInfoView>, k: int)
    requires
        0 <= k,
    ensures
        de_count(fields, k) <= k,
    decreases k,
{
    if k > 0 {
        lemma_de_count_le(fields, k - 1);
    }
}

proof fn lemma_read_count_is_de_count(m: StructModelView, k: int)
    requires
        m.wf(),
        0 <= k <= m.fields.len(),
    ensures
        read_count(m.fields, k) == de_count(m.fields, k),
    decreases k,
{
    if k > 0 {
        lemma_read_count_is_de_count(m, k - 1);
        assert(m.fields[k - 1].de_id is Some <==> !m.fields[k - 1].attrs.skip_deserializing);
    }
}

// ---------------------------------------------------------------- laws

/// A struct's field names, as `BTreeSet` orders them, are fixed by the set of
/// names: two sorted lists without repetition that hold the same names are equal.
pub proof fn law_sorted_names_unique(a: Seq<Seq<char>>, b: Seq<Seq<char>>)
    requires
        strictly_sorted(a),
        strictly_sorted(b),
        a.to_set() == b.to_set(),
    ensures
        a == b,
    decreases a.len() + b.len(),
{
    if a.len() == 0 || b.len() == 0 {
        if a.len() > 0 {
            assert(a.to_set().contains(a[0]));
        }
        if b.len() > 0 {
            assert(b.to_set().contains(b[0]));
        }
        assert(a =~= b);
    } else {
        // The first names are the least of the set, so they are equal.
        assert(b.to_set().contains(a[0]));
        assert(a.to_set().contains(b[0]));
        let i = choose|i: int| 0 <= i < b.len() && b[i] == a[0];
        let j = choose|j: int| 0 <= j < a.len() && a[j] == b[0];
        if a[0] != b[0] {
            assert(i > 0 && j > 0);
            assert(lex_lt(b[0], b[i]));
            assert(lex_lt(a[0], a[j]));
            lemma_lex_asymmetric(a[0], b[0]);
        }
        let a2 = a.drop_first();
        let b2 = b.drop_first();
        assert(strictly_sorted(a2)) by {
            assert forall|x: int, y: int| 0 <= x < y < a2.len() implies lex_lt(#[trigger] a2[x], #[trigger] a2[y]) by {
                assert(a2[x] == a[x + 1] && a2[y] == a[y + 1]);
            }
        }
        assert(strictly_sorted(b2)) by {
            assert forall|x: int, y: int| 0 <= x < y < b2.len() implies lex_lt(#[trigger] b2[x], #[trigger] b2[y]) by {
                assert(b2[x] == b[x + 1] && b2[y] == b[y + 1]);
            }
        }
        assert(a2.to_set() =~= b2.to_set()) by {
            assert forall|x: Seq<char>| a2.to_set().contains(x) == b2.to_set().contains(x) by {
                if a2.contains(x) {
                    let p = choose|p: int| 0 <= p < a2.len() && a2[p] == x;
                    assert(lex_lt(a[0], a[p + 1]));
                    assert(b.to_set().contains(x));
                    let q = choose|q: int| 0 <= q < b.len() && b[q] == x;
                    if q == 0 {
                        lemma_lex_irreflexive(x);
                    }
                    assert(b2[q - 1] == x);
                }
                if b2.contains(x) {
                    let p = choose|p: int| 0 <= p < b2.len() && b2[p] == x;
                    assert(lex_lt(b[0], b[p + 1]));
                    assert(a.to_set().contains(x));
                    let q = choose|q: int| 0 <= q < a.len() && a[q] == x;
                    if q == 0 {
                        lemma_lex_irreflexive(x);
                    }
                    assert(a2[q - 1] == x);
                }
            }
        }
        law_sorted_names_unique(a2, b2);
        assert(a =~= b) by {
            assert(a == seq![a[0]] + a2);
            assert(b == seq![b[0]] + b2);
        }
    }
}

/// Each name of a deserialized field is accepted under that field's index, and
/// under no other: the canonical name and the aliases of one field all select
/// the same field, so giving two of them is giving the field twice.
pub proof fn law_names_share_index(m: StructModelView, i: int, x: Seq<char>)
    requires
        m.wf(),
        0 <= i < m.fields.len(),
        m.fields[i].de_id is Some,
        m.fields[i].names.contains(x),
    ensures
        m.accepted.contains((x, m.fields[i].de_id->0)),
        forall|k: int| 0 <= k < m.accepted.len() && (#[trigger] m.accepted[k]).0 == x ==> m.accepted[k].1
            == m.fields[i].de_id->0,
{
    lemma_pair_of_field(m.fields, m.fields.len() as int, i, x);
    let id = m.fields[i].de_id->0;
    assert(m.accepted.to_set().contains((x, id)));
    let p = choose|p: int| 0 <= p < m.accepted.len() && m.accepted[p] == (x, id);
    lemma_keys_no_duplicates(m.accepted);
    assert forall|k: int| 0 <= k < m.accepted.len() && (#[trigger] m.accepted[k]).0 == x implies m.accepted[k].1
        == id by {
        assert(keys_of(m.accepted)[k] == x && keys_of(m.accepted)[p] == x);
    }
}

/// The canonical name of every deserialized field is accepted.
pub proof fn law_canonical_accepted(m: StructModelView, i: int)
    requires
        m.wf(),
        0 <= i < m.fields.len(),
        m.fields[i].de_id is Some,
    ensures
        m.accepted.contains((m.fields[i].canonical, m.fields[i].de_id->0)),
{
    assert(m.fields[i].names.to_set().contains(m.fields[i].canonical));
    law_names_share_index(m, i, m.fields[i].canonical);
}

/// Every accepted name belongs to a field that is deserialized, under that
/// field's index: a skipped field is never selected.
pub proof fn law_accepted_owned(m: StructModelView, k: int)
    requires
        m.wf(),
        0 <= k < m.accepted.len(),
    ensures
        exists|i: int|
            0 <= i < m.fields.len() && (#[trigger] m.fields[i]).de_id == Some(m.accepted[k].1)
                && !m.fields[i].attrs.skip_deserializing && m.fields[i].names.contains(
                m.accepted[k].0,
            ),
{
    assert(m.accepted.to_set().contains(m.accepted[k]));
    lemma_pairs_owner(m.fields, m.fields.len() as int, m.accepted[k].0, m.accepted[k].1);
}

/// `FIELDS` lists exactly the accepted names, each once.
pub proof fn law_fields_list_accepted(m: StructModelView)
    requires
        m.wf(),
    ensures
        names_flat(m.fields, m.fields.len() as int).no_duplicates(),
        names_flat(m.fields, m.fields.len() as int).to_set() == keys_of(m.accepted).to_set(),
        names_flat(m.fields, m.fields.len() as int).len() == m.accepted.len(),
{
    let n = m.fields.len() as int;
    let flat = names_flat(m.fields, n);
    let keys = keys_of(m.accepted);
    lemma_flat_no_duplicates(m, n);
    lemma_keys_no_duplicates(m.accepted);
    assert forall|x: Seq<char>| flat.to_set().contains(x) == keys.to_set().contains(x) by {
        if flat.contains(x) {
            lemma_flat_owner(m.fields, n, x);
            let i = choose|i: int| 0 <= i < n && (#[trigger] m.fields[i]).de_id is Some && m.fields[i].names.contains(x);
            law_names_share_index(m, i, x);
            let p = choose|p: int| 0 <= p < m.accepted.len() && m.accepted[p] == (x, m.fields[i].de_id->0);
            assert(keys[p] == x);
        }
        if keys.contains(x) {
            let p = choose|p: int| 0 <= p < keys.len() && keys[p] == x;
            law_accepted_owned(m, p);
            let i = choose|i: int|
                0 <= i < m.fields.len() && (#[trigger] m.fields[i]).de_id == Some(m.accepted[p].1)
                    && !m.fields[i].attrs.skip_deserializing && m.fields[i].names.contains(m.accepted[p].0);
            lemma_flat_has(m.fields, n, i, x);
        }
    }
    assert(flat.to_set() =~= keys.to_set());
    flat.unique_seq_to_set();
    keys.unique_seq_to_set();
}

/// A field given by number selects the field whose name stands at that position
/// of `FIELDS`, aliases counted: position `p` carries `p` and the index of the
/// owner of `FIELDS[p]`, and the same name given as text selects the same field.
pub proof fn law_numeric_index_agrees(m: StructModelView, p: int)
    requires
        m.wf(),
        0 <= p < names_flat(m.fields, m.fields.len() as int).len(),
    ensures
        numeric_spec(m.fields, m.fields.len() as int)[p].0 == p,
        m.accepted.contains(
            (
                names_flat(m.fields, m.fields.len() as int)[p],
                numeric_spec(m.fields, m.fields.len() as int)[p].1,
            ),
        ),
        forall|k: int|
            0 <= k < m.accepted.len() && (#[trigger] m.accepted[k]).0 == names_flat(
                m.fields,
                m.fields.len() as int,
            )[p] ==> m.accepted[k].1 == numeric_spec(m.fields, m.fields.len() as int)[p].1,
{
    let n = m.fields.len() as int;
    law_fields_list_accepted(m);
    law_numeric_entries(m.fields, n, p);
    let i = choose|i: int|
        #![trigger m.fields[i]]
        0 <= i < n && m.fields[i].de_id == Some(numeric_spec(m.fields, n)[p].1)
            && names_flat(m.fields, i).len() <= p < names_flat(m.fields, i).len() + m.fields[i].names.len()
            && names_flat(m.fields, n)[p] == m.fields[i].names[p - names_flat(m.fields, i).len()];
    assert(m.fields[i].names.contains(names_flat(m.fields, n)[p]));
    law_names_share_index(m, i, names_flat(m.fields, n)[p]);
}

/// For any fields, the table that a field given by number is dispatched on has
/// one entry per position of `FIELDS` among the first `k` fields: entry `p`
/// carries `p` and the index of the deserialized field whose names fill that
/// position, `FIELDS[p]` being that field's name at `p` less the number of names
/// before it. Skipped fields add no entry.
pub proof fn law_numeric_entries(fields: Seq<FieldInfoView>, k: int, p: int)
    requires
        0 <= k <= fields.len(),
        0 <= p < names_flat(fields, k).len(),
        names_flat(fields, k).len() <= u64::MAX,
    ensures
        numeric_spec(fields, k).len() == names_flat(fields, k).len(),
        numeric_spec(fields, k)[p].0 == p,
        exists|i: int|
            #![trigger fields[i]]
            0 <= i < k && fields[i].de_id == Some(numeric_spec(fields, k)[p].1)
                && names_flat(fields, i).len() <= p < names_flat(fields, i).len() + fields[i].names.len()
                && names_flat(fields, k)[p] == fields[i].names[p - names_flat(fields, i).len()],
    decreases k,
{
    lemma_numeric_len(fields, k);
    lemma_numeric_len(fields, k - 1);
    let prev = names_flat(fields, k - 1);
    if p < prev.len() {
        law_numeric_entries(fields, k - 1, p);
        assert(numeric_spec(fields, k)[p] == numeric_spec(fields, k - 1)[p]);
        assert(names_flat(fields, k)[p] == prev[p]);
        let i = choose|i: int|
            #![trigger fields[i]]
            0 <= i < k - 1 && fields[i].de_id == Some(numeric_spec(fields, k - 1)[p].1)
                && names_flat(fields, i).len() <= p < names_flat(fields, i).len() + fields[i].names.len()
                && names_flat(fields, k - 1)[p] == fields[i].names[p - names_flat(fields, i).len()];
        assert(fields[i].de_id == Some(numeric_spec(fields, k)[p].1));
    } else {
        let f = fields[k - 1];
        assert(f.names[p - prev.len()] == names_flat(fields, k)[p]);
        assert(fields[k - 1].de_id == Some(numeric_spec(fields, k)[p].1));
    }
}

/// The deserialized fields are numbered 0, 1, 2, ... in order, and the field with
/// index `id` is read from a map by the `id`-th entry of the plan.
pub proof fn law_map_fields_by_index(m: StructModelView, cd: DefaultView, i: int)
    requires
        m.wf(),
        0 <= i < m.fields.len(),
        m.fields[i].de_id is Some,
    ensures
        m.fields[i].de_id->0 == read_count(m.fields, i),
        m.fields[i].de_id->0 < map_fields_spec(m.fields, cd, m.fields.len() as int).len(),
        map_fields_spec(m.fields, cd, m.fields.len() as int)[m.fields[i].de_id->0 as int]
            == map_field_spec(m.fields[i], m.fields[i].de_id->0, cd),
{
    lemma_read_count_is_de_count(m, i);
    lemma_de_count_le(m.fields, i);
    lemma_map_fields_entry(m.fields, cd, m.fields.len() as int, i);
}

proof fn lemma_map_fields_len(fields: Seq<FieldInfoView>, cd: DefaultView, k: int)
    requires
        0 <= k <= fields.len(),
    ensures
        map_fields_spec(fields, cd, k).len() == read_count(fields, k),
    decreases k,
{
    if k > 0 {
        lemma_map_fields_len(fields, cd, k - 1);
    }
}

proof fn lemma_map_fields_entry(fields: Seq<FieldInfoView>, cd: DefaultView, k: int, i: int)
    requires
        0 <= i < k <= fields.len(),
        fields[i].de_id is Some,
    ensures
        read_count(fields, i) < map_fields_spec(fields, cd, k).len(),
        map_fields_spec(fields, cd, k)[read_count(fields, i) as int] == map_field_spec(
            fields[i],
            fields[i].de_id->0,
            cd,
        ),
    decreases k,
{
    lemma_map_fields_len(fields, cd, k - 1);
    lemma_map_fields_len(fields, cd, i);
    if i < k - 1 {
        lemma_map_fields_entry(fields, cd, k - 1, i);
    }
}

/// A deserialized field read from a sequence that ended before it reports as many
/// elements read as its own index, unless it has a default.
pub proof fn law_seq_index_is_field_index(m: StructModelView, i: int)
    requires
        m.wf(),
        0 <= i < m.fields.len(),
        m.fields[i].de_id is Some,
    ensures
        read_count(m.fields, i) == m.fields[i].de_id->0,
{
    lemma_read_count_is_de_count(m, i);
    lemma_de_count_le(m.fields, i);
}

/// The field names given as text are looked up in the same table whether it is a
/// perfect-hash table or a `match`, and the table is built from the struct's 32nd
/// accepted name on, or when asked for.
pub proof fn law_lookup_table(m: StructModelView, e: ExpansionView)
    requires
        expansion_spec(m, e),
    ensures
        e.lookup == FieldLookupView::Phf(accepted_entries_spec(m.accepted)) || e.lookup
            == FieldLookupView::Match(accepted_entries_spec(m.accepted)),
        (e.lookup is Phf) <==> (m.container.force_phf || m.accepted.len() >= 32),
{
}

/// A required field with its own decoder that a map does not hold is reported
/// missing at once, without calling the decoder.
pub proof fn law_missing_decoded_field(m: StructModelView, e: ExpansionView, i: int)
    requires
        m.wf(),
        expansion_spec(m, e),
        0 <= i < m.fields.len(),
        m.fields[i].de_id is Some,
        m.fields[i].attrs.deserialize_with is Some,
        m.fields[i].attrs.default is Unset,
        m.container.default is Unset,
    ensures
        e.map_fields[m.fields[i].de_id->0 as int].with_wrapper,
        e.map_fields[m.fields[i].de_id->0 as int].missing == ValueExprView::MissingFieldError(
            m.fields[i].canonical,
        ),
{
    law_map_fields_by_index(m, m.container.default, i);
}

/// In the plan, a field name given by number and the same name given as text
/// select the same field: position `p` of `FIELDS` is dispatched to the index
/// that the lookup table gives `FIELDS[p]`, aliases counted.
pub proof fn law_dispatch_agrees(m: StructModelView, e: ExpansionView, p: int)
    requires
        m.wf(),
        expansion_spec(m, e),
        0 <= p < e.field_names.len(),
    ensures
        e.numeric_entries[p].0 == p,
        exists|k: int|
            0 <= k < accepted_entries_spec(m.accepted).len() && #[trigger] accepted_entries_spec(
                m.accepted,
            )[k] == (e.field_names[p], e.numeric_entries[p].1 as u32),
        forall|k: int|
            0 <= k < m.accepted.len() && (#[trigger] m.accepted[k]).0 == e.field_names[p]
                ==> m.accepted[k].1 == e.numeric_entries[p].1,
{
    law_numeric_index_agrees(m, p);
    let n = m.fields.len() as int;
    let pair = (names_flat(m.fields, n)[p], numeric_spec(m.fields, n)[p].1);
    let k = choose|k: int| 0 <= k < m.accepted.len() && m.accepted[k] == pair;
    assert(accepted_entries_spec(m.accepted)[k] == (e.field_names[p], e.numeric_entries[p].1 as u32));
}

// ---------------------------------------------------------------- values of absent fields

/// A deserialized field that a map does not hold takes its own default when it
/// has one (`Default::default()` for `default`, a call of the path for
/// `default = "path"`), whether or not the struct has a default; else the field of
/// the struct's default value when the struct has one; only a field with neither
/// is reported missing, at once when it has its own decoder. A field is read from
/// a map through its own decoder exactly when it has one.
pub proof fn law_map_missing_value(m: StructModelView, e: ExpansionView, i: int)
    requires
        m.wf(),
        expansion_spec(m, e),
        0 <= i < m.fields.len(),
        m.fields[i].de_id is Some,
    ensures
        ({
            let f = m.fields[i];
            let mf = e.map_fields[f.de_id->0 as int];
            &&& f.de_id->0 < e.map_fields.len()
            &&& mf.with_wrapper == (f.attrs.deserialize_with is Some)
            &&& f.attrs.default is Default ==> mf.missing == ValueExprView::DefaultTrait
            &&& f.attrs.default matches DefaultView::Path(p) ==> mf.missing == ValueExprView::Call(p)
            &&& f.attrs.default is Unset && !(m.container.default is Unset) ==> mf.missing
                == ValueExprView::ContainerField(f.ident)
            &&& f.attrs.default is Unset && m.container.default is Unset && f.attrs.deserialize_with is Some
                ==> mf.missing == ValueExprView::MissingFieldError(f.canonical)
            &&& f.attrs.default is Unset && m.container.default is Unset && f.attrs.deserialize_with is None
                ==> mf.missing == ValueExprView::MissingFieldHelper(f.ty, f.canonical)
        }),
{
    law_map_fields_by_index(m, m.container.default, i);
}

/// A deserialized field is read from a sequence as the next element, through its
/// own decoder exactly when it has one, as it is from a map. When the sequence
/// ended before it, it takes its own default when it has one, whether or not the
/// struct has a default; else the field of the struct's default value; only a
/// field with neither refuses the sequence as too short, the elements read being
/// as many as the field's own index.
pub proof fn law_seq_missing_value(m: StructModelView, e: ExpansionView, i: int)
    requires
        m.wf(),
        expansion_spec(m, e),
        0 <= i < m.fields.len(),
        m.fields[i].de_id is Some,
    ensures
        ({
            let f = m.fields[i];
            let id = f.de_id->0;
            &&& e.seq_fields[i].0 == f.ident
            &&& e.seq_fields[i].1 matches SeqFieldView::Read { id: rid, ty, with_wrapper, missing } && {
                &&& rid == id
                &&& ty == f.ty
                &&& with_wrapper == (f.attrs.deserialize_with is Some)
                &&& with_wrapper == e.map_fields[id as int].with_wrapper
                &&& f.attrs.default is Default ==> missing == ValueExprView::DefaultTrait
                &&& f.attrs.default matches DefaultView::Path(p) ==> missing == ValueExprView::Call(p)
                &&& f.attrs.default is Unset && !(m.container.default is Unset) ==> missing
                    == ValueExprView::ContainerField(f.ident)
                &&& f.attrs.default is Unset && m.container.default is Unset ==> missing
                    == ValueExprView::InvalidLength(id, m.expecting)
            }
        }),
{
    law_seq_index_is_field_index(m, i);
    law_map_fields_by_index(m, m.container.default, i);
}

/// A skipped field takes its own default when it has one, whether or not the
/// struct has a default; else the field of the struct's default value when the
/// struct has one; else `Default::default()`. It is never read, from a map or
/// from a sequence, and takes the same value in both.
pub proof fn law_skipped_value(m: StructModelView, e: ExpansionView, i: int)
    requires
        expansion_spec(m, e),
        0 <= i < m.fields.len(),
        m.fields[i].de_id is None,
    ensures
        ({
            let f = m.fields[i];
            &&& e.construct[i].0 == f.ident
            &&& e.seq_fields[i].0 == f.ident
            &&& e.construct[i].1 matches ConstructFieldView::Skipped(x) && e.seq_fields[i].1
                == SeqFieldView::Skipped(x) && {
                &&& f.attrs.default is Default ==> x == ValueExprView::DefaultTrait
                &&& f.attrs.default matches DefaultView::Path(p) ==> x == ValueExprView::Call(p)
                &&& f.attrs.default is Unset && !(m.container.default is Unset) ==> x
                    == ValueExprView::ContainerField(f.ident)
                &&& f.attrs.default is Unset && m.container.default is Unset ==> x
                    == ValueExprView::DefaultTrait
            }
        }),
{
}

/// The options that only serialization reads (`skip_serializing_if`,
/// `serialize_with` and `getter` with a string, `skip_serializing` alone) are
/// accepted on a field and change none of its options, whatever the check made.
pub proof fn law_serialization_options_ignored(
    f: FieldAttrsView,
    path: Seq<char>,
    arg: MetaArgView,
    at_end: bool,
    check: Option<PathCheckView>,
)
    requires
        ((path == "skip_serializing_if"@ || path == "serialize_with"@ || path == "getter"@) && (
        arg is Str || arg is SuffixedStr)) || (path == "skip_serializing"@ && arg is Empty),
    ensures
        field_serde_step(f, NestedMetaView { path, arg, at_end }, check) == Ok::<
            FieldAttrsView,
            AttrErrorKindView,
        >(f),
{
    lemma_option_names();
}

proof fn lemma_option_names()
    ensures
        "default"@.len() == 7,
        "deny_unknown_fields"@.len() == 19,
        "expecting"@.len() == 9,
        "crate"@.len() == 5,
        "rename"@.len() == 6,
        "force_phf"@.len() == 9,
        "alias"@.len() == 5,
        "deserialize_with"@.len() == 16,
        "skip"@.len() == 4,
        "skip_deserializing"@.len() == 18,
        "skip_serializing"@.len() == 16,
        "skip_serializing_if"@.len() == 19,
        "serialize_with"@.len() == 14,
        "getter"@.len() == 6,
        "getter"@[0] != "rename"@[0],
        "skip_serializing"@[0] != "deserialize_with"@[0],
        "expecting"@[0] != "force_phf"@[0],
        "alias"@[0] != "crate"@[0],
        "deny_unknown_fields"@[0] != "skip_serializing_if"@[0],
{
    reveal_strlit("default");
    reveal_strlit("deny_unknown_fields");
    reveal_strlit("expecting");
    reveal_strlit("crate");
    reveal_strlit("rename");
    reveal_strlit("force_phf");
    reveal_strlit("alias");
    reveal_strlit("deserialize_with");
    reveal_strlit("skip");
    reveal_strlit("skip_deserializing");
    reveal_strlit("skip_serializing");
    reveal_strlit("skip_serializing_if");
    reveal_strlit("serialize_with");
    reveal_strlit("getter");
}

/// What each option of `#[serde(...)]` on a field does when written as it should
/// be: `rename = "s"` sets the name for deserializing, `alias = "s"` adds an
/// alias, `default` and `default = "s"` set the default, `deserialize_with = "s"`
/// sets the decoder, `skip` and `skip_deserializing` skip the field, each leaving
/// every other option as it was; a path the check refused is refused with its
/// message; any option the derive does not know is refused.
pub proof fn law_field_option_effects(
    f: FieldAttrsView,
    path: Seq<char>,
    s: Seq<char>,
    at_end: bool,
    check: Option<PathCheckView>,
)
    ensures
        ({
            let with_str = NestedMetaView { path, arg: MetaArgView::Str(s), at_end };
            let alone = NestedMetaView { path, arg: MetaArgView::Empty, at_end };
            let accepted = check is None || check->0.error is None;
            &&& path == "rename"@ ==> field_serde_step(f, with_str, check) == Ok::<
                FieldAttrsView,
                AttrErrorKindView,
            >(FieldAttrsView { deserialize_name: Some(s), ..f })
            &&& path == "alias"@ ==> field_serde_step(f, with_str, check) == Ok::<
                FieldAttrsView,
                AttrErrorKindView,
            >(FieldAttrsView { aliases: f.aliases.push(s), ..f })
            &&& path == "default"@ ==> field_serde_step(f, alone, check) == Ok::<
                FieldAttrsView,
                AttrErrorKindView,
            >(FieldAttrsView { default: DefaultView::Default, ..f })
            &&& path == "default"@ && accepted ==> field_serde_step(f, with_str, check) == Ok::<
                FieldAttrsView,
                AttrErrorKindView,
            >(FieldAttrsView { default: DefaultView::Path(s), ..f })
            &&& path == "deserialize_with"@ && accepted ==> field_serde_step(f, with_str, check)
                == Ok::<FieldAttrsView, AttrErrorKindView>(
                FieldAttrsView { deserialize_with: Some(s), ..f },
            )
            &&& (path == "default"@ || path == "deserialize_with"@) && check is Some && check->0.text
                == s && check->0.error is Some ==> field_serde_step(f, with_str, check) == Err::<
                FieldAttrsView,
                AttrErrorKindView,
            >(AttrErrorKindView::InvalidPath(check->0.error->0))
            &&& (path == "skip"@ || path == "skip_deserializing"@) ==> field_serde_step(f, alone, check)
                == Ok::<FieldAttrsView, AttrErrorKindView>(
                FieldAttrsView { skip_deserializing: true, ..f },
            )
            &&& !(path == "rename"@ || path == "alias"@ || path == "default"@ || path == "deserialize_with"@
                || path == "skip"@ || path == "skip_deserializing"@ || path == "skip_serializing"@
                || path == "skip_serializing_if"@ || path == "serialize_with"@ || path == "getter"@)
                ==> field_serde_step(f, with_str, check) == Err::<FieldAttrsView, AttrErrorKindView>(
                AttrErrorKindView::UnsupportedFieldOption,
            ) && field_serde_step(f, alone, check) == Err::<FieldAttrsView, AttrErrorKindView>(
                AttrErrorKindView::UnsupportedFieldOption,
            )
        }),
{
    lemma_option_names();
}

/// What each option of `#[serde(...)]` and `#[sonic(...)]` on the struct does when
/// written as it should be: `default` and `default = "s"` set the default,
/// `deny_unknown_fields` refuses unknown fields, `expecting = "s"` and
/// `rename = "s"` set the text and the name, `crate = "s"` sets the path of serde
/// or of sonic_rs, `force_phf` asks for the perfect-hash table, each leaving every
/// other option as it was; any option the derive does not know is refused.
pub proof fn law_container_option_effects(
    c: ContainerView,
    path: Seq<char>,
    s: Seq<char>,
    at_end: bool,
    check: Option<PathCheckView>,
)
    ensures
        ({
            let with_str = NestedMetaView { path, arg: MetaArgView::Str(s), at_end };
            let alone = NestedMetaView { path, arg: MetaArgView::Empty, at_end };
            let accepted = check is None || check->0.error is None;
            &&& path == "default"@ ==> container_serde_step(c, alone, check) == Ok::<
                ContainerView,
                AttrErrorKindView,
            >(ContainerView { default: DefaultView::Default, ..c })
            &&& path == "default"@ && accepted ==> container_serde_step(c, with_str, check) == Ok::<
                ContainerView,
                AttrErrorKindView,
            >(ContainerView { default: DefaultView::Path(s), ..c })
            &&& path == "deny_unknown_fields"@ ==> container_serde_step(c, alone, check) == Ok::<
                ContainerView,
                AttrErrorKindView,
            >(ContainerView { deny_unknown_fields: true, ..c })
            &&& path == "expecting"@ ==> container_serde_step(c, with_str, check) == Ok::<
                ContainerView,
                AttrErrorKindView,
            >(ContainerView { expecting: Some(s), ..c })
            &&& path == "rename"@ ==> container_serde_step(c, with_str, check) == Ok::<
                ContainerView,
                AttrErrorKindView,
            >(ContainerView { name: Some(s), ..c })
            &&& path == "crate"@ && accepted ==> container_serde_step(c, with_str, check) == Ok::<
                ContainerView,
                AttrErrorKindView,
            >(ContainerView { serde_path: Some(s), ..c }) && container_sonic_step(c, with_str, check)
                == Ok::<ContainerView, AttrErrorKindView>(ContainerView { sonic_path: Some(s), ..c })
            &&& path == "force_phf"@ ==> container_sonic_step(c, alone, check) == Ok::<
                ContainerView,
                AttrErrorKindView,
            >(ContainerView { force_phf: true, ..c })
            &&& !(path == "default"@ || path == "deny_unknown_fields"@ || path == "expecting"@ || path
                == "crate"@ || path == "rename"@) ==> container_serde_step(c, with_str, check) == Err::<
                ContainerView,
                AttrErrorKindView,
            >(AttrErrorKindView::UnsupportedContainerOption)
            &&& !(path == "force_phf"@ || path == "crate"@) ==> container_sonic_step(c, alone, check)
                == Err::<ContainerView, AttrErrorKindView>(AttrErrorKindView::UnsupportedSonicOption)
        }),
{
    lemma_option_names();
}

// ---------------------------------------------------------------- attributes left alone

/// The attributes that are `#[serde(...)]` or `#[sonic(...)]`, in order.
pub open spec fn kept_attrs(attrs: Seq<AttributeView>) -> Seq<AttributeView>
    decreases attrs.len(),
{
    if attrs.len() == 0 {
        Seq::empty()
    } else if attrs.last().kind == AttrKind::Other {
        kept_attrs(attrs.drop_last())
    } else {
        kept_attrs(attrs.drop_last()).push(attrs.last())
    }
}

/// The rows of verdicts of the attributes that `kept_attrs` keeps, in order.
pub open spec fn kept_verdicts(attrs: Seq<AttributeView>, vs: PathVerdicts) -> PathVerdicts
    decreases attrs.len(),
{
    if attrs.len() == 0 {
        Seq::empty()
    } else if attrs.last().kind == AttrKind::Other {
        kept_verdicts(attrs.drop_last(), vs)
    } else {
        kept_verdicts(attrs.drop_last(), vs).push(verdict_row(vs, attrs.len() - 1))
    }
}

proof fn lemma_kept_len(attrs: Seq<AttributeView>, vs: PathVerdicts)
    ensures
        kept_verdicts(attrs, vs).len() == kept_attrs(attrs).len(),
        kept_attrs(attrs).len() <= attrs.len(),
    decreases attrs.len(),
{
    if attrs.len() > 0 {
        lemma_kept_len(attrs.drop_last(), vs);
    }
}

/// Reading the struct's attributes looks at no row of verdicts past the last attribute.
proof fn lemma_container_rows(attrs: Seq<AttributeView>, v1: PathVerdicts, v2: PathVerdicts)
    requires
        forall|a: int| 0 <= a < attrs.len() ==> verdict_row(v1, a) == verdict_row(v2, a),
    ensures
        container_attrs_spec(attrs, v1) == container_attrs_spec(attrs, v2),
    decreases attrs.len(),
{
    if attrs.len() > 0 {
        lemma_container_rows(attrs.drop_last(), v1, v2);
    }
}

/// Reading a field's attributes looks at no row of verdicts past the last attribute.
proof fn lemma_field_rows(attrs: Seq<AttributeView>, v1: PathVerdicts, v2: PathVerdicts)
    requires
        forall|a: int| 0 <= a < attrs.len() ==> verdict_row(v1, a) == verdict_row(v2, a),
    ensures
        field_attrs_spec(attrs, v1) == field_attrs_spec(attrs, v2),
    decreases attrs.len(),
{
    if attrs.len() > 0 {
        lemma_field_rows(attrs.drop_last(), v1, v2);
    }
}

/// Attributes other than `#[serde(...)]` and `#[sonic(...)]` have no effect on
/// the struct's options: reading only the others, each with its row of verdicts,
/// gives the same options, or the same refusal of the same option, the attribute
/// counted among those kept.
pub proof fn law_container_other_attrs_ignored(attrs: Seq<AttributeView>, vs: PathVerdicts)
    requires
        attrs.len() <= usize::MAX,
    ensures
        match container_attrs_spec(attrs, vs) {
            Ok(c) => container_attrs_spec(kept_attrs(attrs), kept_verdicts(attrs, vs)) == Ok::<
                ContainerView,
                AttrErrorView,
            >(c),
            Err(e) => {
                &&& e.attr < attrs.len()
                &&& container_attrs_spec(kept_attrs(attrs), kept_verdicts(attrs, vs)) == Err::<
                    ContainerView,
                    AttrErrorView,
                >(AttrErrorView { attr: kept_attrs(attrs.take(e.attr as int)).len() as usize, ..e })
            },
        },
    decreases attrs.len(),
{
    if attrs.len() > 0 {
        let pre = attrs.drop_last();
        let last = attrs.last();
        law_container_other_attrs_ignored(pre, vs);
        lemma_kept_len(pre, vs);
        let kp = kept_attrs(pre);
        let kv = kept_verdicts(pre, vs);
        if last.kind != AttrKind::Other {
            let kv2 = kv.push(verdict_row(vs, attrs.len() - 1));
            assert(kept_attrs(attrs).drop_last() =~= kp);
            assert forall|a: int| 0 <= a < kp.len() implies verdict_row(kv2, a) == verdict_row(kv, a) by {}
            lemma_container_rows(kp, kv2, kv);
            assert(verdict_row(kv2, kp.len() as int) == verdict_row(vs, attrs.len() - 1));
        }
        match container_attrs_spec(pre, vs) {
            Ok(_) => {
                assert(attrs.take(attrs.len() - 1) =~= pre);
            },
            Err(e) => {
                assert(attrs.take(e.attr as int) =~= pre.take(e.attr as int));
            },
        }
    }
}

/// Attributes other than `#[serde(...)]` and `#[sonic(...)]` have no effect on a
/// field's options: reading only the others, each with its row of verdicts, gives
/// the same options, or the same refusal of the same option, the attribute
/// counted among those kept.
pub proof fn law_field_other_attrs_ignored(attrs: Seq<AttributeView>, vs: PathVerdicts)
    requires
        attrs.len() <= usize::MAX,
    ensures
        match field_attrs_spec(attrs, vs) {
            Ok(f) => field_attrs_spec(kept_attrs(attrs), kept_verdicts(attrs, vs)) == Ok::<
                FieldAttrsView,
                AttrErrorView,
            >(f),
            Err(e) => {
                &&& e.attr < attrs.len()
                &&& field_attrs_spec(kept_attrs(attrs), kept_verdicts(attrs, vs)) == Err::<
                    FieldAttrsView,
                    AttrErrorView,
                >(AttrErrorView { attr: kept_attrs(attrs.take(e.attr as int)).len() as usize, ..e })
            },
        },
    decreases attrs.len(),
{
    if attrs.len() > 0 {
        let pre = attrs.drop_last();
        let last = attrs.last();
        law_field_other_attrs_ignored(pre, vs);
        lemma_kept_len(pre, vs);
        let kp = kept_attrs(pre);
        let kv = kept_verdicts(pre, vs);
        if last.kind != AttrKind::Other {
            let kv2 = kv.push(verdict_row(vs, attrs.len() - 1));
            assert(kept_attrs(attrs).drop_last() =~= kp);
            assert forall|a: int| 0 <= a < kp.len() implies verdict_row(kv2, a) == verdict_row(kv, a) by {}
            lemma_field_rows(kp, kv2, kv);
            assert(verdict_row(kv2, kp.len() as int) == verdict_row(vs, attrs.len() - 1));
        }
        match field_attrs_spec(pre, vs) {
            Ok(_) => {
                assert(attrs.take(attrs.len() - 1) =~= pre);
            },
            Err(e) => {
                assert(attrs.take(e.attr as int) =~= pre.take(e.attr as int));
            },
        }
    }
}

// ---------------------------------------------------------------- plain paths

/// Every path text of the attributes is a plain path.
pub open spec fn paths_plain(attrs: Seq<AttributeView>, on_field: bool) -> bool {
    forall|a: int, i: int|
        0 <= a < attrs.len() && 0 <= i < attrs[a].items.len() ==> match #[trigger] path_text(
            attrs[a],
            i,
            on_field,
        ) {
            Some(t) => plain_path(t),
            None => true,
        }
}

/// No check of a row refuses its text.
pub open spec fn row_accepts(row: Seq<Option<PathCheckView>>) -> bool {
    forall|i: int| 0 <= i < row.len() && (#[trigger] row[i]) is Some ==> row[i]->0.error is None
}

proof fn lemma_plain_rows(attrs: Seq<AttributeView>, vs: PathVerdicts, on_field: bool, a: int)
    requires
        checks_path_texts(attrs, vs, on_field),
        paths_plain(attrs, on_field),
    ensures
        row_accepts(verdict_row(vs, a)),
{
    if 0 <= a < attrs.len() {
        let row = vs[a];
        assert(row.len() == attrs[a].items.len());
        assert forall|i: int| 0 <= i < row.len() && (#[trigger] row[i]) is Some implies row[i]->0.error is None by {
            assert(vs[a][i] == row[i]);
            assert(path_text(attrs[a], i, on_field) is Some);
        }
    }
}

proof fn lemma_container_items_accepting(
    c: ContainerView,
    sonic: bool,
    items: Seq<NestedMetaView>,
    row: Seq<Option<PathCheckView>>,
)
    requires
        row_accepts(row),
    ensures
        container_items(c, sonic, items, row) == container_items(c, sonic, items, Seq::empty()),
    decreases items.len(),
{
    if items.len() > 0 {
        lemma_container_items_accepting(c, sonic, items.drop_last(), row);
        let i = items.len() - 1;
        if verdict_in(row, i) is Some {
            assert(row[i] is Some);
        }
    }
}

proof fn lemma_field_items_accepting(f: FieldAttrsView, items: Seq<NestedMetaView>, row: Seq<Option<PathCheckView>>)
    requires
        row_accepts(row),
    ensures
        field_items(f, items, row) == field_items(f, items, Seq::empty()),
    decreases items.len(),
{
    if items.len() > 0 {
        lemma_field_items_accepting(f, items.drop_last(), row);
        let i = items.len() - 1;
        if verdict_in(row, i) is Some {
            assert(row[i] is Some);
        }
    }
}

/// Where every path text of the struct's options is a plain path, the checks
/// made on those texts refuse none of them: the options read as with no check.
pub proof fn law_container_plain_paths(attrs: Seq<AttributeView>, vs: PathVerdicts)
    requires
        checks_path_texts(attrs, vs, false),
        paths_plain(attrs, false),
    ensures
        container_attrs_spec(attrs, vs) == container_attrs_spec(attrs, Seq::empty()),
    decreases attrs.len(),
{
    if attrs.len() > 0 {
        let n = attrs.len() - 1;
        let pre = attrs.drop_last();
        let vp = vs.take(n);
        assert forall|a: int| 0 <= a < pre.len() implies verdict_row(vp, a) == verdict_row(vs, a) by {}
        lemma_container_rows(pre, vp, vs);
        assert(checks_path_texts(pre, vp, false)) by {
            assert forall|a: int| 0 <= a < pre.len() implies #[trigger] vp[a] == vs[a] by {}
        }
        assert(paths_plain(pre, false)) by {
            assert forall|a: int, i: int| 0 <= a < pre.len() && 0 <= i < pre[a].items.len() implies
                #[trigger] path_text(pre[a], i, false) == path_text(attrs[a], i, false) by {}
        }
        law_container_plain_paths(pre, vp);
        lemma_plain_rows(attrs, vs, false, n);
        let last = attrs.last();
        match container_attrs_spec(pre, vs) {
            Ok(c) => {
                lemma_container_items_accepting(c, last.kind == AttrKind::Sonic, last.items, verdict_row(vs, n));
            },
            Err(_) => {},
        }
    }
}

/// Where every path text of a field's options is a plain path, the checks made
/// on those texts refuse none of them: the options read as with no check.
pub proof fn law_field_plain_paths(attrs: Seq<AttributeView>, vs: PathVerdicts)
    requires
        checks_path_texts(attrs, vs, true),
        paths_plain(attrs, true),
    ensures
        field_attrs_spec(attrs, vs) == field_attrs_spec(attrs, Seq::empty()),
    decreases attrs.len(),
{
    if attrs.len() > 0 {
        let n = attrs.len() - 1;
        let pre = attrs.drop_last();
        let vp = vs.take(n);
        assert forall|a: int| 0 <= a < pre.len() implies verdict_row(vp, a) == verdict_row(vs, a) by {}
        lemma_field_rows(pre, vp, vs);
        assert(checks_path_texts(pre, vp, true)) by {
            assert forall|a: int| 0 <= a < pre.len() implies #[trigger] vp[a] == vs[a] by {}
        }
        assert(paths_plain(pre, true)) by {
            assert forall|a: int, i: int| 0 <= a < pre.len() && 0 <= i < pre[a].items.len() implies
                #[trigger] path_text(pre[a], i, true) == path_text(attrs[a], i, true) by {}
        }
        law_field_plain_paths(pre, vp);
        lemma_plain_rows(attrs, vs, true, n);
        let last = attrs.last();
        match field_attrs_spec(pre, vs) {
            Ok(f) => {
                lemma_field_items_accepting(f, last.items, verdict_row(vs, n));
            },
            Err(_) => {},
        }
    }
}

} // verus!
