//! The `#[serde(...)]` and `#[sonic(...)]` options that the derive accepts on
//! the struct and on its fields, and the errors for those it does not.
use vstd::prelude::*;

use crate::meta::{
    AttrKind, Attribute, InnerArg, InnerMeta, MetaArg, NestedMeta, attrs_view, AttributeView, InnerArgView, InnerMetaView, MetaArgView, NestedMetaView,
};
use crate::paths::{check_path, plain_path};
use crate::text::{concat, str_eq};

verus! {

/// Where a missing value comes from: nowhere, `Default::default()`, or a function path.
#[derive(Clone, Debug, PartialEq, Eq)]
pub enum DefaultKind {
    /// No default: a missing value is an error, or `Default::default()` for a skipped field.
    Unset,
    Default,
    Path(String),
}

/// The options of the struct.
#[derive(Clone, Debug, PartialEq, Eq)]
pub struct ContainerAttrs {
    pub default: DefaultKind,
    pub deny_unknown_fields: bool,
    pub expecting: Option<String>,
    pub name: Option<String>,
    pub serde_path: Option<String>,
    pub sonic_path: Option<String>,
    pub force_phf: bool,
}

/// The options of a field.
#[derive(Clone, Debug, PartialEq, Eq)]
pub struct FieldAttrs {
    pub aliases: Vec<String>,
    pub default: DefaultKind,
    pub deserialize_name: Option<String>,
    pub deserialize_with: Option<String>,
    pub skip_deserializing: bool,
}

/// Why an attribute was refused.
#[derive(Clone, Debug, PartialEq, Eq)]
pub enum AttrErrorKind {
    /// An option of `#[sonic(...)]` on the struct other than `force_phf` and `crate`.
    UnsupportedSonicOption,
    /// A `#[sonic(...)]` attribute on a field.
    FieldSonicAttribute,
    /// A `#[serde(...)]` option on the struct that the derive does not implement.
    UnsupportedContainerOption,
    /// A `#[serde(...)]` option on a field that the derive does not implement.
    UnsupportedFieldOption,
    /// An option inside `rename(...)` other than `serialize` and `deserialize`.
    ExpectedSerializeOrDeserialize,
    /// A value was due and no `=` followed the option.
    ExpectedEq,
    /// A value was due and the attribute, or the list, ended after the option.
    EndBeforeEq,
    /// A value was due and no string literal followed the `=`.
    ExpectedStrLit,
    /// A value was due and the attribute, or the list, ended after the `=`.
    EndBeforeStrLit,
    /// The option was complete and something other than `,` followed it.
    ExpectedComma,
    /// `rename` with neither a value nor a list.
    ExpectedParens,
    /// `rename` that ends the attribute.
    EndBeforeParens,
    /// The attribute does not read as options separated by commas.
    Syntax(String),
    /// A string that had to name a path does not read as one.
    InvalidPath(String),
    /// A string literal that had to name a path has a suffix, held here.
    LiteralSuffix(String),
}

/// A refused attribute: why, the index of the attribute, and the index of the
/// option in it (the number of options when the fault comes after the last).
#[derive(Clone, Debug, PartialEq, Eq)]
pub struct AttrError {
    pub kind: AttrErrorKind,
    pub attr: usize,
    pub item: usize,
}

pub enum DefaultView {
    Unset,
    Default,
    Path(Seq<char>),
}

pub struct ContainerView {
    pub default: DefaultView,
    pub deny_unknown_fields: bool,
    pub expecting: Option<Seq<char>>,
    pub name: Option<Seq<char>>,
    pub serde_path: Option<Seq<char>>,
    pub sonic_path: Option<Seq<char>>,
    pub force_phf: bool,
}

pub struct FieldAttrsView {
    pub aliases: Seq<Seq<char>>,
    pub default: DefaultView,
    pub deserialize_name: Option<Seq<char>>,
    pub deserialize_with: Option<Seq<char>>,
    pub skip_deserializing: bool,
}

pub enum AttrErrorKindView {
    UnsupportedSonicOption,
    FieldSonicAttribute,
    UnsupportedContainerOption,
    UnsupportedFieldOption,
    ExpectedSerializeOrDeserialize,
    ExpectedEq,
    EndBeforeEq,
    ExpectedStrLit,
    EndBeforeStrLit,
    ExpectedComma,
    ExpectedParens,
    EndBeforeParens,
    Syntax(Seq<char>),
    InvalidPath(Seq<char>),
    LiteralSuffix(Seq<char>),
}

pub struct AttrErrorView {
    pub kind: AttrErrorKindView,
    pub attr: usize,
    pub item: usize,
}

impl View for DefaultKind {
    type V = DefaultView;

    open spec fn view(&self) -> DefaultView {
        match self {
            DefaultKind::Unset => DefaultView::Unset,
            DefaultKind::Default => DefaultView::Default,
            DefaultKind::Path(p) => DefaultView::Path(p@),
        }
    }
}

impl View for ContainerAttrs {
    type V = ContainerView;

    open spec fn view(&self) -> ContainerView {
        ContainerView {
            default: self.default@,
            deny_unknown_fields: self.deny_unknown_fields,
            expecting: self.expecting.deep_view(),
            name: self.name.deep_view(),
            serde_path: self.serde_path.deep_view(),
            sonic_path: self.sonic_path.deep_view(),
            force_phf: self.force_phf,
        }
    }
}

impl View for FieldAttrs {
    type V = FieldAttrsView;

    open spec fn view(&self) -> FieldAttrsView {
        FieldAttrsView {
            aliases: self.aliases.deep_view(),
            default: self.default@,
            deserialize_name: self.deserialize_name.deep_view(),
            deserialize_with: self.deserialize_with.deep_view(),
            skip_deserializing: self.skip_deserializing,
        }
    }
}

impl View for AttrErrorKind {
    type V = AttrErrorKindView;

    open spec fn view(&self) -> AttrErrorKindView {
        match self {
            AttrErrorKind::UnsupportedSonicOption => AttrErrorKindView::UnsupportedSonicOption,
            AttrErrorKind::FieldSonicAttribute => AttrErrorKindView::FieldSonicAttribute,
            AttrErrorKind::UnsupportedContainerOption => AttrErrorKindView::UnsupportedContainerOption,
            AttrErrorKind::UnsupportedFieldOption => AttrErrorKindView::UnsupportedFieldOption,
            AttrErrorKind::ExpectedSerializeOrDeserialize => AttrErrorKindView::ExpectedSerializeOrDeserialize,
            AttrErrorKind::ExpectedEq => AttrErrorKindView::ExpectedEq,
            AttrErrorKind::EndBeforeEq => AttrErrorKindView::EndBeforeEq,
            AttrErrorKind::EndBeforeStrLit => AttrErrorKindView::EndBeforeStrLit,
            AttrErrorKind::EndBeforeParens => AttrErrorKindView::EndBeforeParens,
            AttrErrorKind::ExpectedStrLit => AttrErrorKindView::ExpectedStrLit,
            AttrErrorKind::ExpectedComma => AttrErrorKindView::ExpectedComma,
            AttrErrorKind::ExpectedParens => AttrErrorKindView::ExpectedParens,
            AttrErrorKind::Syntax(m) => AttrErrorKindView::Syntax(m@),
            AttrErrorKind::InvalidPath(m) => AttrErrorKindView::InvalidPath(m@),
            AttrErrorKind::LiteralSuffix(x) => AttrErrorKindView::LiteralSuffix(x@),
        }
    }
}

impl View for AttrError {
    type V = AttrErrorView;

    open spec fn view(&self) -> AttrErrorView {
        AttrErrorView { kind: self.kind@, attr: self.attr, item: self.item }
    }
}

// ---------------------------------------------------------------- path verdicts

/// What the path check said of a text: the text it was made on, and `None` when
/// the text reads as a Rust path, else the check's message.
#[derive(Debug, PartialEq, Eq)]
pub struct PathCheck {
    pub text: String,
    pub error: Option<String>,
}

pub struct PathCheckView {
    pub text: Seq<char>,
    pub error: Option<Seq<char>>,
}

impl DeepView for PathCheck {
    type V = PathCheckView;

    open spec fn deep_view(&self) -> PathCheckView {
        PathCheckView { text: self.text@, error: self.error.deep_view() }
    }
}

/// The checks made on the options of each attribute: `vs[a][i]` is the check of
/// the text of option `i` of attribute `a`, or `None` where no check was made.
pub type PathVerdicts = Seq<Seq<Option<PathCheckView>>>;

/// Whether option `path` of an attribute of kind `kind` takes the text of a Rust
/// path: `crate` and `default` of `#[serde(...)]` and `crate` of `#[sonic(...)]`
/// on the struct, `default` and `deserialize_with` of `#[serde(...)]` on a field.
pub open spec fn is_path_option(kind: AttrKind, path: Seq<char>, on_field: bool) -> bool {
    if on_field {
        kind == AttrKind::Serde && (path == "default"@ || path == "deserialize_with"@)
    } else if kind == AttrKind::Serde {
        path == "default"@ || path == "crate"@
    } else {
        kind == AttrKind::Sonic && path == "crate"@
    }
}

/// The text that option `i` of attribute `a` gives as a path, plain or with a
/// suffix; none for an option that takes no path or is not written `= "text"`.
pub open spec fn path_text(a: AttributeView, i: int, on_field: bool) -> Option<Seq<char>> {
    if is_path_option(a.kind, a.items[i].path, on_field) {
        match a.items[i].arg {
            MetaArgView::Str(s) => Some(s),
            MetaArgView::SuffixedStr(s, _) => Some(s),
            _ => None,
        }
    } else {
        None
    }
}

/// `vs` holds a row for each attribute and an entry for each of its options: a
/// check made on the option's path text where it has one, which accepts the text
/// when it is a plain path, and nothing elsewhere.
pub open spec fn checks_path_texts(attrs: Seq<AttributeView>, vs: PathVerdicts, on_field: bool) -> bool {
    &&& vs.len() == attrs.len()
    &&& forall|a: int|
        0 <= a < attrs.len() ==> {
            &&& (#[trigger] vs[a]).len() == attrs[a].items.len()
            &&& forall|i: int|
                #![trigger vs[a][i]]
                0 <= i < attrs[a].items.len() ==> match path_text(attrs[a], i, on_field) {
                    Some(t) => vs[a][i] matches Some(c) && c.text == t && (plain_path(t)
                        ==> c.error is None),
                    None => vs[a][i] is None,
                }
        }
}

/// What a check says of the text `s`: its message when it was made on `s` and
/// refused it; a check made on another text says nothing of `s`.
pub open spec fn verdict_for(check: Option<PathCheckView>, s: Seq<char>) -> Option<Seq<char>> {
    match check {
        Some(c) => if c.text == s {
            c.error
        } else {
            None
        },
        None => None,
    }
}

/// The verdicts of the `a`-th attribute; none when the table has no such row.
pub open spec fn verdict_row(vs: PathVerdicts, a: int) -> Seq<Option<PathCheckView>> {
    if 0 <= a < vs.len() {
        vs[a]
    } else {
        Seq::empty()
    }
}

/// The check of the `i`-th option of a row; none where the row does not reach.
pub open spec fn verdict_in(row: Seq<Option<PathCheckView>>, i: int) -> Option<PathCheckView> {
    if 0 <= i < row.len() {
        row[i]
    } else {
        None
    }
}

// ---------------------------------------------------------------- option values

/// The refusal of a missing `=`, or of a missing string literal after it, when
/// the input ends there or when something else follows.
pub open spec fn missing_value(after_eq: bool, at_end: bool) -> AttrErrorKindView {
    if after_eq {
        if at_end {
            AttrErrorKindView::EndBeforeStrLit
        } else {
            AttrErrorKindView::ExpectedStrLit
        }
    } else if at_end {
        AttrErrorKindView::EndBeforeEq
    } else {
        AttrErrorKindView::ExpectedEq
    }
}

/// The value of an option that takes `= "text"`; a suffix after the literal is
/// not part of its value. `at_end` tells that nothing follows what was read.
pub open spec fn lit_str_arg(arg: MetaArgView, at_end: bool) -> Result<Seq<char>, AttrErrorKindView> {
    match arg {
        MetaArgView::Str(s) => Ok(s),
        MetaArgView::SuffixedStr(s, _) => Ok(s),
        MetaArgView::EqOther => Err(missing_value(true, at_end)),
        MetaArgView::Empty => Err(missing_value(false, at_end)),
        MetaArgView::List(_, _) => Err(AttrErrorKindView::ExpectedEq),
    }
}

/// The value of an option inside a list that takes `= "text"`.
pub open spec fn inner_lit_str_arg(arg: InnerArgView, at_end: bool) -> Result<Seq<char>, AttrErrorKindView> {
    match arg {
        InnerArgView::Str(s) => Ok(s),
        InnerArgView::EqOther => Err(missing_value(true, at_end)),
        InnerArgView::Empty => Err(missing_value(false, at_end)),
        InnerArgView::List => Err(AttrErrorKindView::ExpectedEq),
    }
}

/// The value of an option that takes `= "path"`, given the check made on its
/// text: a text that the check refused is refused with the check's message, and
/// then a literal with a suffix is refused.
pub open spec fn path_arg(arg: MetaArgView, at_end: bool, check: Option<PathCheckView>) -> Result<
    Seq<char>,
    AttrErrorKindView,
> {
    match lit_str_arg(arg, at_end) {
        Ok(s) => match verdict_for(check, s) {
            Some(m) => Err(AttrErrorKindView::InvalidPath(m)),
            None => match arg {
                MetaArgView::SuffixedStr(_, x) => Err(AttrErrorKindView::LiteralSuffix(x)),
                _ => Ok(s),
            },
        },
        Err(e) => Err(e),
    }
}

/// A flag option: nothing may follow it.
pub open spec fn flag_arg(arg: MetaArgView) -> Result<(), AttrErrorKindView> {
    match arg {
        MetaArgView::Empty => Ok(()),
        _ => Err(AttrErrorKindView::ExpectedComma),
    }
}

/// `default` alone, or `default = "path"`.
pub open spec fn default_arg(arg: MetaArgView, at_end: bool, check: Option<PathCheckView>) -> Result<
    DefaultView,
    AttrErrorKindView,
> {
    match arg {
        MetaArgView::Empty => Ok(DefaultView::Default),
        MetaArgView::List(_, _) => Err(AttrErrorKindView::ExpectedComma),
        _ => match path_arg(arg, at_end, check) {
            Ok(p) => Ok(DefaultView::Path(p)),
            Err(e) => Err(e),
        },
    }
}

/// One option inside `rename(...)`, applied to the name chosen so far.
pub open spec fn rename_inner_step(target: Option<Seq<char>>, m: InnerMetaView) -> Result<
    Option<Seq<char>>,
    AttrErrorKindView,
> {
    if m.path == "deserialize"@ {
        match inner_lit_str_arg(m.arg, m.at_end) {
            Ok(s) => Ok(Some(s)),
            Err(e) => Err(e),
        }
    } else if m.path == "serialize"@ {
        match inner_lit_str_arg(m.arg, m.at_end) {
            Ok(_) => Ok(target),
            Err(e) => Err(e),
        }
    } else {
        Err(AttrErrorKindView::ExpectedSerializeOrDeserialize)
    }
}

/// The options inside `rename(...)`, applied in order.
pub open spec fn rename_inner_fold(target: Option<Seq<char>>, items: Seq<InnerMetaView>) -> Result<
    Option<Seq<char>>,
    AttrErrorKindView,
>
    decreases items.len(),
{
    if items.len() == 0 {
        Ok(target)
    } else {
        match rename_inner_fold(target, items.drop_last()) {
            Ok(t) => rename_inner_step(t, items.last()),
            Err(e) => Err(e),
        }
    }
}

/// `rename = "x"` or `rename(deserialize = "x", serialize = "y")`: the name for
/// deserializing after the option, starting from `target`.
pub open spec fn rename_arg(target: Option<Seq<char>>, arg: MetaArgView, at_end: bool) -> Result<
    Option<Seq<char>>,
    AttrErrorKindView,
> {
    match arg {
        MetaArgView::Str(s) => Ok(Some(s)),
        MetaArgView::SuffixedStr(s, _) => Ok(Some(s)),
        MetaArgView::EqOther => Err(missing_value(true, at_end)),
        MetaArgView::Empty => Err(
            if at_end {
                AttrErrorKindView::EndBeforeParens
            } else {
                AttrErrorKindView::ExpectedParens
            },
        ),
        MetaArgView::List(items, syntax) => match rename_inner_fold(target, items) {
            Ok(t) => match syntax {
                Some(m) => Err(AttrErrorKindView::Syntax(m)),
                None => Ok(t),
            },
            Err(e) => Err(e),
        },
    }
}

// ---------------------------------------------------------------- options of the struct

/// The options of a struct that has no attributes.
pub open spec fn container_default() -> ContainerView {
    ContainerView {
        default: DefaultView::Unset,
        deny_unknown_fields: false,
        expecting: None,
        name: None,
        serde_path: None,
        sonic_path: None,
        force_phf: false,
    }
}

/// One option of `#[serde(...)]` on the struct, with the path check's verdict on its text.
pub open spec fn container_serde_step(c: ContainerView, m: NestedMetaView, check: Option<PathCheckView>) -> Result<
    ContainerView,
    AttrErrorKindView,
> {
    if m.path == "default"@ {
        match default_arg(m.arg, m.at_end, check) {
            Ok(d) => Ok(ContainerView { default: d, ..c }),
            Err(e) => Err(e),
        }
    } else if m.path == "deny_unknown_fields"@ {
        match flag_arg(m.arg) {
            Ok(_) => Ok(ContainerView { deny_unknown_fields: true, ..c }),
            Err(e) => Err(e),
        }
    } else if m.path == "expecting"@ {
        match lit_str_arg(m.arg, m.at_end) {
            Ok(s) => Ok(ContainerView { expecting: Some(s), ..c }),
            Err(e) => Err(e),
        }
    } else if m.path == "crate"@ {
        match path_arg(m.arg, m.at_end, check) {
            Ok(p) => Ok(ContainerView { serde_path: Some(p), ..c }),
            Err(e) => Err(e),
        }
    } else if m.path == "rename"@ {
        match rename_arg(c.name, m.arg, m.at_end) {
            Ok(n) => Ok(ContainerView { name: n, ..c }),
            Err(e) => Err(e),
        }
    } else {
        Err(AttrErrorKindView::UnsupportedContainerOption)
    }
}

/// One option of `#[sonic(...)]` on the struct, with the path check's verdict on its text.
pub open spec fn container_sonic_step(c: ContainerView, m: NestedMetaView, check: Option<PathCheckView>) -> Result<
    ContainerView,
    AttrErrorKindView,
> {
    if m.path == "force_phf"@ {
        match flag_arg(m.arg) {
            Ok(_) => Ok(ContainerView { force_phf: true, ..c }),
            Err(e) => Err(e),
        }
    } else if m.path == "crate"@ {
        match path_arg(m.arg, m.at_end, check) {
            Ok(p) => Ok(ContainerView { sonic_path: Some(p), ..c }),
            Err(e) => Err(e),
        }
    } else {
        Err(AttrErrorKindView::UnsupportedSonicOption)
    }
}

/// The options of one attribute of the struct, applied in order, each with its
/// verdict from `row`; an error carries the index of the option.
pub open spec fn container_items(
    c: ContainerView,
    sonic: bool,
    items: Seq<NestedMetaView>,
    row: Seq<Option<PathCheckView>>,
) -> Result<ContainerView, (int, AttrErrorKindView)>
    decreases items.len(),
{
    if items.len() == 0 {
        Ok(c)
    } else {
        match container_items(c, sonic, items.drop_last(), row) {
            Ok(c2) => {
                let v = verdict_in(row, items.len() - 1);
                let step = if sonic {
                    container_sonic_step(c2, items.last(), v)
                } else {
                    container_serde_step(c2, items.last(), v)
                };
                match step {
                    Ok(c3) => Ok(c3),
                    Err(e) => Err((items.len() - 1, e)),
                }
            },
            Err(e) => Err(e),
        }
    }
}

/// One attribute of the struct, the `index`-th, with its row of verdicts.
pub open spec fn container_attr_step(
    c: ContainerView,
    a: AttributeView,
    index: int,
    row: Seq<Option<PathCheckView>>,
) -> Result<ContainerView, AttrErrorView> {
    if a.kind == AttrKind::Other {
        Ok(c)
    } else {
        match container_items(c, a.kind == AttrKind::Sonic, a.items, row) {
            Ok(c2) => match a.syntax_error {
                Some(m) => Err(
                    AttrErrorView {
                        kind: AttrErrorKindView::Syntax(m),
                        attr: index as usize,
                        item: a.items.len() as usize,
                    },
                ),
                None => Ok(c2),
            },
            Err((i, k)) => Err(AttrErrorView { kind: k, attr: index as usize, item: i as usize }),
        }
    }
}

/// The options of the struct read from its attributes in order, given the path
/// check's verdicts.
pub open spec fn container_attrs_spec(attrs: Seq<AttributeView>, vs: PathVerdicts) -> Result<
    ContainerView,
    AttrErrorView,
>
    decreases attrs.len(),
{
    if attrs.len() == 0 {
        Ok(container_default())
    } else {
        match container_attrs_spec(attrs.drop_last(), vs) {
            Ok(c) => container_attr_step(c, attrs.last(), attrs.len() - 1, verdict_row(vs, attrs.len() - 1)),
            Err(e) => Err(e),
        }
    }
}

// ---------------------------------------------------------------- options of a field

/// The options of a field that has no attributes.
pub open spec fn field_default() -> FieldAttrsView {
    FieldAttrsView {
        aliases: Seq::empty(),
        default: DefaultView::Unset,
        deserialize_name: None,
        deserialize_with: None,
        skip_deserializing: false,
    }
}

/// One option of `#[serde(...)]` on a field, with the path check's verdict on its text.
pub open spec fn field_serde_step(f: FieldAttrsView, m: NestedMetaView, check: Option<PathCheckView>) -> Result<
    FieldAttrsView,
    AttrErrorKindView,
> {
    if m.path == "rename"@ {
        match rename_arg(f.deserialize_name, m.arg, m.at_end) {
            Ok(n) => Ok(FieldAttrsView { deserialize_name: n, ..f }),
            Err(e) => Err(e),
        }
    } else if m.path == "alias"@ {
        match lit_str_arg(m.arg, m.at_end) {
            Ok(s) => Ok(FieldAttrsView { aliases: f.aliases.push(s), ..f }),
            Err(e) => Err(e),
        }
    } else if m.path == "default"@ {
        match default_arg(m.arg, m.at_end, check) {
            Ok(d) => Ok(FieldAttrsView { default: d, ..f }),
            Err(e) => Err(e),
        }
    } else if m.path == "deserialize_with"@ {
        match path_arg(m.arg, m.at_end, check) {
            Ok(p) => Ok(FieldAttrsView { deserialize_with: Some(p), ..f }),
            Err(e) => Err(e),
        }
    } else if m.path == "skip"@ || m.path == "skip_deserializing"@ {
        match flag_arg(m.arg) {
            Ok(_) => Ok(FieldAttrsView { skip_deserializing: true, ..f }),
            Err(e) => Err(e),
        }
    } else if m.path == "skip_serializing"@ {
        match flag_arg(m.arg) {
            Ok(_) => Ok(f),
            Err(e) => Err(e),
        }
    } else if m.path == "skip_serializing_if"@ || m.path == "serialize_with"@ || m.path
        == "getter"@ {
        match lit_str_arg(m.arg, m.at_end) {
            Ok(_) => Ok(f),
            Err(e) => Err(e),
        }
    } else {
        Err(AttrErrorKindView::UnsupportedFieldOption)
    }
}

/// The options of one `#[serde(...)]` attribute of a field, applied in order,
/// each with its verdict from `row`.
pub open spec fn field_items(f: FieldAttrsView, items: Seq<NestedMetaView>, row: Seq<Option<PathCheckView>>) -> Result<
    FieldAttrsView,
    (int, AttrErrorKindView),
>
    decreases items.len(),
{
    if items.len() == 0 {
        Ok(f)
    } else {
        match field_items(f, items.drop_last(), row) {
            Ok(f2) => match field_serde_step(f2, items.last(), verdict_in(row, items.len() - 1)) {
                Ok(f3) => Ok(f3),
                Err(e) => Err((items.len() - 1, e)),
            },
            Err(e) => Err(e),
        }
    }
}

/// One attribute of a field, the `index`-th, with its row of verdicts.
pub open spec fn field_attr_step(
    f: FieldAttrsView,
    a: AttributeView,
    index: int,
    row: Seq<Option<PathCheckView>>,
) -> Result<FieldAttrsView, AttrErrorView> {
    if a.kind == AttrKind::Sonic {
        Err(AttrErrorView { kind: AttrErrorKindView::FieldSonicAttribute, attr: index as usize, item: 0 })
    } else if a.kind == AttrKind::Serde {
        match field_items(f, a.items, row) {
            Ok(f2) => match a.syntax_error {
                Some(m) => Err(
                    AttrErrorView {
                        kind: AttrErrorKindView::Syntax(m),
                        attr: index as usize,
                        item: a.items.len() as usize,
                    },
                ),
                None => Ok(f2),
            },
            Err((i, k)) => Err(AttrErrorView { kind: k, attr: index as usize, item: i as usize }),
        }
    } else {
        Ok(f)
    }
}

/// The options of a field read from its attributes in order, given the path
/// check's verdicts.
pub open spec fn field_attrs_spec(attrs: Seq<AttributeView>, vs: PathVerdicts) -> Result<
    FieldAttrsView,
    AttrErrorView,
>
    decreases attrs.len(),
{
    if attrs.len() == 0 {
        Ok(field_default())
    } else {
        match field_attrs_spec(attrs.drop_last(), vs) {
            Ok(f) => field_attr_step(f, attrs.last(), attrs.len() - 1, verdict_row(vs, attrs.len() - 1)),
            Err(e) => Err(e),
        }
    }
}

// ---------------------------------------------------------------- a fault stops the reading

proof fn lemma_rename_fold_err(t: Option<Seq<char>>, items: Seq<InnerMetaView>, n: int)
    requires
        0 <= n <= items.len(),
        rename_inner_fold(t, items.take(n)) is Err,
    ensures
        rename_inner_fold(t, items) == rename_inner_fold(t, items.take(n)),
    decreases items.len(),
{
    if n == items.len() {
        assert(items.take(n) =~= items);
    } else {
        assert(items.drop_last().take(n) =~= items.take(n));
        lemma_rename_fold_err(t, items.drop_last(), n);
    }
}

proof fn lemma_container_items_err(
    c: ContainerView,
    sonic: bool,
    items: Seq<NestedMetaView>,
    row: Seq<Option<PathCheckView>>,
    n: int,
)
    requires
        0 <= n <= items.len(),
        container_items(c, sonic, items.take(n), row) is Err,
    ensures
        container_items(c, sonic, items, row) == container_items(c, sonic, items.take(n), row),
    decreases items.len(),
{
    if n == items.len() {
        assert(items.take(n) =~= items);
    } else {
        assert(items.drop_last().take(n) =~= items.take(n));
        lemma_container_items_err(c, sonic, items.drop_last(), row, n);
    }
}

proof fn lemma_container_attrs_err(attrs: Seq<AttributeView>, vs: PathVerdicts, n: int)
    requires
        0 <= n <= attrs.len(),
        container_attrs_spec(attrs.take(n), vs) is Err,
    ensures
        container_attrs_spec(attrs, vs) == container_attrs_spec(attrs.take(n), vs),
    decreases attrs.len(),
{
    if n == attrs.len() {
        assert(attrs.take(n) =~= attrs);
    } else {
        assert(attrs.drop_last().take(n) =~= attrs.take(n));
        lemma_container_attrs_err(attrs.drop_last(), vs, n);
    }
}

proof fn lemma_field_items_err(f: FieldAttrsView, items: Seq<NestedMetaView>, row: Seq<Option<PathCheckView>>, n: int)
    requires
        0 <= n <= items.len(),
        field_items(f, items.take(n), row) is Err,
    ensures
        field_items(f, items, row) == field_items(f, items.take(n), row),
    decreases items.len(),
{
    if n == items.len() {
        assert(items.take(n) =~= items);
    } else {
        assert(items.drop_last().take(n) =~= items.take(n));
        lemma_field_items_err(f, items.drop_last(), row, n);
    }
}

proof fn lemma_field_attrs_err(attrs: Seq<AttributeView>, vs: PathVerdicts, n: int)
    requires
        0 <= n <= attrs.len(),
        field_attrs_spec(attrs.take(n), vs) is Err,
    ensures
        field_attrs_spec(attrs, vs) == field_attrs_spec(attrs.take(n), vs),
    decreases attrs.len(),
{
    if n == attrs.len() {
        assert(attrs.take(n) =~= attrs);
    } else {
        assert(attrs.drop_last().take(n) =~= attrs.take(n));
        lemma_field_attrs_err(attrs.drop_last(), vs, n);
    }
}

// ---------------------------------------------------------------- reading the options

/// The view of a result whose two sides have views.
pub open spec fn res_view<T: View, E: View>(r: Result<T, E>) -> Result<T::V, E::V> {
    match r {
        Ok(v) => Ok(v@),
        Err(e) => Err(e@),
    }
}

impl Default for ContainerAttrs {
    fn default() -> (c: ContainerAttrs)
        ensures
            c@ == container_default(),
    {
        ContainerAttrs {
            default: DefaultKind::Unset,
            deny_unknown_fields: false,
            expecting: None,
            name: None,
            serde_path: None,
            sonic_path: None,
            force_phf: false,
        }
    }
}

impl Default for FieldAttrs {
    fn default() -> (f: FieldAttrs)
        ensures
            f@ == field_default(),
    {
        let f = FieldAttrs {
            aliases: Vec::new(),
            default: DefaultKind::Unset,
            deserialize_name: None,
            deserialize_with: None,
            skip_deserializing: false,
        };
        assert(f.aliases.deep_view() =~= Seq::<Seq<char>>::empty());
        f
    }
}

/// Whether an option's path is the single identifier `name`.
fn is_ident(path: &String, name: &str) -> (r: bool)
    ensures
        r == (path@ == name@),
{
    str_eq(path.as_str(), name)
}

fn clone_message(m: &Option<String>) -> (r: Option<String>)
    ensures
        r.deep_view() == m.deep_view(),
{
    match m {
        Some(t) => Some(t.clone()),
        None => None,
    }
}

/// The check of option `i` of attribute `a`, as `verdict_row` and `verdict_in` read the table.
fn verdict_at(vs: &Vec<Vec<Option<PathCheck>>>, a: usize, i: usize) -> (r: Option<PathCheck>)
    ensures
        r.deep_view() == verdict_in(verdict_row(vs.deep_view(), a as int), i as int),
{
    if a < vs.len() && i < vs[a].len() {
        assert(vs.deep_view()[a as int] == vs@[a as int].deep_view());
        match &vs[a][i] {
            Some(c) => Some(PathCheck { text: c.text.clone(), error: clone_message(&c.error) }),
            None => None,
        }
    } else {
        None
    }
}

/// What `check` says of the text `s`, as `verdict_for` reads it.
fn refusal_of(check: &Option<PathCheck>, s: &String) -> (r: Option<String>)
    ensures
        r.deep_view() == verdict_for(check.deep_view(), s@),
{
    match check {
        Some(c) => if str_eq(c.text.as_str(), s.as_str()) {
            clone_message(&c.error)
        } else {
            None
        },
        None => None,
    }
}

fn missing_value_error(after_eq: bool, at_end: bool) -> (k: AttrErrorKind)
    ensures
        k@ == missing_value(after_eq, at_end),
{
    if after_eq {
        if at_end {
            AttrErrorKind::EndBeforeStrLit
        } else {
            AttrErrorKind::ExpectedStrLit
        }
    } else if at_end {
        AttrErrorKind::EndBeforeEq
    } else {
        AttrErrorKind::ExpectedEq
    }
}

fn parse_lit_str(arg: &MetaArg, at_end: bool) -> (r: Result<String, AttrErrorKind>)
    ensures
        res_view(r) == lit_str_arg(arg@, at_end),
{
    match arg {
        MetaArg::Str(s) => Ok(s.clone()),
        MetaArg::SuffixedStr(s, _) => Ok(s.clone()),
        MetaArg::EqOther => Err(missing_value_error(true, at_end)),
        MetaArg::Empty => Err(missing_value_error(false, at_end)),
        MetaArg::List(_, _) => Err(AttrErrorKind::ExpectedEq),
    }
}

fn parse_inner_lit_str(arg: &InnerArg, at_end: bool) -> (r: Result<String, AttrErrorKind>)
    ensures
        res_view(r) == inner_lit_str_arg(arg@, at_end),
{
    match arg {
        InnerArg::Str(s) => Ok(s.clone()),
        InnerArg::EqOther => Err(missing_value_error(true, at_end)),
        InnerArg::Empty => Err(missing_value_error(false, at_end)),
        InnerArg::List => Err(AttrErrorKind::ExpectedEq),
    }
}

/// `= "path"`, given the path check's verdict on the text.
fn parse_path_lit(arg: &MetaArg, at_end: bool, check: &Option<PathCheck>) -> (r: Result<String, AttrErrorKind>)
    ensures
        res_view(r) == path_arg(arg@, at_end, check.deep_view()),
{
    match parse_lit_str(arg, at_end) {
        Ok(s) => match refusal_of(check, &s) {
            Some(m) => Err(AttrErrorKind::InvalidPath(m)),
            None => match arg {
                MetaArg::SuffixedStr(_, x) => Err(AttrErrorKind::LiteralSuffix(x.clone())),
                _ => Ok(s),
            },
        },
        Err(e) => Err(e),
    }
}

fn expect_flag(arg: &MetaArg) -> (r: Result<(), AttrErrorKind>)
    ensures
        match flag_arg(arg@) {
            Ok(_) => r is Ok,
            Err(e) => r matches Err(k) && k@ == e,
        },
{
    match arg {
        MetaArg::Empty => Ok(()),
        _ => Err(AttrErrorKind::ExpectedComma),
    }
}

fn parse_default(arg: &MetaArg, at_end: bool, check: &Option<PathCheck>) -> (r: Result<DefaultKind, AttrErrorKind>)
    ensures
        res_view(r) == default_arg(arg@, at_end, check.deep_view()),
{
    match arg {
        MetaArg::Empty => Ok(DefaultKind::Default),
        MetaArg::List(_, _) => Err(AttrErrorKind::ExpectedComma),
        _ => match parse_path_lit(arg, at_end, check) {
            Ok(p) => Ok(DefaultKind::Path(p)),
            Err(e) => Err(e),
        },
    }
}

/// Applies `rename = "x"` or `rename(...)` to `target`, which is left as it was
/// when the option is refused.
fn parse_rename(arg: &MetaArg, at_end: bool, target: &mut Option<String>) -> (r: Result<(), AttrErrorKind>)
    ensures
        match rename_arg(old(target).deep_view(), arg@, at_end) {
            Ok(t) => r is Ok && final(target).deep_view() == t,
            Err(e) => r matches Err(k) && k@ == e,
        },
        r is Err ==> *final(target) == *old(target),
{
    match arg {
        MetaArg::Str(s) => {
            *target = Some(s.clone());
            Ok(())
        },
        MetaArg::SuffixedStr(s, _) => {
            *target = Some(s.clone());
            Ok(())
        },
        MetaArg::EqOther => Err(missing_value_error(true, at_end)),
        MetaArg::Empty => Err(
            if at_end {
                AttrErrorKind::EndBeforeParens
            } else {
                AttrErrorKind::ExpectedParens
            },
        ),
        MetaArg::List(items, syntax) => {
            let ghost start = target.deep_view();
            let ghost views = items@.map_values(|m: InnerMeta| m@);
            let mut chosen: Option<String> = match &*target {
                Some(t) => Some(t.clone()),
                None => None,
            };
            let mut i: usize = 0;
            assert(views.take(0) =~= Seq::<InnerMetaView>::empty());
            while i < items.len()
                invariant
                    i <= items.len(),
                    views == items@.map_values(|m: InnerMeta| m@),
                    start == target.deep_view(),
                    arg@ == MetaArgView::List(views, syntax.deep_view()),
                    rename_inner_fold(start, views.take(i as int)) == Ok::<
                        Option<Seq<char>>,
                        AttrErrorKindView,
                    >(chosen.deep_view()),
                decreases items.len() - i,
            {
                let m = &items[i];
                assert(views.take(i + 1).drop_last() =~= views.take(i as int));
                assert(views.take(i + 1).last() == m@);
                if is_ident(&m.path, "deserialize") {
                    match parse_inner_lit_str(&m.arg, m.at_end) {
                        Ok(s) => {
                            chosen = Some(s);
                        },
                        Err(e) => {
                            proof { lemma_rename_fold_err(start, views, i + 1); }
                            return Err(e);
                        },
                    }
                } else if is_ident(&m.path, "serialize") {
                    match parse_inner_lit_str(&m.arg, m.at_end) {
                        Ok(_) => {},
                        Err(e) => {
                            proof { lemma_rename_fold_err(start, views, i + 1); }
                            return Err(e);
                        },
                    }
                } else {
                    proof { lemma_rename_fold_err(start, views, i + 1); }
                    return Err(AttrErrorKind::ExpectedSerializeOrDeserialize);
                }
                i = i + 1;
            }
            assert(views.take(items.len() as int) =~= views);
            match syntax {
                Some(m) => Err(AttrErrorKind::Syntax(m.clone())),
                None => {
                    *target = chosen;
                    Ok(())
                },
            }
        },
    }
}

/// Applies one option of `#[serde(...)]` on the struct, given the path check's
/// verdict on its text; a refused option leaves `out` as it was.
fn parse_container_serde_meta(meta: &NestedMeta, check: &Option<PathCheck>, out: &mut ContainerAttrs) -> (r: Result<
    (),
    AttrErrorKind,
>)
    ensures
        match container_serde_step(old(out)@, meta@, check.deep_view()) {
            Ok(c) => r is Ok && final(out)@ == c,
            Err(e) => r matches Err(k) && k@ == e,
        },
        r is Err ==> *final(out) == *old(out),
{
    if is_ident(&meta.path, "default") {
        match parse_default(&meta.arg, meta.at_end, check) {
            Ok(d) => {
                out.default = d;
            },
            Err(e) => {
                return Err(e);
            },
        }
    } else if is_ident(&meta.path, "deny_unknown_fields") {
        match expect_flag(&meta.arg) {
            Ok(_) => {
                out.deny_unknown_fields = true;
            },
            Err(e) => {
                return Err(e);
            },
        }
    } else if is_ident(&meta.path, "expecting") {
        match parse_lit_str(&meta.arg, meta.at_end) {
            Ok(s) => {
                out.expecting = Some(s);
            },
            Err(e) => {
                return Err(e);
            },
        }
    } else if is_ident(&meta.path, "crate") {
        match parse_path_lit(&meta.arg, meta.at_end, check) {
            Ok(p) => {
                out.serde_path = Some(p);
            },
            Err(e) => {
                return Err(e);
            },
        }
    } else if is_ident(&meta.path, "rename") {
        match parse_rename(&meta.arg, meta.at_end, &mut out.name) {
            Ok(_) => {},
            Err(e) => {
                return Err(e);
            },
        }
    } else {
        return Err(AttrErrorKind::UnsupportedContainerOption);
    }
    Ok(())
}

/// Applies one option of `#[sonic(...)]` on the struct, given the path check's
/// verdict on its text; a refused option leaves `out` as it was.
fn parse_container_sonic_meta(meta: &NestedMeta, check: &Option<PathCheck>, out: &mut ContainerAttrs) -> (r: Result<
    (),
    AttrErrorKind,
>)
    ensures
        match container_sonic_step(old(out)@, meta@, check.deep_view()) {
            Ok(c) => r is Ok && final(out)@ == c,
            Err(e) => r matches Err(k) && k@ == e,
        },
        r is Err ==> *final(out) == *old(out),
{
    if is_ident(&meta.path, "force_phf") {
        match expect_flag(&meta.arg) {
            Ok(_) => {
                out.force_phf = true;
                Ok(())
            },
            Err(e) => Err(e),
        }
    } else if is_ident(&meta.path, "crate") {
        match parse_path_lit(&meta.arg, meta.at_end, check) {
            Ok(p) => {
                out.sonic_path = Some(p);
                Ok(())
            },
            Err(e) => Err(e),
        }
    } else {
        Err(AttrErrorKind::UnsupportedSonicOption)
    }
}

/// Whether option `path` of an attribute of kind `kind` takes a path.
fn names_path(kind: AttrKind, path: &String, on_field: bool) -> (r: bool)
    ensures
        r == is_path_option(kind, path@, on_field),
{
    if on_field {
        kind == AttrKind::Serde && (is_ident(path, "default") || is_ident(path, "deserialize_with"))
    } else if kind == AttrKind::Serde {
        is_ident(path, "default") || is_ident(path, "crate")
    } else {
        kind == AttrKind::Sonic && is_ident(path, "crate")
    }
}

/// Runs the path check on `s`, keeping the text it was made on.
fn check_text(s: &String) -> (c: PathCheck)
    ensures
        c.text@ == s@,
        plain_path(s@) ==> c.error is None,
{
    PathCheck { text: s.clone(), error: check_path(s.as_str()) }
}

/// Runs the path check on the text of every option of `attrs` that gives one
/// (see `path_text`), and gives the table of checks.
pub(crate) fn path_verdicts(attrs: &Vec<Attribute>, on_field: bool) -> (vs: Vec<Vec<Option<PathCheck>>>)
    ensures
        checks_path_texts(attrs_view(attrs@), vs.deep_view(), on_field),
{
    let ghost views = attrs_view(attrs@);
    let mut vs: Vec<Vec<Option<PathCheck>>> = Vec::new();
    let mut a: usize = 0;
    while a < attrs.len()
        invariant
            a <= attrs.len(),
            views == attrs_view(attrs@),
            vs.deep_view().len() == a,
            forall|b: int|
                0 <= b < a ==> {
                    &&& (#[trigger] vs.deep_view()[b]).len() == views[b].items.len()
                    &&& forall|i: int|
                        #![trigger vs.deep_view()[b][i]]
                        0 <= i < views[b].items.len() ==> match path_text(views[b], i, on_field) {
                            Some(t) => vs.deep_view()[b][i] matches Some(c) && c.text == t && (
                            plain_path(t) ==> c.error is None),
                            None => vs.deep_view()[b][i] is None,
                        }
                },
        decreases attrs.len() - a,
    {
        let attr = &attrs[a];
        assert(views[a as int] == attr@);
        let mut row: Vec<Option<PathCheck>> = Vec::new();
        let mut i: usize = 0;
        while i < attr.items.len()
            invariant
                i <= attr.items.len(),
                row.deep_view().len() == i,
                forall|j: int|
                    #![trigger row.deep_view()[j]]
                    0 <= j < i ==> match path_text(attr@, j, on_field) {
                        Some(t) => row.deep_view()[j] matches Some(c) && c.text == t && (
                        plain_path(t) ==> c.error is None),
                        None => row.deep_view()[j] is None,
                    },
            decreases attr.items.len() - i,
        {
            let meta = &attr.items[i];
            assert(attr@.items[i as int] == meta@);
            let check = if names_path(attr.kind, &meta.path, on_field) {
                match &meta.arg {
                    MetaArg::Str(s) => Some(check_text(s)),
                    MetaArg::SuffixedStr(s, _) => Some(check_text(s)),
                    _ => None,
                }
            } else {
                None
            };
            let ghost before = row.deep_view();
            row.push(check);
            assert(row.deep_view() =~= before.push(check.deep_view()));
            i = i + 1;
        }
        let ghost before = vs.deep_view();
        let ghost rv = row.deep_view();
        vs.push(row);
        assert(vs.deep_view() =~= before.push(rv));
        a = a + 1;
    }
    vs
}

/// Reads the options of the struct from its attributes, given the path check's
/// verdicts on the texts of its path options (see `PathVerdicts`):
/// `#[sonic(force_phf)]`, `#[sonic(crate = "...")]`, and the `#[serde(...)]`
/// options `default`, `deny_unknown_fields`, `expecting`, `crate` and `rename`;
/// any other option of these two attributes is refused, and other attributes are
/// ignored.
pub fn parse_container_attrs_with(attrs: &Vec<Attribute>, verdicts: &Vec<Vec<Option<PathCheck>>>) -> (r: Result<
    ContainerAttrs,
    AttrError,
>)
    ensures
        res_view(r) == container_attrs_spec(attrs_view(attrs@), verdicts.deep_view()),
{
    let mut out = ContainerAttrs::default();
    let ghost views = attrs_view(attrs@);
    let ghost vs = verdicts.deep_view();
    let mut a: usize = 0;
    assert(views.take(0) =~= Seq::<AttributeView>::empty());
    while a < attrs.len()
        invariant
            a <= attrs.len(),
            views == attrs_view(attrs@),
            vs == verdicts.deep_view(),
            container_attrs_spec(views.take(a as int), vs) == Ok::<ContainerView, AttrErrorView>(out@),
        decreases attrs.len() - a,
    {
        let attr = &attrs[a];
        assert(views.take(a + 1).drop_last() =~= views.take(a as int));
        assert(views.take(a + 1).last() == attr@);
        if attr.kind != AttrKind::Other {
            let sonic = attr.kind == AttrKind::Sonic;
            let ghost start = out@;
            let ghost items = attr@.items;
            let ghost row = verdict_row(vs, a as int);
            let mut i: usize = 0;
            assert(items.take(0) =~= Seq::<NestedMetaView>::empty());
            while i < attr.items.len()
                invariant
                    i <= attr.items.len(),
                    items == attr@.items,
                    items.len() == attr.items.len(),
                    sonic == (attr.kind == AttrKind::Sonic),
                    attr.kind != AttrKind::Other,
                    a < attrs.len(),
                    views == attrs_view(attrs@),
                    vs == verdicts.deep_view(),
                    row == verdict_row(vs, a as int),
                    attr@ == views[a as int],
                    container_attrs_spec(views.take(a as int), vs) == Ok::<ContainerView, AttrErrorView>(start),
                    container_items(start, sonic, items.take(i as int), row) == Ok::<
                        ContainerView,
                        (int, AttrErrorKindView),
                    >(out@),
                decreases attr.items.len() - i,
            {
                let meta = &attr.items[i];
                let verdict = verdict_at(verdicts, a, i);
                assert(items.take(i + 1).drop_last() =~= items.take(i as int));
                assert(items.take(i + 1).last() == meta@);
                let step = if sonic {
                    parse_container_sonic_meta(meta, &verdict, &mut out)
                } else {
                    parse_container_serde_meta(meta, &verdict, &mut out)
                };
                match step {
                    Ok(_) => {},
                    Err(kind) => {
                        proof {
                            lemma_container_items_err(start, sonic, items, row, i + 1);
                            assert(views.take(a + 1).drop_last() =~= views.take(a as int));
                            assert(views.take(a + 1).last() == views[a as int]);
                            lemma_container_attrs_err(views, vs, a + 1);
                        }
                        return Err(AttrError { kind, attr: a, item: i });
                    },
                }
                i = i + 1;
            }
            assert(items.take(i as int) =~= items);
            match &attr.syntax_error {
                Some(m) => {
                    proof { lemma_container_attrs_err(views, vs, a + 1); }
                    return Err(
                        AttrError { kind: AttrErrorKind::Syntax(m.clone()), attr: a, item: i },
                    );
                },
                None => {},
            }
        }
        a = a + 1;
    }
    assert(views.take(attrs.len() as int) =~= views);
    Ok(out)
}

/// Reads the options of the struct from its attributes, as
/// `parse_container_attrs_with` does, with the verdicts of the path check that
/// `syn` makes (`check_path`) on the texts of the path options. Which texts that
/// check accepts is not stated here: the result is the reading under some table
/// of verdicts.
pub fn parse_container_attrs(attrs: &Vec<Attribute>) -> (r: Result<ContainerAttrs, AttrError>)
    ensures
        exists|vs: PathVerdicts|
            checks_path_texts(attrs_view(attrs@), vs, false) && res_view(r) == container_attrs_spec(
                attrs_view(attrs@),
                vs,
            ),
{
    let verdicts = path_verdicts(attrs, false);
    parse_container_attrs_with(attrs, &verdicts)
}

/// Applies one option of `#[serde(...)]` on a field, given the path check's
/// verdict on its text; a refused option leaves `out` as it was.
fn parse_field_serde_meta(meta: &NestedMeta, check: &Option<PathCheck>, out: &mut FieldAttrs) -> (r: Result<(), AttrErrorKind>)
    ensures
        match field_serde_step(old(out)@, meta@, check.deep_view()) {
            Ok(f) => r is Ok && final(out)@ == f,
            Err(e) => r matches Err(k) && k@ == e,
        },
        r is Err ==> *final(out) == *old(out),
{
    if is_ident(&meta.path, "rename") {
        match parse_rename(&meta.arg, meta.at_end, &mut out.deserialize_name) {
            Ok(_) => {},
            Err(e) => {
                return Err(e);
            },
        }
    } else if is_ident(&meta.path, "alias") {
        match parse_lit_str(&meta.arg, meta.at_end) {
            Ok(s) => {
                out.aliases.push(s);
                assert(out.aliases.deep_view() =~= old(out).aliases.deep_view().push(s@));
            },
            Err(e) => {
                return Err(e);
            },
        }
    } else if is_ident(&meta.path, "default") {
        match parse_default(&meta.arg, meta.at_end, check) {
            Ok(d) => {
                out.default = d;
            },
            Err(e) => {
                return Err(e);
            },
        }
    } else if is_ident(&meta.path, "deserialize_with") {
        match parse_path_lit(&meta.arg, meta.at_end, check) {
            Ok(p) => {
                out.deserialize_with = Some(p);
            },
            Err(e) => {
                return Err(e);
            },
        }
    } else if is_ident(&meta.path, "skip") || is_ident(&meta.path, "skip_deserializing") {
        match expect_flag(&meta.arg) {
            Ok(_) => {
                out.skip_deserializing = true;
            },
            Err(e) => {
                return Err(e);
            },
        }
    } else if is_ident(&meta.path, "skip_serializing") {
        // Serialization-only option; accepted because this derive does not write `Serialize`.
        match expect_flag(&meta.arg) {
            Ok(_) => {},
            Err(e) => {
                return Err(e);
            },
        }
    } else if is_ident(&meta.path, "skip_serializing_if") || is_ident(&meta.path, "serialize_with")
        || is_ident(&meta.path, "getter") {
        match parse_lit_str(&meta.arg, meta.at_end) {
            Ok(_) => {},
            Err(e) => {
                return Err(e);
            },
        }
    } else {
        return Err(AttrErrorKind::UnsupportedFieldOption);
    }
    Ok(())
}

/// Reads the options of a field from its attributes, given the path check's
/// verdicts on the texts of its path options (see `PathVerdicts`): the
/// `#[serde(...)]` options `rename`, `alias`, `default`, `deserialize_with`,
/// `skip`, `skip_deserializing`, and the serialization-only `skip_serializing`,
/// `skip_serializing_if`, `serialize_with` and `getter`; any other option, and
/// any `#[sonic(...)]` attribute, is refused, and other attributes are ignored.
pub fn parse_field_attrs_with(attrs: &Vec<Attribute>, verdicts: &Vec<Vec<Option<PathCheck>>>) -> (r: Result<
    FieldAttrs,
    AttrError,
>)
    ensures
        res_view(r) == field_attrs_spec(attrs_view(attrs@), verdicts.deep_view()),
{
    let mut out = FieldAttrs::default();
    let ghost views = attrs_view(attrs@);
    let ghost vs = verdicts.deep_view();
    let mut a: usize = 0;
    assert(views.take(0) =~= Seq::<AttributeView>::empty());
    while a < attrs.len()
        invariant
            a <= attrs.len(),
            views == attrs_view(attrs@),
            vs == verdicts.deep_view(),
            field_attrs_spec(views.take(a as int), vs) == Ok::<FieldAttrsView, AttrErrorView>(out@),
        decreases attrs.len() - a,
    {
        let attr = &attrs[a];
        assert(views.take(a + 1).drop_last() =~= views.take(a as int));
        assert(views.take(a + 1).last() == attr@);
        if attr.kind == AttrKind::Sonic {
            proof { lemma_field_attrs_err(views, vs, a + 1); }
            return Err(AttrError { kind: AttrErrorKind::FieldSonicAttribute, attr: a, item: 0 });
        }
        if attr.kind == AttrKind::Serde {
            let ghost start = out@;
            let ghost items = attr@.items;
            let ghost row = verdict_row(vs, a as int);
            let mut i: usize = 0;
            assert(items.take(0) =~= Seq::<NestedMetaView>::empty());
            while i < attr.items.len()
                invariant
                    i <= attr.items.len(),
                    items == attr@.items,
                    items.len() == attr.items.len(),
                    a < attrs.len(),
                    views == attrs_view(attrs@),
                    vs == verdicts.deep_view(),
                    row == verdict_row(vs, a as int),
                    attr@ == views[a as int],
                    attr.kind == AttrKind::Serde,
                    field_attrs_spec(views.take(a as int), vs) == Ok::<FieldAttrsView, AttrErrorView>(start),
                    field_items(start, items.take(i as int), row) == Ok::<
                        FieldAttrsView,
                        (int, AttrErrorKindView),
                    >(out@),
                decreases attr.items.len() - i,
            {
                let meta = &attr.items[i];
                let verdict = verdict_at(verdicts, a, i);
                assert(items.take(i + 1).drop_last() =~= items.take(i as int));
                assert(items.take(i + 1).last() == meta@);
                match parse_field_serde_meta(meta, &verdict, &mut out) {
                    Ok(_) => {},
                    Err(kind) => {
                        proof {
                            lemma_field_items_err(start, items, row, i + 1);
                            assert(views.take(a + 1).drop_last() =~= views.take(a as int));
                            assert(views.take(a + 1).last() == views[a as int]);
                            lemma_field_attrs_err(views, vs, a + 1);
                        }
                        return Err(AttrError { kind, attr: a, item: i });
                    },
                }
                i = i + 1;
            }
            assert(items.take(i as int) =~= items);
            match &attr.syntax_error {
                Some(m) => {
                    proof { lemma_field_attrs_err(views, vs, a + 1); }
                    return Err(
                        AttrError { kind: AttrErrorKind::Syntax(m.clone()), attr: a, item: i },
                    );
                },
                None => {},
            }
        }
        a = a + 1;
    }
    assert(views.take(attrs.len() as int) =~= views);
    Ok(out)
}

/// Reads the options of a field from its attributes, as `parse_field_attrs_with`
/// does, with the verdicts of the path check that `syn` makes (`check_path`) on
/// the texts of the path options. Which texts that check accepts is not stated
/// here: the result is the reading under some table of verdicts.
pub fn parse_field_attrs(attrs: &Vec<Attribute>) -> (r: Result<FieldAttrs, AttrError>)
    ensures
        exists|vs: PathVerdicts|
            checks_path_texts(attrs_view(attrs@), vs, true) && res_view(r) == field_attrs_spec(
                attrs_view(attrs@),
                vs,
            ),
{
    let verdicts = path_verdicts(attrs, true);
    parse_field_attrs_with(attrs, &verdicts)
}

// ---------------------------------------------------------------- messages

/// The text reported for a refused attribute.
pub open spec fn attr_message_spec(k: AttrErrorKindView) -> Seq<char> {
    match k {
        AttrErrorKindView::UnsupportedSonicOption => "unsupported #[sonic(...)] option"@,
        AttrErrorKindView::FieldSonicAttribute => "SonicDeserialize has no field-level #[sonic(...)] options"@,
        AttrErrorKindView::UnsupportedContainerOption => "SonicDeserialize MVP does not support this container-level Serde option"@,
        AttrErrorKindView::UnsupportedFieldOption => "SonicDeserialize MVP does not support this field-level Serde option"@,
        AttrErrorKindView::ExpectedSerializeOrDeserialize => "expected `serialize` or `deserialize`"@,
        AttrErrorKindView::ExpectedEq => "expected `=`"@,
        AttrErrorKindView::EndBeforeEq => "unexpected end of input, expected `=`"@,
        AttrErrorKindView::EndBeforeStrLit => "unexpected end of input, expected string literal"@,
        AttrErrorKindView::EndBeforeParens => "unexpected end of input, expected parentheses"@,
        AttrErrorKindView::ExpectedStrLit => "expected string literal"@,
        AttrErrorKindView::ExpectedComma => "expected `,`"@,
        AttrErrorKindView::ExpectedParens => "expected parentheses"@,
        AttrErrorKindView::Syntax(m) => m,
        AttrErrorKindView::InvalidPath(m) => m,
        AttrErrorKindView::LiteralSuffix(x) => "unexpected suffix `"@ + x + "` on string literal"@,
    }
}

impl AttrErrorKind {
    /// The text reported for this refusal.
    pub fn message(&self) -> (r: String)
        ensures
            r@ == attr_message_spec(self@),
    {
        match self {
            AttrErrorKind::UnsupportedSonicOption => String::from_str("unsupported #[sonic(...)] option"),
            AttrErrorKind::FieldSonicAttribute => String::from_str(
                "SonicDeserialize has no field-level #[sonic(...)] options",
            ),
            AttrErrorKind::UnsupportedContainerOption => String::from_str(
                "SonicDeserialize MVP does not support this container-level Serde option",
            ),
            AttrErrorKind::UnsupportedFieldOption => String::from_str(
                "SonicDeserialize MVP does not support this field-level Serde option",
            ),
            AttrErrorKind::ExpectedSerializeOrDeserialize => String::from_str(
                "expected `serialize` or `deserialize`",
            ),
            AttrErrorKind::ExpectedEq => String::from_str("expected `=`"),
            AttrErrorKind::EndBeforeEq => String::from_str("unexpected end of input, expected `=`"),
            AttrErrorKind::EndBeforeStrLit => String::from_str(
                "unexpected end of input, expected string literal",
            ),
            AttrErrorKind::EndBeforeParens => String::from_str(
                "unexpected end of input, expected parentheses",
            ),
            AttrErrorKind::ExpectedStrLit => String::from_str("expected string literal"),
            AttrErrorKind::ExpectedComma => String::from_str("expected `,`"),
            AttrErrorKind::ExpectedParens => String::from_str("expected parentheses"),
            AttrErrorKind::Syntax(m) => m.clone(),
            AttrErrorKind::InvalidPath(m) => m.clone(),
            AttrErrorKind::LiteralSuffix(x) => {
                let mut s = concat("unexpected suffix `", x.as_str());
                s.append("` on string literal");
                s
            },
        }
    }
}

} // verus!
