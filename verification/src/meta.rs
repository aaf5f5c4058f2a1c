//! The options written inside `#[serde(...)]` and `#[sonic(...)]`, as the
//! derive reads them: each option is a path followed by nothing, by `= "text"`,
//! by `=` and something else, or by a parenthesized list.
use vstd::prelude::*;

verus! {

/// Which attribute an `#[...]` is, told apart by its path.
#[derive(Clone, Copy, Debug, PartialEq, Eq, Structural)]
pub enum AttrKind {
    /// `#[serde(...)]`
    Serde,
    /// `#[sonic(...)]`
    Sonic,
    /// Any other attribute, which the derive leaves alone.
    Other,
}

/// What follows the path of an option that stands inside another option's list.
#[derive(Clone, Debug, PartialEq, Eq)]
pub enum InnerArg {
    /// Nothing: the option ends at the next `,` or at the end of the list.
    Empty,
    /// `= "text"`, holding the literal's value.
    Str(String),
    /// `=` followed by something that is not a string literal.
    EqOther,
    /// A parenthesized list.
    List,
}

/// An option inside another option's list, such as `deserialize = "x"` in `rename(deserialize = "x")`.
#[derive(Clone, Debug, PartialEq, Eq)]
pub struct InnerMeta {
    /// The option's path; an identifier when the path is a single one.
    pub path: String,
    pub arg: InnerArg,
    /// Nothing follows what was read of the option in its list.
    pub at_end: bool,
}

/// What follows the path of an option.
#[derive(Clone, Debug, PartialEq, Eq)]
pub enum MetaArg {
    /// Nothing: the option ends at the next `,` or at the end of the attribute.
    Empty,
    /// `= "text"`, holding the literal's value.
    Str(String),
    /// `= "text"suffix`: a string literal with a suffix, holding its value and
    /// its suffix.
    SuffixedStr(String, String),
    /// `=` followed by something that is not a string literal.
    EqOther,
    /// A parenthesized list of options, and the syntax error met after the last
    /// of them, if the list does not read as options separated by commas.
    List(Vec<InnerMeta>, Option<String>),
}

/// One option of an attribute, such as `rename = "x"` in `#[serde(rename = "x")]`.
#[derive(Clone, Debug, PartialEq, Eq)]
pub struct NestedMeta {
    /// The option's path; an identifier when the path is a single one.
    pub path: String,
    pub arg: MetaArg,
    /// Nothing follows what was read of the option in its attribute.
    pub at_end: bool,
}

/// An attribute of the struct or of a field: its kind, the options read from it
/// in order, and the syntax error met after the last of them, if any.
#[derive(Clone, Debug, PartialEq, Eq)]
pub struct Attribute {
    pub kind: AttrKind,
    pub items: Vec<NestedMeta>,
    pub syntax_error: Option<String>,
}

pub enum InnerArgView {
    Empty,
    Str(Seq<char>),
    EqOther,
    List,
}

pub struct InnerMetaView {
    pub path: Seq<char>,
    pub arg: InnerArgView,
    pub at_end: bool,
}

pub enum MetaArgView {
    Empty,
    Str(Seq<char>),
    SuffixedStr(Seq<char>, Seq<char>),
    EqOther,
    List(Seq<InnerMetaView>, Option<Seq<char>>),
}

pub struct NestedMetaView {
    pub path: Seq<char>,
    pub arg: MetaArgView,
    pub at_end: bool,
}

pub struct AttributeView {
    pub kind: AttrKind,
    pub items: Seq<NestedMetaView>,
    pub syntax_error: Option<Seq<char>>,
}

impl View for InnerArg {
    type V = InnerArgView;

    open spec fn view(&self) -> InnerArgView {
        match self {
            InnerArg::Empty => InnerArgView::Empty,
            InnerArg::Str(s) => InnerArgView::Str(s@),
            InnerArg::EqOther => InnerArgView::EqOther,
            InnerArg::List => InnerArgView::List,
        }
    }
}

impl View for InnerMeta {
    type V = InnerMetaView;

    open spec fn view(&self) -> InnerMetaView {
        InnerMetaView { path: self.path@, arg: self.arg@, at_end: self.at_end }
    }
}

impl View for MetaArg {
    type V = MetaArgView;

    open spec fn view(&self) -> MetaArgView {
        match self {
            MetaArg::Empty => MetaArgView::Empty,
            MetaArg::Str(s) => MetaArgView::Str(s@),
            MetaArg::SuffixedStr(s, x) => MetaArgView::SuffixedStr(s@, x@),
            MetaArg::EqOther => MetaArgView::EqOther,
            MetaArg::List(items, err) => MetaArgView::List(
                items@.map_values(|m: InnerMeta| m@),
                err.deep_view(),
            ),
        }
    }
}

impl View for NestedMeta {
    type V = NestedMetaView;

    open spec fn view(&self) -> NestedMetaView {
        NestedMetaView { path: self.path@, arg: self.arg@, at_end: self.at_end }
    }
}

impl View for Attribute {
    type V = AttributeView;

    open spec fn view(&self) -> AttributeView {
        AttributeView {
            kind: self.kind,
            items: self.items@.map_values(|m: NestedMeta| m@),
            syntax_error: self.syntax_error.deep_view(),
        }
    }
}

/// The views of a list of attributes.
pub open spec fn attrs_view(attrs: Seq<Attribute>) -> Seq<AttributeView> {
    attrs.map_values(|a: Attribute| a@)
}

} // verus!
