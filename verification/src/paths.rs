//! Reading option values as Rust paths, which `syn` does.
use vstd::prelude::*;

verus! {

/// An ASCII letter, or `_`: how an identifier may begin.
pub open spec fn ident_start(c: char) -> bool {
    c == '_' || ('a' as u32 <= c as u32 <= 'z' as u32) || ('A' as u32 <= c as u32 <= 'Z' as u32)
}

/// An ASCII letter, digit or `_`: how an identifier may go on.
pub open spec fn ident_continue(c: char) -> bool {
    ident_start(c) || ('0' as u32 <= c as u32 <= '9' as u32)
}

/// The words that `syn` does not read as an identifier: `_` and the keywords.
pub open spec fn reserved_word(w: Seq<char>) -> bool {
    ||| w == "_"@ || w == "abstract"@ || w == "as"@ || w == "async"@ || w == "await"@
    ||| w == "become"@ || w == "box"@ || w == "break"@ || w == "const"@ || w == "continue"@
    ||| w == "crate"@ || w == "do"@ || w == "dyn"@ || w == "else"@ || w == "enum"@
    ||| w == "extern"@ || w == "false"@ || w == "final"@ || w == "fn"@ || w == "for"@
    ||| w == "if"@ || w == "impl"@ || w == "in"@ || w == "let"@ || w == "loop"@
    ||| w == "macro"@ || w == "match"@ || w == "mod"@ || w == "move"@ || w == "mut"@
    ||| w == "override"@ || w == "priv"@ || w == "pub"@ || w == "ref"@ || w == "return"@
    ||| w == "Self"@ || w == "self"@ || w == "static"@ || w == "struct"@ || w == "super"@
    ||| w == "trait"@ || w == "true"@ || w == "try"@ || w == "type"@ || w == "typeof"@
    ||| w == "unsafe"@ || w == "unsized"@ || w == "use"@ || w == "virtual"@ || w == "where"@
    ||| w == "while"@ || w == "yield"@
}

/// A segment of a plain path: an ASCII identifier that is not a reserved word,
/// or, as the first segment, `crate`, `self`, `super` or `Self`.
pub open spec fn plain_segment(w: Seq<char>, first: bool) -> bool {
    ||| first && (w == "crate"@ || w == "self"@ || w == "super"@ || w == "Self"@)
    ||| {
        &&& w.len() > 0
        &&& ident_start(w[0])
        &&& forall|i: int| 1 <= i < w.len() ==> ident_continue(#[trigger] w[i])
        &&& !reserved_word(w)
    }
}

/// The segments joined by `::`.
pub open spec fn joined(segs: Seq<Seq<char>>) -> Seq<char>
    decreases segs.len(),
{
    if segs.len() == 0 {
        Seq::empty()
    } else if segs.len() == 1 {
        segs[0]
    } else {
        joined(segs.drop_last()) + "::"@ + segs.last()
    }
}

/// A plain path, such as `my_crate::de::parse`: one or more plain segments
/// joined by `::`, with no leading `::`, no spaces and no generic arguments.
pub open spec fn plain_path(s: Seq<char>) -> bool {
    exists|segs: Seq<Seq<char>>|
        segs.len() > 0 && joined(segs) == s && forall|i: int|
            0 <= i < segs.len() ==> plain_segment(#[trigger] segs[i], i == 0)
}

/// Calls `syn::parse_str::<syn::Path>` on `s`: `None` when `syn` reads `s` as a
/// path, else the text of `syn`'s error. A plain path is read as one by both
/// lexers `syn` may use (the compiler's inside a procedural macro, its own
/// elsewhere), and by `syn`'s path grammar, so it is accepted. Nothing is stated
/// of other strings, whose outcome may depend on the lexer in use.
#[verifier::external_body]
pub(crate) fn check_path(s: &str) -> (r: Option<String>)
    ensures
        plain_path(s@) ==> r is None,
{
    match syn::parse_str::<syn::Path>(s) {
        Ok(_) => None,
        Err(e) => Some(e.to_string()),
    }
}

} // verus!
