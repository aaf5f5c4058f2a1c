# sonic_derive

`SonicDeserialize` derives `serde::Deserialize` for named structs, looking field
names up in a compile-time perfect-hash table once a struct accepts 32 names or
more, and through a `match` below that.

- `src/` is the verified library (Verus): the attribute options it accepts
  (`attr`, over the plain option syntax of `meta`), the struct model with each
  field's names and index (`model`), the plan of the generated impl
  (`codegen`), and the laws that tie them together (`laws`). Reading a string
  as a Rust path is left to `syn` (`paths`).
- `tests/` runs the library on plain inputs.
- `app/` reads the item with `syn`, hands it to the library, and writes the
  plan out with `quote`; it also holds the runtime helper `__private::missing_field`.

Sets of names are held as vectors kept sorted without repetition (the invariant
`strictly_sorted` in `model`), in the order a `BTreeSet<String>` or
`BTreeMap<String, usize>` would give, because the verifier's standard library
specifies no map or set keyed by `String` that proofs could use.

Whether a string reads as a Rust path is up to `syn`, which lexes with the
compiler's lexer inside a procedural macro and with its own elsewhere, so no
contract here says which strings pass beyond the plain paths (identifiers
joined by `::`, `paths::plain_path`), which both lexers and `syn` accept. Each check (`PathCheck`) keeps the text
it was made on, and a check is read only for that text. The reading of options
therefore comes in two forms: `parse_container_attrs_with`,
`parse_field_attrs_with` and `StructModel::from_input_with` take tables of
checks as an argument and state their result exactly for each;
`parse_container_attrs`, `parse_field_attrs`, `StructModel::from_input` and
`expand` make the checks themselves, on exactly the path texts of the options
(`path_text`, `checks_path_texts`), and state that their result is the one for
some tables of checks made on those texts.
