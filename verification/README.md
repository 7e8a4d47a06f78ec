# lib — verified name, parameter and rule model of a circuit description language

The library models the naming and parameter layer of a circuit language and
its check-rule catalog, with every function proved against its contract by
Verus.

- `text`, `strs`: character-level helpers (trimming, ASCII case, decimal text,
  joining) with specifications over `Seq<char>`.
- `mc_literal`, `mc_ida`, `mc_ids`, `ids_order`: identifiers with square groups, dotted
  members and curly groups; their display text, expansion to member names,
  parsing of display text, identity (`A.m` is `A{m}`), and their order by
  display text.
- `equivalent`, `form`: member sets of a name and the form a reference has.
- `mc_bus`, `mc_opd`: buses, lists, nodes and connection operands.
- `mc_param_type`, `mc_paramd`: formal parameter declarations with their
  definition, port and reference spans.
- `mc_param`, `enum_classes`, `bind_laws`: call arguments and their binding to
  the formals (named, unit-typed, class-typed, then positional), with the
  proof that a successful binding uses every argument exactly once.
- `mc_fcall`, `mc_conds`: return shapes, the `=>` prefix placeholder fill,
  the `=>` fold of a prefix into a method call's arguments, condition
  operands, and the judging of a condition from the value engine's answers
  (the bare/quoted family gate, the `&&`/`||` short circuit, `in` lists).
- `syntax`, `node_ids`, `node_decl`, `node_fcall`: the parser's syntax tree as
  plain data; the identifiers, operands and parameter declarations read from
  it; and the class names a call expression registers for navigation.
- `node_conds`: conditions and `if`/`else` chains read from the tree, the
  resolution of a condition operand against the bound parameters, and the
  choice of the branch a chain takes.
- `node_params`: a definition's whole parameter list read from the tree into
  its declarations with their definition and port spans.
- `numerals`, `node_value`: hexadecimal literals and the decimal fraction
  grammar; call arguments read from the tree without a lookup context.
- `rules`, `errcodes`, `attr_keys`: the check-rule catalog, its queries and
  ledger, and the attribute key table.

Tests under `tests/` run the library on concrete values.
