# nlvm

The back half of a compiler for the NL language, verified with Verus: the
module format, the static checks on a program, and the code generator.

## Layout

- `src/ast.rs`, `src/size.rs`: the syntax tree of a program whose aliases and
  templates were expanded, and a measure on it.
- `src/text.rs`, `src/names.rs`, `src/binding.rs`, `src/resolve.rs`: strings,
  maps and sets by name, argument binding, and what a file's names stand for.
- `src/class_table.rs`: the classes of a program and how members are found.
- `src/native.rs`, `src/native_generics.rs`: the classes that the virtual
  machine provides.
- `src/probe.rs`: the static types of arguments, by which a call is bound to an
  overload in the check and in the code alike.
- `src/bytecode/`: constant pool, modules, their byte encoding with its
  integrity trailer, and the instruction set.
- `src/sema/`: the rules of the language. `class_rules`, `rules` and `members`
  hold single rules, `checked` says what they come to for a method body,
  `checker` and `program` check, `flow` is what is known at a point of a body,
  and `sight` says which variables a construct leaves in sight.
- `src/codegen/`: the code generator. `lowered` says what a construct is
  compiled to; `expr`, `stmt`, `vars`, `ops`, `args` and `program` compile;
  `peek` tells static types ahead of compiling and `overload` picks among
  overloads; `growth`, `nesting` and `naming` say what compiling never undoes.
- `src/laws.rs` and the `laws.rs` of each part: what holds of the library as a
  whole; `src/agreement.rs`: that a call means in the code what was checked.
- `app/`: the errors and warnings as `std` errors.
- `tests/`: the library on concrete programs and modules.

A data type has a view, named `...View` where it is a type of its own, in which
texts are sequences of characters. A function that computes is stated by a spec
function on views; a fallible one by a `Result` of views.

Floats are held as their IEEE 754 bit patterns. Parsing, and the expansion of
aliases and templates, come before this library.

## What is trusted

SHA-256 comes from `sha2`; UTF-8 decoding and the quoting of strings in
messages come from `std`. Each is called in one function marked
`#[verifier::external_body]`, whose contract says what is believed of it.
