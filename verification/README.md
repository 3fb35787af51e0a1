# Toylang

A functional toy language in Polish notation that compiles to Rust, written as a Verus
library whose behaviour is stated in contracts and proved.

## Layout

- `src/` – the verified compiler:
  - `lib.rs`: the `Compiler`, splitting the input into lines of characters and of tokens,
    the main loop over the lines, and the debugger's steps;
  - `parse.rs`: what each token means, and parsing a line token by token;
  - `ast.rs`, `ast/elements.rs`, `ast/elements/append.rs`: the AST (an adjacency list of
    elements) and every way the parser adds to it, with the type inference of elements;
  - `ast/parents.rs` and its `indent`/`outdent` modules: the stack of open parents;
  - `ast/output.rs`: filling in the open types and writing the Rust program;
  - `errors.rs`: the compile errors and the checks of where an element may stand;
  - `formatting.rs`, `text.rs`: text helpers; `debug.rs`: debugging texts of the data;
  - `file.rs`, `debugger.rs`, `example_tests.rs`: the input file, the debugger's state, and
    example scenarios.
- `app/` – the command line program (reading the file, printing errors, saving
  `output.rs`) and a small HTTP server for an editor extension.
- `tests/` – unit tests, compiled example programs, and programs that must be refused with
  a given error.

Input files are ASCII text: the command line refuses other input.

Not supported, and refused with an error where they appear: lines of Rust code (`#`,
`##`), edits of a struct's field (`name.key`), and the reuse of an earlier struct that is
identical to a new one (each struct literal gets its own definition).
