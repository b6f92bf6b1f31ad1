# kpn_codegen

A generator of Rust code for Kahn process networks. A network is a graph of
processes (nodes) joined by channels (edges); each network becomes one Rust
function that creates the channels and spawns one task per process.

Layout:

- `src/ast.rs` - the syntax tree the generator builds and its mathematical model.
- `src/abstrast.rs` - constructors of the tree, and the reading of JSON node
  arguments as expressions (`JSONtoAST`).
- `src/stage2.rs` - the network, the expansion of primitive process names,
  default arguments, and `genFunction`, which turns a network into a function.
- `src/literal.rs` - the text between the quotes of a string literal and the
  string it stands for, by the escape rules of the `syntex_syntax` 0.59 lexer.
- `src/render.rs` - the source text of the tree: one statement per line,
  without indentation; string and character literals are escaped as Rust's
  `char::escape_default` does, so that they read back as the same string.
- `src/laws.rs` - properties that hold for every input.
- `app/` - the program: reads `stage2.json`, draws each network with the `dot`
  crate, and writes `stage3.rs`; it also holds the parsing of source snippets
  with `syntex_syntax`.

The functions in `src/` are verified with Verus against contracts over the
model in `src/ast.rs`, except two trusted wrappers of std functions that vstd
does not specify: `String::push` (`src/text.rs`) and `char::from_u32`
(`src/literal.rs`).
