# Gelix

The middle and the back of a compiler for Gelix, a small object-oriented
language, written in Verus: executable Rust with contracts that are proved.

| Module | What it does |
| --- | --- |
| `lexer`, `ast` | tokens and the syntax tree |
| `table` | tables in which every entry has a name of its own |
| `parser` | turns tokens into a lossless tree, built by `rowan` |
| `gir` | types, declarations, expressions and modules of the intermediate representation |
| `mir::generator` | generates expressions of the intermediate representation |
| `mir::generator::passes` | declares the classes and functions of a file |
| `ir` | lowers the intermediate representation to operations of the backend |
| `codegen` | lowers the statements of a script to instructions |
| `names`, `index`, `hashing`, `parser::green` | what is used of `smol_str`, `indexmap`, `std` and `rowan`, with the contracts that are trusted |

## How to read it

Functions and data types are kept in tables and referred to by number, so that
values own what they hold. A type that holds strings or vectors has a ghost twin
(`Expr` and `ExprView`, `Function` and `FunctionView`) that contracts speak of.

Every step of the generators has a rule: a spec function from the state before
to the state after and the result, or the error that the source has
(`mir/generator/rules.rs`, `codegen/rules.rs`, `ir/rules.rs`). The executable
functions are proved to follow the rules.

What holds of the rules themselves stands in proof functions whose names begin
with `law_`: that a variable is found once it is defined and hidden only inside
its scope, that calls get arguments of the right types, that code only uses
variables which exist (`mir/generator/vars.rs`), that the pass over the
declarations only adds, that every value is computed once, that references are
counted (`ir/counts.rs`), that operations use only what was computed before them
(`ir/order.rs`), that no field loses its value
(`mir/generator/fields.rs`), that every statement of a script is lowered, that
no code follows a return, that a syntax tree has the text of its source, and so
on.

## Around the library

`app/` holds what touches files, the terminal and LLVM. The generator of scripts
does not call LLVM: it stops where a function has to be checked and goes on with
the verdict (`codegen::generator::Event` and `Action`).
