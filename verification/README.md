# pd_compiler

The middle of a small compiler for scripts, as a verified library. Verus checks the functions
of `src/` against their contracts. Believed without proof are what is said of `String::push`
and `String::push_str` in `text`, and of `rt_format`'s template parser in `template`; the
methods of `ParserFormatArg` there, which only that parser calls, have no contracts.

- `text`, `tables`, `paths`, `source_map`, `errors`: strings, tables, files and messages
- `lexer`, `scan`, `format`, `layout`, `lint`: tokens, the standard layout and diagnostics
- `names`, `namespaces`, `schema`, `grammar`, `parser`, `template`: from tokens to trees
- `ir`, `builtins`, `host`, `consts`, `naturals`, `fractions`, `slots`, `captures`, `param_add`: trees and what is known of them
- `types`, `shapes`, `infer`, `check`, `legalize`, `typing`: types
- `generation`, `labels`, `codegen`, `assembler`, `compiler`: from trees to code
- `options`, `imports`, `rewrite`, `modules`, `walk`, `loader`, `line_map`: programs of several files

`grammar` and `generation` hold the models that `parser` and `codegen` are held to.

`app/` reads files and walks the modules of a program; `tests/` runs the library.
