# easyjs

The front end of the easyjs compiler, verified with Verus: the lexer, the parser, number
literals, string interpolation and runes, macros, imports, type names, error messages and
the helpers that turn paths into names.

- `src/lexer`: tokens (`token`), the mathematical model of the lexer (`model`) and the
  lexer itself (`lex`), proved to follow the model.
- `src/parser`: the syntax tree (`ast`) and its view, the model of the parser (`model`),
  number literals (`numbers`) and the parser (`par`), proved to follow the model step by
  step; every parsing function keeps the parser well formed and only adds errors.
- `src/compiler`: string interpolation, runes, macros and imports.
- `src/utils`, `src/typechecker.rs`, `src/errors.rs`, `src/stdlib.rs`, `src/jsarg.rs`, `src/text.rs`.
- `app/main.rs`: the command line, file access and the JSON form of `.ejconfig` files.

## What is not here

The easyjs sources this library comes from also hold a translator to JavaScript
(`compiler/transpile.rs`, apart from `string_interpolation`), a WebAssembly compiler
(`compiler/native.rs`, `emitter/`) and a JavaScript runtime bound to C. None of them is in
this crate. The translator and the WebAssembly compiler depend on code that those sources
do not define, so what they compute cannot be known from them:

- the translator names its variables and functions through `Namespace::get_obj_name` and
  `has_name`, and renames identifiers that `js_helpers::is_javascript_keyword` accepts;
  neither the `Namespace` type nor `js_helpers` exists there;
- it matches on twelve syntax-tree variants that the syntax tree does not have
  (`FunctionLiteral`, `LambdaLiteral`, `MacroExpression`, `NewClassExpression`,
  `ObjectLiteral`, `OfExpression`, `ClassStatement`, `EnumStatement`, `ImportStatement`,
  `MacroStatement`, `NativeStatement`, `StructStatement`), on a `VariableStatement` with five
  fields, and uses a `StrongValType` that no module defines;
- the WebAssembly emitters build their code with instruction helpers (`call`, `i32_load`,
  `i32_store`, `set_local_to_global`) and a `new_function_with_instructions` macro that are
  not defined, and with the same missing `StrongValType`.

The runtime is a binding to C sources that are not available. A hygienic macro's
expansion is therefore handed back as a script (`MacroOutput::Evaluate`), and
`MacroOutput::value` gives the macro's value from the runtime's answer.
