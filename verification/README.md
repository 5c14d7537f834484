# sekver

The front end of Sekver, a small hobby programming language: a tokenizer
and a parser that turns the tokens into a syntax tree.

## Example code

```
imp std frm "std";

func main(): emp {
    var my_variable: str = "Hello World";
    var i: num = 0;

    while i < 3 {
        std::print_ln(my_variable);
        i += 1;
    }
}
```

This program parses: `func` (or its short form `fnc`) starts a function,
and `std::print_ln(my_variable)` is a call whose name, with its namespace,
is `std::print_ln`. Names joined by `::` are read the same way wherever a
variable, a call or a list or matrix access stands. The tree of this program
is checked in `tests/grammar.rs` (`readme_example_parses`).

## Layout

- `src/tokenize/` splits a text into tokens, line by line (`try_tokenize`,
  `tokenize`, and `tokenize_or_failure`, which gives the line and column of
  the first character that starts no token, or the line of a string left
  open). `positions.rs` and `lines.rs` prove that tokens come in source order
  with 1-based positions, that each line is read on its own, and that
  nothing after `//` on a line is read.
- `src/syntax_tree/grammar/` parses tokens: `expression.rs` (operands,
  namespaced names, calls, list and matrix access, operator passes),
  `blocks/` (statements of a body), `get_type.rs` (type names) and `mod.rs`
  (functions, constants and imports at the top level). `precedence.rs`
  proves that the loosest operator class is the root of an expression, that
  one class groups to the left, and that the first comma outside nested
  groups splits a matrix access. `positions.rs` proves that a refused
  program is refused at the position of one of its tokens, and that every
  node of a built tree stands at the position of one of its tokens.
- `src/syntax_tree/syntax.rs` holds the tree and its mathematical view.
- `src/text.rs` holds the character classes and the calls into `regex`.
- `app/` reads `./example.skv` and writes the tree as JSON to `test.json`.

Every parsing function is specified by a spec function over token views;
each has a total `try_` form whose `None` marks tokens malformed beyond any
error the parser reports, and a form that returns the result itself on
tokens where that cannot happen.
