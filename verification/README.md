# const_fold

Constant folding over a model of Rust expressions: given an expression,
compute the constant it evaluates to, or report that it is not a constant
the folder can compute. Integer, byte, bool, char, string, byte-string,
float, array, tuple and repeat constants are folded through parentheses,
blocks, `if`, paths to constant items, unary `!`, `-`, `*`, `box`, and the
binary operators `+ - && || ^ & | << >> == != < <= >= >`. Integers compare
by their numeric values; bit operations fold on integers that are not negative.

Layout:

- `src/ast.rs` — the expression model the folder reads.
- `src/value.rs` — folded constants, their mathematical values, equality and order.
- `src/ops.rs` — literals, integer type unification, `!`, `-`, `+`, `-`, bit operations.
- `src/fold.rs` — the folder (`constant`, `fold_constant`) and its specification `fold`.
- `src/laws.rs` — properties proved of the folder.
- `app/lib.rs` — the `f64` side: comparing float literals and converting constants to `f64`.

Float literals are kept as text. The library compares two of them through a
function its caller passes (`app::float_order` parses both as `f64`); the
contracts hold for whatever function describes that comparison.
