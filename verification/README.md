# kmd_logic

The decision logic of a paravirtual display and render driver, verified with Verus:
wire encodings, admission rules, and the bounded ledgers behind them.

- `src/` is the library. Every item in it is verified; nothing in it is trusted.
- `tests/` runs the library on concrete values.
- `app/` is ordinary Rust around the library: floating-point operands, wake-up
  loops, a guard for callbacks that unwind, placement at a raw address, and the
  traits through which record verdicts and command schemas come in.

What most wire records say of themselves alone is judged outside the library. That
verdict is an argument of the functions that need it, and so are the numbers of the
flags that the records use. What depends on the library's own state is decided and
proved here, for every verdict. The native-fence record is judged here whole, and some
rules of a render fragment, a memory request and an outer submission are held here
beside the verdict. Properties that span several functions are the
public proof functions named `law_*`.
