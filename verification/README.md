# jit

Typed construction of intermediate code for LibJIT, the GNU just-in-time
compiler library, with the construction itself verified.

A function is built as a sequence of values and instructions: constants,
locals, parameters, arithmetic, branches to labels, calls and memory
operations. The library records them and proves, for every operation, what
it adds and that every instruction refers only to values and labels of its
own function made before it. Type descriptors (primitives, pointers,
structures, unions, signatures and tagged types), their kinds as bit flags,
the names of fields, and the tagged data of contexts are plain values with
contracts too.

Layout:

- `src/` is the verified library: `kind` (kind bit flags), `types` (type
  descriptors), `typecs` (the predefined descriptors and the descriptor a
  Rust type name stands for), `compile` (Rust values as constants, string
  slices and strings as `{ptr, len}` and `{len, cap, ptr}` structures built
  on the stack, tuples with their Rust layout, and vectors), `flags` (call
  flags), `context` (functions and tagged data of a context), `function`
  (values, labels, instructions, the functions that hold them, and which
  values stay block-local temporaries), `expr` (closure bodies in a small
  expression language with conditionals, loops and returns, compiled
  statement by statement), `derive` (which items can derive `Compile`, and
  what deriving gives for a struct or a `repr` enum) and `elf` (what the
  outcome of opening an ELF binary means).
- The front ends that read Rust syntax (the `jit!` and `jit_func!` macros
  and `#[derive(Compile)]`) are compiler plugins; their parsing stays with
  the compiler, and what they generate is what `expr`, `derive` and
  `typecs::type_of_name` compute from the parsed pieces. Function pointers
  cannot be compiled as values here, so `Compile` has no impl for them.
- `app/` lowers recorded functions and types into LibJIT through
  `libjit-sys`, compiles and runs them, dumps them, and reads and writes ELF
  binaries.
- `tests/` exercises the library.
