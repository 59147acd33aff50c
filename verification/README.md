# bun_support

Verified building blocks of a JavaScript bundler and CSS printer, written in
Verus. Verus proves the functions under `src/` against their contracts. The
exceptions are the few wrappers in `hashing` and `memory` that call
`wyhash`, `xxhash-rust`, `bytemuck` and the standard library: their contracts
are taken on trust from those crates' documentation and source. Some
functions, such as `memory::destroy`, have no result to state.

- `memory`: boxing values, dropping NUL terminators, rebasing slices.
- `meta`: shortening type names (`some.namespace.MyType` → `MyType`).
- `css`: vendor prefixes, selectors, declarations, the printer, rule lists,
  style rules (printing, minifying, deduplicating, hashing), the
  `outline-style` value and the text of numbers.
- `bundler`: hashbang targets, module pretty names and relative paths (with `.` and `..` resolved),
  compile results, the content hasher, entry points, stable references and
  the linker's per-file metadata.
- `hashing`: the hash functions and byte layouts taken from `wyhash`,
  `xxhash-rust`, `bytemuck` and the standard library, with their contracts.
- `shell`, `url`, `postgres`: output streams, URL strings from JavaScript,
  `bytea` type identifiers.

`app/` holds what the verified crate cannot express: the compiler's type
names and the floating-point alpha value. `tests/` exercises the library.
