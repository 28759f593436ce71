# portalenv

Type-safe environment configuration, verified with Verus.

Configuration values arrive as text (from literals in a field mapping, from
environment variables, from dotenv files). This library turns that text into
typed values: it normalizes it (a quoted string stands for what is between
its quotes, anything else for itself without surrounding whitespace), reads
booleans and integers as `str::parse` does, and reads the array `[..]`, map
`{..}` and tuple `(..)` literal forms into `Vec`, `HashSet`, `HashMap` and
tuples of convertible types.

## Layout

- `src/text.rs`: whitespace and the scanning steps of the literal grammar.
- `src/literal.rs`: the literal grammar (normalized text, array elements,
  map entries) as specifications and the code that follows them, with the
  round-trip laws of arrays, maps and quoted text.
- `src/number.rs`: booleans and integers, with the round-trip law of decimal
  integers.
- `src/env_str_value.rs`: `EnvStrValue` and the `FromEnvStrValue` conversions.
- `src/error.rs`: the error type.
- `src/env_portal.rs`: the `EnvPortal` trait and the order in which dotenv
  files are loaded.
- `src/attr.rs`: the syntax of the `env_portal` attribute (its arguments,
  the field mapping and the forms of a mapping value), read from its tokens
  and specified by a reading over tokens; `syn` decides which token runs
  are Rust expressions, types and patterns.
- `src/derive.rs`: the input of the two derives, read by `syn`, and the code
  or the error that each emits for it.
- `src/codegen.rs`: the code that the `EnvPortal` and `EnvEnum` derives emit,
  from a field mapping.
- `app/`: what touches the process: reading environment variables and
  dotenv files (`lib.rs`), and turning the library's code or error into
  tokens for the compiler (`derive_env_portal.rs`, `derive_env_enum.rs`).
- `tests/`: scenarios, and a comparison of the literal grammar with the
  regular expressions that describe it.
