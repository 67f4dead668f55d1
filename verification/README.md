# rapidsnark

Bindings for the rapidsnark Groth16 prover, with the logic proved in Verus.

- `src/bigint.rs`: signed big integers as sign and base-2^32 digits, the
  two's-complement byte encoding that `num-bigint` produces, and lemmas on
  little-endian values.
- `src/witness.rs`: the `wtns` witness file, `parse_bigints_to_witness`, and the
  proofs of its layout (length, header fields, each value readable from its 32
  bytes).
- `src/prover.rs`: what the bindings decide around the C prover and verifier:
  the prover's message texts, buffer sizes, reading outputs, the single retry
  with longer buffers, the outcome of verification, and the text of each error.
- `app/lib.rs`: the C declarations and the three calling functions, which hand the
  C results to the library; it converts `num_bigint::BigInt` witnesses and
  hands the library's error texts on through `anyhow`.
- `tests/`: tests of the library on concrete values.
