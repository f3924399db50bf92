# dory

Dory is a polynomial commitment scheme for multilinear polynomials (Jonathan Lee,
<https://eprint.iacr.org/2020/1274.pdf>). This crate implements the commitment, the
evaluation proof (Eval-VMV-RE followed by the extended Dory-Reduce inner-product argument)
and its verifier, and proves them in Verus against specifications written over the abstract
algebra of the `Field`, `Group` and `Pairing` traits.

## Layout

- `src/primitives/`: the algebra (`arithmetic.rs`: the traits, their laws and multi-scalar
  multiplication; `bn254.rs`: the BN254 scalar field backed by `ark-bn254`, and a toy instance
  of the traits on it, whose groups are the field's additive group and whose "pairing" is
  field multiplication), multilinear polynomials and evaluation vectors (`poly.rs`), finite sums and
  their laws (`sums.rs`), the folding of evaluation vectors (`folding.rs`), and Fiat–Shamir
  transcripts (`transcript.rs`, `toy_transcript.rs`, hashed with Blake2s256).
- `src/protocol/`: setup, prover and verifier states, the reduce rounds
  (`interactive_protocol.rs`), the proof builder and its verifier replay (`builder.rs`), the
  inner-product argument (`inner_product.rs`), commitments (`commit.rs`), evaluation proofs
  (`evaluate.rs`, `pcs.rs`), and the laws that span them:
  - `inner_product.rs`: the verifier replays the prover's transcript and draws the same
    challenges;
  - `correctness.rs`: every reduce round keeps the verifier's `D₁, D₂, E₁, E₂` equal to the
    inner products of the honest prover's vectors;
  - `matrix_form.rs`: `Lᵀ·M·R` is the evaluation of the polynomial at the point;
  - `completeness.rs`: the verifier accepts the honest prover's evaluation proof at every
    point with an even number of coordinates (which `create_evaluation_proof` requires), for
    at most `2^d` coefficients, wherever the transcript yields every challenge;
  - `commit.rs`: the commitment is additive in the polynomial.
- `src/vmv/`: the VMV prover state built from a polynomial and a point.
- `tests/`: tests on concrete values over the BN254 scalar field and the toy instance.
- `app/`: the serde copies of the messages, `bincode` framing, random setups and printing.
