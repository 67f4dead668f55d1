//! Verified encoding of witness files for the rapidsnark Groth16 prover, and the
//! decisions taken around the prover's C interface.

pub mod bigint;
pub mod prover;
pub mod witness;

pub use bigint::BigIntValue;
pub use prover::{
    after_prover_run, buffer_len, buffer_len_with_null, buffers_for_prover, error_message,
    output_string, verification_result, zkey_file_proof_result, ProofResult, ProverAttempt,
    ProverBuffers, ProverError, ProverStep, ERROR_MESSAGE_BUFFER_SIZE, PROVER_ERROR_SHORT_BUFFER,
    PROVER_OK, VERIFIER_ERROR, ZKEY_FILE_OUTPUT_BUFFER_SIZE,
};
pub use witness::parse_bigints_to_witness;
