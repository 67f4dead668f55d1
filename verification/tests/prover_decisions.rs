use rapidsnark::{
    after_prover_run, buffer_len, buffer_len_with_null, buffers_for_prover, error_message,
    output_string, verification_result, zkey_file_proof_result, ProverAttempt, ProverError,
    ProverStep, PROVER_ERROR_SHORT_BUFFER, PROVER_OK, VERIFIER_ERROR,
};

fn message_buffer(text: &[u8]) -> Vec<u8> {
    let mut b = vec![0u8; 256];
    b[..text.len()].copy_from_slice(text);
    b
}

#[test]
fn error_message_stops_at_the_first_nul() {
    assert_eq!(error_message(b"bad zkey\0junk"), "bad zkey");
    assert_eq!(error_message(&message_buffer(b"out of memory")), "out of memory");
}

#[test]
fn error_message_without_nul_takes_the_whole_buffer() {
    assert_eq!(error_message(b"no terminator"), "no terminator");
    assert_eq!(error_message(b""), "");
    assert_eq!(error_message(&[0u8; 8]), "");
}

#[test]
fn error_message_replaces_invalid_utf8() {
    assert_eq!(error_message(&[b'a', 0xff, b'b', 0]), "a\u{fffd}b");
    assert_eq!(error_message("h\u{e9}llo\0".as_bytes()), "h\u{e9}llo");
}

#[test]
fn buffer_len_converts_sizes_that_fit() {
    assert_eq!(buffer_len(0, "proof").unwrap(), 0);
    assert_eq!(buffer_len(1234, "proof").unwrap(), 1234);
}

#[test]
fn buffer_len_with_null_adds_one() {
    assert_eq!(buffer_len_with_null(0, "proof").unwrap(), 1);
    assert_eq!(buffer_len_with_null(799, "public signals").unwrap(), 800);
}

#[test]
fn buffer_len_with_null_reports_overflow() {
    match buffer_len_with_null(u64::MAX, "proof") {
        Err(ProverError::BufferSizeOverflow { name }) => assert_eq!(name, "proof"),
        other => panic!("unexpected {:?}", other),
    }
}


#[test]
fn buffer_len_reports_sizes_beyond_usize() {
    if (usize::MAX as u64) < u64::MAX {
        match buffer_len(u64::MAX, "proof") {
            Err(ProverError::BufferTooLarge { name }) => assert_eq!(name, "proof"),
            other => panic!("unexpected {:?}", other),
        }
    }
}

#[test]
fn output_string_reads_the_reported_prefix() {
    assert_eq!(output_string("proof", b"{\"pi_a\":1}\0\0\0", 10).unwrap(), "{\"pi_a\":1}");
    assert_eq!(output_string("proof", b"abc", 0).unwrap(), "");
}

#[test]
fn output_string_rejects_sizes_beyond_the_buffer() {
    match output_string("public signals", b"abc", 4) {
        Err(ProverError::OutputExceedsBuffer { name, size, buffer_len }) => {
            assert_eq!(name, "public signals");
            assert_eq!(size, 4);
            assert_eq!(buffer_len, 3);
        }
        other => panic!("unexpected {:?}", other),
    }
}

#[test]
fn output_string_rejects_invalid_utf8() {
    match output_string("proof", &[b'o', b'k', 0xc3, 0x28, 0], 4) {
        Err(ProverError::OutputNotUtf8 { name, valid_up_to, error_len }) => {
            assert_eq!(name, "proof");
            assert_eq!(valid_up_to, 2);
            assert_eq!(error_len, Some(1));
        }
        other => panic!("unexpected {:?}", other),
    }
    match output_string("proof", &[b'o', 0xe2, 0x82], 3) {
        Err(ProverError::OutputNotUtf8 { valid_up_to, error_len, .. }) => {
            assert_eq!(valid_up_to, 1);
            assert_eq!(error_len, None);
        }
        other => panic!("unexpected {:?}", other),
    }
}

#[test]
fn buffers_for_prover_leave_room_for_nul() {
    let b = buffers_for_prover(PROVER_OK, 700, 30, &[0u8; 256]).unwrap();
    assert_eq!(b.proof_len, 701);
    assert_eq!(b.public_len, 31);
}

#[test]
fn buffers_for_prover_reports_the_public_size_failure() {
    match buffers_for_prover(1, 700, 30, &message_buffer(b"invalid zkey")) {
        Err(ProverError::PublicSizeFailed { message }) => assert_eq!(message, "invalid zkey"),
        other => panic!("unexpected {:?}", other),
    }
}

#[test]
fn buffers_for_prover_checks_the_proof_size_first() {
    match buffers_for_prover(PROVER_OK, u64::MAX, u64::MAX, &[0u8; 4]) {
        Err(ProverError::BufferSizeOverflow { name }) => assert_eq!(name, "proof"),
        other => panic!("unexpected {:?}", other),
    }
    match buffers_for_prover(PROVER_OK, 10, u64::MAX, &[0u8; 4]) {
        Err(ProverError::BufferSizeOverflow { name }) => assert_eq!(name, "public signals"),
        other => panic!("unexpected {:?}", other),
    }
}

#[test]
fn short_buffers_on_the_first_run_ask_for_another_run() {
    match after_prover_run(ProverAttempt::First, PROVER_ERROR_SHORT_BUFFER, b"", 900, b"", 40, &[0u8; 4]) {
        ProverStep::RunAgain(b) => {
            assert_eq!(b.proof_len, 901);
            assert_eq!(b.public_len, 41);
        }
        ProverStep::Done(r) => panic!("unexpected {:?}", r),
    }
}

#[test]
fn short_buffers_on_the_retry_fail() {
    match after_prover_run(ProverAttempt::Retry, PROVER_ERROR_SHORT_BUFFER, b"", 900, b"", 40, b"too short\0") {
        ProverStep::Done(Err(ProverError::ProofGenerationFailed { message })) => {
            assert_eq!(message, "too short")
        }
        ProverStep::Done(r) => panic!("unexpected {:?}", r),
        ProverStep::RunAgain(_) => panic!("no third run"),
    }
}

#[test]
fn other_failures_stop_with_the_message() {
    match after_prover_run(ProverAttempt::First, 1, b"", 0, b"", 0, b"witness mismatch\0") {
        ProverStep::Done(Err(ProverError::ProofGenerationFailed { message })) => {
            assert_eq!(message, "witness mismatch")
        }
        ProverStep::Done(r) => panic!("unexpected {:?}", r),
        ProverStep::RunAgain(_) => panic!("no retry"),
    }
}

#[test]
fn success_reads_both_outputs() {
    match after_prover_run(ProverAttempt::Retry, PROVER_OK, b"{\"p\":1}\0", 7, b"[\"3\"]\0\0", 5, &[0u8; 4]) {
        ProverStep::Done(Ok(p)) => {
            assert_eq!(p.proof, "{\"p\":1}");
            assert_eq!(p.public_signals, "[\"3\"]");
        }
        ProverStep::Done(r) => panic!("unexpected {:?}", r),
        ProverStep::RunAgain(_) => panic!("no retry"),
    }
}

#[test]
fn success_with_a_bad_output_reports_which_one() {
    match after_prover_run(ProverAttempt::First, PROVER_OK, b"{}", 2, b"[]", 9, &[0u8; 4]) {
        ProverStep::Done(Err(ProverError::OutputExceedsBuffer { name, size, buffer_len })) => {
            assert_eq!(name, "public signals");
            assert_eq!(size, 9);
            assert_eq!(buffer_len, 2);
        }
        ProverStep::Done(r) => panic!("unexpected {:?}", r),
        ProverStep::RunAgain(_) => panic!("no retry"),
    }
}

#[test]
fn zkey_file_result_reads_nul_terminated_outputs() {
    let p = zkey_file_proof_result(PROVER_OK, b"{\"a\":2}\0\0", b"[]\0", &[0u8; 4]).unwrap();
    assert_eq!(p.proof, "{\"a\":2}");
    assert_eq!(p.public_signals, "[]");
}

#[test]
fn zkey_file_result_reports_failure() {
    match zkey_file_proof_result(3, b"", b"", b"cannot open zkey\0") {
        Err(ProverError::ProofGenerationFailed { message }) => assert_eq!(message, "cannot open zkey"),
        other => panic!("unexpected {:?}", other),
    }
}

#[test]
fn verification_result_by_status() {
    assert!(verification_result(0, &[0u8; 4]).unwrap());
    assert!(!verification_result(1, &[0u8; 4]).unwrap());
    match verification_result(VERIFIER_ERROR, b"bad json\0") {
        Err(ProverError::VerificationFailed { message }) => assert_eq!(message, "bad json"),
        other => panic!("unexpected {:?}", other),
    }
}

fn std_utf8_error_text(bytes: &[u8]) -> String {
    String::from_utf8(bytes.to_vec()).unwrap_err().to_string()
}

#[test]
fn output_string_error_len_by_case() {
    match output_string("proof", &[b'a', 0xf0, 0x9f], 3) {
        Err(ProverError::OutputNotUtf8 { valid_up_to, error_len, .. }) => {
            assert_eq!(valid_up_to, 1);
            assert_eq!(error_len, None);
        }
        other => panic!("unexpected {:?}", other),
    }
    match output_string("proof", &[0xe2, 0x28, 0xa1], 3) {
        Err(ProverError::OutputNotUtf8 { valid_up_to, error_len, .. }) => {
            assert_eq!(valid_up_to, 0);
            assert_eq!(error_len, Some(1));
        }
        other => panic!("unexpected {:?}", other),
    }
    match output_string("proof", &[b'x', 0xf0, 0x9f, 0x98, b'y'], 5) {
        Err(ProverError::OutputNotUtf8 { valid_up_to, error_len, .. }) => {
            assert_eq!(valid_up_to, 1);
            assert_eq!(error_len, Some(3));
        }
        other => panic!("unexpected {:?}", other),
    }
}

#[test]
fn messages_of_sizing_errors() {
    assert_eq!(
        buffer_len_with_null(u64::MAX, "proof").unwrap_err().message(),
        "proof buffer size overflowed"
    );
    let e = ProverError::BufferTooLarge { name: "public signals".to_string() };
    assert_eq!(e.message(), "public signals buffer size is too large");
}

#[test]
fn message_of_an_output_beyond_its_buffer() {
    let e = output_string("public signals", b"abc", 1234).unwrap_err();
    assert_eq!(e.message(), "public signals output size 1234 exceeds buffer size 3");
    let e = output_string("proof", b"", 10).unwrap_err();
    assert_eq!(e.message(), "proof output size 10 exceeds buffer size 0");
}

#[test]
fn messages_of_invalid_utf8_follow_the_utf8_error() {
    for bytes in [&[b'o', b'k', 0xc3, 0x28][..], &[b'a', 0xf0, 0x9f][..], &[0xff][..]] {
        let e = output_string("proof", bytes, bytes.len() as u64).unwrap_err();
        assert_eq!(
            e.message(),
            format!("proof output is not valid UTF-8: {}", std_utf8_error_text(bytes))
        );
    }
}

#[test]
fn messages_of_prover_and_verifier_failures() {
    let e = buffers_for_prover(1, 0, 0, b"invalid zkey\0").unwrap_err();
    assert_eq!(e.message(), "Public signal buffer size calculation failed: invalid zkey");
    let e = zkey_file_proof_result(1, b"", b"", b"boom\0").unwrap_err();
    assert_eq!(e.message(), "Proof generation failed: boom");
    let e = verification_result(VERIFIER_ERROR, b"bad vk\0").unwrap_err();
    assert_eq!(e.message(), "Proof verification failed: bad vk");
}

#[test]
fn error_message_never_holds_nul_and_is_no_longer_than_its_bytes() {
    for bytes in [&b"abc\0def"[..], &[0xff, 0x61, 0, 0xff][..], &[0xc0, 0x80, 0xed, 0xa0, 0x80][..], &[][..]] {
        let text = error_message(bytes);
        assert!(!text.contains('\0'));
        assert!(text.chars().count() <= bytes.len());
    }
    assert_eq!(error_message(&[0xff, 0x61, 0, 0xff]), "\u{fffd}a");
}

#[test]
fn message_numbers_are_decimal() {
    let e = output_string("proof", b"", 4294967295).unwrap_err();
    assert_eq!(e.message(), "proof output size 4294967295 exceeds buffer size 0");
    let e = output_string("proof", b"0123456789", 100).unwrap_err();
    assert_eq!(e.message(), "proof output size 100 exceeds buffer size 10");
}
