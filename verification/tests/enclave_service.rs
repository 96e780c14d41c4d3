use enclave_workshop::client::shown_suffix;
use enclave_workshop::enclave::{
    decrypt_cipher, error_response, handle_request, kmstool_decrypt_args, last_four,
    plaintext_tail, request_length, response_for, Credentials, KmstoolRun, RequestRead,
    ResponsePayload, ServerError,
};

fn finished(success: bool, stdout: &[u8], stderr: &[u8]) -> KmstoolRun {
    KmstoolRun::Finished { success, stdout: stdout.to_vec(), stderr: stderr.to_vec() }
}

fn creds() -> Credentials {
    Credentials {
        access_key_id: "AKID".to_string(),
        secret_access_key: "SECRET".to_string(),
        token: "TOKEN".to_string(),
        ciphertext: "Q0lQSEVS".to_string(),
        region: "us-east-1".to_string(),
    }
}

#[test]
fn decrypt_reveals_last_four_characters() {
    let run = finished(true, b"PLAINTEXT: MTIzNDU2Nzg=\n", b"");
    assert_eq!(decrypt_cipher(run), Ok("5678".to_string()));
}

#[test]
fn decrypt_short_plaintext_is_revealed_whole() {
    // "abc" encodes to "YWJj"
    let run = finished(true, b"PLAINTEXT:YWJj", b"");
    assert_eq!(decrypt_cipher(run), Ok("abc".to_string()));
}

#[test]
fn decrypt_takes_only_the_second_field() {
    // the text after a second colon is not part of the plaintext
    let run = finished(true, b"PLAINTEXT: YWJj:ignored", b"");
    assert_eq!(decrypt_cipher(run), Ok("abc".to_string()));
}

#[test]
fn decrypt_counts_characters_not_bytes() {
    // "héllo wörld" has multi-byte characters; the last four are "örld"
    let encoded = "aMOpbGxvIHfDtnJsZA==";
    let stdout = format!("PLAINTEXT: {}", encoded);
    let run = finished(true, stdout.as_bytes(), b"");
    assert_eq!(decrypt_cipher(run), Ok("örld".to_string()));
}

#[test]
fn decrypt_without_colon_is_malformed() {
    let run = finished(true, b"no separator here", b"");
    let err = decrypt_cipher(run).unwrap_err();
    assert_eq!(
        err,
        ServerError::KmsDecryptionFailed("Malformed output from kmstool: missing colon".to_string())
    );
    assert_eq!(
        err.message(),
        "KMS Decryption Failed: Malformed output from kmstool: missing colon"
    );
}

#[test]
fn decrypt_rejects_invalid_base64() {
    let run = finished(true, b"PLAINTEXT: @@@@", b"");
    assert_eq!(
        decrypt_cipher(run),
        Err(ServerError::KmsDecryptionFailed(
            "Base64 decode error: Invalid symbol 64, offset 0.".to_string()
        ))
    );
}

#[test]
fn decrypt_reports_tool_failure_with_stderr() {
    let run = finished(false, b"PLAINTEXT: YWJj", b"access denied");
    assert_eq!(
        decrypt_cipher(run),
        Err(ServerError::KmsDecryptionFailed("KMS Error: access denied".to_string()))
    );
}

#[test]
fn decrypt_reports_tool_that_did_not_start() {
    let run = KmstoolRun::NotStarted("No such file or directory (os error 2)".to_string());
    let err = decrypt_cipher(run).unwrap_err();
    assert_eq!(err.message(), "I/O Error: No such file or directory (os error 2)");
}

#[test]
fn decrypt_reads_invalid_utf8_lossily() {
    // base64 of [0x31, 0xff, 0x32, 0x33, 0x34] is "Mf8yMzQ="
    let run = finished(true, b"PLAINTEXT: Mf8yMzQ=", b"");
    assert_eq!(decrypt_cipher(run), Ok("\u{fffd}234".to_string()));
}

#[test]
fn plaintext_tail_of_decoded_bytes() {
    assert_eq!(plaintext_tail(Ok(b"4111111111111111".to_vec())), Ok("1111".to_string()));
    assert_eq!(
        plaintext_tail(Err("Invalid padding".to_string())),
        Err(ServerError::KmsDecryptionFailed("Base64 decode error: Invalid padding".to_string()))
    );
}

#[test]
fn last_four_of_texts() {
    assert_eq!(last_four("123456"), "3456");
    assert_eq!(last_four("12"), "12");
    assert_eq!(last_four(""), "");
}

#[test]
fn kmstool_arguments_carry_the_credentials() {
    let args = kmstool_decrypt_args(&creds());
    let expected: Vec<String> = [
        "decrypt",
        "--region",
        "us-east-1",
        "--aws-access-key-id",
        "AKID",
        "--aws-secret-access-key",
        "SECRET",
        "--aws-session-token",
        "TOKEN",
        "--ciphertext",
        "Q0lQSEVS",
    ]
    .iter()
    .map(|s| s.to_string())
    .collect();
    assert_eq!(args, expected);
}

#[test]
fn request_with_credentials_runs_kmstool() {
    let step = handle_request(Ok(creds()));
    assert_eq!(step, Ok(kmstool_decrypt_args(&creds())));
}

#[test]
fn unparsable_request_is_a_serialization_error() {
    let step = handle_request(Err("expected value at line 1 column 1".to_string()));
    let err = step.unwrap_err();
    assert_eq!(err.message(), "Serialization Error: expected value at line 1 column 1");
    let resp = error_response(&err);
    assert_eq!(
        resp,
        ResponsePayload {
            last_four: None,
            error: Some("Serialization Error: expected value at line 1 column 1".to_string()),
        }
    );
}

#[test]
fn response_for_success_and_failure() {
    assert_eq!(
        response_for(Ok("5678".to_string())),
        ResponsePayload { last_four: Some("5678".to_string()), error: None }
    );
    let resp = response_for(Err(ServerError::KmsDecryptionFailed("KMS Error: denied".to_string())));
    assert_eq!(
        resp,
        ResponsePayload {
            last_four: None,
            error: Some(
                "KMS Error. Decryption Failed. KMS Decryption Failed: KMS Error: denied".to_string()
            ),
        }
    );
}

#[test]
fn bind_error_message_names_the_port() {
    let err = ServerError::Bind { port: 5000, source: "Address in use".to_string() };
    assert_eq!(err.message(), "VSOCK bind failed on port 5000: Address in use");
    let err = ServerError::Io("broken pipe".to_string());
    assert_eq!(error_response(&err).error, Some("I/O Error: broken pipe".to_string()));
}

#[test]
fn request_length_of_reads() {
    assert_eq!(request_length(RequestRead::Received(12)), Some(12));
    assert_eq!(request_length(RequestRead::Received(0)), None);
    assert_eq!(request_length(RequestRead::Failed("reset".to_string())), None);
}

#[test]
fn enclave_answer_matches_what_client_showed() {
    let value = "000123456789";
    let shown = shown_suffix(value);
    let blob = enclave_workshop::client::encode_ciphertext_blob(Some(value.as_bytes().to_vec()))
        .unwrap();
    let stdout = format!("PLAINTEXT: {}\n", blob);
    let answer = decrypt_cipher(finished(true, stdout.as_bytes(), b"")).unwrap();
    assert_eq!(answer, shown);
    assert_eq!(answer, "6789");
}
