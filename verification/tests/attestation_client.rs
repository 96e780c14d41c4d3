use enclave_workshop::client::{
    imds_token,
    encode_ciphertext_blob, get_cid, get_credentials, get_random_value, get_region,
    identity_document_url, imds_url, kms_key_id, prepare_values_path, role_credentials_url,
    role_name_url, shown_suffix, submit_ciphertext_path, value_lines, ClientError,
    ImdsCredentials,
};
use enclave_workshop::json::{JsonNumber, JsonValue};
use enclave_workshop::text::trim_text;

fn text(s: &str) -> JsonValue {
    JsonValue::Text(s.to_string())
}

fn number(n: Option<u64>) -> JsonValue {
    JsonValue::Number(JsonNumber { as_u64: n })
}

fn object(members: Vec<(&str, JsonValue)>) -> JsonValue {
    JsonValue::Object(members.into_iter().map(|(k, v)| (k.to_string(), v)).collect())
}

#[test]
fn metadata_urls() {
    assert_eq!(imds_url("/latest/api/token"), "http://169.254.169.254/latest/api/token");
    assert_eq!(
        identity_document_url(),
        "http://169.254.169.254/latest/dynamic/instance-identity/document"
    );
    assert_eq!(role_name_url(), "http://169.254.169.254/latest/meta-data/iam/security-credentials/");
    assert_eq!(
        role_credentials_url("my-role"),
        "http://169.254.169.254/latest/meta-data/iam/security-credentials/my-role"
    );
}

#[test]
fn region_from_identity_document() {
    let doc = object(vec![("accountId", text("123")), ("region", text("eu-west-1"))]);
    assert_eq!(get_region(&doc), Ok("eu-west-1".to_string()));
}

#[test]
fn region_missing_or_not_text_is_an_error() {
    let expected = Err(ClientError::Misc("Failed to parse region".to_string()));
    assert_eq!(get_region(&object(vec![("accountId", text("123"))])), expected);
    assert_eq!(get_region(&object(vec![("region", number(Some(1)))])), expected);
    assert_eq!(get_region(&JsonValue::Array(vec![text("region")])), expected);
    assert_eq!(get_region(&JsonValue::Null), expected);
}

#[test]
fn cid_of_first_enclave() {
    let described = JsonValue::Array(vec![
        object(vec![("EnclaveID", text("i-1")), ("EnclaveCID", number(Some(16)))]),
        object(vec![("EnclaveCID", number(Some(17)))]),
    ]);
    assert_eq!(get_cid(&described), Ok(16));
}

#[test]
fn cid_is_cut_to_32_bits() {
    let described = JsonValue::Array(vec![object(vec![("EnclaveCID", number(Some((1u64 << 32) + 5)))])]);
    assert_eq!(get_cid(&described), Ok(5));
}

#[test]
fn cid_missing_is_an_error() {
    let expected = Err(ClientError::Misc("Failed to get Enclave CID".to_string()));
    assert_eq!(get_cid(&JsonValue::Array(vec![])), expected);
    assert_eq!(get_cid(&object(vec![("EnclaveCID", number(Some(16)))])), expected);
    assert_eq!(get_cid(&JsonValue::Array(vec![object(vec![("EnclaveCID", number(None))])])), expected);
    assert_eq!(get_cid(&JsonValue::Array(vec![object(vec![("EnclaveCID", text("16"))])])), expected);
}

#[test]
fn credential_payload_from_parts() {
    let creds = ImdsCredentials {
        access_key_id: "AK".to_string(),
        secret_access_key: "SK".to_string(),
        token: "TK".to_string(),
    };
    let p = get_credentials(creds, "us-east-1", "CIPHER");
    assert_eq!(p.access_key_id, "AK");
    assert_eq!(p.secret_access_key, "SK");
    assert_eq!(p.token, "TK");
    assert_eq!(p.region, "us-east-1");
    assert_eq!(p.ciphertext, "CIPHER");
}

#[test]
fn values_file_lines() {
    let content = b"1111\r\n2222\n\xff\xfe\n\n3333";
    assert_eq!(value_lines(content), vec!["1111", "2222", "", "3333"]);
    assert_eq!(value_lines(b""), Vec::<String>::new());
    assert_eq!(value_lines(b"a\n"), vec!["a"]);
    assert_eq!(value_lines(b"a\r"), vec!["a\r"]);
}

#[test]
fn random_value_is_one_of_the_values() {
    let values = vec!["1111".to_string(), "2222".to_string(), "3333".to_string()];
    for _ in 0..20 {
        let v = get_random_value(&values).unwrap();
        assert!(values.contains(&v));
    }
    assert_eq!(get_random_value(&vec!["only".to_string()]), Ok("only".to_string()));
}

#[test]
fn random_value_of_nothing_is_an_error() {
    assert_eq!(
        get_random_value(&vec![]),
        Err(ClientError::Misc("Values array is empty".to_string()))
    );
}

#[test]
fn required_arguments() {
    assert_eq!(prepare_values_path(Some("values.txt".to_string())), Ok("values.txt".to_string()));
    assert_eq!(
        prepare_values_path(None),
        Err(ClientError::MissingArgument("--values is required for prepare".to_string()))
    );
    assert_eq!(
        submit_ciphertext_path(None),
        Err(ClientError::MissingArgument("--ciphertext is required for submit".to_string()))
    );
    assert_eq!(
        submit_ciphertext_path(Some("string.encrypted".to_string())),
        Ok("string.encrypted".to_string())
    );
}

#[test]
fn key_id_of_alias() {
    assert_eq!(kms_key_id("my-enclave-key"), "alias/my-enclave-key");
}

#[test]
fn ciphertext_blob_is_base64_encoded() {
    assert_eq!(encode_ciphertext_blob(Some(b"hello".to_vec())), Ok("aGVsbG8=".to_string()));
    assert_eq!(encode_ciphertext_blob(Some(vec![0xfb, 0xff])), Ok("+/8=".to_string()));
    assert_eq!(encode_ciphertext_blob(Some(vec![])), Ok(String::new()));
    assert_eq!(
        encode_ciphertext_blob(None),
        Err(ClientError::KmsApi("Missing ciphertext_blob in response".to_string()))
    );
}

#[test]
fn shown_suffix_is_last_four_bytes() {
    assert_eq!(shown_suffix("4111111111112345"), "2345");
    assert_eq!(shown_suffix("123"), "123");
    assert_eq!(shown_suffix("1234"), "1234");
    assert_eq!(shown_suffix("abcdé"), "cdé");
}

#[test]
fn submitted_ciphertext_is_read_back_unchanged() {
    let written = encode_ciphertext_blob(Some(b"secret blob".to_vec())).unwrap();
    let read_back = format!("{}\n", written);
    assert_eq!(trim_text(&read_back), written);
}

#[test]
fn imds_token_needs_success_status() {
    assert_eq!(imds_token(200, Some("tok".to_string())), Some("tok".to_string()));
    assert_eq!(imds_token(299, Some("tok".to_string())), Some("tok".to_string()));
    assert_eq!(imds_token(200, None), None);
    assert_eq!(imds_token(401, Some("tok".to_string())), None);
    assert_eq!(imds_token(300, Some("tok".to_string())), None);
}
