//! The attestation client: it picks an account value, has KMS encrypt it,
//! and later submits the ciphertext with the instance's credentials to the
//! enclave.

use vstd::prelude::*;
use vstd::string::StringSliceAdditionalSpecFns;
use vstd::utf8::{decode_utf8, encode_utf8, is_char_boundary, valid_utf8};
use crate::base64_codec::{
    base64_standard_decode, base64_standard_encode, encode_base64, is_base64_char,
};
use crate::json::{json_get, json_get_member, strings_view, JsonValue};
use crate::text::{find_byte_from, find_from, lemma_find_from_bounds, utf8_text};

verus! {

/// The address of the instance metadata service.
pub open spec fn imds_base() -> Seq<char> {
    "http://169.254.169.254"@
}

/// The vsock port of the enclave's decryption service.
pub const ENCLAVE_PORT: u32 = 5000;

/// The size of the buffer the enclave's answer is read into.
pub const RESPONSE_BUFFER_LEN: usize = 4096;

/// The number of trailing bytes of the chosen value that are shown.
pub const SHOWN_BYTES: usize = 4;

/// The errors of the client.
#[derive(Debug, Clone, PartialEq, Eq)]
pub enum ClientError {
    Io(String),
    KmsApi(String),
    Reqwest(String),
    Json(String),
    MissingArgument(String),
    Misc(String),
}

/// The metadata service URL of `path`.
pub fn imds_url(path: &str) -> (url: String)
    ensures
        url@ == imds_base() + path@,
{
    String::from_str("http://169.254.169.254").concat(path)
}

/// The session token from the metadata service's answer to a token
/// request: the body of a successful (2xx) answer, else nothing.
pub fn imds_token(status: u16, body: Option<String>) -> (token: Option<String>)
    ensures
        200 <= status < 300 ==> token == body,
        !(200 <= status < 300) ==> token is None,
{
    if 200 <= status && status < 300 {
        body
    } else {
        None
    }
}

/// The metadata service URL of the instance identity document.
pub fn identity_document_url() -> (url: String)
    ensures
        url@ == imds_base() + "/latest/dynamic/instance-identity/document"@,
{
    imds_url("/latest/dynamic/instance-identity/document")
}

/// The metadata service URL that names the instance role.
pub fn role_name_url() -> (url: String)
    ensures
        url@ == imds_base() + "/latest/meta-data/iam/security-credentials/"@,
{
    imds_url("/latest/meta-data/iam/security-credentials/")
}

/// The metadata service URL of the credentials of the role named `role`.
pub fn role_credentials_url(role: &str) -> (url: String)
    ensures
        url@ == imds_base() + "/latest/meta-data/iam/security-credentials/"@ + role@,
{
    let path = String::from_str("/latest/meta-data/iam/security-credentials/").concat(role);
    imds_url(path.as_str())
}

/// The instance's region, read from the `region` member of its identity
/// document; an error when the document has no such text member.
pub fn get_region(document: &JsonValue) -> (r: Result<String, ClientError>)
    ensures
        match json_get(*document, "region"@) {
            Some(JsonValue::Text(region)) => r matches Ok(s) && s@ == region@,
            _ => r matches Err(ClientError::Misc(m)) && m@ == "Failed to parse region"@,
        },
{
    match json_get_member(document, "region") {
        Some(JsonValue::Text(region)) => Ok(region.clone()),
        _ => Err(ClientError::Misc(String::from_str("Failed to parse region"))),
    }
}

/// The `EnclaveCID` member of the first element of `described`, when it is a
/// non-negative integer that fits in a `u64`.
pub open spec fn described_cid(described: JsonValue) -> Option<u64> {
    match described {
        JsonValue::Array(items) => if items@.len() > 0 {
            match json_get(items@[0], "EnclaveCID"@) {
                Some(JsonValue::Number(n)) => n.as_u64,
                _ => None,
            }
        } else {
            None
        },
        _ => None,
    }
}

/// The enclave's CID, from the output of `nitro-cli describe-enclaves`: the
/// `EnclaveCID` of the first enclave listed, cut to 32 bits.
pub fn get_cid(described: &JsonValue) -> (r: Result<u32, ClientError>)
    ensures
        match described_cid(*described) {
            Some(cid) => r == Ok::<u32, ClientError>(cid as u32),
            None => r matches Err(ClientError::Misc(m)) && m@ == "Failed to get Enclave CID"@,
        },
{
    let found: Option<u64> = match described {
        JsonValue::Array(items) => {
            if items.len() > 0 {
                match json_get_member(&items[0], "EnclaveCID") {
                    Some(JsonValue::Number(n)) => n.as_u64,
                    _ => None,
                }
            } else {
                None
            }
        },
        _ => None,
    };
    match found {
        Some(cid) => Ok(cid as u32),
        None => Err(ClientError::Misc(String::from_str("Failed to get Enclave CID"))),
    }
}

/// The credentials the metadata service hands out for the instance role.
#[derive(Debug, Clone, PartialEq, Eq)]
pub struct ImdsCredentials {
    pub access_key_id: String,
    pub secret_access_key: String,
    pub token: String,
}

/// What the client sends to the enclave.
#[derive(Debug, Clone, PartialEq, Eq)]
pub struct CredentialPayload {
    pub access_key_id: String,
    pub secret_access_key: String,
    pub token: String,
    pub region: String,
    pub ciphertext: String,
}

/// The payload for the enclave: the role's credentials, the region and the
/// ciphertext.
pub fn get_credentials(creds: ImdsCredentials, region: &str, ciphertext: &str) -> (p:
    CredentialPayload)
    ensures
        p.access_key_id == creds.access_key_id,
        p.secret_access_key == creds.secret_access_key,
        p.token == creds.token,
        p.region@ == region@,
        p.ciphertext@ == ciphertext@,
{
    CredentialPayload {
        access_key_id: creds.access_key_id,
        secret_access_key: creds.secret_access_key,
        token: creds.token,
        region: String::from_str(region),
        ciphertext: String::from_str(ciphertext),
    }
}

/// `line` without one trailing carriage return.
pub open spec fn strip_cr(line: Seq<u8>) -> Seq<u8> {
    if line.len() > 0 && line.last() == 13u8 {
        line.drop_last()
    } else {
        line
    }
}

/// The lines of `content` as `BufRead::lines` reads them: split at each
/// newline, a trailing carriage return removed from each terminated line,
/// and no empty line after a final newline.
pub open spec fn read_lines(content: Seq<u8>) -> Seq<Seq<u8>>
    decreases content.len(),
{
    if content.len() == 0 {
        seq![]
    } else {
        let i = find_from(content, 10u8, 0);
        if i >= content.len() {
            seq![content]
        } else {
            seq![strip_cr(content.take(i as int))] + read_lines(content.skip(i + 1 as int))
        }
    }
}

/// The line decoded, when it is valid UTF-8.
pub open spec fn utf8_line(line: Seq<u8>) -> Option<Seq<char>> {
    if valid_utf8(line) {
        Some(decode_utf8(line))
    } else {
        None
    }
}

/// The lines among `lines` that are valid UTF-8, decoded, in order.
pub open spec fn text_lines(lines: Seq<Seq<u8>>) -> Seq<Seq<char>> {
    lines.filter_map(|l: Seq<u8>| utf8_line(l))
}

/// The lines of the values file that are valid UTF-8, as the client reads
/// them; lines that are not are skipped.
pub fn value_lines(content: &[u8]) -> (lines: Vec<String>)
    ensures
        strings_view(lines@) == text_lines(read_lines(content@)),
        !content@.contains(13u8) && valid_utf8(content@) ==> crate::laws::join_lines(
            crate::laws::encode_lines(strings_view(lines@)),
        ) + crate::laws::final_newline(content@) == content@,
{
    let mut lines: Vec<String> = Vec::new();
    let ghost mut raw: Seq<Seq<u8>> = seq![];
    let mut pos: usize = 0;
    assert(content@.skip(0) =~= content@);
    while pos < content.len()
        invariant
            pos <= content.len(),
            read_lines(content@) == raw + read_lines(content@.skip(pos as int)),
            strings_view(lines@) == text_lines(raw),
        decreases content.len() - pos,
    {
        let rest = slice_range_bytes(content, pos, content.len());
        assert(rest@ =~= content@.skip(pos as int));
        let i = find_byte_from(rest.as_slice(), 10u8, 0);
        proof {
            lemma_find_from_bounds(rest@, 10u8, 0);
        }
        let line: Vec<u8>;
        let next: usize;
        if i == rest.len() {
            line = rest;
            next = content.len();
            proof {
                assert(read_lines(content@.skip(pos as int)) == seq![line@]);
                assert(content@.skip(next as int) =~= Seq::<u8>::empty());
            }
        } else {
            let mut l = slice_range_bytes(rest.as_slice(), 0, i);
            if l.len() > 0 && l[l.len() - 1] == 13u8 {
                l.pop();
            }
            line = l;
            next = pos + i + 1;
            proof {
                assert(rest@.subrange(0, i as int) =~= rest@.take(i as int));
                assert(rest@.skip(i + 1) =~= content@.skip(next as int));
                assert(read_lines(content@.skip(pos as int)) == seq![line@] + read_lines(
                    content@.skip(next as int),
                ));
            }
        }
        let ghost old_raw = raw;
        proof {
            raw = raw.push(line@);
            assert(raw.drop_last() =~= old_raw);
            assert(read_lines(content@) =~= raw + read_lines(content@.skip(next as int)));
        }
        match utf8_text(line.as_slice()) {
            Some(s) => {
                lines.push(s);
                assert(strings_view(lines@) =~= text_lines(raw));
            },
            None => {},
        }
        pos = next;
    }
    assert(content@.skip(pos as int) =~= Seq::<u8>::empty());
    assert(raw + Seq::<Seq<u8>>::empty() =~= raw);
    proof {
        if !content@.contains(13u8) && valid_utf8(content@) {
            crate::laws::law_values_are_whole_lines(content@);
        }
    }
    lines
}

/// The bytes `s[from..to]`, copied.
fn slice_range_bytes(s: &[u8], from: usize, to: usize) -> (r: Vec<u8>)
    requires
        from <= to <= s.len(),
    ensures
        r@ == s@.subrange(from as int, to as int),
{
    let mut r: Vec<u8> = Vec::new();
    let mut k: usize = from;
    while k < to
        invariant
            from <= k <= to <= s.len(),
            r@ == s@.subrange(from as int, k as int),
        decreases to - k,
    {
        r.push(s[k]);
        k = k + 1;
        assert(r@ =~= s@.subrange(from as int, k as int));
    }
    r
}

/// `IndexedRandom::choose` from `rand` with the thread-local generator
/// (`rand::rng()`): nothing when `items` is empty, else a copy of one of
/// them. Which one is chance.
#[verifier::external_body]
fn choose_random(items: &Vec<String>) -> (r: Option<String>)
    ensures
        r is None <==> items@.len() == 0,
        r is Some ==> exists|i: int| 0 <= i < items@.len() && items@[i]@ == r->Some_0@,
{
    rand::seq::IndexedRandom::choose(items.as_slice(), &mut rand::rng()).cloned()
}

/// One of the values, picked at random; an error when there are none.
pub fn get_random_value(values: &Vec<String>) -> (r: Result<String, ClientError>)
    ensures
        values@.len() == 0 ==> (r matches Err(ClientError::Misc(m)) && m@
            == "Values array is empty"@),
        values@.len() > 0 ==> (r matches Ok(v) && exists|i: int|
            0 <= i < values@.len() && values@[i]@ == v@),
{
    match choose_random(values) {
        Some(v) => Ok(v),
        None => Err(ClientError::Misc(String::from_str("Values array is empty"))),
    }
}

/// The path of the values file, which `prepare` requires.
pub fn prepare_values_path(values: Option<String>) -> (r: Result<String, ClientError>)
    ensures
        match values {
            Some(p) => r matches Ok(q) && q == p,
            None => r matches Err(ClientError::MissingArgument(m)) && m@
                == "--values is required for prepare"@,
        },
{
    match values {
        Some(p) => Ok(p),
        None => Err(
            ClientError::MissingArgument(String::from_str("--values is required for prepare")),
        ),
    }
}

/// The path of the ciphertext file, which `submit` requires.
pub fn submit_ciphertext_path(ciphertext: Option<String>) -> (r: Result<String, ClientError>)
    ensures
        match ciphertext {
            Some(p) => r matches Ok(q) && q == p,
            None => r matches Err(ClientError::MissingArgument(m)) && m@
                == "--ciphertext is required for submit"@,
        },
{
    match ciphertext {
        Some(p) => Ok(p),
        None => Err(
            ClientError::MissingArgument(String::from_str("--ciphertext is required for submit")),
        ),
    }
}

/// The KMS key id of the key alias `alias`.
pub fn kms_key_id(alias: &str) -> (id: String)
    ensures
        id@ == "alias/"@ + alias@,
{
    String::from_str("alias/").concat(alias)
}

/// The base64 text of the ciphertext KMS returned; an error when the
/// response held none.
pub fn encode_ciphertext_blob(blob: Option<Vec<u8>>) -> (r: Result<String, ClientError>)
    requires
        blob matches Some(b) ==> b.len() <= usize::MAX / 2,
    ensures
        match blob {
            Some(b) => r matches Ok(t) && t@ == base64_standard_encode(b@)
                && base64_standard_decode(t@) == Ok::<Seq<u8>, Seq<char>>(b@)
                && forall|i: int| 0 <= i < t@.len() ==> is_base64_char(#[trigger] t@[i]),
            None => r matches Err(ClientError::KmsApi(m)) && m@
                == "Missing ciphertext_blob in response"@,
        },
{
    match blob {
        Some(b) => Ok(encode_base64(b.as_slice())),
        None => Err(ClientError::KmsApi(String::from_str("Missing ciphertext_blob in response"))),
    }
}

/// The bytes of `value` that the client shows: its last four, or all of it
/// when it is shorter.
pub open spec fn shown_bytes(value: Seq<u8>) -> Seq<u8> {
    if value.len() >= SHOWN_BYTES {
        value.skip(value.len() - SHOWN_BYTES)
    } else {
        value
    }
}

/// The part of the chosen value that is shown: its last four bytes, or all
/// of it when it is shorter. Those four bytes must start a character.
pub fn shown_suffix(value: &str) -> (shown: String)
    requires
        value.spec_bytes().len() >= SHOWN_BYTES ==> is_char_boundary(
            value.spec_bytes(),
            value.spec_bytes().len() - SHOWN_BYTES,
        ),
    ensures
        encode_utf8(shown@) == shown_bytes(value.spec_bytes()),
{
    let bytes = value.as_bytes();
    let n = bytes.len();
    if n >= SHOWN_BYTES {
        let (_, tail) = value.split_at(n - SHOWN_BYTES);
        assert(value.spec_bytes().subrange((n - SHOWN_BYTES) as int, value.spec_bytes().len() as int)
            =~= value.spec_bytes().skip(n - SHOWN_BYTES));
        tail.to_owned()
    } else {
        value.to_owned()
    }
}

} // verus!
