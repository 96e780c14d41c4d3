//! The enclave's decryption service: it runs `kmstool_enclave_cli` with the
//! caller's credentials, decodes the plaintext it prints, and answers with
//! no more than the plaintext's last four characters.

use vstd::prelude::*;
use crate::base64_codec::{base64_standard_decode, decode_base64, decoded_view};
use crate::decimal::{decimal, decimal_text};
use crate::json::strings_view;
use crate::text::{
    chars_of, decode_utf8_lossy, last_chars, last_chars_of, second_field, second_field_of,
    string_from_chars, trim, trim_chars, utf8_lossy,
};

verus! {

/// The vsock port the enclave listens on.
pub const ENCLAVE_PORT: u32 = 5000;

/// The size of the buffer a request is read into.
pub const REQUEST_BUFFER_LEN: usize = 4096;

/// The number of trailing plaintext characters the enclave reveals.
pub const REVEALED_CHARS: usize = 4;

/// The credentials and ciphertext that the client sends.
#[derive(Debug, Clone, PartialEq, Eq)]
pub struct Credentials {
    pub access_key_id: String,
    pub secret_access_key: String,
    pub token: String,
    pub ciphertext: String,
    pub region: String,
}

/// How a run of `kmstool_enclave_cli` ended.
#[derive(Debug, Clone, PartialEq, Eq)]
pub enum KmstoolRun {
    /// The tool could not be started; the text of the I/O error.
    NotStarted(String),
    /// The tool ran; whether it exited successfully, and what it printed.
    Finished { success: bool, stdout: Vec<u8>, stderr: Vec<u8> },
}

/// The errors of the enclave service.
#[derive(Debug, Clone, PartialEq, Eq)]
pub enum ServerError {
    Bind { port: u32, source: String },
    Io(String),
    Serialization(String),
    KmsDecryptionFailed(String),
}

/// The abstract value of a [`ServerError`].
pub enum ServerErrorView {
    Bind { port: u32, source: Seq<char> },
    Io(Seq<char>),
    Serialization(Seq<char>),
    KmsDecryptionFailed(Seq<char>),
}

impl View for ServerError {
    type V = ServerErrorView;

    open spec fn view(&self) -> ServerErrorView {
        match self {
            ServerError::Bind { port, source } => ServerErrorView::Bind { port: *port, source: source@ },
            ServerError::Io(s) => ServerErrorView::Io(s@),
            ServerError::Serialization(s) => ServerErrorView::Serialization(s@),
            ServerError::KmsDecryptionFailed(s) => ServerErrorView::KmsDecryptionFailed(s@),
        }
    }
}

/// The text an error is displayed with.
pub open spec fn server_error_message(e: ServerErrorView) -> Seq<char> {
    match e {
        ServerErrorView::Bind { port, source } =>
            "VSOCK bind failed on port "@ + decimal(port as nat) + ": "@ + source,
        ServerErrorView::Io(s) => "I/O Error: "@ + s,
        ServerErrorView::Serialization(s) => "Serialization Error: "@ + s,
        ServerErrorView::KmsDecryptionFailed(s) => "KMS Decryption Failed: "@ + s,
    }
}

impl ServerError {
    /// The text this error is displayed with.
    pub fn message(&self) -> (m: String)
        ensures
            m@ == server_error_message(self@),
    {
        match self {
            ServerError::Bind { port, source } => {
                let mut m = String::from_str("VSOCK bind failed on port ");
                let digits = decimal_text(*port as u64);
                m.append(digits.as_str());
                m.append(": ");
                m.append(source.as_str());
                m
            },
            ServerError::Io(s) => String::from_str("I/O Error: ").concat(s.as_str()),
            ServerError::Serialization(s) => String::from_str("Serialization Error: ").concat(
                s.as_str(),
            ),
            ServerError::KmsDecryptionFailed(s) => String::from_str(
                "KMS Decryption Failed: ",
            ).concat(s.as_str()),
        }
    }
}

/// The abstract value of a decryption result.
pub open spec fn plaintext_result_view(r: Result<String, ServerError>) -> Result<
    Seq<char>,
    ServerErrorView,
> {
    match r {
        Ok(s) => Ok(s@),
        Err(e) => Err(e@),
    }
}

/// The last four characters of the text `plaintext`.
pub open spec fn revealed_tail(plaintext: Seq<char>) -> Seq<char> {
    last_chars(plaintext, REVEALED_CHARS as nat)
}

/// What the enclave makes of the base64 decoding of the plaintext: the last
/// four characters of the decoded text, or the decoding error.
pub open spec fn plaintext_tail_spec(decoded: Result<Seq<u8>, Seq<char>>) -> Result<
    Seq<char>,
    ServerErrorView,
> {
    match decoded {
        Ok(bytes) => Ok(revealed_tail(utf8_lossy(bytes))),
        Err(msg) => Err(ServerErrorView::KmsDecryptionFailed("Base64 decode error: "@ + msg)),
    }
}

/// What the enclave makes of the standard output of a successful run: the
/// text after the first `:` (up to the next one), trimmed, base64-decoded,
/// read as UTF-8, and cut to its last four characters.
pub open spec fn kmstool_output_tail(stdout: Seq<u8>) -> Result<Seq<char>, ServerErrorView> {
    match second_field(utf8_lossy(stdout), ':') {
        None => Err(
            ServerErrorView::KmsDecryptionFailed("Malformed output from kmstool: missing colon"@),
        ),
        Some(field) => plaintext_tail_spec(base64_standard_decode(trim(field))),
    }
}

/// The outcome of decrypting with `kmstool_enclave_cli`, given how the run
/// ended.
pub open spec fn decrypt_spec(run: KmstoolRun) -> Result<Seq<char>, ServerErrorView> {
    match run {
        KmstoolRun::NotStarted(e) => Err(ServerErrorView::Io(e@)),
        KmstoolRun::Finished { success, stdout, stderr } => if success {
            kmstool_output_tail(stdout@)
        } else {
            Err(ServerErrorView::KmsDecryptionFailed("KMS Error: "@ + utf8_lossy(stderr@)))
        },
    }
}

/// The arguments `kmstool_enclave_cli` is run with to decrypt the ciphertext
/// with the given credentials.
pub open spec fn kmstool_args_spec(c: Credentials) -> Seq<Seq<char>> {
    seq![
        "decrypt"@,
        "--region"@,
        c.region@,
        "--aws-access-key-id"@,
        c.access_key_id@,
        "--aws-secret-access-key"@,
        c.secret_access_key@,
        "--aws-session-token"@,
        c.token@,
        "--ciphertext"@,
        c.ciphertext@,
    ]
}

/// The command line for `kmstool_enclave_cli decrypt` with these credentials.
pub fn kmstool_decrypt_args(creds: &Credentials) -> (args: Vec<String>)
    ensures
        strings_view(args@) == kmstool_args_spec(*creds),
{
    let mut args: Vec<String> = Vec::new();
    args.push(String::from_str("decrypt"));
    args.push(String::from_str("--region"));
    args.push(creds.region.clone());
    args.push(String::from_str("--aws-access-key-id"));
    args.push(creds.access_key_id.clone());
    args.push(String::from_str("--aws-secret-access-key"));
    args.push(creds.secret_access_key.clone());
    args.push(String::from_str("--aws-session-token"));
    args.push(creds.token.clone());
    args.push(String::from_str("--ciphertext"));
    args.push(creds.ciphertext.clone());
    assert(strings_view(args@) =~= kmstool_args_spec(*creds));
    args
}

/// The last four characters of `text`, or all of it when it is shorter.
pub fn last_four(text: &str) -> (r: String)
    ensures
        r@ == revealed_tail(text@),
{
    let chars = chars_of(text);
    let tail = last_chars_of(chars.as_slice(), REVEALED_CHARS);
    string_from_chars(tail.as_slice())
}

/// What follows the base64 decoding of the plaintext: the last four
/// characters of the decoded text, or the decoding error.
pub fn plaintext_tail(decoded: Result<Vec<u8>, String>) -> (r: Result<String, ServerError>)
    ensures
        plaintext_result_view(r) == plaintext_tail_spec(decoded_view(decoded)),
{
    match decoded {
        Ok(bytes) => {
            let plaintext = decode_utf8_lossy(bytes.as_slice());
            Ok(last_four(plaintext.as_str()))
        },
        Err(msg) => {
            let m = String::from_str("Base64 decode error: ").concat(msg.as_str());
            Err(ServerError::KmsDecryptionFailed(m))
        },
    }
}

/// The last four characters of the plaintext that `kmstool_enclave_cli`
/// printed (base64-encoded, after a `:`) on a successful run, or the error:
/// the tool did not start, it failed (with what it printed on standard
/// error), its output held no `:`, or the text after it was not base64.
pub fn decrypt_cipher(run: KmstoolRun) -> (r: Result<String, ServerError>)
    ensures
        plaintext_result_view(r) == decrypt_spec(run),
{
    match run {
        KmstoolRun::NotStarted(e) => Err(ServerError::Io(e)),
        KmstoolRun::Finished { success, stdout, stderr } => {
            if success {
                let text = decode_utf8_lossy(stdout.as_slice());
                let chars = chars_of(text.as_str());
                match second_field_of(chars.as_slice(), ':') {
                    None => Err(
                        ServerError::KmsDecryptionFailed(
                            String::from_str("Malformed output from kmstool: missing colon"),
                        ),
                    ),
                    Some(field) => {
                        let trimmed = trim_chars(field.as_slice());
                        let b64 = string_from_chars(trimmed.as_slice());
                        plaintext_tail(decode_base64(b64.as_str()))
                    },
                }
            } else {
                let err_text = decode_utf8_lossy(stderr.as_slice());
                let m = String::from_str("KMS Error: ").concat(err_text.as_str());
                Err(ServerError::KmsDecryptionFailed(m))
            }
        },
    }
}

/// The enclave's answer: the revealed characters, or what went wrong.
#[derive(Debug, Clone, PartialEq, Eq)]
pub struct ResponsePayload {
    pub last_four: Option<String>,
    pub error: Option<String>,
}

/// An answer carries exactly one of the revealed characters and an error.
pub open spec fn response_well_formed(r: ResponsePayload) -> bool {
    r.last_four is Some != r.error is Some
}

/// The answer to a decryption: the revealed characters, or the error text
/// after "KMS Error. Decryption Failed. ".
pub fn response_for(decrypted: Result<String, ServerError>) -> (r: ResponsePayload)
    ensures
        response_well_formed(r),
        match decrypted {
            Ok(tail) => r.last_four == Some(tail),
            Err(e) => r.error matches Some(m) && m@ == "KMS Error. Decryption Failed. "@
                + server_error_message(e@),
        },
{
    match decrypted {
        Ok(tail) => ResponsePayload { last_four: Some(tail), error: None },
        Err(e) => {
            let text = e.message();
            let m = String::from_str("KMS Error. Decryption Failed. ").concat(text.as_str());
            ResponsePayload { last_four: None, error: Some(m) }
        },
    }
}

/// The answer sent when a request cannot be handled: the error's text.
pub fn error_response(e: &ServerError) -> (r: ResponsePayload)
    ensures
        response_well_formed(r),
        r.last_four is None,
        r.error matches Some(m) && m@ == server_error_message(e@),
{
    ResponsePayload { last_four: None, error: Some(e.message()) }
}

/// What a request asks the enclave to run: `kmstool_enclave_cli decrypt`
/// with the request's credentials; a serialization error, with the parser's
/// text, when the request was not a credentials document.
pub fn handle_request(parsed: Result<Credentials, String>) -> (r: Result<Vec<String>, ServerError>)
    ensures
        match parsed {
            Ok(creds) => r matches Ok(args) && strings_view(args@) == kmstool_args_spec(creds),
            Err(msg) => r matches Err(e) && e@ == ServerErrorView::Serialization(msg@),
        },
{
    match parsed {
        Ok(creds) => Ok(kmstool_decrypt_args(&creds)),
        Err(msg) => Err(ServerError::Serialization(msg)),
    }
}

/// How a read of a request ended: the number of bytes, or the error's text.
#[derive(Debug, Clone, PartialEq, Eq)]
pub enum RequestRead {
    Received(usize),
    Failed(String),
}

/// The length of the request to handle: the bytes received, when there are
/// some; nothing for an empty read or a failed one.
pub fn request_length(read: RequestRead) -> (n: Option<usize>)
    ensures
        match read {
            RequestRead::Received(k) => if k > 0 { n == Some(k) } else { n is None },
            RequestRead::Failed(_) => n is None,
        },
{
    match read {
        RequestRead::Received(k) => if k > 0 { Some(k) } else { None },
        RequestRead::Failed(_) => None,
    }
}

} // verus!
