use enclave_workshop::decimal::{decimal_text, padded_decimal_text};
use enclave_workshop::forwarder::{
    forward, forward_start, listen_address, ForwardAction, ForwardEvent, ForwardState, ReadResult,
};
use enclave_workshop::hello::hello_line;
use enclave_workshop::ip_ranges::{get_s3_ip_by_region, region_query, region_response, Prefix};
use enclave_workshop::text::trim_text;

fn prefix(ip: &str, region: &str, service: &str) -> Prefix {
    Prefix { ip_prefix: ip.to_string(), region: region.to_string(), service: service.to_string() }
}

fn prefixes() -> Vec<Prefix> {
    vec![
        prefix("52.216.0.0/15", "us-east-1", "S3"),
        prefix("3.5.0.0/19", "us-east-1", "AMAZON"),
        prefix("52.92.16.0/20", "eu-west-1", "S3"),
        prefix("54.231.0.0/16", "us-east-1", "S3"),
    ]
}

#[test]
fn s3_ranges_of_region_in_order() {
    assert_eq!(get_s3_ip_by_region(&prefixes(), "us-east-1"), vec!["52.216.0.0/15", "54.231.0.0/16"]);
    assert_eq!(get_s3_ip_by_region(&prefixes(), "eu-west-1"), vec!["52.92.16.0/20"]);
    assert!(get_s3_ip_by_region(&prefixes(), "ap-south-1").is_empty());
    assert!(get_s3_ip_by_region(&prefixes(), "US-EAST-1").is_empty());
}

#[test]
fn region_response_is_a_json_array() {
    assert_eq!(
        region_response(&prefixes(), "us-east-1").unwrap(),
        b"[\"52.216.0.0/15\",\"54.231.0.0/16\"]".to_vec()
    );
    assert_eq!(region_response(&prefixes(), "nowhere").unwrap(), b"[]".to_vec());
}

#[test]
fn region_response_escapes_strings() {
    let odd = vec![prefix("a\"b\\c\n\u{1}é", "r", "S3")];
    assert_eq!(
        region_response(&odd, "r").unwrap(),
        "[\"a\\\"b\\\\c\\n\\u0001é\"]".as_bytes().to_vec()
    );
}

#[test]
fn region_query_is_trimmed() {
    assert_eq!(region_query(b" us-east-1\n"), Some("us-east-1".to_string()));
    assert_eq!(region_query(b""), None);
    assert_eq!(region_query(b"\t\r\n"), Some(String::new()));
}

#[test]
fn trim_removes_unicode_white_space() {
    assert_eq!(trim_text("\u{3000}\u{a0} a b \u{2029}"), "a b");
    assert_eq!(trim_text("x"), "x");
    assert_eq!(trim_text("   "), "");
}

#[test]
fn forward_copies_chunks_until_end_of_stream() {
    let (state, action) = forward_start();
    assert_eq!((state.clone(), action), (ForwardState::Reading, ForwardAction::Read));
    let (state, action) = forward(state, ForwardEvent::Read(ReadResult::Bytes(10)));
    assert_eq!(action, ForwardAction::Write(10));
    let (state, action) = forward(state, ForwardEvent::Wrote(true));
    assert_eq!(action, ForwardAction::Read);
    let (state, action) = forward(state, ForwardEvent::Read(ReadResult::Bytes(1024)));
    assert_eq!(action, ForwardAction::Write(1024));
    let (state, action) = forward(state, ForwardEvent::Wrote(true));
    assert_eq!(action, ForwardAction::Read);
    let (state, action) = forward(state, ForwardEvent::Read(ReadResult::Bytes(0)));
    assert_eq!((state, action), (ForwardState::Done, ForwardAction::Stop));
}

#[test]
fn forward_stops_on_errors() {
    let (state, action) = forward(ForwardState::Reading, ForwardEvent::Read(ReadResult::Failed));
    assert_eq!((state, action), (ForwardState::Done, ForwardAction::Stop));
    let (state, action) = forward(ForwardState::Writing(3), ForwardEvent::Wrote(false));
    assert_eq!((state.clone(), action), (ForwardState::Done, ForwardAction::Stop));
    let (state, action) = forward(state, ForwardEvent::Read(ReadResult::Bytes(5)));
    assert_eq!((state, action), (ForwardState::Done, ForwardAction::Stop));
}

#[test]
fn forwarder_listen_address() {
    assert_eq!(listen_address("127.0.0.1", 8001), "127.0.0.1:8001");
    assert_eq!(listen_address("0.0.0.0", 0), "0.0.0.0:0");
    assert_eq!(listen_address("::1", 65535), "::1:65535");
}

#[test]
fn decimal_rendering() {
    assert_eq!(decimal_text(0), "0");
    assert_eq!(decimal_text(5000), "5000");
    assert_eq!(decimal_text(u64::MAX), "18446744073709551615");
    assert_eq!(padded_decimal_text(7, 4), "   7");
    assert_eq!(padded_decimal_text(12345, 4), "12345");
}

#[test]
fn hello_lines() {
    assert_eq!(hello_line(1), "[   1] Hello from the enclave side!");
    assert_eq!(hello_line(42), "[  42] Hello from the enclave side!");
    assert_eq!(hello_line(123456), "[123456] Hello from the enclave side!");
}
