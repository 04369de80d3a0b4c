use ferris_bot::protocol::{
    DescribeResponse, ExecuteRequest, ExecuteResponse, ExecuteStatus, Language, RegisterRequest,
    RegisterResponse,
};
use ferris_bot::wire;

#[test]
fn varint_single_byte() {
    let mut out = Vec::new();
    wire::encode_varint(5, &mut out);
    assert_eq!(out, vec![5]);
    assert_eq!(wire::decode_varint(&out, 0), Some((5, 1)));
}

#[test]
fn varint_multi_byte() {
    let mut out = Vec::new();
    wire::encode_varint(300, &mut out);
    assert_eq!(out, vec![0xAC, 0x02]);
    assert_eq!(wire::decode_varint(&out, 0), Some((300, 2)));
}

#[test]
fn varint_large_value() {
    let mut out = Vec::new();
    wire::encode_varint(u64::MAX, &mut out);
    let (value, next) = wire::decode_varint(&out, 0).unwrap();
    assert_eq!(value, u64::MAX);
    assert_eq!(next, out.len());
}

#[test]
fn varint_decode_truncated_fails() {
    // a continuation byte with nothing after it
    assert_eq!(wire::decode_varint(&[0x80], 0), None);
}

#[test]
fn register_request_round_trip() {
    let m = RegisterRequest { host: "runner-7".to_string(), port: "50051".to_string() };
    let mut out = Vec::new();
    wire::encode_register_request(&m, &mut out);
    let (back, next) = wire::decode_register_request(&out, 0).unwrap();
    assert_eq!(back.host, "runner-7");
    assert_eq!(back.port, "50051");
    assert_eq!(next, out.len());
}

#[test]
fn register_request_survives_unicode() {
    let m = RegisterRequest { host: "héllo-⚙".to_string(), port: "1".to_string() };
    let mut out = Vec::new();
    wire::encode_register_request(&m, &mut out);
    let (back, _) = wire::decode_register_request(&out, 0).unwrap();
    assert_eq!(back.host, "héllo-⚙");
}

#[test]
fn register_response_round_trip() {
    let m = RegisterResponse { nodeid: 42 };
    let mut out = Vec::new();
    wire::encode_register_response(&m, &mut out);
    let (back, next) = wire::decode_register_response(&out, 0).unwrap();
    assert_eq!(back.nodeid, 42);
    assert_eq!(next, out.len());
}

#[test]
fn register_response_round_trip_negative() {
    let m = RegisterResponse { nodeid: -7 };
    let mut out = Vec::new();
    wire::encode_register_response(&m, &mut out);
    let (back, _) = wire::decode_register_response(&out, 0).unwrap();
    assert_eq!(back.nodeid, -7);
}

#[test]
fn describe_response_round_trip() {
    let m = DescribeResponse { host: "node-3".to_string() };
    let mut out = Vec::new();
    wire::encode_describe_response(&m, &mut out);
    let (back, next) = wire::decode_describe_response(&out, 0).unwrap();
    assert_eq!(back.host, "node-3");
    assert_eq!(next, out.len());
}

#[test]
fn execute_request_round_trip() {
    let m = ExecuteRequest {
        language: Language::LangRust,
        program: "fn main() { println!(\"hi\"); }".to_string(),
        args: String::new(),
    };
    let mut out = Vec::new();
    wire::encode_execute_request(&m, &mut out);
    let (back, next) = wire::decode_execute_request(&out, 0).unwrap();
    assert_eq!(back.language, Language::LangRust);
    assert_eq!(back.program, "fn main() { println!(\"hi\"); }");
    assert_eq!(back.args, "");
    assert_eq!(next, out.len());
}

#[test]
fn execute_response_round_trip() {
    let m = ExecuteResponse {
        retcode: -1,
        stdout: "partial".to_string(),
        stderr: "deadline".to_string(),
        status: ExecuteStatus::Timeout,
        duration: 30000,
    };
    let mut out = Vec::new();
    wire::encode_execute_response(&m, &mut out);
    let (back, next) = wire::decode_execute_response(&out, 0).unwrap();
    assert_eq!(back.retcode, -1);
    assert_eq!(back.stdout, "partial");
    assert_eq!(back.stderr, "deadline");
    assert_eq!(back.status, ExecuteStatus::Timeout);
    assert_eq!(back.duration, 30000);
    assert_eq!(next, out.len());
}

#[test]
fn decode_rejects_wrong_message() {
    let m = RegisterRequest { host: "a".to_string(), port: "b".to_string() };
    let mut out = Vec::new();
    wire::encode_register_request(&m, &mut out);
    // a registration request does not read back as a registration response
    assert!(wire::decode_register_response(&out, 0).is_none());
}

#[test]
fn decode_ignores_trailing_bytes() {
    let m = RegisterResponse { nodeid: 3 };
    let mut out = Vec::new();
    wire::encode_register_response(&m, &mut out);
    let message_len = out.len();
    out.extend_from_slice(&[9, 9, 9]);
    let (back, next) = wire::decode_register_response(&out, 0).unwrap();
    assert_eq!(back.nodeid, 3);
    assert_eq!(next, message_len);
}

#[test]
fn decode_truncated_message_fails() {
    let m = RegisterRequest { host: "abcdef".to_string(), port: "123".to_string() };
    let mut out = Vec::new();
    wire::encode_register_request(&m, &mut out);
    out.truncate(4);
    assert!(wire::decode_register_request(&out, 0).is_none());
}
