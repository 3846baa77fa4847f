use lsp_client::codec::RpcCodec;
use lsp_client::error::LspError;
use lsp_client::message_parser::HeaderFault;
use lsp_client::messages::{IncomingMessage, Message};

fn null() -> serde_json::Value {
    serde_json::Value::Null
}

#[test]
fn encoded_notification_decodes_to_itself() {
    let codec = RpcCodec;
    let params: serde_json::Value = serde_json::from_str("{\"uri\":\"file:///x\"}").unwrap();
    let msg = Message::new_notification("textDocument/didOpen".to_string(), params.clone());
    let mut buf: Vec<u8> = Vec::new();
    codec.encode(&msg, &mut buf);
    let decoded = codec.decode(&mut buf).unwrap().unwrap();
    assert!(buf.is_empty());
    match decoded {
        IncomingMessage::Notification(n) => {
            assert_eq!(n.jsonrpc, "2.0");
            assert_eq!(n.method, "textDocument/didOpen");
            assert_eq!(n.params, params);
        }
        _ => panic!("expected a notification"),
    }
}

#[test]
fn encoded_request_round_trips_through_the_frame() {
    let codec = RpcCodec;
    let msg = Message::new_request("initialize".to_string(), null());
    let mut buf: Vec<u8> = Vec::new();
    codec.encode(&msg, &mut buf);
    // the frame is the header and exactly the payload's byte length
    let text = String::from_utf8(buf.clone()).unwrap();
    assert!(text.starts_with("Content-Length: "));
    let value = lsp_client::message_parser::message(&buf).unwrap().unwrap();
    assert_eq!(value["jsonrpc"], serde_json::Value::String("2.0".to_string()));
    assert_eq!(value["method"], serde_json::Value::String("initialize".to_string()));
    assert_eq!(value["params"], null());
    assert_eq!(
        value["id"],
        serde_json::Value::String(msg.id.clone().unwrap())
    );
}

#[test]
fn decoder_consumes_exactly_one_frame_per_call() {
    let codec = RpcCodec;
    let mut buf: Vec<u8> = Vec::new();
    let m1 = Message::new_notification("one".to_string(), null());
    let m2 = Message::new_notification("two".to_string(), null());
    codec.encode(&m1, &mut buf);
    codec.encode(&m2, &mut buf);
    match codec.decode(&mut buf).unwrap().unwrap() {
        IncomingMessage::Notification(n) => assert_eq!(n.method, "one"),
        _ => panic!("expected a notification"),
    }
    assert!(!buf.is_empty());
    match codec.decode(&mut buf).unwrap().unwrap() {
        IncomingMessage::Notification(n) => assert_eq!(n.method, "two"),
        _ => panic!("expected a notification"),
    }
    assert!(buf.is_empty());
}

#[test]
fn partial_header_arrival_needs_more_then_yields() {
    let codec = RpcCodec;
    let mut buf: Vec<u8> = Vec::new();
    buf.extend_from_slice(b"Content-Len");
    assert!(codec.decode(&mut buf).unwrap().is_none());
    assert_eq!(buf, b"Content-Len");
    buf.extend_from_slice(b"gth: 2\r\n\r\n{}X");
    // the frame is consumed; the stray byte stays buffered
    let err = codec.decode(&mut buf);
    match err {
        Err(LspError::Classify) => {}
        _ => panic!("an empty object matches no message shape"),
    }
    assert_eq!(buf, b"X");
}

#[test]
fn every_strict_prefix_needs_more() {
    let codec = RpcCodec;
    let mut whole: Vec<u8> = Vec::new();
    let msg = Message::new_notification("n".to_string(), null());
    codec.encode(&msg, &mut whole);
    for k in 0..whole.len() {
        let mut prefix: Vec<u8> = whole[..k].to_vec();
        assert!(codec.decode(&mut prefix).unwrap().is_none());
        assert_eq!(prefix, &whole[..k]);
    }
}

#[test]
fn unknown_and_content_type_headers_are_tolerated() {
    let codec = RpcCodec;
    let mut buf: Vec<u8> = Vec::new();
    buf.extend_from_slice(
        b"X-Custom: glorp\r\nContent-Type: application/vscode-jsonrpc; charset=utf-8\r\nContent-Length: 044\r\n\r\n{\"jsonrpc\":\"2.0\",\"method\":\"m\",\"params\":null}xxx",
    );
    match codec.decode(&mut buf).unwrap().unwrap() {
        IncomingMessage::Notification(n) => assert_eq!(n.method, "m"),
        _ => panic!("expected a notification"),
    }
    assert_eq!(buf, b"xxx");
}

#[test]
fn missing_colon_is_a_decode_error() {
    let codec = RpcCodec;
    let mut buf: Vec<u8> = Vec::new();
    buf.extend_from_slice(b"No colon here\r\n\r\n");
    match codec.decode(&mut buf) {
        Err(LspError::Decode(HeaderFault::Syntax)) => {}
        _ => panic!("expected a header syntax error"),
    }
}

#[test]
fn non_numeric_length_is_a_decode_error() {
    let codec = RpcCodec;
    let mut buf: Vec<u8> = Vec::new();
    buf.extend_from_slice(b"Content-Length: twelve\r\n\r\n");
    match codec.decode(&mut buf) {
        Err(LspError::Decode(HeaderFault::BadLength)) => {}
        _ => panic!("expected a bad length error"),
    }
}

#[test]
fn missing_length_is_a_decode_error() {
    let codec = RpcCodec;
    let mut buf: Vec<u8> = Vec::new();
    buf.extend_from_slice(b"Content-Type: application/vscode-jsonrpc\r\n\r\n");
    match codec.decode(&mut buf) {
        Err(LspError::Decode(HeaderFault::MissingLength)) => {}
        _ => panic!("expected a missing length error"),
    }
}

#[test]
fn invalid_json_body_is_a_deserialization_error() {
    let codec = RpcCodec;
    let mut buf: Vec<u8> = Vec::new();
    buf.extend_from_slice(b"Content-Length: 3\r\n\r\n{{{");
    match codec.decode(&mut buf) {
        Err(LspError::Deserialization(_)) => {}
        _ => panic!("expected a deserialization error"),
    }
}

#[test]
fn content_length_counts_bytes_not_characters() {
    let codec = RpcCodec;
    let params = serde_json::Value::String("ワンパタン".to_string());
    let msg = Message::new_notification("m".to_string(), params.clone());
    let mut buf: Vec<u8> = Vec::new();
    codec.encode(&msg, &mut buf);
    match codec.decode(&mut buf).unwrap().unwrap() {
        IncomingMessage::Notification(n) => assert_eq!(n.params, params),
        _ => panic!("expected a notification"),
    }
    assert!(buf.is_empty());
}
