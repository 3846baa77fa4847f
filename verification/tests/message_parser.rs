use lsp_client::message_parser::{content, header, headers, message, HeaderType};

#[test]
fn header_parser_works() {
    let expected = HeaderType::ContentLengthHeader(9000);
    let (actual, used) = header(b"Content-Length: 9000\r\n").unwrap();
    assert_eq!(expected, actual);
    assert_eq!(used, 22);
}

fn valid_headers() -> &'static [u8] {
    "
Content-Length: 1\r
Content-Type: application/vscode-jsonrpc; charset=utf8\r
\r\n
".as_bytes()
}

#[test]
fn headers_parse_works() {
    let (headers, _used) = headers(valid_headers()).unwrap();
    assert_eq!(headers.content_length, 1);
}

fn valid_message() -> &'static [u8] {
    "
Content-Length: 13\r
Content-Type: application/vscode-jsonrpc; charset=utf8\r
\r
{\"foo\": true}
".as_bytes()
}

#[test]
fn content_parser_works() {
    let data = b"It's over 9000!!!";
    let expected = "It's over";
    let result = content(data, 9).unwrap();
    assert_eq!(result, expected.as_bytes());
}

#[test]
fn content_can_read_to_exhaustion() {
    let data = b"It's over 9000!!!";
    let result = content(data, 17).unwrap();
    assert_eq!(result, data);
}

#[test]
fn content_works_with_multibyte_characters() {
    let data = "ワンパタン";
    let result = content(data.as_bytes(), 15).unwrap();
    assert_eq!(result, data.as_bytes());
}

#[test]
fn message_can_parse_a_whole_message() {
    let result = message(valid_message()).unwrap().unwrap();
    let expected: serde_json::Value = serde_json::from_str("{\"foo\": true}").unwrap();
    assert_eq!(result, expected);
}

#[test]
fn header_name_is_case_insensitive() {
    let (h, _) = header(b"CONTENT-LENGTH: 42\r\n").unwrap();
    assert_eq!(h, HeaderType::ContentLengthHeader(42));
    let (h, _) = header(b"content-length: 42\r\n").unwrap();
    assert_eq!(h, HeaderType::ContentLengthHeader(42));
}

#[test]
fn header_with_leading_zeroes_parses() {
    let (h, _) = header(b"Content-Length: 0042\r\n").unwrap();
    assert_eq!(h, HeaderType::ContentLengthHeader(42));
}

#[test]
fn header_with_bad_length_is_invalid() {
    let (h, _) = header(b"Content-Length: 12x\r\n").unwrap();
    assert_eq!(h, HeaderType::Invalid);
    let (h, _) = header(b"Content-Length: \r\n").unwrap();
    assert_eq!(h, HeaderType::Invalid);
}

#[test]
fn header_without_colon_is_refused() {
    assert!(header(b"No colon here\r\n").is_none());
}

#[test]
fn incomplete_header_needs_more() {
    assert!(header(b"Content-Length: 9000").is_none());
    assert!(headers(b"Content-Length: 9000\r\n").is_none());
}

#[test]
fn unknown_headers_are_ignored() {
    let input = b"X-Custom: glorp\r\nContent-Length: 2\r\nAnother: thing\r\n\r\n{}";
    let (hs, used) = headers(input).unwrap();
    assert_eq!(hs.content_length, 2);
    assert_eq!(used, input.len() - 2);
}

#[test]
fn zero_length_payload_is_a_valid_frame() {
    let input = b"Content-Length: 0\r\n\r\n";
    let (hs, used) = headers(input).unwrap();
    assert_eq!(hs.content_length, 0);
    assert_eq!(used, input.len());
}

#[test]
fn first_content_length_wins() {
    let (hs, _) = headers(b"Content-Length: 2\r\nContent-Length: 7\r\n\r\n{}xxxxx").unwrap();
    assert_eq!(hs.content_length, 2);
}
