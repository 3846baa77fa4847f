use lsp_client::client::{PollOutcome, RpcClient};
use lsp_client::codec::RpcCodec;
use lsp_client::messages::{IncomingMessage, Message, RpcError};
use lsp_client::utils::handle_response;
use lsp_client::worker::Worker;

#[test]
fn typescript_language_server_can_initialize() {
}

/// Feed one server frame through codec, pump and correlator.
fn run_exchange(request_method: &str, server_body: &str) -> PollOutcome {
    let codec = RpcCodec;
    let mut client = RpcClient::new();
    let mut worker = Worker::new();

    let request = Message::new_request(request_method.to_string(), serde_json::Value::Null);
    let id = request.id.clone().unwrap();
    let mut future = client.call(request);

    // the request is framed and written out
    match client.poll(&mut future) {
        PollOutcome::Flushing => {
            let _written = client.outbox.take_all();
        }
        _ => panic!("the request is framed first"),
    }

    // the server answers on stdout
    let body = server_body.replace("<ID>", &id);
    let mut inbound: Vec<u8> = format!("Content-Length: {}\r\n\r\n{}", body.len(), body).into_bytes();
    let message = codec.decode(&mut inbound).unwrap().unwrap();
    assert!(inbound.is_empty());
    worker.process(message, &mut client.responses);

    client.poll(&mut future)
}

#[test]
fn initialize_resolves_to_its_result() {
    let outcome = run_exchange(
        "initialize",
        "{\"jsonrpc\":\"2.0\",\"id\":\"<ID>\",\"result\":{\"capabilities\":{}}}",
    );
    let response = match outcome {
        PollOutcome::Ready(r) => r,
        _ => panic!("the future resolves"),
    };
    let inner = handle_response(response).unwrap();
    let result = inner.expect("the server answered with a result");
    assert_eq!(
        result,
        serde_json::from_str::<serde_json::Value>("{\"capabilities\":{}}").unwrap()
    );
}

#[test]
fn error_response_resolves_to_a_method_error() {
    let outcome = run_exchange(
        "textDocument/definition",
        "{\"jsonrpc\":\"2.0\",\"id\":\"<ID>\",\"error\":{\"code\":-32601,\"message\":\"unknown\"}}",
    );
    let response = match outcome {
        PollOutcome::Ready(r) => r,
        _ => panic!("the future resolves"),
    };
    let inner = handle_response(response).unwrap();
    let error_value = inner.expect_err("the server answered with an error");
    let e = RpcError::from_value(&error_value).unwrap();
    assert_eq!(e.code, -32601);
    assert_eq!(e.message, "unknown");
}

#[test]
fn batch_completes_the_future_and_surfaces_the_notification() {
    let codec = RpcCodec;
    let mut client = RpcClient::new();
    let mut worker = Worker::new();

    let request = Message::new_request("q".to_string(), serde_json::Value::Null);
    let id = request.id.clone().unwrap();
    let mut future = client.call(request);
    match client.poll(&mut future) {
        PollOutcome::Flushing => {
            let _ = client.outbox.take_all();
        }
        _ => panic!("the request is framed first"),
    }

    let body = format!(
        "[{{\"jsonrpc\":\"2.0\",\"id\":\"{}\",\"result\":7}},{{\"jsonrpc\":\"2.0\",\"method\":\"n\",\"params\":null}}]",
        id
    );
    let mut inbound: Vec<u8> =
        format!("Content-Length: {}\r\n\r\n{}", body.len(), body).into_bytes();
    match codec.decode(&mut inbound).unwrap().unwrap() {
        m @ IncomingMessage::MultipleMessages(_) => worker.process(m, &mut client.responses),
        _ => panic!("expected a batch"),
    }

    match client.poll(&mut future) {
        PollOutcome::Ready(r) => {
            assert_eq!(r.result, serde_json::from_str("7").ok());
        }
        _ => panic!("the batched response completes the future"),
    }
    assert_eq!(worker.notifications.next().unwrap().method, "n");
}
