use lsp_client::client::{PollOutcome, RpcClient};
use lsp_client::messages::{Message, ResponseMessage};

fn null() -> serde_json::Value {
    serde_json::Value::Null
}

fn response_to(m: &Message, result: &str) -> ResponseMessage {
    ResponseMessage {
        jsonrpc: "2.0".to_string(),
        id: m.id.clone().unwrap(),
        result: Some(serde_json::Value::String(result.to_string())),
        error: None,
    }
}

fn drive_to_flushed(client: &mut RpcClient, h: &mut lsp_client::client::RequestHandle) {
    loop {
        match client.poll(h) {
            PollOutcome::Flushing => {
                let _bytes = client.outbox.take_all();
            }
            _ => break,
        }
    }
}

#[test]
fn rpc_client_can_be_called() {
    let mut client = RpcClient::new();
    let request = Message::new_request("test_method".to_string(), null());
    let mut handle = client.call(request);
    // the first poll frames the request; the writer then owes bytes
    match client.poll(&mut handle) {
        PollOutcome::Flushing => {}
        _ => panic!("expected the request to be framed first"),
    }
    let bytes = client.outbox.take_all();
    let text = String::from_utf8(bytes).unwrap();
    assert!(text.starts_with("Content-Length: "));
    assert!(text.contains("test_method"));
}

#[test]
fn rpc_client_can_match_responses_to_requests() {
    let mut client = RpcClient::new();

    let request = Message::new_request("test_method".to_string(), null());
    let response = response_to(&request, "never gonna give you up");
    let mut future = client.call(request);

    let request_2 = Message::new_request("rickroll".to_string(), null());
    let response_2 = response_to(&request_2, "never gonna let you down");
    let mut future_2 = client.call(request_2);

    drive_to_flushed(&mut client, &mut future_2);
    drive_to_flushed(&mut client, &mut future);

    // the server answers in the opposite order of submission
    client.responses.push(response_2.clone());
    client.responses.push(response.clone());

    // the head of the queue belongs to future_2; future must wait
    match client.poll(&mut future) {
        PollOutcome::Pending => {}
        _ => panic!("future must block until future_2 takes the head"),
    }
    let got_2 = match client.poll(&mut future_2) {
        PollOutcome::Ready(r) => r,
        _ => panic!("future_2's response is at the head"),
    };
    assert_eq!(got_2.id, response_2.id);
    assert_eq!(got_2.result, response_2.result);
    let got = match client.poll(&mut future) {
        PollOutcome::Ready(r) => r,
        _ => panic!("future's response is at the head now"),
    };
    assert_eq!(got.id, response.id);
    assert_eq!(got.result, response.result);
}

#[test]
fn transport_close_propagates() {
    let mut client = RpcClient::new();

    let request = Message::new_request("answered".to_string(), null());
    let response = response_to(&request, "ok");
    let mut answered = client.call(request);

    let request_2 = Message::new_request("orphaned".to_string(), null());
    let mut orphaned = client.call(request_2);

    drive_to_flushed(&mut client, &mut answered);
    drive_to_flushed(&mut client, &mut orphaned);

    // the child answers once, then its stdout closes
    client.responses.push(response);
    client.responses.close();

    match client.poll(&mut answered) {
        PollOutcome::Ready(r) => assert_eq!(r.result, Some(serde_json::Value::String("ok".to_string()))),
        _ => panic!("the answered request completes"),
    }
    match client.poll(&mut orphaned) {
        PollOutcome::Closed => {}
        _ => panic!("the orphaned request observes the closed transport"),
    }
}

#[test]
fn notify_frames_without_awaiting() {
    let mut client = RpcClient::new();
    let note = Message::new_notification("exit".to_string(), null());
    client.notify(&note);
    let text = String::from_utf8(client.outbox.take_all()).unwrap();
    assert!(text.contains("\"exit\""));
    assert!(!text.contains("\"id\""));
}

#[test]
fn outbox_partial_writes_keep_the_tail() {
    let mut client = RpcClient::new();
    let note = Message::new_notification("m".to_string(), null());
    client.notify(&note);
    let before = client.outbox.buf.clone();
    client.outbox.consumed(5);
    assert_eq!(&client.outbox.buf[..], &before[5..]);
}
