use lsp_client::client::ResponseQueue;
use lsp_client::dispatcher::handle_raw_message;
use lsp_client::messages::{IncomingMessage, Notification, ResponseMessage};
use lsp_client::worker::Worker;

fn note(method: &str) -> IncomingMessage {
    IncomingMessage::Notification(Notification {
        jsonrpc: "2.0".to_string(),
        method: method.to_string(),
        params: serde_json::Value::Null,
    })
}

fn resp(id: &str) -> IncomingMessage {
    IncomingMessage::Response(ResponseMessage {
        jsonrpc: "2.0".to_string(),
        id: id.to_string(),
        result: Some(serde_json::Value::Null),
        error: None,
    })
}

#[test]
fn notification_stream_preserves_emission_order() {
    let mut worker = Worker::new();
    let mut responses = ResponseQueue::new();
    worker.process(note("first"), &mut responses);
    worker.process(resp("r1"), &mut responses);
    worker.process(note("second"), &mut responses);
    worker.process(note("third"), &mut responses);

    assert_eq!(worker.notifications.next().unwrap().method, "first");
    assert_eq!(worker.notifications.next().unwrap().method, "second");
    assert_eq!(worker.notifications.next().unwrap().method, "third");
    assert!(worker.notifications.next().is_none());
    assert_eq!(responses.items.len(), 1);
    assert_eq!(responses.items[0].id, "r1");
}

#[test]
fn publish_diagnostics_reaches_the_stream_untouched() {
    let raw: serde_json::Value = serde_json::from_str(
        "{\"jsonrpc\":\"2.0\",\"method\":\"textDocument/publishDiagnostics\",\"params\":{\"uri\":\"file:///x\",\"diagnostics\":[]}}",
    )
    .unwrap();
    let classified = handle_raw_message(raw).unwrap();
    let mut worker = Worker::new();
    let mut responses = ResponseQueue::new();
    worker.process(classified, &mut responses);
    assert_eq!(responses.items.len(), 0);
    let n = worker.notifications.next().unwrap();
    assert_eq!(n.method, "textDocument/publishDiagnostics");
    assert_eq!(
        n.params,
        serde_json::from_str::<serde_json::Value>("{\"uri\":\"file:///x\",\"diagnostics\":[]}").unwrap()
    );
}

#[test]
fn batch_fans_out_in_encounter_order() {
    let raw: serde_json::Value = serde_json::from_str(
        "[{\"jsonrpc\":\"2.0\",\"id\":\"A\",\"result\":1},{\"jsonrpc\":\"2.0\",\"method\":\"n\",\"params\":null}]",
    )
    .unwrap();
    let classified = handle_raw_message(raw).unwrap();
    let mut worker = Worker::new();
    let mut responses = ResponseQueue::new();
    worker.process(classified, &mut responses);
    assert_eq!(responses.items.len(), 1);
    assert_eq!(responses.items[0].id, "A");
    assert_eq!(worker.notifications.next().unwrap().method, "n");
}

#[test]
fn finish_closes_both_queues() {
    let mut worker = Worker::new();
    let mut responses = ResponseQueue::new();
    worker.process(note("pending"), &mut responses);
    worker.finish(&mut responses);
    assert!(responses.closed);
    assert!(worker.notifications.closed);
    // what was already queued is still delivered
    assert_eq!(worker.notifications.next().unwrap().method, "pending");
}
