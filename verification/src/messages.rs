//! The JSON-RPC message shapes: the outgoing envelope, the two inbound
//! shapes, the error payload of a failed call, and the classified inbound
//! variant the dispatcher produces.
use crate::json;
use crate::json::{int_val, obj_fields, str_val};
use vstd::prelude::*;

verus! {

/// One classified inbound message.
#[derive(Debug)]
pub enum IncomingMessage {
    Response(ResponseMessage),
    Notification(Notification),
    MultipleMessages(Vec<IncomingMessage>),
}

/// A server's error payload: `{code, message, data?}`.
#[derive(Clone, Debug)]
pub struct RpcError {
    pub code: i32,
    pub message: String,
    pub data: Option<serde_json::Value>,
}

/// An outgoing JSON-RPC message: a request when `id` is present, a client
/// notification when it is not.
#[derive(Clone, Debug)]
pub struct Message {
    pub jsonrpc: String,
    pub id: Option<String>,
    pub method: String,
    pub params: serde_json::Value,
}

impl Message {
    /// A request envelope with a freshly drawn id.
    pub fn new_request(method: String, params: serde_json::Value) -> (m: Message)
        ensures
            m.jsonrpc@ == "2.0"@,
            m.id is Some,
            m.method == method,
            m.params == params,
    {
        Message {
            jsonrpc: "2.0".to_owned(),
            id: Some(json::fresh_request_id()),
            method,
            params,
        }
    }

    /// A client notification envelope: no id, so no reply is owed.
    pub fn new_notification(method: String, params: serde_json::Value) -> (m: Message)
        ensures
            m.jsonrpc@ == "2.0"@,
            m.id is None,
            m.method == method,
            m.params == params,
    {
        Message { jsonrpc: "2.0".to_owned(), id: None, method, params }
    }
}

/// A response to one of our requests, correlated by `id`.
#[derive(Clone, Debug)]
pub struct ResponseMessage {
    pub jsonrpc: String,
    pub id: String,
    pub result: Option<serde_json::Value>,
    pub error: Option<serde_json::Value>,
}

/// A server-originated notification.
#[derive(Clone, Debug)]
pub struct Notification {
    pub jsonrpc: String,
    pub method: String,
    pub params: serde_json::Value,
}

impl Notification {
    pub fn new(method: String, params: serde_json::Value) -> (n: Notification)
        ensures
            n.jsonrpc@ == "2.0"@,
            n.method == method,
            n.params == params,
    {
        Notification { jsonrpc: "2.0".to_owned(), method, params }
    }
}

impl RpcError {
    /// Read an error payload out of the raw `error` value of a response:
    /// `code` must be an integer in `i32` range and `message` a string;
    /// `data` is carried as-is when present.
    pub fn from_value(v: &serde_json::Value) -> (r: Option<RpcError>)
        ensures
            match r {
                Some(e) => {
                    &&& obj_error_shape(*v)
                    &&& obj_fields(*v) matches Some(f) ==> {
                        &&& int_val(f["code"@]) == Some(e.code as int)
                        &&& str_val(f["message"@]) == Some(e.message@)
                        &&& if f.contains_key("data"@) {
                            e.data == Some(f["data"@])
                        } else {
                            e.data is None
                        }
                    }
                },
                None => !obj_error_shape(*v),
            },
    {
        match json::value_get(v, "code") {
            None => None,
            Some(code_v) => match json::value_as_i64(code_v) {
                None => None,
                Some(code) => {
                    if code < -2147483648i64 || code > 2147483647i64 {
                        return None;
                    }
                    match json::value_get(v, "message") {
                        None => None,
                        Some(msg_v) => match json::value_as_str(msg_v) {
                            None => None,
                            Some(msg) => {
                                let data = match json::value_get(v, "data") {
                                    Some(d) => Some(d.clone()),
                                    None => None,
                                };
                                Some(
                                    RpcError {
                                        code: code as i32,
                                        message: msg.to_owned(),
                                        data,
                                    },
                                )
                            },
                        },
                    }
                },
            },
        }
    }
}

/// A value shaped like a JSON-RPC error payload.
pub open spec fn obj_error_shape(v: serde_json::Value) -> bool {
    &&& obj_fields(v) matches Some(f)
    &&& obj_fields(v) matches Some(f) ==> {
        &&& f.contains_key("code"@)
        &&& int_val(f["code"@]) matches Some(c) && i32::MIN <= c <= i32::MAX
        &&& f.contains_key("message"@)
        &&& str_val(f["message"@]) is Some
    }
}

} // verus!
