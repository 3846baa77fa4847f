//! The incoming-message classifier. A decoded JSON value is either a single
//! object or a batch array of objects; an object with an `id` and a `result`
//! or `error` is a response, an object carrying a `method` and `params` is a
//! notification (a server-to-client request, which carries an id but neither
//! `result` nor `error`, is surfaced as a notification too), and anything
//! else is a classification error. Nested batches are refused.
use crate::error::LspError;
use crate::json;
use crate::json::{arr_elems, obj_fields, str_val};
use crate::messages::{IncomingMessage, Notification, ResponseMessage};
use vstd::prelude::*;

verus! {

/// The string under key `k`, if the object has it and it is a string.
pub open spec fn str_field(f: Map<Seq<char>, serde_json::Value>, k: Seq<char>) -> Option<
    Seq<char>,
> {
    if f.contains_key(k) {
        str_val(f[k])
    } else {
        None
    }
}

/// The `jsonrpc` tag carried over into the classified message: the field's
/// string when it is one, empty otherwise.
pub open spec fn jsonrpc_of(f: Map<Seq<char>, serde_json::Value>) -> Seq<char> {
    match str_field(f, "jsonrpc"@) {
        Some(s) => s,
        None => Seq::empty(),
    }
}

/// An object takes the response branch: it has an `id` and a `result` or an
/// `error`.
pub open spec fn response_shape(f: Map<Seq<char>, serde_json::Value>) -> bool {
    f.contains_key("id"@) && (f.contains_key("result"@) || f.contains_key("error"@))
}

/// An object the classifier accepts.
pub open spec fn obj_classifiable(v: serde_json::Value) -> bool {
    match obj_fields(v) {
        Some(f) => if response_shape(f) {
            str_field(f, "id"@) is Some
        } else if f.contains_key("id"@) {
            str_field(f, "id"@) is Some && str_field(f, "method"@) is Some && f.contains_key(
                "params"@,
            )
        } else {
            str_field(f, "method"@) is Some && f.contains_key("params"@)
        },
        None => false,
    }
}

/// `r` is what the response object `v` says.
pub open spec fn classifies_as_response(v: serde_json::Value, r: ResponseMessage) -> bool {
    match obj_fields(v) {
        Some(f) => {
            &&& response_shape(f)
            &&& r.jsonrpc@ == jsonrpc_of(f)
            &&& str_field(f, "id"@) == Some(r.id@)
            &&& if f.contains_key("result"@) {
                r.result == Some(f["result"@])
            } else {
                r.result is None
            }
            &&& if f.contains_key("error"@) {
                r.error == Some(f["error"@])
            } else {
                r.error is None
            }
        },
        None => false,
    }
}

/// `n` is what the notification object `v` says.
pub open spec fn classifies_as_notification(v: serde_json::Value, n: Notification) -> bool {
    match obj_fields(v) {
        Some(f) => {
            &&& !response_shape(f)
            &&& n.jsonrpc@ == jsonrpc_of(f)
            &&& str_field(f, "method"@) == Some(n.method@)
            &&& f.contains_key("params"@) && n.params == f["params"@]
        },
        None => false,
    }
}

/// How a single object classifies.
pub open spec fn classifies_obj(v: serde_json::Value, m: IncomingMessage) -> bool {
    match m {
        IncomingMessage::Response(r) => classifies_as_response(v, r),
        IncomingMessage::Notification(n) => classifies_as_notification(v, n),
        IncomingMessage::MultipleMessages(_) => false,
    }
}

/// A batch element the classifier accepts: an object, not a nested array.
pub open spec fn elem_classifiable(e: serde_json::Value) -> bool {
    arr_elems(e) is None && obj_fields(e) is Some && obj_classifiable(e)
}

/// A value the classifier accepts.
pub open spec fn classifiable(v: serde_json::Value) -> bool {
    if obj_fields(v) is Some {
        obj_classifiable(v)
    } else {
        match arr_elems(v) {
            Some(es) => forall|i: int| 0 <= i < es.len() ==> elem_classifiable(#[trigger] es[i]),
            None => false,
        }
    }
}

/// How a value classifies: coverage of the message taxonomy. Objects with an
/// `id` and a `result` or `error` classify as `Response`; objects with a
/// `method` and no pending reply classify as `Notification`; arrays classify
/// elementwise as `MultipleMessages`.
pub open spec fn classifies(v: serde_json::Value, m: IncomingMessage) -> bool {
    if obj_fields(v) is Some {
        classifies_obj(v, m)
    } else {
        match arr_elems(v) {
            Some(es) => m matches IncomingMessage::MultipleMessages(ms) && ms@.len() == es.len()
                && forall|i: int| 0 <= i < es.len() ==> classifies_obj(#[trigger] es[i], ms@[i]),
            None => false,
        }
    }
}

fn handle_object(v: &serde_json::Value) -> (r: Result<IncomingMessage, LspError>)
    requires
        obj_fields(*v) is Some,
    ensures
        (r is Ok) == obj_classifiable(*v),
        r matches Ok(m) ==> classifies_obj(*v, m),
        r matches Err(e) ==> e is Classify,
{
    let jsonrpc: String = match json::value_get(v, "jsonrpc") {
        Some(jv) => match json::value_as_str(jv) {
            Some(s) => s.to_owned(),
            None => String::new(),
        },
        None => String::new(),
    };
    match json::value_get(v, "id") {
        Some(idv) => {
            let id: String = match json::value_as_str(idv) {
                Some(s) => s.to_owned(),
                None => {
                    return Err(LspError::Classify);
                },
            };
            let result = match json::value_get(v, "result") {
                Some(x) => Some(x.clone()),
                None => None,
            };
            let error = match json::value_get(v, "error") {
                Some(x) => Some(x.clone()),
                None => None,
            };
            if result.is_some() || error.is_some() {
                Ok(IncomingMessage::Response(ResponseMessage { jsonrpc, id, result, error }))
            } else {
                // a server-to-client request: surfaced as a notification
                let method: String = match json::value_get(v, "method") {
                    Some(mv) => match json::value_as_str(mv) {
                        Some(s) => s.to_owned(),
                        None => {
                            return Err(LspError::Classify);
                        },
                    },
                    None => {
                        return Err(LspError::Classify);
                    },
                };
                let params = match json::value_get(v, "params") {
                    Some(p) => p.clone(),
                    None => {
                        return Err(LspError::Classify);
                    },
                };
                Ok(IncomingMessage::Notification(Notification { jsonrpc, method, params }))
            }
        },
        None => {
            let method: String = match json::value_get(v, "method") {
                Some(mv) => match json::value_as_str(mv) {
                    Some(s) => s.to_owned(),
                    None => {
                        return Err(LspError::Classify);
                    },
                },
                None => {
                    return Err(LspError::Classify);
                },
            };
            let params = match json::value_get(v, "params") {
                Some(p) => p.clone(),
                None => {
                    return Err(LspError::Classify);
                },
            };
            Ok(IncomingMessage::Notification(Notification { jsonrpc, method, params }))
        },
    }
}

/// Classify one decoded JSON value: success exactly on the values the
/// message taxonomy covers, and the classified message says what the value
/// says.
pub fn handle_raw_message(v: serde_json::Value) -> (r: Result<IncomingMessage, LspError>)
    ensures
        (r is Ok) == classifiable(v),
        r matches Ok(m) ==> classifies(v, m),
        r matches Err(e) ==> e is Classify,
{
    if json::value_is_object(&v) {
        handle_object(&v)
    } else {
        match json::value_as_array(&v) {
            Some(elems) => {
                let n = elems.len();
                let mut out: Vec<IncomingMessage> = Vec::new();
                let mut i: usize = 0;
                while i < n
                    invariant
                        0 <= i <= n,
                        n == elems@.len(),
                        arr_elems(v) == Some(elems@),
                        obj_fields(v) is None,
                        out@.len() == i,
                        forall|k: int| 0 <= k < i ==> elem_classifiable(#[trigger] elems@[k]),
                        forall|k: int|
                            0 <= k < i ==> classifies_obj(#[trigger] elems@[k], out@[k]),
                    decreases n - i,
                {
                    let e = &elems[i];
                    match json::value_as_array(e) {
                        Some(_) => {
                            // a nested batch is refused
                            proof {
                                if classifiable(v) {
                                    let es = arr_elems(v)->Some_0;
                                    assert(elem_classifiable(es[i as int]));
                                }
                            }
                            return Err(LspError::Classify);
                        },
                        None => {},
                    }
                    if !json::value_is_object(e) {
                        proof {
                            if classifiable(v) {
                                let es = arr_elems(v)->Some_0;
                                assert(elem_classifiable(es[i as int]));
                            }
                        }
                        return Err(LspError::Classify);
                    }
                    match handle_object(e) {
                        Ok(m) => out.push(m),
                        Err(er) => {
                            proof {
                                if classifiable(v) {
                                    let es = arr_elems(v)->Some_0;
                                    assert(elem_classifiable(es[i as int]));
                                }
                            }
                            return Err(er);
                        },
                    }
                    i = i + 1;
                }
                Ok(IncomingMessage::MultipleMessages(out))
            },
            None => Err(LspError::Classify),
        }
    }
}

} // verus!
