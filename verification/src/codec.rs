//! The header-framed codec. Outgoing messages are serialized to JSON and
//! framed as `Content-Length: <N>\r\n\r\n` followed by exactly `N` bytes of
//! payload; no `Content-Type` is emitted. Inbound bytes are decoded one frame
//! at a time: the codec consumes exactly the frame it returns and leaves a
//! partial frame untouched.
use crate::dispatcher;
use crate::error::LspError;
use crate::json;
use crate::message_parser::{
    all_digits, crlf_at, decode_spec, dec_val, is_digit, lemma_find_byte_found,
    lemma_find_crlf_found, parse_dec, parse_line, skip_hs_spec, skip_ws_spec, headers_from,
    decode_frame, FrameOutcome, SpecFrame, SpecHeader, SpecHeaders,
};
use crate::messages::{IncomingMessage, Message};
use vstd::prelude::*;

verus! {

// ---------------------------------------------------------------------------
// The wire form of a frame
// ---------------------------------------------------------------------------
/// The decimal digits of `n`, most significant first.
pub open spec fn dec_digits(n: int) -> Seq<u8>
    decreases n,
{
    if n < 10 {
        seq![(48 + n) as u8]
    } else {
        dec_digits(n / 10) + seq![(48 + n % 10) as u8]
    }
}

/// The bytes of `Content-Length: `.
pub open spec fn frame_prefix() -> Seq<u8> {
    seq![67u8, 111u8, 110u8, 116u8, 101u8, 110u8, 116u8, 45u8, 76u8, 101u8, 110u8, 103u8, 116u8, 104u8, 58u8, 32u8]
}

/// One whole frame around a payload.
pub open spec fn frame_bytes(body: Seq<u8>) -> Seq<u8> {
    frame_prefix() + dec_digits(body.len() as int) + seq![13u8, 10u8, 13u8, 10u8] + body
}

pub proof fn lemma_dec_digits(n: int)
    requires
        0 <= n,
    ensures
        all_digits(dec_digits(n)),
        dec_digits(n).len() >= 1,
        dec_val(dec_digits(n)) == n,
    decreases n,
{
    if n < 10 {
        let d = dec_digits(n);
        assert(d.drop_last() =~= Seq::empty());
        assert(dec_val(d) == dec_val(d.drop_last()) * 10 + d.last() - 48);
    } else {
        lemma_dec_digits(n / 10);
        let d = dec_digits(n);
        let p = dec_digits(n / 10);
        assert(d.drop_last() =~= p);
        assert(d.last() == (48 + n % 10) as u8);
        vstd::arithmetic::div_mod::lemma_fundamental_div_mod(n, 10);
        assert(0 <= n % 10 < 10);
        assert(dec_val(d) == dec_val(p) * 10 + n % 10);
        assert(forall|i: int| 0 <= i < d.len() ==> is_digit(#[trigger] d[i])) by {
            assert(forall|i: int| 0 <= i < p.len() ==> d[i] == #[trigger] p[i]);
        }
    }
}

// ---------------------------------------------------------------------------
// Frame round-trip
// ---------------------------------------------------------------------------
/// Frame round-trip: decoding an encoded frame yields exactly the payload
/// that was framed, and consumes exactly the frame's length.
pub proof fn lemma_frame_round_trip(body: Seq<u8>)
    requires
        body.len() <= usize::MAX,
    ensures
        decode_spec(frame_bytes(body)) == (SpecFrame::Frame {
            body: body,
            consumed: frame_bytes(body).len() as int,
        }),
{
    let digits = dec_digits(body.len() as int);
    lemma_dec_digits(body.len() as int);
    let dl = digits.len() as int;
    let b = frame_bytes(body);
    let j = 16 + dl;
    assert(b.len() == j + 4 + body.len());
    // the first header line runs up to the first \r\n, at position j
    assert(forall|m: int| 0 <= m < j ==> b[m] != 13) by {
        assert(forall|m: int| 0 <= m < 16 ==> b[m] == frame_prefix()[m]);
        assert(forall|m: int| 16 <= m < j ==> b[m] == digits[m - 16]);
        assert(forall|m: int| 16 <= m < j ==> is_digit(#[trigger] b[m]));
    }
    assert(crlf_at(b, j));
    assert(forall|m: int| 0 <= m < j ==> !crlf_at(b, m));
    lemma_find_crlf_found(b, 0, j);
    // the line itself: `Content-Length: <digits>`
    let c = b.subrange(0, j);
    assert(c =~= frame_prefix() + digits);
    assert(skip_ws_spec(c, 0) == 0);
    assert(forall|m: int| 0 <= m < 14 ==> c[m] != 58) by {
        assert(forall|m: int| 0 <= m < 16 ==> c[m] == frame_prefix()[m]);
    }
    assert(c[14] == 58);
    lemma_find_byte_found(c, 0, 58, 14);
    let name = c.subrange(0, 14);
    assert(crate::message_parser::ci_eq(name, crate::message_parser::content_length_name())) by {
        assert(forall|i: int|
            0 <= i < 14 ==> crate::message_parser::lower(#[trigger] name[i])
                == crate::message_parser::lower(crate::message_parser::content_length_name()[i]));
    }
    assert(c[15] == 32);
    assert(skip_hs_spec(c, 16) == 16) by {
        assert(c[16] == digits[0]);
        assert(is_digit(c[16]));
    }
    assert(skip_hs_spec(c, 15) == 16);
    let value = c.subrange(16, j);
    assert(value =~= digits);
    assert(parse_dec(value) == Some(body.len() as int));
    assert(parse_line(c) == Some(SpecHeader::Length(body.len() as int)));
    // after the line: the empty line, then the body
    assert(crlf_at(b, j + 2));
    lemma_find_crlf_found(b, j + 2, j + 2);
    assert(headers_from(b, j + 2, Some(body.len() as int)) == (SpecHeaders::Done {
        length: body.len() as int,
        body_start: j + 4,
    }));
    assert(headers_from(b, 0, None::<int>) == (SpecHeaders::Done {
        length: body.len() as int,
        body_start: j + 4,
    }));
    assert(b.subrange(j + 4, j + 4 + body.len()) =~= body);
}

// ---------------------------------------------------------------------------
// Executable encoder
// ---------------------------------------------------------------------------
fn push_dec(n: usize, out: &mut Vec<u8>)
    ensures
        final(out)@ == old(out)@ + dec_digits(n as int),
    decreases n,
{
    if n < 10 {
        out.push((48 + n) as u8);
        assert(out@ =~= old(out)@ + dec_digits(n as int));
    } else {
        push_dec(n / 10, out);
        out.push((48 + (n % 10)) as u8);
        assert(out@ =~= old(out)@ + dec_digits(n as int));
    }
}

fn push_prefix(out: &mut Vec<u8>)
    ensures
        final(out)@ == old(out)@ + frame_prefix(),
{
    out.push(67);
    out.push(111);
    out.push(110);
    out.push(116);
    out.push(101);
    out.push(110);
    out.push(116);
    out.push(45);
    out.push(76);
    out.push(101);
    out.push(110);
    out.push(103);
    out.push(116);
    out.push(104);
    out.push(58);
    out.push(32);
    assert(out@ =~= old(out)@ + frame_prefix());
}

/// Append one whole frame around `payload` to `out`.
pub fn append_frame(payload: &Vec<u8>, out: &mut Vec<u8>)
    ensures
        final(out)@ == old(out)@ + frame_bytes(payload@),
{
    push_prefix(out);
    push_dec(payload.len(), out);
    out.push(13);
    out.push(10);
    out.push(13);
    out.push(10);
    out.extend_from_slice(payload.as_slice());
    assert(out@ =~= old(out)@ + frame_bytes(payload@));
}

// ---------------------------------------------------------------------------
// The envelope object of an outgoing message
// ---------------------------------------------------------------------------
/// `v` is the JSON envelope of the message `m`: an object carrying exactly
/// `jsonrpc`, `method`, `params`, and `id` when the message has one.
pub open spec fn envelope_of(v: serde_json::Value, m: Message) -> bool {
    match json::obj_fields(v) {
        Some(f) => {
            &&& f.dom() == (if m.id is Some {
                set!["jsonrpc"@, "id"@, "method"@, "params"@]
            } else {
                set!["jsonrpc"@, "method"@, "params"@]
            })
            &&& json::str_val(f["jsonrpc"@]) == Some(m.jsonrpc@)
            &&& (m.id matches Some(id) ==> json::str_val(f["id"@]) == Some(id@))
            &&& json::str_val(f["method"@]) == Some(m.method@)
            &&& f["params"@] == m.params
        },
        None => false,
    }
}

fn build_envelope(m: &Message) -> (v: serde_json::Value)
    ensures
        envelope_of(v, *m),
{
    let mut map = json::new_object_map();
    json::map_insert(&mut map, "jsonrpc".to_owned(), json::make_string_value(m.jsonrpc.clone()));
    match &m.id {
        Some(id) => {
            json::map_insert(&mut map, "id".to_owned(), json::make_string_value(id.clone()));
        },
        None => {},
    }
    json::map_insert(&mut map, "method".to_owned(), json::make_string_value(m.method.clone()));
    json::map_insert(&mut map, "params".to_owned(), m.params.clone());
    let v = json::make_object_value(map);
    proof {
        reveal_strlit("jsonrpc");
        reveal_strlit("id");
        reveal_strlit("method");
        reveal_strlit("params");
        assert("jsonrpc"@.len() == 7);
        assert("id"@.len() == 2);
        assert("method"@.len() == 6);
        assert("params"@.len() == 6);
        assert("method"@[0] == 'm');
        assert("params"@[0] == 'p');
        assert("jsonrpc"@ != "id"@);
        assert("jsonrpc"@ != "method"@);
        assert("jsonrpc"@ != "params"@);
        assert("id"@ != "method"@);
        assert("id"@ != "params"@);
        assert("method"@ != "params"@);
        let f = json::obj_fields(v)->Some_0;
        if m.id is Some {
            assert(f.dom() =~= set!["jsonrpc"@, "id"@, "method"@, "params"@]);
        } else {
            assert(f.dom() =~= set!["jsonrpc"@, "method"@, "params"@]);
        }
    }
    v
}

// ---------------------------------------------------------------------------
// The codec
// ---------------------------------------------------------------------------
/// The header-framed JSON-RPC codec.
pub struct RpcCodec;

impl RpcCodec {
    /// Frame one outgoing message: serialize its envelope and append
    /// `Content-Length: <N>\r\n\r\n` plus the `N` payload bytes to `buf`.
    pub fn encode(&self, msg: &Message, buf: &mut Vec<u8>)
        ensures
            exists|env: serde_json::Value|
                #[trigger] envelope_of(env, *msg) && final(buf)@ == old(buf)@ + frame_bytes(
                    json::ser_of(env),
                ),
    {
        let env = build_envelope(msg);
        let payload = json::value_to_bytes(&env);
        append_frame(&payload, buf);
    }

    /// Decode one message from the front of `buf`. On success, or on a
    /// payload that fails to parse or classify, exactly the frame's bytes are
    /// consumed; when more input is needed nothing is consumed; a malformed
    /// header block is fatal and leaves the buffer as it stands.
    pub fn decode(&self, buf: &mut Vec<u8>) -> (r: Result<Option<IncomingMessage>, LspError>)
        ensures
            match r {
                Ok(None) => decode_spec(old(buf)@) is Incomplete && final(buf)@ == old(buf)@,
                Ok(Some(m)) => decode_spec(old(buf)@) matches SpecFrame::Frame { body, consumed }
                    && final(buf)@ == old(buf)@.skip(consumed) && (json::parse_of(body) matches Some(
                    v,
                ) && dispatcher::classifies(v, m)),
                Err(e) => {
                    ||| (decode_spec(old(buf)@) matches SpecFrame::Malformed(fault) && e
                        == LspError::Decode(fault) && final(buf)@ == old(buf)@)
                    ||| (decode_spec(old(buf)@) matches SpecFrame::Frame { body, consumed }
                        && final(buf)@ == old(buf)@.skip(consumed) && (match json::parse_of(body) {
                        None => e is Deserialization,
                        Some(v) => e is Classify && !dispatcher::classifiable(v),
                    }))
                },
            },
    {
        let outcome = decode_frame(buf.as_slice());
        match outcome {
            FrameOutcome::NeedMore => Ok(None),
            FrameOutcome::Corrupt(f) => Err(LspError::Decode(f)),
            FrameOutcome::Frame { body, consumed } => {
                let tail = buf.split_off(consumed);
                *buf = tail;
                assert(buf@ =~= old(buf)@.skip(decode_spec(old(buf)@)->Frame_consumed));
                match json::parse_value(body.as_slice()) {
                    Err(je) => Err(LspError::Deserialization(je)),
                    Ok(v) => match dispatcher::handle_raw_message(v) {
                        Ok(m) => Ok(Some(m)),
                        Err(e) => Err(e),
                    },
                }
            },
        }
    }
}

} // verus!
