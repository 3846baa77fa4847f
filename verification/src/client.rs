//! The response correlator. Every outstanding request shares one response
//! queue, filled by the pump in arrival order, and one outbox of framed
//! bytes owed to the child's stdin. A request is driven by cooperative
//! polls: first its envelope is framed, then the outbox must drain, then it
//! waits until the response at the queue's head bears its own id. The head
//! is popped only by the request whose id matches it, so responses reach
//! their requests whatever order the server answers in.
use crate::codec::{envelope_of, frame_bytes, RpcCodec};
use crate::json::ser_of;
use crate::messages::{Message, ResponseMessage};
use vstd::prelude::*;

verus! {

/// The decoded responses not yet claimed by their requests, in arrival
/// order, and whether the transport has ended.
pub struct ResponseQueue {
    pub items: Vec<ResponseMessage>,
    pub closed: bool,
}

impl ResponseQueue {
    pub fn new() -> (q: ResponseQueue)
        ensures
            q.items@.len() == 0,
            !q.closed,
    {
        ResponseQueue { items: Vec::new(), closed: false }
    }

    /// The pump appends each response as it arrives.
    pub fn push(&mut self, r: ResponseMessage)
        ensures
            final(self).items@ == old(self).items@ + seq![r],
            final(self).closed == old(self).closed,
    {
        self.items.push(r);
    }

    /// The transport ended: no further response will arrive.
    pub fn close(&mut self)
        ensures
            final(self).items@ == old(self).items@,
            final(self).closed,
    {
        self.closed = true;
    }
}

/// The framed bytes owed to the child's stdin.
pub struct Outbox {
    pub buf: Vec<u8>,
}

impl Outbox {
    pub fn new() -> (o: Outbox)
        ensures
            o.buf@.len() == 0,
    {
        Outbox { buf: Vec::new() }
    }

    /// Frame `m` and queue its bytes behind whatever is still unwritten.
    pub fn submit(&mut self, m: &Message)
        ensures
            exists|env: serde_json::Value|
                #[trigger] envelope_of(env, *m) && final(self).buf@ == old(self).buf@ + frame_bytes(
                    ser_of(env),
                ),
            final(self).buf@.len() > old(self).buf@.len(),
    {
        let codec = RpcCodec;
        codec.encode(m, &mut self.buf);
    }

    /// Nothing is owed: every framed byte has been handed to the writer.
    pub fn is_flushed(&self) -> (r: bool)
        ensures
            r == (self.buf@.len() == 0),
    {
        self.buf.len() == 0
    }

    /// Hand every owed byte to the writer.
    pub fn take_all(&mut self) -> (r: Vec<u8>)
        ensures
            final(self).buf@.len() == 0,
            r@ == old(self).buf@,
    {
        let mut out: Vec<u8> = Vec::new();
        core::mem::swap(&mut out, &mut self.buf);
        out
    }

    /// The writer accepted `n` bytes; they are no longer owed.
    pub fn consumed(&mut self, n: usize)
        requires
            n <= old(self).buf@.len(),
        ensures
            final(self).buf@ == old(self).buf@.skip(n as int),
    {
        let tail = self.buf.split_off(n);
        self.buf = tail;
    }
}

/// What draining a response queue under the head-of-line discipline
/// delivers: the head is always popped by the request bearing its id — that
/// is the `Ready` clause of `poll` — so working through the queue hands
/// each response to the id it carries.
pub open spec fn drain_deliveries(q: Seq<ResponseMessage>) -> Map<Seq<char>, ResponseMessage>
    decreases q.len(),
{
    if q.len() == 0 {
        Map::empty()
    } else {
        drain_deliveries(q.skip(1)).insert(q[0].id@, q[0])
    }
}

/// The correlator matches by id: however the server permutes its replies,
/// when the queue is drained under the head-of-line discipline the request
/// whose id is `q[k].id` receives exactly `q[k]`, for ids that answer each
/// request once.
pub proof fn lemma_correlator_matches_by_id(q: Seq<ResponseMessage>, k: int)
    requires
        0 <= k < q.len(),
        forall|a: int, b: int| 0 <= a < b < q.len() ==> q[a].id@ != q[b].id@,
    ensures
        drain_deliveries(q).contains_key(q[k].id@),
        drain_deliveries(q)[q[k].id@] == q[k],
    decreases q.len(),
{
    if k == 0 {
    } else {
        let rest = q.skip(1);
        assert(forall|a: int, b: int| 0 <= a < b < rest.len() ==> rest[a].id@ != rest[b].id@) by {
            assert(forall|a: int| 0 <= a < rest.len() ==> rest[a] == q[a + 1]);
        }
        assert(rest[k - 1] == q[k]);
        lemma_correlator_matches_by_id(rest, k - 1);
        assert(q[0].id@ != q[k].id@);
    }
}

/// One in-flight request: its id, and the envelope while it is unsent.
pub struct RequestHandle {
    pub id: String,
    pub request: Option<Message>,
}

/// What one cooperative poll of a request concluded.
pub enum PollOutcome {
    /// Bytes are owed to the child; write them out, then poll again.
    Flushing,
    /// Nothing can move until a response arrives or the queue's head is
    /// claimed by the request it belongs to.
    Pending,
    /// This request's response.
    Ready(ResponseMessage),
    /// The transport closed with the response still owed.
    Closed,
}

/// The correlator: the outbox feeding the child and the shared response
/// queue the pump fills.
pub struct RpcClient {
    pub outbox: Outbox,
    pub responses: ResponseQueue,
}

impl RpcClient {
    pub fn new() -> (c: RpcClient)
        ensures
            c.outbox.buf@.len() == 0,
            c.responses.items@.len() == 0,
            !c.responses.closed,
    {
        RpcClient { outbox: Outbox::new(), responses: ResponseQueue::new() }
    }

    /// Open a request: the handle that `poll` drives to completion.
    pub fn call(&self, request: Message) -> (h: RequestHandle)
        requires
            request.id is Some,
        ensures
            h.id@ == request.id->Some_0@,
            h.request == Some(request),
    {
        let id = match &request.id {
            Some(s) => s.clone(),
            None => String::new(),  // unreachable: a request always carries an id
        };
        RequestHandle { id, request: Some(request) }
    }

    /// Queue a client notification; nothing is awaited for it.
    pub fn notify(&mut self, m: &Message)
        ensures
            exists|env: serde_json::Value|
                #[trigger] envelope_of(env, *m) && final(self).outbox.buf@ == old(self).outbox.buf@
                    + frame_bytes(ser_of(env)),
            final(self).responses == old(self).responses,
    {
        self.outbox.submit(m);
    }

    /// One cooperative poll of an in-flight request.
    ///
    /// The unsent envelope, if any, is framed into the outbox first. Then:
    /// bytes owed to the child yield `Flushing`; an empty queue yields
    /// `Closed` once the transport ended and `Pending` otherwise; and the
    /// response at the queue's head is popped exactly when it bears this
    /// request's id — a head belonging to another request is left in place,
    /// so every response reaches the request that asked for it.
    pub fn poll(&mut self, h: &mut RequestHandle) -> (r: PollOutcome)
        ensures
            final(h).id == old(h).id,
            final(h).request is None,
            (match old(h).request {
                Some(m) => exists|env: serde_json::Value|
                    #[trigger] envelope_of(env, m) && final(self).outbox.buf@ == old(
                        self,
                    ).outbox.buf@ + frame_bytes(ser_of(env)),
                None => final(self).outbox.buf@ == old(self).outbox.buf@,
            }),
            (r is Flushing) == (old(h).request is Some || old(self).outbox.buf@.len() > 0),
            r is Flushing ==> final(self).responses == old(self).responses,
            (r is Closed) == (old(h).request is None && old(self).outbox.buf@.len() == 0 && old(
                self,
            ).responses.items@.len() == 0 && old(self).responses.closed),
            (r is Ready) == (old(h).request is None && old(self).outbox.buf@.len() == 0 && old(
                self,
            ).responses.items@.len() > 0 && old(self).responses.items@[0].id@ == old(h).id@),
            r matches PollOutcome::Ready(resp) ==> resp == old(self).responses.items@[0]
                && resp.id@ == old(h).id@ && final(self).responses.items@ == old(
                self,
            ).responses.items@.skip(1) && final(self).responses.closed == old(
                self,
            ).responses.closed && final(self).outbox == old(self).outbox,
            r is Pending ==> *final(self) == *old(self),
            r is Closed ==> *final(self) == *old(self),
    {
        match h.request.take() {
            Some(m) => {
                self.outbox.submit(&m);
                return PollOutcome::Flushing;
            },
            None => {},
        }
        if !self.outbox.is_flushed() {
            return PollOutcome::Flushing;
        }
        if self.responses.items.len() == 0 {
            if self.responses.closed {
                return PollOutcome::Closed;
            } else {
                return PollOutcome::Pending;
            }
        }
        if self.responses.items[0].id == h.id {
            let resp = self.responses.items.remove(0);
            assert(self.responses.items@ =~= old(self).responses.items@.skip(1));
            PollOutcome::Ready(resp)
        } else {
            PollOutcome::Pending
        }
    }
}

} // verus!

