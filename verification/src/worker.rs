//! The pump: a pure demultiplexer over the decoded inbound stream. Each
//! classified message is routed to the response queue or the notification
//! stream; a batch is routed element by element in encounter order. When the
//! stream ends, both queues are closed and every waiting request learns that
//! the transport is gone.
use crate::client::ResponseQueue;
use crate::messages::{IncomingMessage, Notification, ResponseMessage};
use vstd::prelude::*;

verus! {

/// The ordered stream of server notifications, and whether it has ended.
pub struct NotificationQueue {
    pub items: Vec<Notification>,
    pub closed: bool,
}

impl NotificationQueue {
    pub fn new() -> (q: NotificationQueue)
        ensures
            q.items@.len() == 0,
            !q.closed,
    {
        NotificationQueue { items: Vec::new(), closed: false }
    }

    /// Append one notification; the stream keeps emission order.
    pub fn push(&mut self, n: Notification)
        ensures
            final(self).items@ == old(self).items@ + seq![n],
            final(self).closed == old(self).closed,
    {
        self.items.push(n);
    }

    /// The consumer takes notifications strictly in arrival order.
    pub fn next(&mut self) -> (r: Option<Notification>)
        ensures
            match r {
                Some(n) => old(self).items@.len() > 0 && n == old(self).items@[0]
                    && final(self).items@ == old(self).items@.skip(1),
                None => old(self).items@.len() == 0 && final(self).items@ == old(self).items@,
            },
            final(self).closed == old(self).closed,
    {
        if self.items.len() == 0 {
            None
        } else {
            let n = self.items.remove(0);
            assert(self.items@ =~= old(self).items@.skip(1));
            Some(n)
        }
    }

    /// The stream ended: nothing further will arrive.
    pub fn close(&mut self)
        ensures
            final(self).items@ == old(self).items@,
            final(self).closed,
    {
        self.closed = true;
    }
}

/// The responses a run of batch elements contributes, in encounter order.
pub open spec fn elems_responses(s: Seq<IncomingMessage>) -> Seq<ResponseMessage>
    decreases s.len(),
{
    if s.len() == 0 {
        Seq::empty()
    } else {
        elems_responses(s.drop_last()) + (match s.last() {
            IncomingMessage::Response(r) => seq![r],
            _ => Seq::empty(),
        })
    }
}

/// The notifications a run of batch elements contributes, in encounter
/// order.
pub open spec fn elems_notifications(s: Seq<IncomingMessage>) -> Seq<Notification>
    decreases s.len(),
{
    if s.len() == 0 {
        Seq::empty()
    } else {
        elems_notifications(s.drop_last()) + (match s.last() {
            IncomingMessage::Notification(n) => seq![n],
            _ => Seq::empty(),
        })
    }
}

/// What one classified message contributes to the response queue. A batch
/// nested inside a batch contributes nothing: the classifier never produces
/// one.
pub open spec fn routed_responses(m: IncomingMessage) -> Seq<ResponseMessage> {
    match m {
        IncomingMessage::Response(r) => seq![r],
        IncomingMessage::Notification(_) => Seq::empty(),
        IncomingMessage::MultipleMessages(ms) => elems_responses(ms@),
    }
}

/// What one classified message contributes to the notification stream.
pub open spec fn routed_notifications(m: IncomingMessage) -> Seq<Notification> {
    match m {
        IncomingMessage::Response(_) => Seq::empty(),
        IncomingMessage::Notification(n) => seq![n],
        IncomingMessage::MultipleMessages(ms) => elems_notifications(ms@),
    }
}

/// Notification stream ordering: what two runs of messages contribute to
/// the stream is the first run's notifications followed by the second's, so
/// routing messages one after another yields the server's emission order.
pub proof fn lemma_notification_order(s1: Seq<IncomingMessage>, s2: Seq<IncomingMessage>)
    ensures
        elems_notifications(s1 + s2) == elems_notifications(s1) + elems_notifications(s2),
    decreases s2.len(),
{
    if s2.len() == 0 {
        assert(s1 + s2 =~= s1);
        assert(elems_notifications(s1) + Seq::<Notification>::empty() =~= elems_notifications(s1));
    } else {
        assert((s1 + s2).drop_last() =~= s1 + s2.drop_last());
        lemma_notification_order(s1, s2.drop_last());
        assert((s1 + s2).last() == s2.last());
        assert(elems_notifications(s1) + elems_notifications(s2.drop_last()) + (match s2.last() {
            IncomingMessage::Notification(n) => seq![n],
            _ => Seq::empty(),
        }) =~= elems_notifications(s1) + elems_notifications(s2));
    }
}

/// The pump's routing state: the notification stream it produces.
pub struct Worker {
    pub notifications: NotificationQueue,
}

impl Worker {
    pub fn new() -> (w: Worker)
        ensures
            w.notifications.items@.len() == 0,
            !w.notifications.closed,
    {
        Worker { notifications: NotificationQueue::new() }
    }

    /// Route one classified message: a response to the response queue, a
    /// notification to the stream, a batch element by element in encounter
    /// order.
    pub fn process(&mut self, m: IncomingMessage, responses: &mut ResponseQueue)
        ensures
            final(responses).items@ == old(responses).items@ + routed_responses(m),
            final(responses).closed == old(responses).closed,
            final(self).notifications.items@ == old(self).notifications.items@
                + routed_notifications(m),
            final(self).notifications.closed == old(self).notifications.closed,
    {
        match m {
            IncomingMessage::Response(r) => {
                responses.push(r);
                assert(final(responses).items@ =~= old(responses).items@ + routed_responses(m));
                assert(final(self).notifications.items@ =~= old(self).notifications.items@
                    + routed_notifications(m));
            },
            IncomingMessage::Notification(n) => {
                self.notifications.push(n);
                assert(final(responses).items@ =~= old(responses).items@ + routed_responses(m));
                assert(final(self).notifications.items@ =~= old(self).notifications.items@
                    + routed_notifications(m));
            },
            IncomingMessage::MultipleMessages(ms) => {
                let ghost orig = ms@;
                let mut rest = ms;
                while rest.len() > 0
                    invariant
                        rest@.len() <= orig.len(),
                        orig.subrange(orig.len() - rest@.len(), orig.len() as int) =~= rest@,
                        responses.items@ == old(responses).items@ + elems_responses(
                            orig.subrange(0, orig.len() - rest@.len()),
                        ),
                        responses.closed == old(responses).closed,
                        self.notifications.items@ == old(self).notifications.items@
                            + elems_notifications(orig.subrange(0, orig.len() - rest@.len())),
                        self.notifications.closed == old(self).notifications.closed,
                    decreases rest@.len(),
                {
                    let ghost done = orig.len() - rest@.len();
                    let first = rest.remove(0);
                    proof {
                        assert(first == orig[done]);
                        assert(rest@ =~= orig.subrange(done + 1, orig.len() as int));
                        assert(orig.subrange(0, done + 1).drop_last() =~= orig.subrange(0, done));
                        assert(orig.subrange(0, done + 1).last() == orig[done]);
                    }
                    match first {
                        IncomingMessage::Response(r) => {
                            responses.push(r);
                        },
                        IncomingMessage::Notification(n) => {
                            self.notifications.push(n);
                        },
                        IncomingMessage::MultipleMessages(_) => {
                            // a nested batch never comes out of the classifier
                        },
                    }
                    proof {
                        assert(responses.items@ =~= old(responses).items@ + elems_responses(
                            orig.subrange(0, done + 1),
                        ));
                        assert(self.notifications.items@ =~= old(self).notifications.items@
                            + elems_notifications(orig.subrange(0, done + 1)));
                    }
                }
                proof {
                    assert(orig.subrange(0, orig.len() as int) =~= orig);
                }
            },
        }
    }

    /// The inbound stream ended or failed: close both queues, so pending
    /// requests observe `Closed` and the notification stream ends.
    pub fn finish(&mut self, responses: &mut ResponseQueue)
        ensures
            final(responses).items@ == old(responses).items@,
            final(responses).closed,
            final(self).notifications.items@ == old(self).notifications.items@,
            final(self).notifications.closed,
    {
        responses.close();
        self.notifications.close();
    }
}

} // verus!
