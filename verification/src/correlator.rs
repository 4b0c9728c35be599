//! The request/reply correlator: one request at a time is serialized
//! and sent, then the inbound channel is drained until the matching
//! reply is observed.  Every completed exchange is the informs that
//! arrived, in order, followed by exactly one reply; a second request
//! started while one is open is rejected, never interleaved.

use vstd::prelude::*;

use crate::msg::{wf_message, ClientError, Message, MessageKind, MessageView};
use crate::wire::{serialize_message, wire_line_of};

verus! {

/// What one delivered message did to an open exchange.
#[derive(Debug)]
pub enum CorrelateStep {
    /// The reply has not arrived yet; keep draining the channel.
    Pending,
    /// The exchange is complete: the informs in arrival order, then the
    /// reply as the last element.
    Complete(Vec<Message>),
}

/// The correlation engine for one session.  The caller sends the line
/// returned by [`Correlator::start`], then feeds every message popped
/// from the correlation channel to [`Correlator::on_message`] until the
/// exchange completes.
pub struct Correlator {
    busy: bool,
    pending: Vec<Message>,
}

impl Correlator {
    /// An exchange is open: a request was sent and its reply has not
    /// been observed yet.
    pub closed spec fn busy(self) -> bool {
        self.busy
    }

    /// The informs collected for the open exchange, in arrival order.
    pub closed spec fn informs(self) -> Seq<MessageView> {
        self.pending.deep_view()
    }

    /// Everything collected so far is an inform, and nothing is held
    /// between exchanges.
    pub closed spec fn inv(self) -> bool {
        &&& forall|i: int|
            0 <= i < self.pending.len() ==> (#[trigger] self.pending.deep_view()[i]).kind
                == MessageKind::Inform
        &&& (!self.busy ==> self.pending.len() == 0)
    }

    /// A fresh correlator with no exchange open.
    pub fn new() -> (c: Correlator)
        ensures
            c.inv(),
            !c.busy(),
    {
        Correlator { busy: false, pending: Vec::new() }
    }

    /// Opens an exchange: checks that no exchange is open and that the
    /// message is a well-formed request, and returns the serialized
    /// line to send.  A request started while a prior exchange is open
    /// is rejected and changes nothing; so is one that is not a
    /// well-formed request.
    pub fn start(&mut self, req: &Message) -> (r: Result<String, ClientError>)
        requires
            old(self).inv(),
        ensures
            final(self).inv(),
            r is Err ==> *final(self) == *old(self),
            r is Ok <==> (!old(self).busy() && req@.kind == MessageKind::Request && wf_message(
                req@,
            )),
            r matches Err(e) ==> (e matches ClientError::Protocol { name } && name@ == req@.name),
            r matches Ok(line) ==> {
                &&& line@ == wire_line_of(req@)
                &&& final(self).busy()
                &&& final(self).informs() == Seq::<MessageView>::empty()
            },
    {
        if self.busy {
            return Err(ClientError::Protocol { name: req.name.clone() });
        }
        if !matches!(req.kind, MessageKind::Request) {
            return Err(ClientError::Protocol { name: req.name.clone() });
        }
        if !req.is_wf() {
            return Err(ClientError::Protocol { name: req.name.clone() });
        }
        match serialize_message(req) {
            Some(line) => {
                self.busy = true;
                self.pending = Vec::new();
                proof {
                    assert(self.pending.deep_view() =~= Seq::<MessageView>::empty());
                }
                Ok(line)
            },
            None => vstd::pervasive::unreached(),
        }
    }

    /// Feeds one message popped from the correlation channel to the
    /// open exchange.  An inform is collected; the reply completes the
    /// exchange and hands back the full ordered sequence; a request
    /// from the peer, or a message with no exchange open, is a protocol
    /// fault and changes nothing.
    pub fn on_message(&mut self, m: Message) -> (r: Result<CorrelateStep, ClientError>)
        requires
            old(self).inv(),
        ensures
            final(self).inv(),
            r is Err ==> *final(self) == *old(self),
            !old(self).busy() ==> (r matches Err(e) && e matches ClientError::Protocol { name }
                && name@ == m@.name),
            old(self).busy() && m@.kind == MessageKind::Request ==> (r matches Err(e)
                && e matches ClientError::Protocol { name } && name@ == m@.name),
            old(self).busy() && m@.kind == MessageKind::Inform ==> (r matches Ok(step)
                && step is Pending && final(self).busy() && final(self).informs() == old(
                self,
            ).informs().push(m@)),
            old(self).busy() && m@.kind == MessageKind::Reply ==> (r matches Ok(step)
                && step matches CorrelateStep::Complete(v) && v.deep_view() == old(
                self,
            ).informs().push(m@) && !final(self).busy()),
            r matches Ok(step) ==> (step matches CorrelateStep::Complete(v) ==> {
                &&& v.len() > 0
                &&& v.deep_view().last().kind == MessageKind::Reply
                &&& forall|i: int|
                    0 <= i < v.deep_view().len() - 1 ==> (#[trigger] v.deep_view()[i]).kind
                        == MessageKind::Inform
            }),
    {
        if !self.busy {
            return Err(ClientError::Protocol { name: m.name.clone() });
        }
        match m.kind {
            MessageKind::Request => Err(ClientError::Protocol { name: m.name.clone() }),
            MessageKind::Inform => {
                let ghost before = self.pending.deep_view();
                self.pending.push(m);
                proof {
                    assert(self.pending.deep_view() =~= before.push(m@));
                }
                Ok(CorrelateStep::Pending)
            },
            MessageKind::Reply => {
                let ghost before = self.pending.deep_view();
                let mut finished: Vec<Message> = Vec::new();
                core::mem::swap(&mut finished, &mut self.pending);
                finished.push(m);
                self.busy = false;
                proof {
                    assert(finished.deep_view() =~= before.push(m@));
                    assert(self.pending.deep_view() =~= Seq::<MessageView>::empty());
                }
                Ok(CorrelateStep::Complete(finished))
            },
        }
    }
}

} // verus!
