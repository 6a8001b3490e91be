//! The connection gateway: the per-connection front door that registers a
//! new client with the actor and hands back its private mailbox pair.
//!
//! Candidate ids are minted here from a monotonic counter, which is correct
//! only while exactly one gateway instance exists per server process.

use crate::channels::{channel_clone_sender, channel_recv, channel_send};
use crate::errors::Error;
use crate::internal_messages::{Message, OutboundMessage};
use vstd::prelude::*;

verus! {

/// The gateway's decision on one control-mailbox reply: a
/// `RegisterResponse` echoing the expected candidate id yields exactly its
/// dedicated receiver; an echoed id that differs, or any other reply, is a
/// `ProtocolViolation`.
pub fn accept_registration_reply(expected: u64, reply: Message) -> (r: Result<
    crossbeam::channel::Receiver<OutboundMessage>,
    Error,
>)
    ensures
        reply matches Message::RegisterResponse(id, rx) ==> ((id == expected ==> (r matches Ok(out)
            && out == rx)) && (id != expected ==> (r matches Err(e) && e is ProtocolViolation))),
        !(reply is RegisterResponse) ==> (r matches Err(e) && e is ProtocolViolation),
{
    match reply {
        Message::RegisterResponse(id, receiver) => {
            if id == expected {
                Ok(receiver)
            } else {
                Err(Error::ProtocolViolation)
            }
        },
        _ => Err(Error::ProtocolViolation),
    }
}

/// The gateway: holds the actor's mailbox ends and the id counter.
pub struct ServerHelper {
    pub to_handler_s: crossbeam::channel::Sender<Message>,
    pub from_handler_r: crossbeam::channel::Receiver<Message>,
    pub to_handler_from_clients_s: crossbeam::channel::Sender<Message>,
    /// The next candidate client id; starts at zero and advances by one per
    /// registration, so no two registrations mint the same id.
    pub client_id: u64,
}

impl ServerHelper {
    /// A gateway over the given control mailbox sender, control-reply
    /// receiver and traffic mailbox sender, with the id counter at zero.
    pub fn new(
        to_handler_s: crossbeam::channel::Sender<Message>,
        from_handler_r: crossbeam::channel::Receiver<Message>,
        to_handler_from_clients_s: crossbeam::channel::Sender<Message>,
    ) -> (r: ServerHelper)
        ensures
            r.client_id == 0,
    {
        ServerHelper { to_handler_s, from_handler_r, to_handler_from_clients_s, client_id: 0 }
    }

    /// Registers one new client with the actor.
    ///
    /// Mints a fresh candidate id, sends `Register` on the control mailbox,
    /// and blocks until the matching `RegisterResponse` arrives. The echoed
    /// id must equal the candidate; a mismatch or an unexpected reply is a
    /// `ProtocolViolation`. On success returns the minted id, a sender into
    /// the client-traffic mailbox, and the dedicated receiver for this
    /// connection. The counter advances even when registration fails, so
    /// ids are never reused.
    pub fn register(&mut self) -> (r: Result<
        (u64, crossbeam::channel::Sender<Message>, crossbeam::channel::Receiver<OutboundMessage>),
        Error,
    >)
        requires
            old(self).client_id < u64::MAX,
        ensures
            final(self).client_id == old(self).client_id + 1,
            r is Ok ==> r->Ok_0.0 == old(self).client_id,
            r is Err ==> (r->Err_0 is ChannelClosed || r->Err_0 is ProtocolViolation),
    {
        let new_id = self.client_id;
        self.client_id = self.client_id + 1;
        match channel_send(&self.to_handler_s, Message::Register(new_id)) {
            Err(e) => {
                return Err(e);
            },
            Ok(()) => {},
        }
        match channel_recv(&self.from_handler_r) {
            Err(e) => Err(e),
            Ok(reply) => {
                match accept_registration_reply(new_id, reply) {
                    Ok(receiver) => Ok(
                        (new_id, channel_clone_sender(&self.to_handler_from_clients_s), receiver),
                    ),
                    Err(e) => Err(e),
                }
            },
        }
    }
}

} // verus!
