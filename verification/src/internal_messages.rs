//! The messages that travel on the actor's mailboxes and on each client's
//! dedicated outbound channel.

use crate::message;
use crate::treebuilder::TreeChange;
use vstd::prelude::*;

verus! {

/// A message into the actor.
///
/// The privileged control mailbox carries `Register` and `Quit`; the
/// client-traffic mailbox carries `Normal`; the control-reply channel
/// carries `RegisterResponse`, handing the new client its dedicated
/// receiver.
pub enum Message {
    /// One wire message from the client with this id.
    Normal(u64, message::Message),
    /// Stop the actor; no further messages are processed.
    Quit,
    /// Admit a client under this candidate id.
    Register(u64),
    /// The echoed candidate id and the dedicated receiver for the new
    /// client.
    RegisterResponse(u64, crossbeam::channel::Receiver<OutboundMessage>),
}

/// What the actor sends a registered client on its dedicated channel.
pub enum OutboundMessage {
    /// An edit another client made, applied successfully, together with the
    /// whole-tree content hash after it.
    Change(TreeChange, u64),
    /// Human-readable status or error, for this client alone.
    Log(String),
    /// The actor is quitting.
    Shutdown,
}

} // verus!
