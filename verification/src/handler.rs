//! The connection actor: the single owner of the mutable tree, which
//! serializes all mutation traffic.
//!
//! Every mutation request reaches the actor as a message on one of two
//! mailboxes: a privileged control mailbox (`Register`, `Quit`) and a
//! client-traffic mailbox. Each scheduling round checks the control
//! mailbox first and handles any message waiting there before even
//! considering the traffic mailbox, so client traffic can be delayed
//! arbitrarily but never overtakes control traffic. A failure handling
//! one message — a missing target, a denied permission, a malformed
//! request — is reported to its originator and the actor goes on; a
//! closed mailbox of the actor's own is fatal.

use crate::channels::{channel_send, channel_try_recv, channel_unbounded, TryRecv};
use crate::data::{Data, DataView};
use crate::errors::Error;
use crate::events::{note_views_of, Notification};
use crate::hash::hash_of;
use crate::ident::Identifier;
use crate::internal_messages::{Message, OutboundMessage};
use crate::message;
use crate::node::{find_forest, find_tree, Node, NodeView};
use crate::permissions::{can_access, Permissions, PermissionsView};
use crate::treebuilder::{
    apply_change, change_notes, clone_change, TreeBuilder, TreeChange, TreeChangeView,
};
use vstd::prelude::*;

verus! {

/// Whether the actor still processes messages.
#[derive(Clone, Copy, PartialEq, Eq, Structural, Debug)]
pub enum Status {
    Running,
    Terminated,
}

/// One admitted client: its id, the credential recorded for it, and its
/// dedicated outbound channel. Owned exclusively by the actor's table.
pub struct ConnectionRecord {
    pub client_id: u64,
    pub credential: Permissions,
    pub outbound: crossbeam::channel::Sender<OutboundMessage>,
}

/// The client ids of a table, in table order.
pub open spec fn table_ids(s: Seq<ConnectionRecord>) -> Seq<u64> {
    Seq::new(s.len(), |i: int| s[i].client_id)
}

/// Position of the record for `id`, or `-1` if the client is unknown.
pub open spec fn table_index(s: Seq<ConnectionRecord>, id: u64) -> int
    decreases s,
{
    if s.len() == 0 {
        -1
    } else if s.first().client_id == id {
        0
    } else {
        let rest = table_index(s.drop_first(), id);
        if rest < 0 {
            -1
        } else {
            rest + 1
        }
    }
}

/// The credential recorded for a known client.
pub open spec fn credential_of(s: Seq<ConnectionRecord>, id: u64) -> PermissionsView {
    s[table_index(s, id)].credential@
}

/// What `table_index` finds: the first record with the id, if any.
pub proof fn lemma_table_index(s: Seq<ConnectionRecord>, id: u64)
    ensures
        table_index(s, id) >= 0 ==> table_index(s, id) < s.len() && s[table_index(
            s,
            id,
        )].client_id == id,
        table_index(s, id) >= 0 ==> (forall|k: int|
            0 <= k < table_index(s, id) ==> #[trigger] s[k].client_id != id),
        table_index(s, id) < 0 ==> (forall|k: int|
            0 <= k < s.len() ==> #[trigger] s[k].client_id != id),
    decreases s,
{
    if s.len() > 0 {
        lemma_table_index(s.drop_first(), id);
        assert(s.first() == s[0]);
        assert(forall|k: int| 1 <= k < s.len() ==> #[trigger] s[k] == s.drop_first()[k - 1]);
    }
}

/// When no record before position `i` carries the id and the record at `i`
/// does, `table_index` resolves to `i`.
pub proof fn lemma_table_index_found(s: Seq<ConnectionRecord>, id: u64, i: int)
    requires
        0 <= i < s.len(),
        s[i].client_id == id,
        forall|k: int| 0 <= k < i ==> #[trigger] s[k].client_id != id,
    ensures
        table_index(s, id) == i,
    decreases i,
{
    assert(s.first() == s[0]);
    if i > 0 {
        assert(forall|k: int| 0 <= k < s.drop_first().len() ==> #[trigger] s.drop_first()[k] == s[
            k + 1
        ]);
        lemma_table_index_found(s.drop_first(), id, i - 1);
    }
}

/// Position of the record for `id`, exactly as `table_index` reads it.
fn client_index(clients: &Vec<ConnectionRecord>, id: u64) -> (r: Option<usize>)
    ensures
        (match r {
            Some(i) => i < clients@.len() && table_index(clients@, id) == i,
            None => table_index(clients@, id) < 0,
        }),
{
    let mut i: usize = 0;
    while i < clients.len()
        invariant
            i <= clients@.len(),
            forall|k: int| 0 <= k < i ==> #[trigger] clients@[k].client_id != id,
        decreases clients@.len() - i,
    {
        if clients[i].client_id == id {
            proof {
                lemma_table_index_found(clients@, id, i as int);
            }
            return Some(i);
        }
        i += 1;
    }
    proof {
        lemma_table_index(clients@, id);
        if table_index(clients@, id) >= 0 {
            assert(clients@[table_index(clients@, id)].client_id == id);
            assert(false);
        }
    }
    None
}

/// The node a change addresses: the parent for an addition, the node to
/// detach for a removal (the root is never a candidate), the node itself
/// for a rename or a payload change.
pub open spec fn change_target(t: NodeView, c: TreeChangeView) -> Option<NodeView> {
    match c {
        TreeChangeView::NodeAdded(_, _, _, parent) => find_tree(t, parent),
        TreeChangeView::NodeRemoved(id) => find_forest(t.children, id),
        TreeChangeView::NodeChangedName(id, _) => find_tree(t, id),
        TreeChangeView::NodeChangedData(id, _) => find_tree(t, id),
    }
}

/// A change applies exactly when its target resolves: once the permission
/// check has passed on a resolved target, the change engine cannot fail.
pub proof fn lemma_change_applies_iff_target_resolves(t: NodeView, c: TreeChangeView)
    ensures
        (apply_change(t, c) is Ok) <==> (change_target(t, c) is Some),
{
}

/// What one scheduling round of the actor did.
#[derive(Clone, Copy, PartialEq, Eq, Structural, Debug)]
pub enum Step {
    /// One message was processed.
    Handled,
    /// Both mailboxes were empty; the caller should wait and call again.
    Idle,
    /// `Quit` was processed, or the actor had already stopped.
    Terminated,
    /// A mailbox of the actor's own is closed; fatal.
    MailboxClosed,
}

/// The actor: the one owner of the mutable tree, its connection table, and
/// its mailbox ends.
pub struct ServerHandler {
    pub root: Node,
    pub clients: Vec<ConnectionRecord>,
    pub status: Status,
    pub to_server_s: crossbeam::channel::Sender<Message>,
    pub from_server_r: crossbeam::channel::Receiver<Message>,
    pub from_clients_r: crossbeam::channel::Receiver<Message>,
}

impl ServerHandler {
    /// No two records of the connection table carry the same client id.
    pub open spec fn well_formed(self) -> bool {
        forall|i: int, j: int|
            #![trigger self.clients@[i], self.clients@[j]]
            0 <= i < j < self.clients@.len() ==> self.clients@[i].client_id
                != self.clients@[j].client_id
    }

    /// A fresh actor over the given control-reply sender, control mailbox
    /// and traffic mailbox: a bare `Public` root, an empty table, running.
    pub fn new(
        to_server_s: crossbeam::channel::Sender<Message>,
        from_server_r: crossbeam::channel::Receiver<Message>,
        from_clients_r: crossbeam::channel::Receiver<Message>,
    ) -> (r: ServerHandler)
        ensures
            r.well_formed(),
            r.root@.data is Folder,
            r.root@.name is None,
            r.root@.children.len() == 0,
            r.root@.permissions is Public,
            r.root@.subscribers.len() == 0,
            r.clients@.len() == 0,
            r.status is Running,
            r.to_server_s == to_server_s,
            r.from_server_r == from_server_r,
            r.from_clients_r == from_clients_r,
    {
        ServerHandler {
            root: Node::new().permissions(Permissions::Public),
            clients: Vec::new(),
            status: Status::Running,
            to_server_s,
            from_server_r,
            from_clients_r,
        }
    }

    /// Sends a log line to the client at table position `idx`; a failure
    /// means that client is gone, which the actor tolerates.
    fn report(&self, idx: usize, text: &str)
        requires
            idx < self.clients@.len(),
    {
        let _ = channel_send(&self.clients[idx].outbound, OutboundMessage::Log(text.to_owned()));
    }

    /// Fans an applied edit and the new hash out to every registered client
    /// except its originator; a failed send means that client is gone,
    /// which the actor tolerates.
    fn broadcast(&self, originator: u64, change: TreeChange, hash: u64) {
        let mut i: usize = 0;
        while i < self.clients.len()
            invariant
                i <= self.clients@.len(),
            decreases self.clients@.len() - i,
        {
            if self.clients[i].client_id != originator {
                let _ = channel_send(
                    &self.clients[i].outbound,
                    OutboundMessage::Change(clone_change(&change), hash),
                );
            }
            i += 1;
        }
    }

    /// Tells every registered client that the actor is quitting; a failed
    /// send means that client is gone, which the actor tolerates.
    fn notify_shutdown(&self) {
        let mut i: usize = 0;
        while i < self.clients.len()
            invariant
                i <= self.clients@.len(),
            decreases self.clients@.len() - i,
        {
            let _ = channel_send(&self.clients[i].outbound, OutboundMessage::Shutdown);
            i += 1;
        }
    }

    /// Admits a client under `candidate`: records it with a `Public`
    /// credential and a fresh dedicated channel — replacing any stale
    /// record under the same id — and replies `RegisterResponse` with the
    /// echoed id and the channel's receiver. Fails only when the
    /// control-reply channel is closed.
    fn handle_register(&mut self, candidate: u64) -> (r: Result<(), Error>)
        requires
            old(self).well_formed(),
        ensures
            final(self).well_formed(),
            final(self).root == old(self).root,
            final(self).status == old(self).status,
            r is Err ==> r->Err_0 is ChannelClosed,
            table_index(old(self).clients@, candidate) >= 0 ==> table_ids(final(self).clients@)
                == table_ids(old(self).clients@),
            table_index(old(self).clients@, candidate) < 0 ==> table_ids(final(self).clients@)
                == table_ids(old(self).clients@).push(candidate),
            table_index(final(self).clients@, candidate) >= 0,
            credential_of(final(self).clients@, candidate) is Public,
    {
        let (sender, receiver) = channel_unbounded::<OutboundMessage>();
        let record = ConnectionRecord {
            client_id: candidate,
            credential: Permissions::Public,
            outbound: sender,
        };
        match client_index(&self.clients, candidate) {
            Some(i) => {
                proof {
                    lemma_table_index(self.clients@, candidate);
                }
                let slot = &mut self.clients[i];
                *slot = record;
                proof {
                    assert(table_ids(self.clients@) =~= table_ids(old(self).clients@));
                    assert forall|a: int, b: int|
                        0 <= a < b < self.clients@.len() implies #[trigger] self.clients@[a].client_id
                        != #[trigger] self.clients@[b].client_id by {
                        assert(self.clients@[a].client_id == old(self).clients@[a].client_id);
                        assert(self.clients@[b].client_id == old(self).clients@[b].client_id);
                    }
                    assert forall|k: int| 0 <= k < i as int implies #[trigger] self.clients@[k].client_id
                        != candidate by {
                        assert(self.clients@[k].client_id == old(self).clients@[k].client_id);
                    }
                    lemma_table_index_found(self.clients@, candidate, i as int);
                }
            },
            None => {
                proof {
                    lemma_table_index(self.clients@, candidate);
                }
                self.clients.push(record);
                proof {
                    assert(table_ids(self.clients@) =~= table_ids(old(self).clients@).push(
                        candidate,
                    ));
                    let last = self.clients@.len() - 1;
                    assert forall|k: int| 0 <= k < last implies #[trigger] self.clients@[k].client_id
                        != candidate by {
                        assert(self.clients@[k] == old(self).clients@[k]);
                    }
                    lemma_table_index_found(self.clients@, candidate, last);
                }
            },
        }
        channel_send(&self.to_server_s, Message::RegisterResponse(candidate, receiver))
    }

    /// Handles one message from the privileged control mailbox.
    ///
    /// `Quit` notifies every client of the shutdown, stops the actor, and
    /// returns true; `Register` admits the client; anything else is
    /// unexpected there and is ignored. Fails only when the control-reply
    /// channel is closed.
    pub fn handle_control(&mut self, msg: Message) -> (r: Result<bool, Error>)
        requires
            old(self).well_formed(),
        ensures
            final(self).well_formed(),
            final(self).root == old(self).root,
            r is Err ==> r->Err_0 is ChannelClosed,
            msg is Quit ==> r is Ok && r->Ok_0 == true && final(self).status is Terminated
                && final(self).clients == old(self).clients,
            msg matches Message::Register(c) ==> final(self).status == old(self).status && (
            r is Ok ==> r->Ok_0 == false) && (table_index(old(self).clients@, c) >= 0
                ==> table_ids(final(self).clients@) == table_ids(old(self).clients@)) && (
            table_index(old(self).clients@, c) < 0 ==> table_ids(final(self).clients@)
                == table_ids(old(self).clients@).push(c)) && table_index(final(self).clients@, c)
                >= 0 && credential_of(final(self).clients@, c) is Public,
            (msg is Normal || msg is RegisterResponse) ==> r is Ok && r->Ok_0 == false && final(self).clients == old(self).clients && final(self).status == old(self).status,
    {
        match msg {
            Message::Quit => {
                self.notify_shutdown();
                self.status = Status::Terminated;
                Ok(true)
            },
            Message::Register(candidate) => {
                match self.handle_register(candidate) {
                    Ok(()) => Ok(false),
                    Err(e) => Err(e),
                }
            },
            _ => Ok(false),
        }
    }

    /// Handles one message of client traffic, tagged with its sender's id.
    ///
    /// Traffic from an unregistered client is a `ProtocolViolation`.
    /// Otherwise the edit's target is resolved (`NotFound` if absent), the
    /// target's declared permission is checked against the client's
    /// recorded credential (`PermissionDenied` without mutating), and only
    /// then is the change engine run; on success the applied edit and the
    /// new hash are fanned out to every other registered client, and the
    /// hash is returned. A trigger on a non-button node is a
    /// `ProtocolViolation`; a reported client hash is only compared. Every
    /// failure is reported to the originator alone, and never mutates the
    /// tree.
    pub fn handle_client_message(
        &mut self,
        client_id: u64,
        msg: message::Message,
        notes: &mut Vec<Notification>,
    ) -> (r: Result<Option<u64>, Error>)
        requires
            old(self).well_formed(),
        ensures
            final(self).well_formed(),
            final(self).clients == old(self).clients,
            final(self).status == old(self).status,
            table_index(old(self).clients@, client_id) < 0 ==> (r matches Err(
                Error::ProtocolViolation,
            )) && final(self).root == old(self).root && final(notes)@ == old(notes)@,
            table_index(old(self).clients@, client_id) >= 0 ==> {
                let cred = credential_of(old(self).clients@, client_id);
                let root0 = old(self).root@;
                &&& (msg matches message::Message::ServerChange(tc) ==> (match change_target(
                    root0,
                    tc@,
                ) {
                    Option::None => (r matches Err(Error::NotFound(_))) && final(self).root@
                        == root0 && final(notes)@ == old(notes)@,
                    Option::Some(target) => {
                        if can_access(target.permissions, cred) {
                            &&& r is Ok
                            &&& r->Ok_0 == Some(hash_of(apply_change(root0, tc@)->Ok_0))
                            &&& final(self).root@ == apply_change(root0, tc@)->Ok_0
                            &&& note_views_of(final(notes)@) == note_views_of(old(notes)@)
                                + change_notes(root0, tc@)
                        } else {
                            (r matches Err(Error::PermissionDenied)) && final(self).root@ == root0
                                && final(notes)@ == old(notes)@
                        }
                    },
                }))
                &&& (msg matches message::Message::ClientTrigger(id) ==> (match find_tree(
                    root0,
                    id.value,
                ) {
                    Option::None => (r matches Err(Error::NotFound(_))) && final(self).root@
                        == root0 && final(notes)@ == old(notes)@,
                    Option::Some(target) => {
                        if !can_access(target.permissions, cred) {
                            (r matches Err(Error::PermissionDenied)) && final(self).root@ == root0
                                && final(notes)@ == old(notes)@
                        } else {
                            match target.data {
                                DataView::Button(n) => {
                                    let next = if n == u64::MAX {
                                        0u64
                                    } else {
                                        (n + 1) as u64
                                    };
                                    let c = TreeChangeView::NodeChangedData(
                                        id.value,
                                        DataView::Button(next),
                                    );
                                    &&& r is Ok
                                    &&& r->Ok_0 == Some(hash_of(apply_change(root0, c)->Ok_0))
                                    &&& final(self).root@ == apply_change(root0, c)->Ok_0
                                    &&& note_views_of(final(notes)@) == note_views_of(old(notes)@)
                                        + change_notes(root0, c)
                                },
                                _ => (r matches Err(Error::ProtocolViolation)) && final(self).root@ == root0 && final(notes)@ == old(notes)@,
                            }
                        }
                    },
                }))
                &&& (msg is ClientHash ==> r is Ok && r->Ok_0 is None && final(self).root == old(self).root && final(notes)@ == old(notes)@)
                &&& (!(msg is ServerChange) && !(msg is ClientTrigger) && !(msg is ClientHash)
                    ==> (r matches Err(Error::ProtocolViolation)) && final(self).root == old(self).root && final(notes)@ == old(notes)@)
            },
    {
        let idx = match client_index(&self.clients, client_id) {
            None => {
                return Err(Error::ProtocolViolation);
            },
            Some(i) => i,
        };
        proof {
            lemma_table_index(self.clients@, client_id);
        }
        match msg {
            message::Message::ServerChange(tc) => {
                let missing = match &tc {
                    TreeChange::NodeAdded(_, _, _, parent) => *parent,
                    TreeChange::NodeRemoved(id) => *id,
                    TreeChange::NodeChangedName(id, _) => *id,
                    TreeChange::NodeChangedData(id, _) => *id,
                };
                let allowed: bool;
                let target_opt = match &tc {
                    TreeChange::NodeAdded(_, _, _, parent) => self.root.find_node(*parent),
                    TreeChange::NodeRemoved(id) => self.root.find_descendant(*id),
                    TreeChange::NodeChangedName(id, _) => self.root.find_node(*id),
                    TreeChange::NodeChangedData(id, _) => self.root.find_node(*id),
                };
                match target_opt {
                    None => {
                        self.report(idx, "target not found");
                        return Err(Error::NotFound(missing));
                    },
                    Some(target) => {
                        allowed = target.permissions.can_be_accessed(
                            &self.clients[idx].credential,
                        );
                    },
                }
                if !allowed {
                    self.report(idx, "permission denied");
                    return Err(Error::PermissionDenied);
                }
                let copy = clone_change(&tc);
                match TreeBuilder::change(&mut self.root, tc, notes) {
                    Ok(h) => {
                        self.broadcast(client_id, copy, h);
                        Ok(Some(h))
                    },
                    Err(e) => {
                        // The target resolved, so the engine cannot miss.
                        proof {
                            assert(false);
                        }
                        Err(e)
                    },
                }
            },
            message::Message::ClientTrigger(id) => {
                let allowed: bool;
                let button: Option<u64>;
                match self.root.find_node(id) {
                    None => {
                        self.report(idx, "target not found");
                        return Err(Error::NotFound(id));
                    },
                    Some(target) => {
                        allowed = target.permissions.can_be_accessed(
                            &self.clients[idx].credential,
                        );
                        button = match &target.data {
                            Data::Button(n) => Some(*n),
                            _ => None,
                        };
                    },
                }
                if !allowed {
                    self.report(idx, "permission denied");
                    return Err(Error::PermissionDenied);
                }
                match button {
                    None => {
                        self.report(idx, "trigger on a node that is not a button");
                        Err(Error::ProtocolViolation)
                    },
                    Some(n) => {
                        let change = TreeChange::NodeChangedData(
                            id,
                            Data::Button(n.wrapping_add(1)),
                        );
                        let copy = clone_change(&change);
                        match TreeBuilder::change(&mut self.root, change, notes) {
                            Ok(h) => {
                                self.broadcast(client_id, copy, h);
                                Ok(Some(h))
                            },
                            Err(e) => {
                                // The target resolved, so the engine cannot miss.
                                proof {
                                    assert(false);
                                }
                                Err(e)
                            },
                        }
                    },
                }
            },
            message::Message::ClientHash(reported) => {
                let current = self.root.get_hash();
                if reported != current {
                    self.report(idx, "hash divergence detected");
                }
                Ok(None)
            },
            _ => {
                self.report(idx, "unexpected message");
                Err(Error::ProtocolViolation)
            },
        }
    }

    /// One scheduling round: strict control-before-traffic priority.
    ///
    /// Handles at most one message: a waiting control message always goes
    /// first, and the traffic mailbox is considered only when the control
    /// mailbox is empty. Once the actor has stopped — by `Quit` or by a
    /// closed mailbox — no further message is processed and nothing
    /// changes any more.
    pub fn step(&mut self, notes: &mut Vec<Notification>) -> (r: Step)
        requires
            old(self).well_formed(),
        ensures
            final(self).well_formed(),
            old(self).status is Terminated ==> r is Terminated && final(self).root == old(self).root && final(self).clients == old(self).clients && final(self).status == old(self).status && final(notes)@ == old(notes)@,
            final(self).status is Terminated <==> (r is Terminated || r is MailboxClosed),
            r is Idle ==> final(self).root == old(self).root && final(self).clients == old(self).clients && final(notes)@ == old(notes)@,
    {
        if matches!(self.status, Status::Terminated) {
            return Step::Terminated;
        }
        match channel_try_recv(&self.from_server_r) {
            TryRecv::Message(m) => {
                match self.handle_control(m) {
                    Ok(true) => Step::Terminated,
                    Ok(false) => Step::Handled,
                    Err(_) => {
                        self.status = Status::Terminated;
                        Step::MailboxClosed
                    },
                }
            },
            TryRecv::Disconnected => {
                self.status = Status::Terminated;
                Step::MailboxClosed
            },
            TryRecv::Empty => {
                match channel_try_recv(&self.from_clients_r) {
                    TryRecv::Message(Message::Normal(client_id, m)) => {
                        let _ = self.handle_client_message(client_id, m, notes);
                        Step::Handled
                    },
                    TryRecv::Message(_) => Step::Handled,
                    TryRecv::Empty => Step::Idle,
                    TryRecv::Disconnected => {
                        self.status = Status::Terminated;
                        Step::MailboxClosed
                    },
                }
            },
        }
    }
}

} // verus!
