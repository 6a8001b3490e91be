//! The server's configuration-time face: it owns the tree until serving
//! starts, and offers direct edits on it.

use crate::errors::Error;
use crate::ident::Identifier;
use crate::internal_messages::{Message, OutboundMessage};
use crate::node::{find_tree, update_tree, Node, NodeOp, NodeOpView, NodeView};
use crate::permissions::Permissions;
use vstd::prelude::*;

verus! {

/// A configured, not yet running server: an address and the tree, whose
/// root is named and `Public`.
pub struct Server {
    pub address: String,
    pub root: Node,
}

impl Server {
    /// A server at the default address with a fresh `Public` root named
    /// `root`.
    pub fn new() -> (r: Server)
        ensures
            r.root@.name == Some("root"@),
            r.root@.data is Folder,
            r.root@.children.len() == 0,
            r.root@.permissions is Public,
            r.root@.subscribers.len() == 0,
            r.address@ == "localhost:8001"@,
    {
        let address = "localhost:8001";
        Server {
            address: address.to_owned(),
            root: Node::new().name("root".to_owned()).permissions(Permissions::Public),
        }
    }

    /// Appends a child to the root node of the tree.
    pub fn add_child(&mut self, node: Node) -> (r: Result<(), Error>)
        ensures
            r is Ok,
            final(self).root@ == (NodeView {
                children: old(self).root@.children.push(node@),
                ..old(self).root@
            }),
            final(self).address == old(self).address,
    {
        let _ = self.root.add_child(node);
        Ok(())
    }

    /// Appends a child under the node with the given id, or fails with
    /// `NotFound` if no node carries it.
    pub fn add_child_to_node(&mut self, node: Node, parent_id: &Identifier) -> (r: Result<
        (),
        Error,
    >)
        ensures
            final(self).address == old(self).address,
            find_tree(old(self).root@, parent_id.value) is Some ==> r is Ok && final(self).root@
                == update_tree(old(self).root@, parent_id.value, NodeOpView::Attach(node@)),
            find_tree(old(self).root@, parent_id.value) is None ==> (r matches Err(
                Error::NotFound(m),
            ) && m == parent_id) && final(self).root@ == old(self).root@,
    {
        match self.root.apply(*parent_id, NodeOp::Attach(node)) {
            Ok(_) => Ok(()),
            Err(_) => Err(Error::NotFound(*parent_id)),
        }
    }

    /// The node with the given id, or `NotFound`.
    pub fn get_node(&self, id: &Identifier) -> (r: Result<&Node, Error>)
        ensures
            (match r {
                Ok(n) => find_tree(self.root@, id.value) == Some(n@),
                Err(e) => find_tree(self.root@, id.value) is None && (e matches Error::NotFound(m)
                    && m == id),
            }),
    {
        match self.root.find_node(*id) {
            Some(n) => Ok(n),
            None => Err(Error::NotFound(*id)),
        }
    }
}

/// The running server's own seat at the table: a sender into the traffic
/// mailbox and its dedicated receiver, obtained by registering like any
/// other client but with higher priority of access to the process.
pub struct RunningServer {
    pub to_handler_s: crossbeam::channel::Sender<Message>,
    pub from_handler_r: crossbeam::channel::Receiver<OutboundMessage>,
}

impl RunningServer {
    /// Wraps the two channel ends.
    pub fn new(
        to_handler_s: crossbeam::channel::Sender<Message>,
        from_handler_r: crossbeam::channel::Receiver<OutboundMessage>,
    ) -> RunningServer {
        RunningServer { to_handler_s, from_handler_r }
    }
}

} // verus!
