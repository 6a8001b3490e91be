//! The change engine: applies one wire-level edit to a tree in place and
//! returns the whole-tree content hash.
//!
//! A change either fully applies or leaves the tree exactly as it was; no
//! partial mutation is observable. Node ids chosen by the sender are
//! preserved, so two replicas that apply the same change converge on the
//! same content hash without further coordination.

use crate::data::{clone_data, Data, DataView};
use crate::errors::Error;
use crate::events::{note_views_of, Notification, NotificationView};
use crate::hash::hash_of;
use crate::ident::Identifier;
use crate::node::{
    find_forest, find_tree, new_node_view, op_notes, removal_notes, tree_removed, update_tree,
    Node, NodeOp, NodeOpView, NodeView,
};
use vstd::prelude::*;

verus! {

/// One atomic wire-level edit to the tree.
#[derive(Debug)]
pub enum TreeChange {
    /// Attach a node with the given payload, optional name and id under the
    /// parent with the last id.
    NodeAdded(Data, Option<String>, Identifier, Identifier),
    /// Detach the subtree rooted at the node with this id.
    NodeRemoved(Identifier),
    /// Rename the node with this id.
    NodeChangedName(Identifier, String),
    /// Replace the payload of the node with this id.
    NodeChangedData(Identifier, Data),
}

/// Abstract value of a `TreeChange`.
pub enum TreeChangeView {
    NodeAdded(DataView, Option<Seq<char>>, u128, u128),
    NodeRemoved(u128),
    NodeChangedName(u128, Seq<char>),
    NodeChangedData(u128, DataView),
}

impl View for TreeChange {
    type V = TreeChangeView;

    open spec fn view(&self) -> TreeChangeView {
        match self {
            TreeChange::NodeAdded(d, None, id, parent) => TreeChangeView::NodeAdded(
                d@,
                None,
                id.value,
                parent.value,
            ),
            TreeChange::NodeAdded(d, Some(n), id, parent) => TreeChangeView::NodeAdded(
                d@,
                Some(n@),
                id.value,
                parent.value,
            ),
            TreeChange::NodeRemoved(id) => TreeChangeView::NodeRemoved(id.value),
            TreeChange::NodeChangedName(id, n) => TreeChangeView::NodeChangedName(id.value, n@),
            TreeChange::NodeChangedData(id, d) => TreeChangeView::NodeChangedData(id.value, d@),
        }
    }
}

/// A copy of a change, with the same abstract value.
pub fn clone_change(c: &TreeChange) -> (r: TreeChange)
    ensures
        r@ == c@,
{
    match c {
        TreeChange::NodeAdded(d, name, id, parent) => {
            let name_copy = match name {
                None => None,
                Some(n) => Some(n.clone()),
            };
            TreeChange::NodeAdded(clone_data(d), name_copy, *id, *parent)
        },
        TreeChange::NodeRemoved(id) => TreeChange::NodeRemoved(*id),
        TreeChange::NodeChangedName(id, n) => TreeChange::NodeChangedName(*id, n.clone()),
        TreeChange::NodeChangedData(id, d) => TreeChange::NodeChangedData(*id, clone_data(d)),
    }
}

/// What one change does to a tree: the changed tree, or the id that could
/// not be located. Removal addresses only proper descendants of the root:
/// the root itself can never be removed.
pub open spec fn apply_change(t: NodeView, c: TreeChangeView) -> Result<NodeView, u128> {
    match c {
        TreeChangeView::NodeAdded(d, name, id, parent) => if find_tree(t, parent) is Some {
            Ok(update_tree(t, parent, NodeOpView::Attach(new_node_view(d, name, id))))
        } else {
            Err(parent)
        },
        TreeChangeView::NodeRemoved(id) => if find_forest(t.children, id) is Some {
            Ok(tree_removed(t, id))
        } else {
            Err(id)
        },
        TreeChangeView::NodeChangedName(id, n) => if find_tree(t, id) is Some {
            Ok(update_tree(t, id, NodeOpView::SetName(n)))
        } else {
            Err(id)
        },
        TreeChangeView::NodeChangedData(id, d) => if find_tree(t, id) is Some {
            Ok(update_tree(t, id, NodeOpView::SetData(d)))
        } else {
            Err(id)
        },
    }
}

/// The observer notifications owed when `c` applies to `t` successfully.
pub open spec fn change_notes(t: NodeView, c: TreeChangeView) -> Seq<NotificationView> {
    match c {
        TreeChangeView::NodeAdded(d, name, id, parent) => op_notes(
            find_tree(t, parent)->Some_0,
            NodeOpView::Attach(new_node_view(d, name, id)),
        ),
        TreeChangeView::NodeRemoved(id) => removal_notes(find_forest(t.children, id)->Some_0),
        TreeChangeView::NodeChangedName(id, n) => op_notes(
            find_tree(t, id)->Some_0,
            NodeOpView::SetName(n),
        ),
        TreeChangeView::NodeChangedData(id, d) => op_notes(
            find_tree(t, id)->Some_0,
            NodeOpView::SetData(d),
        ),
    }
}

/// A tree folded through a sequence of changes, in order; a change whose
/// target is absent leaves the tree as it was.
pub open spec fn apply_changes(t: NodeView, cs: Seq<TreeChangeView>) -> NodeView
    decreases cs,
{
    if cs.len() == 0 {
        t
    } else {
        match apply_change(t, cs.first()) {
            Ok(t2) => apply_changes(t2, cs.drop_first()),
            Err(_) => apply_changes(t, cs.drop_first()),
        }
    }
}

/// Applying one ordered sequence of changes is a pure function of the
/// tree's abstract value: two structurally identical trees end
/// structurally identical, with equal content hashes.
pub proof fn lemma_same_changes_same_hash(t1: NodeView, t2: NodeView, cs: Seq<TreeChangeView>)
    requires
        t1 == t2,
    ensures
        apply_changes(t1, cs) == apply_changes(t2, cs),
        hash_of(apply_changes(t1, cs)) == hash_of(apply_changes(t2, cs)),
{
}

/// Accepts wire-level edits and folds them into the tree.
pub struct TreeBuilder;

impl TreeBuilder {
    /// Applies one edit to the tree in place.
    ///
    /// On success returns the whole-tree content hash after the edit and
    /// appends to `notes` the observer notifications the edit owes; on a
    /// missing target fails with `NotFound` and leaves tree and notes
    /// exactly as they were.
    pub fn change(root: &mut Node, change: TreeChange, notes: &mut Vec<Notification>) -> (r:
        Result<u64, Error>)
        ensures
            (match apply_change(old(root)@, change@) {
                Ok(t2) => r is Ok && r->Ok_0 == hash_of(t2) && final(root)@ == t2 && note_views_of(
                    final(notes)@,
                ) == note_views_of(old(notes)@) + change_notes(old(root)@, change@),
                Err(missing) => (r matches Err(Error::NotFound(m)) && m.value == missing)
                    && final(root)@ == old(root)@ && final(notes)@ == old(notes)@,
            }),
    {
        match change {
            TreeChange::NodeAdded(data, name, id, parent) => {
                let node = Node::new().data(data).id(id);
                let node = match name {
                    None => node,
                    Some(n) => node.name(n),
                };
                proof {
                    assert(node@.children =~= Seq::<NodeView>::empty());
                    assert(node@.subscribers =~= Seq::<u64>::empty());
                }
                match root.apply(parent, NodeOp::Attach(node)) {
                    Ok(mut fired) => {
                        let ghost fired0 = fired@;
                        notes.append(&mut fired);
                        proof {
                            crate::events::lemma_note_views_of_concat(old(notes)@, fired0);
                        }
                        Ok(root.get_hash())
                    },
                    Err(_) => Err(Error::NotFound(parent)),
                }
            },
            TreeChange::NodeRemoved(id) => {
                match root.remove_descendant(id) {
                    Some(mut fired) => {
                        let ghost fired0 = fired@;
                        notes.append(&mut fired);
                        proof {
                            crate::events::lemma_note_views_of_concat(old(notes)@, fired0);
                        }
                        Ok(root.get_hash())
                    },
                    None => Err(Error::NotFound(id)),
                }
            },
            TreeChange::NodeChangedName(id, n) => {
                match root.apply(id, NodeOp::SetName(n)) {
                    Ok(mut fired) => {
                        let ghost fired0 = fired@;
                        notes.append(&mut fired);
                        proof {
                            crate::events::lemma_note_views_of_concat(old(notes)@, fired0);
                        }
                        Ok(root.get_hash())
                    },
                    Err(_) => Err(Error::NotFound(id)),
                }
            },
            TreeChange::NodeChangedData(id, d) => {
                match root.apply(id, NodeOp::SetData(d)) {
                    Ok(mut fired) => {
                        let ghost fired0 = fired@;
                        notes.append(&mut fired);
                        proof {
                            crate::events::lemma_note_views_of_concat(old(notes)@, fired0);
                        }
                        Ok(root.get_hash())
                    },
                    Err(_) => Err(Error::NotFound(id)),
                }
            },
        }
    }
}

} // verus!
