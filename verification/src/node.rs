//! The tree entity: identity, payload, permission, ordered children and an
//! observer list.
//!
//! A node owns its children exclusively; a tree has exactly one root, whose
//! permission is conventionally `Public`. A node is configured once (name,
//! permission, payload, children, id) and thereafter mutated only through
//! `change_data`, `change_name`, `add_child` and `remove_child`, each of
//! which returns the complete list of observer notifications it owes.

use crate::data::{clone_data, Data, DataView};
use crate::errors::Error;
use crate::events::{
    deliveries, note_views_of, push_deliveries, Event, EventView, Notification, NotificationView,
};
use crate::ident::Identifier;
use crate::permissions::{Permissions, PermissionsView};
use vstd::prelude::*;

verus! {

/// A tree node.
pub struct Node {
    pub data: Data,
    pub name: Option<String>,
    pub id: Identifier,
    pub children: Vec<Node>,
    pub permissions: Permissions,
    pub subscribers: Vec<u64>,
}

/// Abstract value of a node: the whole subtree, with observers as plain
/// handles.
pub struct NodeView {
    pub id: u128,
    pub name: Option<Seq<char>>,
    pub data: DataView,
    pub children: Seq<NodeView>,
    pub permissions: PermissionsView,
    pub subscribers: Seq<u64>,
}

/// Abstract values of a sequence of nodes, element by element.
pub open spec fn node_views_of(items: Seq<Node>) -> Seq<NodeView>
    decreases items,
{
    if items.len() == 0 {
        Seq::empty()
    } else {
        node_views_of(items.drop_last()).push(node_view(items.last()))
    }
}

/// Abstract value of a node.
pub open spec fn node_view(n: Node) -> NodeView
    decreases n,
{
    NodeView {
        id: n.id.value,
        name: match n.name {
            None => None,
            Some(s) => Some(s@),
        },
        data: n.data@,
        children: node_views_of(n.children@),
        permissions: n.permissions@,
        subscribers: n.subscribers@,
    }
}

impl View for Node {
    type V = NodeView;

    open spec fn view(&self) -> NodeView {
        node_view(*self)
    }
}

/// `node_views_of` maps each element to its abstract value.
pub proof fn lemma_node_views_of(items: Seq<Node>)
    ensures
        node_views_of(items).len() == items.len(),
        forall|i: int|
            0 <= i < items.len() ==> #[trigger] node_views_of(items)[i] == node_view(items[i]),
    decreases items,
{
    if items.len() > 0 {
        lemma_node_views_of(items.drop_last());
    }
}

/// `node_views_of` commutes with appending one node.
pub proof fn lemma_node_views_of_push(items: Seq<Node>, n: Node)
    ensures
        node_views_of(items.push(n)) == node_views_of(items).push(node_view(n)),
{
    let s = items.push(n);
    assert(s.drop_last() =~= items);
    assert(s.last() == n);
}

/// `node_views_of` commutes with removing one element.
pub proof fn lemma_node_views_of_remove(items: Seq<Node>, i: int)
    requires
        0 <= i < items.len(),
    ensures
        node_views_of(items.remove(i)) == node_views_of(items).remove(i),
{
    lemma_node_views_of(items.remove(i));
    lemma_node_views_of(items);
    assert(node_views_of(items.remove(i)) =~= node_views_of(items).remove(i));
}

impl Default for Node {
    /// A fresh node: random identifier, `Folder` payload, no name, no
    /// children, `Public` permission, no observers.
    fn default() -> (r: Node)
        ensures
            r@.name is None,
            r@.data is Folder,
            r@.children.len() == 0,
            r@.permissions is Public,
            r@.subscribers.len() == 0,
    {
        Node {
            data: Data::Folder,
            name: None,
            id: Identifier::fresh(),
            children: Vec::new(),
            permissions: Permissions::Public,
            subscribers: Vec::new(),
        }
    }
}

impl Node {
    /// A fresh node with default configuration, as `Default` describes.
    pub fn new() -> (r: Node)
        ensures
            r@.name is None,
            r@.data is Folder,
            r@.children.len() == 0,
            r@.permissions is Public,
            r@.subscribers.len() == 0,
    {
        Node::default()
    }

    /// Configuration step: sets the display name.
    pub fn name(self, name: String) -> (r: Node)
        ensures
            r@ == (NodeView { name: Some(name@), ..self@ }),
    {
        Node { name: Some(name), ..self }
    }

    /// Configuration step: sets the permission.
    pub fn permissions(self, permissions: Permissions) -> (r: Node)
        ensures
            r@ == (NodeView { permissions: permissions@, ..self@ }),
    {
        Node { permissions, ..self }
    }

    /// Configuration step: sets all children at once.
    pub fn children(self, children: Vec<Node>) -> (r: Node)
        ensures
            r@ == (NodeView { children: node_views_of(children@), ..self@ }),
    {
        Node { children, ..self }
    }

    /// Configuration step: sets the payload. For runtime changes use
    /// `change_data` instead.
    pub fn data(self, data: Data) -> (r: Node)
        ensures
            r@ == (NodeView { data: data@, ..self@ }),
    {
        Node { data, ..self }
    }

    /// Configuration step: sets the identifier, as when reconstructing a
    /// tree from a remote peer's creation.
    pub fn id(self, id: Identifier) -> (r: Node)
        ensures
            r@ == (NodeView { id: id.value, ..self@ }),
    {
        Node { id, ..self }
    }

    /// How many direct children this node has.
    pub fn get_children_count(&self) -> (count: usize)
        ensures
            count == self@.children.len(),
    {
        proof {
            lemma_node_views_of(self.children@);
        }
        self.children.len()
    }

    /// Attaches one more observer to this node only.
    pub fn subscribe(&mut self, observer: u64)
        ensures
            final(self)@ == (NodeView {
                subscribers: old(self)@.subscribers.push(observer),
                ..old(self)@
            }),
    {
        self.subscribers.push(observer);
    }

    /// Changes the payload at runtime.
    ///
    /// Captures the previous payload, computes the owed notifications, then
    /// commits the new payload. If the new payload is the `Button` variant
    /// the owed event is `ButtonPressed`; otherwise it is `DataChanged` with
    /// the previous payload.
    pub fn change_data(&mut self, data: Data) -> (notes: Vec<Notification>)
        ensures
            final(self)@ == (NodeView { data: data@, ..old(self)@ }),
            note_views_of(notes@) == deliveries(
                old(self)@.subscribers,
                old(self)@.id,
                change_data_event(old(self)@.data, data@),
            ),
    {
        let mut notes: Vec<Notification> = Vec::new();
        let event = if matches!(data, Data::Button(_)) {
            Event::ButtonPressed
        } else {
            Event::DataChanged(clone_data(&self.data))
        };
        push_deliveries(&mut notes, &self.subscribers, self.id, event);
        self.data = data;
        notes
    }

    /// Changes the display name at runtime; the owed event carries the
    /// previous name.
    pub fn change_name(&mut self, name: String) -> (notes: Vec<Notification>)
        ensures
            final(self)@ == (NodeView { name: Some(name@), ..old(self)@ }),
            note_views_of(notes@) == deliveries(
                old(self)@.subscribers,
                old(self)@.id,
                EventView::NameChanged(old(self)@.name),
            ),
    {
        let mut notes: Vec<Notification> = Vec::new();
        let previous = match &self.name {
            None => None,
            Some(s) => Some(s.clone()),
        };
        push_deliveries(&mut notes, &self.subscribers, self.id, Event::NameChanged(previous));
        self.name = Some(name);
        notes
    }

    /// Appends one child. The owed `ChildAdded` event is computed before the
    /// child list includes the new node.
    pub fn add_child(&mut self, node: Node) -> (notes: Vec<Notification>)
        ensures
            final(self)@ == (NodeView {
                children: old(self)@.children.push(node@),
                ..old(self)@
            }),
            note_views_of(notes@) == deliveries(
                old(self)@.subscribers,
                old(self)@.id,
                EventView::ChildAdded(node@.id),
            ),
    {
        let mut notes: Vec<Notification> = Vec::new();
        push_deliveries(&mut notes, &self.subscribers, self.id, Event::ChildAdded(node.id));
        proof {
            lemma_node_views_of_push(self.children@, node);
        }
        self.children.push(node);
        notes
    }
}

/// The event owed by `change_data`: `ButtonPressed` if the new payload is a
/// `Button`, else `DataChanged` carrying the previous payload.
pub open spec fn change_data_event(previous: DataView, new: DataView) -> EventView {
    if new is Button {
        EventView::ButtonPressed
    } else {
        EventView::DataChanged(previous)
    }
}

/// Pre-order search: the first node with the given id in `t`, if any.
pub open spec fn find_tree(t: NodeView, id: u128) -> Option<NodeView>
    decreases t,
{
    if t.id == id {
        Some(t)
    } else {
        find_forest(t.children, id)
    }
}

/// Pre-order search over a forest, left to right.
pub open spec fn find_forest(s: Seq<NodeView>, id: u128) -> Option<NodeView>
    decreases s,
{
    if s.len() == 0 {
        None
    } else if find_tree(s.first(), id) is Some {
        find_tree(s.first(), id)
    } else {
        find_forest(s.drop_first(), id)
    }
}

/// A forest search fails exactly when every subtree search fails.
pub proof fn lemma_find_forest_none(s: Seq<NodeView>, id: u128)
    ensures
        find_forest(s, id) is None <==> (forall|k: int|
            0 <= k < s.len() ==> #[trigger] find_tree(s[k], id) is None),
    decreases s,
{
    if s.len() > 0 {
        lemma_find_forest_none(s.drop_first(), id);
        assert(s.first() == s[0]);
        if find_forest(s, id) is None {
            assert forall|k: int| 0 <= k < s.len() implies #[trigger] find_tree(s[k], id)
                is None by {
                if k > 0 {
                    assert(s.drop_first()[k - 1] == s[k]);
                    assert(find_tree(s.drop_first()[k - 1], id) is None);
                }
            }
        }
        if forall|k: int| 0 <= k < s.len() ==> #[trigger] find_tree(s[k], id) is None {
            assert(find_tree(s.first(), id) is None);
            assert forall|k: int|
                0 <= k < s.drop_first().len() implies #[trigger] find_tree(
                s.drop_first()[k],
                id,
            ) is None by {
                assert(s.drop_first()[k] == s[k + 1]);
                assert(find_tree(s[k + 1], id) is None);
            }
            assert(find_forest(s.drop_first(), id) is None);
        }
    }
}

/// A forest search resolves at the first subtree that contains the id.
pub proof fn lemma_find_forest_at(s: Seq<NodeView>, id: u128, i: int)
    requires
        0 <= i < s.len(),
        find_forest(s.take(i), id) is None,
        find_tree(s[i], id) is Some,
    ensures
        find_forest(s, id) == find_tree(s[i], id),
    decreases i,
{
    if i == 0 {
        assert(s.first() == s[0]);
    } else {
        assert(s.take(i).first() == s.first());
        assert(find_tree(s.first(), id) is None) by {
            lemma_find_forest_none(s.take(i), id);
            assert(s.take(i)[0] == s.first());
        }
        assert(s.drop_first().take(i - 1) =~= s.take(i).drop_first());
        lemma_find_forest_at(s.drop_first(), id, i - 1);
        assert(s.drop_first()[i - 1] == s[i]);
    }
}

impl Node {
    /// Depth-first, pre-order traversal from this node; returns the first
    /// node carrying the given id, if one exists.
    pub fn find_node(&self, id: Identifier) -> (r: Option<&Node>)
        ensures
            match r {
                Some(n) => find_tree(self@, id.value) == Some(n@),
                None => find_tree(self@, id.value) is None,
            },
        decreases self@,
    {
        if self.id.value == id.value {
            return Some(self);
        }
        proof {
            lemma_node_views_of(self.children@);
        }
        let mut i: usize = 0;
        while i < self.children.len()
            invariant
                i <= self.children@.len(),
                self@.id != id.value,
                self@.children.len() == self.children@.len(),
                forall|k: int|
                    0 <= k < self.children@.len() ==> #[trigger] self@.children[k] == node_view(
                        self.children@[k],
                    ),
                find_forest(self@.children.take(i as int), id.value) is None,
            decreases self.children@.len() - i,
        {
            proof {
                assert(self@.children[i as int] == node_view(self.children@[i as int]));
            }
            match self.children[i].find_node(id) {
                Some(n) => {
                    proof {
                        lemma_find_forest_at(self@.children, id.value, i as int);
                    }
                    return Some(n);
                },
                None => {
                    proof {
                        lemma_find_forest_none(self@.children.take(i as int), id.value);
                        lemma_find_forest_none(self@.children.take(i as int + 1), id.value);
                        assert(forall|k: int|
                            0 <= k < i as int + 1 ==> #[trigger] self@.children.take(
                                i as int + 1,
                            )[k] == self@.children[k]);
                    }
                },
            }
            i += 1;
        }
        proof {
            assert(self@.children.take(self.children@.len() as int) =~= self@.children);
        }
        None
    }
}

/// Index of the direct child carrying the given id, or `-1` if none does.
pub open spec fn child_index(s: Seq<NodeView>, id: u128) -> int
    decreases s,
{
    if s.len() == 0 {
        -1
    } else if s.first().id == id {
        0
    } else {
        let rest = child_index(s.drop_first(), id);
        if rest < 0 {
            -1
        } else {
            rest + 1
        }
    }
}

/// What `child_index` finds: the first direct child with the id, if any.
pub proof fn lemma_child_index(s: Seq<NodeView>, id: u128)
    ensures
        child_index(s, id) >= 0 ==> child_index(s, id) < s.len() && s[child_index(s, id)].id == id,
        child_index(s, id) >= 0 ==> (forall|k: int|
            0 <= k < child_index(s, id) ==> #[trigger] s[k].id != id),
        child_index(s, id) < 0 ==> (forall|k: int| 0 <= k < s.len() ==> #[trigger] s[k].id != id),
    decreases s,
{
    if s.len() > 0 {
        lemma_child_index(s.drop_first(), id);
        assert(s.first() == s[0]);
        assert(forall|k: int| 1 <= k < s.len() ==> #[trigger] s[k] == s.drop_first()[k - 1]);
    }
}

/// The deletion notifications owed when the subtree rooted at `t` is
/// discarded: the node itself first, then each of its children's subtrees,
/// left to right.
pub open spec fn removal_notes(t: NodeView) -> Seq<NotificationView>
    decreases t,
{
    deliveries(t.subscribers, t.id, EventView::ChildRemoved) + removal_notes_of(t.children)
}

/// The deletion notifications of a forest, left to right.
pub open spec fn removal_notes_of(s: Seq<NodeView>) -> Seq<NotificationView>
    decreases s,
{
    if s.len() == 0 {
        Seq::empty()
    } else {
        removal_notes(s.first()) + removal_notes_of(s.drop_first())
    }
}

/// `removal_notes_of` commutes with appending one subtree.
pub proof fn lemma_removal_notes_of_push(s: Seq<NodeView>, t: NodeView)
    ensures
        removal_notes_of(s.push(t)) == removal_notes_of(s) + removal_notes(t),
    decreases s,
{
    if s.len() == 0 {
        assert(s.push(t).first() == t);
        assert(s.push(t).drop_first() =~= Seq::<NodeView>::empty());
        assert(removal_notes_of(s.push(t).drop_first()) == Seq::<NotificationView>::empty());
        assert(removal_notes_of(s) == Seq::<NotificationView>::empty());
        assert(removal_notes_of(s.push(t)) =~= removal_notes_of(s) + removal_notes(t));
    } else {
        assert(s.push(t).first() == s.first());
        assert(s.push(t).drop_first() =~= s.drop_first().push(t));
        lemma_removal_notes_of_push(s.drop_first(), t);
        assert(removal_notes_of(s.push(t)) == removal_notes(s.first()) + removal_notes_of(
            s.drop_first().push(t),
        ));
        assert(removal_notes_of(s.drop_first().push(t)) == removal_notes_of(s.drop_first())
            + removal_notes(t));
        assert(removal_notes(s.first()) + (removal_notes_of(s.drop_first()) + removal_notes(t))
            =~= (removal_notes(s.first()) + removal_notes_of(s.drop_first())) + removal_notes(t));
    }
}

/// Appends to `out` every deletion notification owed for the subtree rooted
/// at `node`: the node itself first, then its descendants in pre-order.
fn collect_removal_notes(node: &Node, out: &mut Vec<Notification>)
    ensures
        note_views_of(final(out)@) == note_views_of(old(out)@) + removal_notes(node@),
    decreases node@,
{
    push_deliveries(out, &node.subscribers, node.id, Event::ChildRemoved);
    let ghost head = deliveries(node@.subscribers, node@.id, EventView::ChildRemoved);
    proof {
        lemma_node_views_of(node.children@);
    }
    let mut i: usize = 0;
    while i < node.children.len()
        invariant
            i <= node.children@.len(),
            node@.children.len() == node.children@.len(),
            forall|k: int|
                0 <= k < node.children@.len() ==> #[trigger] node@.children[k] == node_view(
                    node.children@[k],
                ),
            head == deliveries(node@.subscribers, node@.id, EventView::ChildRemoved),
            note_views_of(out@) == note_views_of(old(out)@) + head + removal_notes_of(
                node@.children.take(i as int),
            ),
        decreases node.children@.len() - i,
    {
        collect_removal_notes(&node.children[i], out);
        proof {
            assert(node@.children.take(i as int).push(node@.children[i as int])
                =~= node@.children.take(i as int + 1));
            lemma_removal_notes_of_push(node@.children.take(i as int), node@.children[i as int]);
        }
        i += 1;
    }
    proof {
        assert(node@.children.take(node.children@.len() as int) =~= node@.children);
    }
}

impl Node {
    /// Removes the direct child carrying the given id, if present, detaching
    /// exactly that subtree and leaving every sibling untouched. Returns
    /// whether a match was found, together with the deletion notifications
    /// owed for the detached subtree. The root of a tree can never be
    /// removed this way, since only children are considered.
    pub fn remove_child(&mut self, id: Identifier) -> (r: (bool, Vec<Notification>))
        ensures
            child_index(old(self)@.children, id.value) >= 0 ==> ({
                let idx = child_index(old(self)@.children, id.value);
                r.0 == true && final(self)@ == (NodeView {
                    children: old(self)@.children.remove(idx),
                    ..old(self)@
                }) && note_views_of(r.1@) == removal_notes(old(self)@.children[idx])
            }),
            child_index(old(self)@.children, id.value) < 0 ==> r.0 == false && final(self)@ == old(
                self,
            )@ && r.1@.len() == 0,
    {
        proof {
            lemma_node_views_of(self.children@);
            lemma_child_index(old(self)@.children, id.value);
        }
        let mut i: usize = 0;
        while i < self.children.len()
            invariant
                i <= self.children@.len(),
                self@ == old(self)@,
                self@.children.len() == self.children@.len(),
                forall|k: int|
                    0 <= k < self.children@.len() ==> #[trigger] self@.children[k] == node_view(
                        self.children@[k],
                    ),
                forall|k: int| 0 <= k < i ==> #[trigger] self@.children[k].id != id.value,
            decreases self.children@.len() - i,
        {
            if self.children[i].id.value == id.value {
                proof {
                    lemma_child_index_found(self@.children, id.value, i as int);
                    lemma_node_views_of_remove(self.children@, i as int);
                }
                let removed = self.children.remove(i);
                let mut notes: Vec<Notification> = Vec::new();
                collect_removal_notes(&removed, &mut notes);
                proof {
                    assert(note_views_of(Seq::<Notification>::empty()) + removal_notes(removed@)
                        =~= removal_notes(removed@));
                }
                return (true, notes);
            }
            i += 1;
        }
        proof {
            lemma_child_index(self@.children, id.value);
            if child_index(self@.children, id.value) >= 0 {
                assert(self@.children[child_index(self@.children, id.value)].id == id.value);
                assert(false);
            }
        }
        (false, Vec::new())
    }
}

/// When a prefix of the forest is free of the id and position `i` carries
/// it, `child_index` resolves to `i`.
pub proof fn lemma_child_index_found(s: Seq<NodeView>, id: u128, i: int)
    requires
        0 <= i < s.len(),
        s[i].id == id,
        forall|k: int| 0 <= k < i ==> #[trigger] s[k].id != id,
    ensures
        child_index(s, id) == i,
    decreases i,
{
    assert(s.first() == s[0]);
    if i == 0 {
    } else {
        assert(forall|k: int| 0 <= k < s.drop_first().len() ==> #[trigger] s.drop_first()[k] == s[
            k + 1
        ]);
        lemma_child_index_found(s.drop_first(), id, i - 1);
    }
}

/// One runtime mutation aimed at a single node of the tree.
pub enum NodeOp {
    /// Replace the payload.
    SetData(Data),
    /// Replace the display name.
    SetName(String),
    /// Append a new child.
    Attach(Node),
}

/// Abstract value of a `NodeOp`.
pub enum NodeOpView {
    SetData(DataView),
    SetName(Seq<char>),
    Attach(NodeView),
}

impl View for NodeOp {
    type V = NodeOpView;

    open spec fn view(&self) -> NodeOpView {
        match self {
            NodeOp::SetData(d) => NodeOpView::SetData(d@),
            NodeOp::SetName(n) => NodeOpView::SetName(n@),
            NodeOp::Attach(c) => NodeOpView::Attach(c@),
        }
    }
}

/// The node `t` after `op` lands on it.
pub open spec fn node_with(t: NodeView, op: NodeOpView) -> NodeView {
    match op {
        NodeOpView::SetData(d) => NodeView { data: d, ..t },
        NodeOpView::SetName(n) => NodeView { name: Some(n), ..t },
        NodeOpView::Attach(c) => NodeView { children: t.children.push(c), ..t },
    }
}

/// The notifications owed when `op` lands on node `t`.
pub open spec fn op_notes(t: NodeView, op: NodeOpView) -> Seq<NotificationView> {
    match op {
        NodeOpView::SetData(d) => deliveries(t.subscribers, t.id, change_data_event(t.data, d)),
        NodeOpView::SetName(_) => deliveries(t.subscribers, t.id, EventView::NameChanged(t.name)),
        NodeOpView::Attach(c) => deliveries(t.subscribers, t.id, EventView::ChildAdded(c.id)),
    }
}

/// The tree `t` after `op` lands on its first node carrying `id` (pre-order);
/// unchanged if no node carries `id`.
pub open spec fn update_tree(t: NodeView, id: u128, op: NodeOpView) -> NodeView
    decreases t,
{
    if t.id == id {
        node_with(t, op)
    } else {
        NodeView { children: update_forest(t.children, id, op), ..t }
    }
}

/// The forest after `op` lands in the first subtree containing `id`.
pub open spec fn update_forest(s: Seq<NodeView>, id: u128, op: NodeOpView) -> Seq<NodeView>
    decreases s,
{
    if s.len() == 0 {
        s
    } else if find_tree(s.first(), id) is Some {
        seq![update_tree(s.first(), id, op)] + s.drop_first()
    } else {
        seq![s.first()] + update_forest(s.drop_first(), id, op)
    }
}

/// When the subtrees before position `i` are free of `id` and the subtree at
/// `i` contains it, updating the forest updates exactly that subtree.
pub proof fn lemma_update_forest_at(s: Seq<NodeView>, id: u128, op: NodeOpView, i: int)
    requires
        0 <= i < s.len(),
        find_forest(s.take(i), id) is None,
        find_tree(s[i], id) is Some,
    ensures
        update_forest(s, id, op) == s.update(i, update_tree(s[i], id, op)),
    decreases i,
{
    assert(s.first() == s[0]);
    if i == 0 {
        assert(seq![update_tree(s[0], id, op)] + s.drop_first() =~= s.update(
            0,
            update_tree(s[0], id, op),
        ));
    } else {
        assert(find_tree(s.first(), id) is None) by {
            lemma_find_forest_none(s.take(i), id);
            assert(s.take(i)[0] == s.first());
        }
        assert(s.drop_first().take(i - 1) =~= s.take(i).drop_first());
        lemma_update_forest_at(s.drop_first(), id, op, i - 1);
        assert(s.drop_first()[i - 1] == s[i]);
        assert(seq![s.first()] + s.drop_first().update(i - 1, update_tree(s[i], id, op)) =~= s
            .update(i, update_tree(s[i], id, op)));
    }
}

/// The forest after the first node carrying `id` (pre-order) is detached
/// together with its subtree; unchanged if no node carries `id`.
pub open spec fn forest_removed(s: Seq<NodeView>, id: u128) -> Seq<NodeView>
    decreases s,
{
    if s.len() == 0 {
        s
    } else if s.first().id == id {
        s.drop_first()
    } else if find_tree(s.first(), id) is Some {
        seq![tree_removed(s.first(), id)] + s.drop_first()
    } else {
        seq![s.first()] + forest_removed(s.drop_first(), id)
    }
}

/// The tree `t` after the first descendant carrying `id` is detached.
pub open spec fn tree_removed(t: NodeView, id: u128) -> NodeView
    decreases t,
{
    NodeView { children: forest_removed(t.children, id), ..t }
}

/// When the subtrees before position `i` are free of `id`, removal resolves
/// at position `i`: the node there is detached if it carries `id` itself,
/// else the removal descends into it.
pub proof fn lemma_forest_removed_at(s: Seq<NodeView>, id: u128, i: int)
    requires
        0 <= i < s.len(),
        find_forest(s.take(i), id) is None,
        find_tree(s[i], id) is Some,
    ensures
        s[i].id == id ==> forest_removed(s, id) == s.remove(i),
        s[i].id != id ==> forest_removed(s, id) == s.update(i, tree_removed(s[i], id)),
    decreases i,
{
    assert(s.first() == s[0]);
    if i == 0 {
        if s[0].id == id {
            assert(forest_removed(s, id) =~= s.remove(0));
        } else {
            assert(seq![tree_removed(s[0], id)] + s.drop_first() =~= s.update(
                0,
                tree_removed(s[0], id),
            ));
        }
    } else {
        assert(find_tree(s.first(), id) is None) by {
            lemma_find_forest_none(s.take(i), id);
            assert(s.take(i)[0] == s.first());
        }
        assert(s.drop_first().take(i - 1) =~= s.take(i).drop_first());
        lemma_forest_removed_at(s.drop_first(), id, i - 1);
        assert(s.drop_first()[i - 1] == s[i]);
        if s[i].id == id {
            assert(seq![s.first()] + s.drop_first().remove(i - 1) =~= s.remove(i));
        } else {
            assert(seq![s.first()] + s.drop_first().update(i - 1, tree_removed(s[i], id)) =~= s
                .update(i, tree_removed(s[i], id)));
        }
    }
}

impl Node {
    /// Locates the first node carrying `id` in pre-order and lands `op` on
    /// it; fails and hands `op` back, with the tree untouched, if no node
    /// carries `id`. On success returns the notifications owed by the
    /// mutated node.
    #[verifier::loop_isolation(false)]
    pub fn apply(&mut self, id: Identifier, op: NodeOp) -> (r: Result<Vec<Notification>, NodeOp>)
        ensures
            find_tree(old(self)@, id.value) is Some ==> r is Ok && final(self)@ == update_tree(
                old(self)@,
                id.value,
                op@,
            ) && note_views_of(r->Ok_0@) == op_notes(
                find_tree(old(self)@, id.value)->Some_0,
                op@,
            ),
            find_tree(old(self)@, id.value) is None ==> r is Err && r->Err_0@ == op@
                && final(self)@ == old(self)@,
        decreases old(self)@,
    {
        if self.id.value == id.value {
            let notes = match op {
                NodeOp::SetData(d) => self.change_data(d),
                NodeOp::SetName(n) => self.change_name(n),
                NodeOp::Attach(c) => self.add_child(c),
            };
            return Ok(notes);
        }
        let ghost op0 = op@;
        let mut op = op;
        proof {
            lemma_node_views_of(self.children@);
        }
        let mut i: usize = 0;
        while i < self.children.len()
            invariant
                i <= self.children@.len(),
                op@ == op0,
                self@ == old(self)@,
                self@.id != id.value,
                self@.children.len() == self.children@.len(),
                forall|k: int|
                    0 <= k < self.children@.len() ==> #[trigger] self@.children[k] == node_view(
                        self.children@[k],
                    ),
                find_forest(self@.children.take(i as int), id.value) is None,
            decreases self.children@.len() - i,
        {
            let ghost pre = self@;
            proof {
                assert(pre.children[i as int] == node_view(self.children@[i as int]));
            }
            match self.children[i].apply(id, op) {
                Ok(notes) => {
                    proof {
                        assert(find_tree(pre.children[i as int], id.value) is Some);
                        lemma_find_forest_at(pre.children, id.value, i as int);
                        lemma_update_forest_at(pre.children, id.value, op0, i as int);
                        lemma_node_views_of(self.children@);
                        assert(node_views_of(self.children@) =~= pre.children.update(
                            i as int,
                            update_tree(pre.children[i as int], id.value, op0),
                        ));
                        assert(find_tree(old(self)@, id.value) == find_tree(
                            pre.children[i as int],
                            id.value,
                        ));
                        assert(self@.children == update_forest(old(self)@.children, id.value, op0));
                        assert(self@ == update_tree(old(self)@, id.value, op0));
                        assert(note_views_of(notes@) == op_notes(
                            find_tree(old(self)@, id.value)->Some_0,
                            op0,
                        ));
                    }
                    return Ok(notes);
                },
                Err(e) => {
                    op = e;
                    proof {
                        lemma_node_views_of(self.children@);
                        assert(node_views_of(self.children@) =~= pre.children);
                        assert(self@ == pre);
                    }
                },
            }
            proof {
                lemma_find_forest_none(self@.children.take(i as int), id.value);
                lemma_find_forest_none(self@.children.take(i as int + 1), id.value);
                assert(forall|k: int|
                    0 <= k < i as int + 1 ==> #[trigger] self@.children.take(i as int + 1)[k]
                        == self@.children[k]);
            }
            i += 1;
        }
        proof {
            assert(self@.children.take(self.children@.len() as int) =~= self@.children);
        }
        Err(op)
    }

    /// Locates the first descendant carrying `id` in pre-order and detaches
    /// its whole subtree, returning the deletion notifications owed for it;
    /// returns nothing and leaves the tree untouched if no descendant
    /// carries `id`. This node itself is never considered, so the root of a
    /// tree cannot be removed.
    pub fn remove_descendant(&mut self, id: Identifier) -> (r: Option<Vec<Notification>>)
        ensures
            find_forest(old(self)@.children, id.value) is Some ==> r is Some && final(self)@ == (
            NodeView { children: forest_removed(old(self)@.children, id.value), ..old(self)@ })
                && note_views_of(r->0@) == removal_notes(
                find_forest(old(self)@.children, id.value)->Some_0,
            ),
            find_forest(old(self)@.children, id.value) is None ==> r is None && final(self)@
                == old(self)@,
        decreases old(self)@,
    {
        proof {
            lemma_node_views_of(self.children@);
        }
        let mut i: usize = 0;
        while i < self.children.len()
            invariant
                i <= self.children@.len(),
                self@ == old(self)@,
                self@.children.len() == self.children@.len(),
                forall|k: int|
                    0 <= k < self.children@.len() ==> #[trigger] self@.children[k] == node_view(
                        self.children@[k],
                    ),
                find_forest(self@.children.take(i as int), id.value) is None,
            decreases self.children@.len() - i,
        {
            let ghost pre = self@;
            if self.children[i].id.value == id.value {
                proof {
                    lemma_find_forest_at(pre.children, id.value, i as int);
                    lemma_forest_removed_at(pre.children, id.value, i as int);
                    lemma_node_views_of_remove(self.children@, i as int);
                }
                let removed = self.children.remove(i);
                let mut notes: Vec<Notification> = Vec::new();
                collect_removal_notes(&removed, &mut notes);
                proof {
                    assert(note_views_of(Seq::<Notification>::empty()) + removal_notes(removed@)
                        =~= removal_notes(removed@));
                }
                return Some(notes);
            }
            proof {
                assert(pre.children[i as int] == node_view(self.children@[i as int]));
            }
            match self.children[i].remove_descendant(id) {
                Some(notes) => {
                    proof {
                        lemma_find_forest_at(pre.children, id.value, i as int);
                        lemma_forest_removed_at(pre.children, id.value, i as int);
                        lemma_node_views_of(self.children@);
                        assert(node_views_of(self.children@) =~= pre.children.update(
                            i as int,
                            tree_removed(pre.children[i as int], id.value),
                        ));
                    }
                    return Some(notes);
                },
                None => {
                    proof {
                        lemma_node_views_of(self.children@);
                        assert(node_views_of(self.children@) =~= pre.children);
                        assert(self@ == pre);
                    }
                },
            }
            proof {
                lemma_find_forest_none(self@.children.take(i as int), id.value);
                lemma_find_forest_none(self@.children.take(i as int + 1), id.value);
                assert(forall|k: int|
                    0 <= k < i as int + 1 ==> #[trigger] self@.children.take(i as int + 1)[k]
                        == self@.children[k]);
            }
            i += 1;
        }
        proof {
            assert(self@.children.take(self.children@.len() as int) =~= self@.children);
        }
        None
    }
}

/// The tree `t` with `observer` attached to every node of the subtree.
pub open spec fn subscribe_all(t: NodeView, observer: u64) -> NodeView
    decreases t,
{
    NodeView {
        subscribers: t.subscribers.push(observer),
        children: subscribe_all_of(t.children, observer),
        ..t
    }
}

/// Every subtree of the forest with `observer` attached throughout.
pub open spec fn subscribe_all_of(s: Seq<NodeView>, observer: u64) -> Seq<NodeView>
    decreases s,
{
    if s.len() == 0 {
        s
    } else {
        seq![subscribe_all(s.first(), observer)] + subscribe_all_of(s.drop_first(), observer)
    }
}

/// `subscribe_all_of` maps each subtree to its subscribed copy.
pub proof fn lemma_subscribe_all_of(s: Seq<NodeView>, observer: u64)
    ensures
        subscribe_all_of(s, observer).len() == s.len(),
        forall|k: int|
            0 <= k < s.len() ==> #[trigger] subscribe_all_of(s, observer)[k] == subscribe_all(
                s[k],
                observer,
            ),
    decreases s,
{
    if s.len() > 0 {
        lemma_subscribe_all_of(s.drop_first(), observer);
        assert(s.first() == s[0]);
        assert(forall|k: int| 1 <= k < s.len() ==> s.drop_first()[k - 1] == #[trigger] s[k]);
    }
}

impl Node {
    /// Attaches a copy of the observer to this node and to every node
    /// currently in its subtree; nodes added later are not automatically
    /// subscribed.
    #[verifier::loop_isolation(false)]
    pub fn subscribe_to_children(&mut self, observer: u64)
        ensures
            final(self)@ == subscribe_all(old(self)@, observer),
        decreases old(self)@,
    {
        let ghost pre = self@;
        proof {
            lemma_node_views_of(self.children@);
        }
        let mut i: usize = 0;
        while i < self.children.len()
            invariant
                i <= self.children@.len(),
                self.children@.len() == pre.children.len(),
                self.id == old(self).id,
                self.name == old(self).name,
                self.data == old(self).data,
                self.permissions == old(self).permissions,
                self.subscribers == old(self).subscribers,
                forall|k: int|
                    0 <= k < i ==> #[trigger] node_view(self.children@[k]) == subscribe_all(
                        pre.children[k],
                        observer,
                    ),
                forall|k: int|
                    i <= k < self.children@.len() ==> #[trigger] node_view(self.children@[k])
                        == pre.children[k],
            decreases self.children@.len() - i,
        {
            self.children[i].subscribe_to_children(observer);
            i += 1;
        }
        self.subscribers.push(observer);
        proof {
            lemma_node_views_of(self.children@);
            lemma_subscribe_all_of(pre.children, observer);
            assert(node_views_of(self.children@) =~= subscribe_all_of(pre.children, observer));
        }
    }

    /// Presses this node: for a `Button` payload, increments the press
    /// count (wrapping at the numeric limit) through the same path as any
    /// other payload change, so a `ButtonPressed` event is owed; for any
    /// other payload fails with `ProtocolViolation` and changes nothing.
    pub fn press(&mut self) -> (r: Result<Vec<Notification>, Error>)
        ensures
            (match old(self)@.data {
                DataView::Button(n) => {
                    let next = if n == u64::MAX {
                        0u64
                    } else {
                        (n + 1) as u64
                    };
                    r is Ok && final(self)@ == (NodeView {
                        data: DataView::Button(next),
                        ..old(self)@
                    }) && note_views_of(r->Ok_0@) == deliveries(
                        old(self)@.subscribers,
                        old(self)@.id,
                        EventView::ButtonPressed,
                    )
                },
                _ => r matches Err(Error::ProtocolViolation) && final(self)@ == old(self)@,
            }),
    {
        if let Data::Button(n) = self.data {
            let notes = self.change_data(Data::Button(n.wrapping_add(1)));
            Ok(notes)
        } else {
            Err(Error::ProtocolViolation)
        }
    }

    /// A mutable borrow of the child at `index`, or `NoSuchChild` if there
    /// is no child there.
    pub fn get_child(&mut self, index: usize) -> (r: Result<&mut Node, Error>)
        ensures
            index < old(self)@.children.len() ==> r is Ok && *r->Ok_0 == old(self).children@[
                index as int
            ] && final(self).children@ == old(self).children@.update(
                index as int,
                *final(r->Ok_0),
            ) && final(self).id == old(self).id && final(self).name == old(self).name
                && final(self).data == old(self).data
                && final(self).permissions == old(self).permissions
                && final(self).subscribers == old(self).subscribers,
            index >= old(self)@.children.len() ==> (r matches Err(Error::NoSuchChild(j))
                && j == index && *final(self) == *old(self)),
    {
        proof {
            lemma_node_views_of(self.children@);
        }
        if index < self.children.len() {
            Ok(&mut self.children[index])
        } else {
            Err(Error::NoSuchChild(index))
        }
    }
}

/// The abstract value of a node freshly built for replication: the given
/// id, name and payload, no children, `Public` permission, no observers.
pub open spec fn new_node_view(data: DataView, name: Option<Seq<char>>, id: u128) -> NodeView {
    NodeView {
        id,
        name,
        data,
        children: Seq::empty(),
        permissions: PermissionsView::Public,
        subscribers: Seq::empty(),
    }
}

impl Node {
    /// Depth-first, pre-order search over this node's descendants only:
    /// the node itself is never considered.
    pub fn find_descendant(&self, id: Identifier) -> (r: Option<&Node>)
        ensures
            (match r {
                Some(n) => find_forest(self@.children, id.value) == Some(n@),
                None => find_forest(self@.children, id.value) is None,
            }),
    {
        proof {
            lemma_node_views_of(self.children@);
        }
        let mut i: usize = 0;
        while i < self.children.len()
            invariant
                i <= self.children@.len(),
                self@.children.len() == self.children@.len(),
                forall|k: int|
                    0 <= k < self.children@.len() ==> #[trigger] self@.children[k] == node_view(
                        self.children@[k],
                    ),
                find_forest(self@.children.take(i as int), id.value) is None,
            decreases self.children@.len() - i,
        {
            proof {
                assert(self@.children[i as int] == node_view(self.children@[i as int]));
            }
            match self.children[i].find_node(id) {
                Some(n) => {
                    proof {
                        lemma_find_forest_at(self@.children, id.value, i as int);
                    }
                    return Some(n);
                },
                None => {
                    proof {
                        lemma_find_forest_none(self@.children.take(i as int), id.value);
                        lemma_find_forest_none(self@.children.take(i as int + 1), id.value);
                        assert(forall|k: int|
                            0 <= k < i as int + 1 ==> #[trigger] self@.children.take(
                                i as int + 1,
                            )[k] == self@.children[k]);
                    }
                },
            }
            i += 1;
        }
        proof {
            assert(self@.children.take(self.children@.len() as int) =~= self@.children);
        }
        None
    }
}

} // verus!
