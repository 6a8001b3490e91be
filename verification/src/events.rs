//! Observer notifications.
//!
//! Observers are identified by plain handles; every mutating call on a node
//! computes the complete list of deliveries it owes — one notification per
//! subscribed observer, in subscription order — and hands it back to the
//! caller before returning, which is the synchronous delivery discipline:
//! all notifications of a mutation exist before the mutating call is done.
//! Re-entering a mutation on the same node while consuming a delivery list
//! is a contract violation by the observer, not guarded against here.

use crate::data::{clone_data, Data, DataView};
use crate::ident::Identifier;
use vstd::prelude::*;

verus! {

/// What happened at a node.
#[derive(Debug)]
pub enum Event {
    /// The payload changed; carries the previous payload.
    DataChanged(Data),
    /// A `Button` payload was written; fired instead of `DataChanged`.
    ButtonPressed,
    /// The display name changed; carries the previous name, which may have
    /// been absent.
    NameChanged(Option<String>),
    /// A child with the given id is about to be attached; at delivery time
    /// the child list does not yet include it.
    ChildAdded(Identifier),
    /// The node's subtree is being detached and discarded.
    ChildRemoved,
}

/// Abstract value of an `Event`.
pub enum EventView {
    DataChanged(DataView),
    ButtonPressed,
    NameChanged(Option<Seq<char>>),
    ChildAdded(u128),
    ChildRemoved,
}

impl View for Event {
    type V = EventView;

    open spec fn view(&self) -> EventView {
        match self {
            Event::DataChanged(prev) => EventView::DataChanged(prev@),
            Event::ButtonPressed => EventView::ButtonPressed,
            Event::NameChanged(None) => EventView::NameChanged(None),
            Event::NameChanged(Some(prev)) => EventView::NameChanged(Some(prev@)),
            Event::ChildAdded(child) => EventView::ChildAdded(child.value),
            Event::ChildRemoved => EventView::ChildRemoved,
        }
    }
}

/// One synchronous delivery: `observer` is told that `event` happened at the
/// node with id `node`.
pub struct Notification {
    pub observer: u64,
    pub node: Identifier,
    pub event: Event,
}

/// Abstract value of a `Notification`.
pub struct NotificationView {
    pub observer: u64,
    pub node: u128,
    pub event: EventView,
}

impl View for Notification {
    type V = NotificationView;

    open spec fn view(&self) -> NotificationView {
        NotificationView { observer: self.observer, node: self.node.value, event: self.event@ }
    }
}

/// The deliveries owed when `event` happens at node `node` with subscribers
/// `subs`: one notification per subscriber, in subscription order.
pub open spec fn deliveries(subs: Seq<u64>, node: u128, event: EventView) -> Seq<NotificationView> {
    Seq::new(subs.len(), |i: int| NotificationView { observer: subs[i], node, event })
}

/// Abstract values of a list of notifications, element by element.
pub open spec fn note_views_of(s: Seq<Notification>) -> Seq<NotificationView>
    decreases s,
{
    if s.len() == 0 {
        Seq::empty()
    } else {
        note_views_of(s.drop_last()).push(s.last()@)
    }
}

/// `note_views_of` maps each element to its abstract value.
pub proof fn lemma_note_views_of(s: Seq<Notification>)
    ensures
        note_views_of(s).len() == s.len(),
        forall|i: int| 0 <= i < s.len() ==> #[trigger] note_views_of(s)[i] == s[i]@,
    decreases s,
{
    if s.len() > 0 {
        lemma_note_views_of(s.drop_last());
    }
}

/// A copy of an event, with the same abstract value.
pub fn clone_event(e: &Event) -> (r: Event)
    ensures
        r@ == e@,
{
    match e {
        Event::DataChanged(prev) => Event::DataChanged(clone_data(prev)),
        Event::ButtonPressed => Event::ButtonPressed,
        Event::NameChanged(None) => Event::NameChanged(None),
        Event::NameChanged(Some(prev)) => Event::NameChanged(Some(prev.clone())),
        Event::ChildAdded(child) => Event::ChildAdded(*child),
        Event::ChildRemoved => Event::ChildRemoved,
    }
}

/// Appends to `out` the deliveries owed when `event` happens at node `node`
/// with subscribers `subs`.
pub fn push_deliveries(
    out: &mut Vec<Notification>,
    subs: &Vec<u64>,
    node: Identifier,
    event: Event,
)
    ensures
        note_views_of(final(out)@) == note_views_of(old(out)@) + deliveries(
            subs@,
            node.value,
            event@,
        ),
{
    let ghost base = out@.len();
    let mut i: usize = 0;
    while i < subs.len()
        invariant
            i <= subs@.len(),
            out@.len() == base + i,
            forall|k: int| 0 <= k < base ==> #[trigger] out@[k] == old(out)@[k],
            forall|k: int|
                0 <= k < i ==> #[trigger] out@[base + k]@ == (NotificationView {
                    observer: subs@[k],
                    node: node.value,
                    event: event@,
                }),
        decreases subs@.len() - i,
    {
        out.push(Notification { observer: subs[i], node, event: clone_event(&event) });
        i += 1;
    }
    proof {
        lemma_note_views_of(out@);
        lemma_note_views_of(old(out)@);
        let target = note_views_of(old(out)@) + deliveries(subs@, node.value, event@);
        assert forall|j: int| 0 <= j < out@.len() implies note_views_of(out@)[j] == target[j] by {
            if j < base {
                assert(out@[j] == old(out)@[j]);
            } else {
                let k = j - base;
                assert(out@[base + k]@ == (NotificationView {
                    observer: subs@[k],
                    node: node.value,
                    event: event@,
                }));
            }
        }
        assert(note_views_of(out@) =~= target);
    }
}

/// `note_views_of` distributes over concatenation.
pub proof fn lemma_note_views_of_concat(a: Seq<Notification>, b: Seq<Notification>)
    ensures
        note_views_of(a + b) == note_views_of(a) + note_views_of(b),
    decreases b,
{
    if b.len() == 0 {
        assert(a + b =~= a);
        assert(note_views_of(b) == Seq::<NotificationView>::empty());
        assert(note_views_of(a) + note_views_of(b) =~= note_views_of(a));
    } else {
        assert((a + b).drop_last() =~= a + b.drop_last());
        assert((a + b).last() == b.last());
        lemma_note_views_of_concat(a, b.drop_last());
        assert(note_views_of(a + b) == (note_views_of(a) + note_views_of(b.drop_last())).push(
            b.last()@,
        ));
        assert((note_views_of(a) + note_views_of(b.drop_last())).push(b.last()@) =~= note_views_of(
            a,
        ) + note_views_of(b.drop_last()).push(b.last()@));
    }
}

} // verus!
