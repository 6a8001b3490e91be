//! The permission model: a pure predicate over access levels.
//!
//! Permissions are transitive by convention: if a node carries permission
//! `P`, its children are expected to carry permissions no stronger than `P`.
//! The predicate itself carries no state; it is evaluated once per mutation
//! attempt against the target node's declared permission and the caller's
//! credential.

use vstd::prelude::*;

verus! {

/// Access level attached to a node, or carried by a session as a credential.
///
/// `Admin` outranks everything; `User` optionally carries a list of group
/// names; `Public` is the weakest level.
pub enum Permissions {
    Admin,
    User(Option<Vec<String>>),
    Public,
}

/// Abstract value of a `Permissions`: group names become sequences of
/// characters.
pub enum PermissionsView {
    Admin,
    User(Option<Seq<Seq<char>>>),
    Public,
}

impl View for Permissions {
    type V = PermissionsView;

    open spec fn view(&self) -> PermissionsView {
        match self {
            Permissions::Admin => PermissionsView::Admin,
            Permissions::User(None) => PermissionsView::User(None),
            Permissions::User(Some(groups)) => PermissionsView::User(Some(groups.deep_view())),
            Permissions::Public => PermissionsView::Public,
        }
    }
}

/// Whether the two group lists share at least one name.
pub open spec fn groups_intersect(a: Seq<Seq<char>>, b: Seq<Seq<char>>) -> bool {
    exists|i: int, j: int|
        #![trigger a[i], b[j]]
        0 <= i < a.len() && 0 <= j < b.len() && a[i] == b[j]
}

/// Mathematical form of the access predicate.
///
/// `required` is the permission declared on the node, `actual` the caller's
/// credential. The table:
/// - anything can be accessed by `Admin`;
/// - an `Admin` node can be accessed by nobody else;
/// - a `Public` node can be accessed by anybody;
/// - a `User(None)` node can be accessed by any `User`;
/// - a `User(Some(g))` node can be accessed by `User(Some(h))` iff the two
///   group lists intersect, and by `User(None)` iff `g` is empty;
/// - no `User` node can be accessed by `Public`.
pub open spec fn can_access(required: PermissionsView, actual: PermissionsView) -> bool {
    match (required, actual) {
        (_, PermissionsView::Admin) => true,
        (PermissionsView::Admin, _) => false,
        (PermissionsView::Public, _) => true,
        (PermissionsView::User(None), PermissionsView::User(_)) => true,
        (PermissionsView::User(Some(groups)), PermissionsView::User(Some(held))) => groups_intersect(
            groups,
            held,
        ),
        (PermissionsView::User(Some(groups)), PermissionsView::User(None)) => groups.len() == 0,
        (PermissionsView::User(_), PermissionsView::Public) => false,
    }
}

impl Permissions {
    /// Decides whether a caller holding `other` may access a node declared
    /// `self`, exactly as `can_access` states.
    pub fn can_be_accessed(&self, other: &Permissions) -> (granted: bool)
        ensures
            granted == can_access(self@, other@),
    {
        match (self, other) {
            (_, Permissions::Admin) => true,
            (Permissions::Admin, _) => false,
            (Permissions::Public, _) => true,
            (Permissions::User(None), Permissions::User(_)) => true,
            (Permissions::User(Some(groups)), Permissions::User(Some(held))) => {
                let ghost gv = groups.deep_view();
                let ghost hv = held.deep_view();
                let mut i: usize = 0;
                while i < groups.len()
                    invariant
                        i <= groups.len(),
                        gv == groups.deep_view(),
                        hv == held.deep_view(),
                        self@ == PermissionsView::User(Some(gv)),
                        other@ == PermissionsView::User(Some(hv)),
                        gv.len() == groups.len(),
                        hv.len() == held.len(),
                        forall|a: int, b: int|
                            0 <= a < i && 0 <= b < hv.len() ==> gv[a] != hv[b],
                    decreases groups.len() - i,
                {
                    let mut j: usize = 0;
                    while j < held.len()
                        invariant
                            i < groups.len(),
                            j <= held.len(),
                            gv == groups.deep_view(),
                            hv == held.deep_view(),
                            self@ == PermissionsView::User(Some(gv)),
                            other@ == PermissionsView::User(Some(hv)),
                            gv.len() == groups.len(),
                            hv.len() == held.len(),
                            forall|a: int, b: int|
                                0 <= a < i && 0 <= b < hv.len() ==> gv[a] != hv[b],
                            forall|b: int| 0 <= b < j ==> gv[i as int] != hv[b],
                        decreases held.len() - j,
                    {
                        if groups[i] == held[j] {
                            proof {
                                let a = i as int;
                                let b = j as int;
                                assert(0 <= a < gv.len() && 0 <= b < hv.len() && gv[a] == hv[b]);
                                assert(groups_intersect(gv, hv));
                                assert(can_access(self@, other@));
                            }
                            return true;
                        }
                        j += 1;
                    }
                    i += 1;
                }
                proof {
                    assert(!groups_intersect(gv, hv));
                }
                false
            },
            (Permissions::User(Some(groups)), Permissions::User(None)) => groups.len() == 0,
            (Permissions::User(_), Permissions::Public) => false,
        }
    }
}

} // verus!
