use treesync::data::Data;
use treesync::errors::Error;
use treesync::events::{Event, Notification};
use treesync::ident::Identifier;
use treesync::node::Node;
use treesync::permissions::Permissions;
use treesync::treebuilder::{TreeBuilder, TreeChange};

fn make_default_tree() -> Node {
    let right = Node::new()
        .name("Hello".to_string())
        .data(Data::Folder)
        .id(Identifier::from_u128(0));
    let left = Node::new()
        .name("World".to_string())
        .data(Data::Int32(64))
        .id(Identifier::from_u128(42));
    Node::new()
        .children(vec![right, left])
        .name("root".to_string())
        .id(Identifier::from_u128(1337))
}

#[test]
fn simple1() {
    let mut tree = make_default_tree();
    let mut tree2 = make_default_tree();

    let id = tree2.get_child(0).unwrap().id.clone();
    let id2 = tree2.get_child(1).unwrap().id.clone();

    let _ = tree
        .get_child(0)
        .unwrap()
        .change_name("Hello and Good Morning".to_string());
    let _ = tree.get_child(1).unwrap().change_data(Data::Bool(true));

    let mut notes: Vec<Notification> = Vec::new();
    TreeBuilder::change(
        &mut tree2,
        TreeChange::NodeChangedName(id, "Hello and Good Morning".to_string()),
        &mut notes,
    )
    .unwrap();

    TreeBuilder::change(
        &mut tree2,
        TreeChange::NodeChangedData(id2, Data::Bool(true)),
        &mut notes,
    )
    .unwrap();

    assert_eq!(tree.get_hash(), tree2.get_hash());
}

#[test]
fn simple2() {
    let mut tree = make_default_tree();
    let mut tree2 = make_default_tree();

    for i in 0..100 {
        let _ = tree.add_child(
            Node::new()
                .name(format!("node {i}"))
                .id(Identifier::from_u128(i)),
        );
    }

    let root_id = tree2.id.clone();
    let mut notes: Vec<Notification> = Vec::new();
    for i in 0..100 {
        TreeBuilder::change(
            &mut tree2,
            TreeChange::NodeAdded(
                Data::Folder,
                Some(format!("node {i}")),
                Identifier::from_u128(i),
                root_id.clone(),
            ),
            &mut notes,
        )
        .unwrap();
    }

    assert_eq!(tree.get_hash(), tree2.get_hash());
}

#[test]
fn remove() {
    let mut tree = make_default_tree();
    let mut tree2 = make_default_tree();

    let right_id = tree.get_child(0).unwrap().id.clone();
    let _ = tree.remove_child(right_id);

    let mut notes: Vec<Notification> = Vec::new();
    TreeBuilder::change(&mut tree2, TreeChange::NodeRemoved(right_id), &mut notes).unwrap();

    assert_eq!(tree.get_hash(), tree2.get_hash());
}

#[test]
fn same_change_sequence_gives_same_hash_and_reorder_differs() {
    // Same ordered sequence on structurally identical trees: equal hashes.
    let mut a = make_default_tree();
    let mut b = make_default_tree();
    let root_id = a.id;
    let first = |t: &mut Node| {
        let mut notes = Vec::new();
        TreeBuilder::change(
            t,
            TreeChange::NodeAdded(
                Data::Bool(true),
                Some("p".to_string()),
                Identifier::from_u128(100),
                root_id,
            ),
            &mut notes,
        )
        .unwrap()
    };
    let second = |t: &mut Node| {
        let mut notes = Vec::new();
        TreeBuilder::change(
            t,
            TreeChange::NodeAdded(
                Data::Bool(false),
                Some("q".to_string()),
                Identifier::from_u128(101),
                root_id,
            ),
            &mut notes,
        )
        .unwrap()
    };
    let ha1 = first(&mut a);
    let ha2 = second(&mut a);
    let hb1 = first(&mut b);
    let hb2 = second(&mut b);
    assert_eq!(ha1, hb1);
    assert_eq!(ha2, hb2);

    // Reordering independent additions under the same parent changes the
    // hash: ordering is significant.
    let mut c = make_default_tree();
    let _ = second(&mut c);
    let hc = first(&mut c);
    assert_ne!(ha2, hc);
}

#[test]
fn rewriting_same_data_keeps_hash_but_still_notifies() {
    let mut tree = make_default_tree();
    tree.subscribe(7);
    let before = tree.get_hash();
    let notes = tree.change_data(Data::Folder);
    assert_eq!(tree.get_hash(), before);
    assert_eq!(notes.len(), 1);
    assert_eq!(notes[0].observer, 7);
    assert!(matches!(notes[0].event, Event::DataChanged(Data::Folder)));
}

#[test]
fn remove_child_keeps_siblings_byte_for_byte() {
    let mut tree = make_default_tree();
    let left_hash_before = tree.get_child(1).unwrap().get_hash();
    let right_id = tree.get_child(0).unwrap().id;
    let (found, _notes) = tree.remove_child(right_id);
    assert!(found);
    assert_eq!(tree.get_children_count(), 1);
    assert_eq!(tree.get_child(0).unwrap().get_hash(), left_hash_before);
    // A second removal of the same id finds nothing and changes nothing.
    let before = tree.get_hash();
    let (found_again, notes) = tree.remove_child(right_id);
    assert!(!found_again);
    assert!(notes.is_empty());
    assert_eq!(tree.get_hash(), before);
}

#[test]
fn removal_notifies_the_subtree_node_first() {
    let mut parent = Node::new().id(Identifier::from_u128(1));
    let mut child = Node::new().id(Identifier::from_u128(2));
    let mut grandchild = Node::new().id(Identifier::from_u128(3));
    grandchild.subscribe(30);
    child.subscribe(20);
    let _ = child.add_child(grandchild);
    let _ = parent.add_child(child);

    let (found, notes) = parent.remove_child(Identifier::from_u128(2));
    assert!(found);
    assert_eq!(notes.len(), 2);
    assert_eq!(notes[0].observer, 20);
    assert_eq!(notes[0].node, Identifier::from_u128(2));
    assert!(matches!(notes[0].event, Event::ChildRemoved));
    assert_eq!(notes[1].observer, 30);
    assert_eq!(notes[1].node, Identifier::from_u128(3));
    assert!(matches!(notes[1].event, Event::ChildRemoved));
}

#[test]
fn press_counts_and_fires_button_pressed() {
    let mut button = Node::new().data(Data::Button(5));
    button.subscribe(1);
    let notes = button.press().unwrap();
    assert!(matches!(button.data, Data::Button(6)));
    assert_eq!(notes.len(), 1);
    assert!(matches!(notes[0].event, Event::ButtonPressed));

    let mut folder = Node::new();
    assert!(matches!(folder.press(), Err(Error::ProtocolViolation)));
}

#[test]
fn change_name_carries_previous_name() {
    let mut node = Node::new().name("before".to_string());
    node.subscribe(9);
    let notes = node.change_name("after".to_string());
    assert_eq!(notes.len(), 1);
    match &notes[0].event {
        Event::NameChanged(Some(prev)) => assert_eq!(prev, "before"),
        other => panic!("unexpected event {:?}", name_of(other)),
    }
    assert_eq!(node.name.as_deref(), Some("after"));
}

fn name_of(e: &Event) -> &'static str {
    match e {
        Event::DataChanged(_) => "DataChanged",
        Event::ButtonPressed => "ButtonPressed",
        Event::NameChanged(_) => "NameChanged",
        Event::ChildAdded(_) => "ChildAdded",
        Event::ChildRemoved => "ChildRemoved",
    }
}

#[test]
fn subscribe_to_children_covers_the_whole_subtree() {
    let mut tree = make_default_tree();
    tree.subscribe_to_children(55);
    let child_id = tree.get_child(1).unwrap().id;
    let mut notes = Vec::new();
    TreeBuilder::change(
        &mut tree,
        TreeChange::NodeChangedData(child_id, Data::Bool(false)),
        &mut notes,
    )
    .unwrap();
    assert_eq!(notes.len(), 1);
    assert_eq!(notes[0].observer, 55);
    assert_eq!(notes[0].node, child_id);
    // A node attached after the subscription is not subscribed.
    let late = Node::new().id(Identifier::from_u128(900)).data(Data::Bool(true));
    let _ = tree.add_child(late);
    let mut notes2 = Vec::new();
    TreeBuilder::change(
        &mut tree,
        TreeChange::NodeChangedData(Identifier::from_u128(900), Data::Bool(false)),
        &mut notes2,
    )
    .unwrap();
    assert!(notes2.is_empty());
}

#[test]
fn change_on_missing_target_is_not_found_and_changes_nothing() {
    let mut tree = make_default_tree();
    let before = tree.get_hash();
    let mut notes = Vec::new();
    let missing = Identifier::from_u128(9999);
    let r = TreeBuilder::change(
        &mut tree,
        TreeChange::NodeChangedData(missing, Data::Bool(true)),
        &mut notes,
    );
    assert!(matches!(r, Err(Error::NotFound(m)) if m == missing));
    assert!(notes.is_empty());
    assert_eq!(tree.get_hash(), before);

    // The root can never be removed.
    let root_id = tree.id;
    let r2 = TreeBuilder::change(&mut tree, TreeChange::NodeRemoved(root_id), &mut notes);
    assert!(matches!(r2, Err(Error::NotFound(_))));
    assert_eq!(tree.get_hash(), before);
}

#[test]
fn get_child_out_of_range() {
    let mut tree = make_default_tree();
    assert!(matches!(tree.get_child(2), Err(Error::NoSuchChild(2))));
}

#[test]
fn hash_ignores_permissions_and_observers() {
    let a = make_default_tree();
    let mut b = make_default_tree().permissions(Permissions::Admin);
    b.subscribe(1);
    assert_eq!(a.get_hash(), b.get_hash());
}

#[test]
fn composite_payloads_hash_and_clone_structurally() {
    let payload = Data::Tuple(
        3,
        vec![
            Data::Text("abc".to_string()),
            Data::List(vec![Data::Int64(-1), Data::UInt64(u64::MAX)]),
            Data::Button(0),
        ],
    );
    let a = Node::new().id(Identifier::from_u128(1)).data(payload);
    let b = Node::new().id(Identifier::from_u128(1)).data(Data::Tuple(
        3,
        vec![
            Data::Text("abc".to_string()),
            Data::List(vec![Data::Int64(-1), Data::UInt64(u64::MAX)]),
            Data::Button(0),
        ],
    ));
    assert_eq!(a.get_hash(), b.get_hash());

    // A clone carries the same structure, so the hash agrees too.
    let cloned = a.data.clone();
    let c = Node::new().id(Identifier::from_u128(1)).data(cloned);
    assert_eq!(a.get_hash(), c.get_hash());

    // A differing leaf changes the hash.
    let d = Node::new().id(Identifier::from_u128(1)).data(Data::Tuple(
        3,
        vec![
            Data::Text("abd".to_string()),
            Data::List(vec![Data::Int64(-1), Data::UInt64(u64::MAX)]),
            Data::Button(0),
        ],
    ));
    assert_ne!(a.get_hash(), d.get_hash());
}

#[test]
fn float_payloads_hash_their_bit_patterns() {
    let a = Node::new()
        .id(Identifier::from_u128(2))
        .data(Data::Float32((1.5f32).to_bits()));
    let b = Node::new()
        .id(Identifier::from_u128(2))
        .data(Data::Float32((1.5f32).to_bits()));
    let c = Node::new()
        .id(Identifier::from_u128(2))
        .data(Data::Float32((2.5f32).to_bits()));
    assert_eq!(a.get_hash(), b.get_hash());
    assert_ne!(a.get_hash(), c.get_hash());

    let d = Node::new()
        .id(Identifier::from_u128(2))
        .data(Data::Float64((0.1f64).to_bits()));
    let e = Node::new()
        .id(Identifier::from_u128(2))
        .data(Data::Float64((0.1f64).to_bits()));
    assert_eq!(d.get_hash(), e.get_hash());
}

#[test]
fn press_wraps_at_the_numeric_limit() {
    let mut button = Node::new().data(Data::Button(u64::MAX));
    let _ = button.press().unwrap();
    assert!(matches!(button.data, Data::Button(0)));
}

#[test]
fn empty_and_single_node_trees_hash_consistently() {
    let a = Node::new().id(Identifier::from_u128(1));
    let b = Node::new().id(Identifier::from_u128(1));
    assert_eq!(a.get_hash(), b.get_hash());
    // The id participates in the hash.
    let c = Node::new().id(Identifier::from_u128(2));
    assert_ne!(a.get_hash(), c.get_hash());
    // A named node hashes differently from an unnamed one.
    let d = Node::new().id(Identifier::from_u128(1)).name(String::new());
    assert_ne!(a.get_hash(), d.get_hash());
}
