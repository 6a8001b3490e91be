use treesync::config::get_ip;
use treesync::data::Data;
use treesync::errors::Error;
use treesync::ident::Identifier;
use treesync::node::Node;
use treesync::remote::TcpManager;
use treesync::server::Server;

#[test]
fn server_edits_its_tree() {
    let mut server = Server::new();
    assert_eq!(server.root.name.as_deref(), Some("root"));

    let child_id = Identifier::from_u128(5);
    server
        .add_child(Node::new().id(child_id).name("a".to_string()))
        .unwrap();
    assert_eq!(server.root.get_children_count(), 1);

    server
        .add_child_to_node(
            Node::new().id(Identifier::from_u128(6)).data(Data::Bool(true)),
            &child_id,
        )
        .unwrap();
    let found = server.get_node(&Identifier::from_u128(6)).unwrap();
    assert!(matches!(found.data, Data::Bool(true)));

    let missing = Identifier::from_u128(404);
    assert!(matches!(
        server.add_child_to_node(Node::new(), &missing),
        Err(Error::NotFound(m)) if m == missing
    ));
    assert!(matches!(
        server.get_node(&missing),
        Err(Error::NotFound(m)) if m == missing
    ));
}

#[test]
fn admission_counter_bounds_connections() {
    let mut manager = TcpManager::new();
    for _ in 0..32 {
        assert!(manager.try_admit());
    }
    // The slots are full: the next connection is rejected.
    assert!(!manager.try_admit());
    manager.release();
    assert!(manager.try_admit());
    // Shutting down refuses new admissions even with free slots.
    manager.release();
    manager.begin_shutdown();
    assert!(!manager.try_admit());
}

#[test]
fn foreign_failures_carry_debug_text() {
    let ok: Result<u32, &str> = Ok(7);
    assert_eq!(Error::from(ok).unwrap(), 7);
    let err: Result<u32, &str> = Err("boom");
    match Error::from(err) {
        Err(Error::Foreign(text)) => assert!(text.contains("boom")),
        _ => panic!("a foreign failure should surface as Foreign"),
    }
}

#[test]
fn error_descriptions_are_stable() {
    assert_eq!(
        Error::NotFound(Identifier::from_u128(1)).describe(),
        "target not found"
    );
    assert_eq!(Error::PermissionDenied.describe(), "permission denied");
    assert_eq!(Error::ChannelClosed.describe(), "channel closed");
}

#[test]
fn configured_address() {
    assert_eq!(get_ip(), "127.0.0.1:9123");
}
