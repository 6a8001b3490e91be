use crossbeam::channel::unbounded;
use treesync::data::Data;
use treesync::errors::Error;
use treesync::handler::{ServerHandler, Status, Step};
use treesync::helper::{accept_registration_reply, ServerHelper};
use treesync::ident::Identifier;
use treesync::internal_messages::{Message, OutboundMessage};
use treesync::message;
use treesync::node::Node;
use treesync::treebuilder::TreeChange;

struct Rig {
    handler: ServerHandler,
    ctrl_s: crossbeam::channel::Sender<Message>,
    reply_r: crossbeam::channel::Receiver<Message>,
    traffic_s: crossbeam::channel::Sender<Message>,
}

fn rig() -> Rig {
    let (ctrl_s, ctrl_r) = unbounded();
    let (reply_s, reply_r) = unbounded();
    let (traffic_s, traffic_r) = unbounded();
    Rig {
        handler: ServerHandler::new(reply_s, ctrl_r, traffic_r),
        ctrl_s,
        reply_r,
        traffic_s,
    }
}

fn register(rig: &mut Rig, id: u64) -> crossbeam::channel::Receiver<OutboundMessage> {
    rig.ctrl_s.send(Message::Register(id)).unwrap();
    let mut notes = Vec::new();
    assert_eq!(rig.handler.step(&mut notes), Step::Handled);
    match rig.reply_r.recv().unwrap() {
        Message::RegisterResponse(echoed, receiver) => {
            assert_eq!(echoed, id);
            receiver
        }
        _ => panic!("expected a register response"),
    }
}

#[test]
fn registrations_yield_private_channels() {
    let mut r = rig();
    let rx_a = register(&mut r, 0);
    let rx_b = register(&mut r, 1);

    // Client A sends an edit; only B observes the fan-out.
    let root_id = r.handler.root.id;
    let edit = TreeChange::NodeAdded(
        Data::Bool(true),
        Some("x".to_string()),
        Identifier::from_u128(7),
        root_id,
    );
    r.traffic_s
        .send(Message::Normal(0, message::Message::ServerChange(edit)))
        .unwrap();
    let mut notes = Vec::new();
    assert_eq!(r.handler.step(&mut notes), Step::Handled);

    match rx_b.try_recv().unwrap() {
        OutboundMessage::Change(TreeChange::NodeAdded(Data::Bool(true), Some(name), id, parent), h) => {
            assert_eq!(name, "x");
            assert_eq!(id, Identifier::from_u128(7));
            assert_eq!(parent, root_id);
            assert_eq!(h, r.handler.root.get_hash());
        }
        _ => panic!("client B should observe the applied edit"),
    }
    // The originator is not re-sent its own edit, and nothing of B's
    // channel ever shows up on A's.
    assert!(rx_a.try_recv().is_err());
}

#[test]
fn gateway_mints_distinct_ids() {
    let (ctrl_s, _ctrl_r) = unbounded();
    let (reply_s, reply_r) = unbounded();
    let (traffic_s, _traffic_r) = unbounded();
    let mut helper = ServerHelper::new(ctrl_s, reply_r, traffic_s);

    // Two pending responses, as the actor would leave them.
    let (out_s0, out_r0) = unbounded::<OutboundMessage>();
    let (_out_s1, out_r1) = unbounded::<OutboundMessage>();
    reply_s.send(Message::RegisterResponse(0, out_r0)).unwrap();
    reply_s.send(Message::RegisterResponse(1, out_r1)).unwrap();

    let (id_a, _to_a, rx_a) = helper.register().unwrap();
    let (id_b, _to_b, rx_b) = helper.register().unwrap();
    assert_ne!(id_a, id_b);

    // A message on A's private channel is never observed on B's.
    out_s0
        .send(OutboundMessage::Log("for a".to_string()))
        .unwrap();
    assert!(matches!(rx_a.try_recv().unwrap(), OutboundMessage::Log(_)));
    assert!(rx_b.try_recv().is_err());
}

#[test]
fn gateway_rejects_mismatched_ids() {
    let (ctrl_s, _ctrl_r) = unbounded();
    let (reply_s, reply_r) = unbounded();
    let (traffic_s, _traffic_r) = unbounded();
    let mut helper = ServerHelper::new(ctrl_s, reply_r, traffic_s);
    let (_out_s, out_r) = unbounded::<OutboundMessage>();
    reply_s.send(Message::RegisterResponse(5, out_r)).unwrap();
    assert!(matches!(
        helper.register(),
        Err(Error::ProtocolViolation)
    ));
    // The counter advanced even though registration failed.
    assert_eq!(helper.client_id, 1);
}

#[test]
fn gateway_reports_closed_mailboxes() {
    let (ctrl_s, ctrl_r) = unbounded();
    let (_reply_s, reply_r) = unbounded::<Message>();
    let (traffic_s, _traffic_r) = unbounded();
    let mut helper = ServerHelper::new(ctrl_s, reply_r, traffic_s);
    drop(ctrl_r);
    assert!(matches!(helper.register(), Err(Error::ChannelClosed)));
}

#[test]
fn quit_outranks_pending_traffic() {
    let mut r = rig();
    let rx_a = register(&mut r, 0);
    let hash_before = r.handler.root.get_hash();

    // Both a Quit on the control mailbox and an edit on the traffic
    // mailbox are ready; the actor processes Quit first and applies no
    // further edits.
    let edit = TreeChange::NodeAdded(
        Data::Bool(true),
        Some("x".to_string()),
        Identifier::from_u128(42),
        r.handler.root.id,
    );
    r.traffic_s
        .send(Message::Normal(0, message::Message::ServerChange(edit)))
        .unwrap();
    r.ctrl_s.send(Message::Quit).unwrap();

    let mut notes = Vec::new();
    assert_eq!(r.handler.step(&mut notes), Step::Terminated);
    assert_eq!(r.handler.status, Status::Terminated);
    assert_eq!(r.handler.root.get_hash(), hash_before);
    assert!(matches!(
        rx_a.try_recv().unwrap(),
        OutboundMessage::Shutdown
    ));

    // Once terminated the actor stays terminated and touches nothing.
    assert_eq!(r.handler.step(&mut notes), Step::Terminated);
    assert_eq!(r.handler.root.get_hash(), hash_before);
}

#[test]
fn end_to_end_hash_matches_reference_tree() {
    let mut r = rig();
    let _rx_a = register(&mut r, 0);
    let rx_b = register(&mut r, 1);

    let root_id = r.handler.root.id;
    let edit = TreeChange::NodeAdded(
        Data::Bool(true),
        Some("x".to_string()),
        Identifier::from_u128(42),
        root_id,
    );
    r.traffic_s
        .send(Message::Normal(0, message::Message::ServerChange(edit)))
        .unwrap();
    let mut notes = Vec::new();
    assert_eq!(r.handler.step(&mut notes), Step::Handled);

    let broadcast_hash = match rx_b.try_recv().unwrap() {
        OutboundMessage::Change(_, h) => h,
        _ => panic!("client B should observe the applied edit"),
    };

    let mut reference = Node::new()
        .permissions(treesync::permissions::Permissions::Public)
        .id(root_id);
    let _ = reference.add_child(
        Node::new()
            .data(Data::Bool(true))
            .name("x".to_string())
            .id(Identifier::from_u128(42)),
    );
    assert_eq!(broadcast_hash, reference.get_hash());
}

#[test]
fn traffic_from_unknown_clients_is_a_protocol_violation() {
    let mut r = rig();
    let _rx_a = register(&mut r, 0);
    let mut notes = Vec::new();
    let res = r.handler.handle_client_message(
        99,
        message::Message::ClientHash(0),
        &mut notes,
    );
    assert!(matches!(res, Err(Error::ProtocolViolation)));
}

#[test]
fn trigger_presses_buttons_only() {
    let mut r = rig();
    let rx_a = register(&mut r, 0);
    let rx_b = register(&mut r, 1);

    let button_id = Identifier::from_u128(8);
    let _ = r
        .handler
        .root
        .add_child(Node::new().data(Data::Button(3)).id(button_id));

    let mut notes = Vec::new();
    let res = r
        .handler
        .handle_client_message(0, message::Message::ClientTrigger(button_id), &mut notes);
    assert!(res.is_ok());
    match rx_b.try_recv().unwrap() {
        OutboundMessage::Change(TreeChange::NodeChangedData(id, Data::Button(n)), _) => {
            assert_eq!(id, button_id);
            assert_eq!(n, 4);
        }
        _ => panic!("client B should observe the button press as an edit"),
    }
    assert!(rx_a.try_recv().is_err());

    // Triggering the folder root is a protocol violation, reported to the
    // originator alone.
    let res2 = r.handler.handle_client_message(
        0,
        message::Message::ClientTrigger(r.handler.root.id),
        &mut notes,
    );
    assert!(matches!(res2, Err(Error::ProtocolViolation)));
    assert!(matches!(
        rx_a.try_recv().unwrap(),
        OutboundMessage::Log(_)
    ));

    // Triggering a missing node is NotFound.
    let res3 = r.handler.handle_client_message(
        0,
        message::Message::ClientTrigger(Identifier::from_u128(999)),
        &mut notes,
    );
    assert!(matches!(res3, Err(Error::NotFound(_))));
}

#[test]
fn permission_denied_reports_without_mutating() {
    let mut r = rig();
    let rx_a = register(&mut r, 0);

    let locked_id = Identifier::from_u128(77);
    let _ = r.handler.root.add_child(
        Node::new()
            .permissions(treesync::permissions::Permissions::Admin)
            .id(locked_id),
    );
    let before = r.handler.root.get_hash();

    let mut notes = Vec::new();
    let res = r.handler.handle_client_message(
        0,
        message::Message::ServerChange(TreeChange::NodeChangedData(locked_id, Data::Bool(true))),
        &mut notes,
    );
    assert!(matches!(res, Err(Error::PermissionDenied)));
    assert_eq!(r.handler.root.get_hash(), before);
    assert!(notes.is_empty());
    assert!(matches!(
        rx_a.try_recv().unwrap(),
        OutboundMessage::Log(_)
    ));
}

#[test]
fn hash_reports_are_compared_silently_or_flagged() {
    let mut r = rig();
    let rx_a = register(&mut r, 0);

    let current = r.handler.root.get_hash();
    let mut notes = Vec::new();
    let ok = r
        .handler
        .handle_client_message(0, message::Message::ClientHash(current), &mut notes);
    assert!(matches!(ok, Ok(None)));
    assert!(rx_a.try_recv().is_err());

    let diverged = r.handler.handle_client_message(
        0,
        message::Message::ClientHash(current.wrapping_add(1)),
        &mut notes,
    );
    assert!(matches!(diverged, Ok(None)));
    assert!(matches!(
        rx_a.try_recv().unwrap(),
        OutboundMessage::Log(_)
    ));
}

#[test]
fn unexpected_wire_messages_are_protocol_violations() {
    let mut r = rig();
    let _rx_a = register(&mut r, 0);
    let mut notes = Vec::new();
    let res = r.handler.handle_client_message(
        0,
        message::Message::ServerLog("hello".to_string()),
        &mut notes,
    );
    assert!(matches!(res, Err(Error::ProtocolViolation)));
}

#[test]
fn closed_mailboxes_stop_the_actor() {
    let mut r = rig();
    let _rx_a = register(&mut r, 0);
    let hash_before = r.handler.root.get_hash();
    drop(r.ctrl_s);
    let mut notes = Vec::new();
    assert_eq!(r.handler.step(&mut notes), Step::MailboxClosed);
    assert_eq!(r.handler.status, Status::Terminated);
    assert_eq!(r.handler.root.get_hash(), hash_before);
}

#[test]
fn registration_reply_decision() {
    // The echoed id must match the candidate; anything else is a protocol
    // violation.
    let (out_s, out_r) = unbounded::<OutboundMessage>();
    let accepted = accept_registration_reply(4, Message::RegisterResponse(4, out_r));
    let receiver = accepted.unwrap();
    out_s.send(OutboundMessage::Shutdown).unwrap();
    assert!(matches!(receiver.try_recv().unwrap(), OutboundMessage::Shutdown));

    let (_out_s2, out_r2) = unbounded::<OutboundMessage>();
    assert!(matches!(
        accept_registration_reply(4, Message::RegisterResponse(5, out_r2)),
        Err(Error::ProtocolViolation)
    ));
    assert!(matches!(
        accept_registration_reply(4, Message::Quit),
        Err(Error::ProtocolViolation)
    ));
}
