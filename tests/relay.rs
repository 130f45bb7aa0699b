use relay_core::events::ServerEvent;
use relay_core::generator::IdGenerator;
use relay_core::history::{MessageLog, UserMessage};
use relay_core::presence::get_user_map;
use relay_core::registry::UserManager;
use relay_core::relay::{ActionData, ClientMessage, Relay, ReplyField, RouteError};

fn send(user: &str, content: Option<&str>, reply_to: ReplyField) -> ClientMessage {
    ClientMessage {
        user: user.to_string(),
        action: "send-message".to_string(),
        data: ActionData { content: content.map(|c| c.to_string()), name: None, reply_to },
    }
}

fn rename(name: Option<&str>) -> ClientMessage {
    ClientMessage {
        user: String::new(),
        action: "rename".to_string(),
        data: ActionData { content: None, name: name.map(|n| n.to_string()), reply_to: ReplyField::Absent },
    }
}

fn message(key: usize, content: &str) -> UserMessage {
    UserMessage {
        key,
        user: "u".to_string(),
        content: content.to_string(),
        timestamp: "t".to_string(),
        replying_to: None,
    }
}

#[test]
fn generator_issues_increasing_ids() {
    let mut g = IdGenerator::starting_at(1);
    assert_eq!(g.current(), 1);
    let a = g.next();
    let b = g.next();
    let c = g.next();
    assert_eq!((a, b, c), (1, 2, 3));
    assert_eq!(g.current(), 4);
    assert!(g.can_issue());
    assert!(!IdGenerator::starting_at(usize::MAX).can_issue());
}

#[test]
fn log_snapshot_keeps_append_order() {
    let mut log = MessageLog::new();
    for (k, text) in [(0, "a"), (1, "b"), (5, "c")] {
        assert!(log.accepts(k));
        log.append(message(k, text));
    }
    assert!(!log.accepts(5));
    let snap = log.snapshot();
    assert_eq!(snap.len(), 3);
    assert_eq!(log.len(), 3);
    let keys: Vec<usize> = snap.iter().map(|m| m.key).collect();
    assert_eq!(keys, vec![0, 1, 5]);
    let texts: Vec<&str> = snap.iter().map(|m| m.content.as_str()).collect();
    assert_eq!(texts, vec!["a", "b", "c"]);
}

#[test]
fn registry_add_lookup_remove() {
    let mut reg: UserManager<&str> = UserManager::new();
    reg.add_user(1, "one");
    reg.add_user(2, "two");
    reg.add_user(3, "three");
    assert_eq!(reg.get_users(), vec![1, 2, 3]);
    assert_eq!(reg.get_user(2), Some(&"two"));
    assert_eq!(reg.get_user(9), None);
    reg.remove_user(2);
    assert_eq!(reg.get_users(), vec![1, 3]);
    assert!(!reg.contains(2));
    assert_eq!(reg.get_user(3), Some(&"three"));
}

#[test]
fn registry_remove_twice_same_as_once() {
    let mut reg: UserManager<u8> = UserManager::new();
    reg.add_user(4, 40);
    reg.add_user(5, 50);
    reg.remove_user(4);
    let once = reg.get_users();
    reg.remove_user(4);
    assert_eq!(reg.get_users(), once);
    assert_eq!(once, vec![5]);
}

#[test]
fn registry_broadcast_reaches_current_members() {
    let mut reg: UserManager<u8> = UserManager::new();
    reg.add_user(7, 0);
    reg.add_user(8, 0);
    let b = reg.broadcast(ServerEvent::PeerLeft { peer: 3 });
    assert_eq!(b.recipients, vec![7, 8]);
    assert_eq!(b.event, ServerEvent::PeerLeft { peer: 3 });
}

#[test]
fn presence_upsert_and_remove() {
    let mut names = get_user_map();
    assert!(names.get_all().is_empty());
    names.set_name(2, "bob".to_string());
    names.set_name(1, "ann".to_string());
    names.set_name(2, "robert".to_string());
    assert_eq!(names.get_all(), vec![(2, "robert".to_string()), (1, "ann".to_string())]);
    names.remove(2);
    names.remove(2);
    assert_eq!(names.get_all(), vec![(1, "ann".to_string())]);
}

#[test]
fn send_message_round_trip() {
    let mut relay: Relay<()> = Relay::new();
    let a = relay.connect(()).id;
    let b = relay.route_message(a, &send("alice", Some("hi"), ReplyField::Absent), "2024-01-01T00:00:00+00:00".to_string());
    let b = b.unwrap();
    let expected = UserMessage {
        key: 0,
        user: "alice".to_string(),
        content: "hi".to_string(),
        timestamp: "2024-01-01T00:00:00+00:00".to_string(),
        replying_to: None,
    };
    assert_eq!(b.recipients, vec![a]);
    assert_eq!(b.event, ServerEvent::Message { message: expected.duplicate() });
    assert_eq!(relay.log.snapshot(), vec![expected]);
}

#[test]
fn reply_to_unknown_key_is_accepted() {
    let mut relay: Relay<()> = Relay::new();
    let a = relay.connect(()).id;
    let r = relay.route_message(a, &send("a", Some("re"), ReplyField::Key(99)), "t".to_string());
    match r.unwrap().event {
        ServerEvent::Message { message } => {
            assert_eq!(message.replying_to, Some(99));
            assert_eq!(message.content, "re");
        }
        other => panic!("unexpected event {:?}", other),
    }
    assert_eq!(relay.log.len(), 1);
}

#[test]
fn message_keys_increase_across_sends() {
    let mut relay: Relay<()> = Relay::new();
    let a = relay.connect(()).id;
    for text in ["x", "y", "z"] {
        relay.route_message(a, &send("a", Some(text), ReplyField::Absent), "t".to_string()).unwrap();
    }
    let keys: Vec<usize> = relay.log.snapshot().iter().map(|m| m.key).collect();
    assert_eq!(keys, vec![0, 1, 2]);
}

#[test]
fn route_errors_leave_state_alone() {
    let mut relay: Relay<()> = Relay::new();
    let a = relay.connect(()).id;
    let mut other = send("a", Some("x"), ReplyField::Absent);
    other.action = "dance".to_string();
    assert_eq!(relay.route_message(a, &other, "t".to_string()).unwrap_err(), RouteError::UnknownAction);
    assert_eq!(
        relay.route_message(a, &send("a", None, ReplyField::Absent), "t".to_string()).unwrap_err(),
        RouteError::MissingField
    );
    assert_eq!(
        relay.route_message(a, &send("a", Some("x"), ReplyField::Invalid), "t".to_string()).unwrap_err(),
        RouteError::InvalidReply
    );
    assert_eq!(relay.route_message(a, &rename(None), "t".to_string()).unwrap_err(), RouteError::MissingField);
    assert_eq!(
        relay.route_message(a + 10, &rename(Some("ghost")), "t".to_string()).unwrap_err(),
        RouteError::UnknownSender
    );
    assert_eq!(relay.log.len(), 0);
    assert!(relay.names.get_all().is_empty());
    assert_eq!(relay.message_keys.current(), 0);
}

#[test]
fn three_joins_replay_and_announce() {
    let mut relay: Relay<char> = Relay::new();
    let a = relay.connect('a');
    assert_eq!(a.replay, vec![ServerEvent::LoginAck { id: 1 }]);
    assert!(a.announce.is_empty());
    let b = relay.connect('b');
    relay.route_message(b.id, &rename(Some("bee")), "t".to_string()).unwrap();
    relay.route_message(a.id, &send("1", Some("hello"), ReplyField::Absent), "t0".to_string()).unwrap();
    let c = relay.connect('c');
    assert_eq!(c.id, 3);
    assert_eq!(
        c.replay,
        vec![
            ServerEvent::LoginAck { id: 3 },
            ServerEvent::History { message: UserMessage {
                key: 0,
                user: "1".to_string(),
                content: "hello".to_string(),
                timestamp: "t0".to_string(),
                replying_to: None,
            } },
            ServerEvent::PresenceChanged { user: 2, name: "bee".to_string() },
            ServerEvent::PeerPresent { peer: 1 },
            ServerEvent::PeerPresent { peer: 2 },
        ]
    );
    assert_eq!(c.announce, vec![1, 2]);
    assert_eq!(relay.users.get_user(3), Some(&'c'));
}

#[test]
fn disconnect_announces_once() {
    let mut relay: Relay<char> = Relay::new();
    let a = relay.connect('a').id;
    let b = relay.connect('b').id;
    let c = relay.connect('c').id;
    relay.route_message(a, &rename(Some("ann")), "t".to_string()).unwrap();
    let left = relay.disconnect(a).unwrap();
    assert_eq!(left.recipients, vec![b, c]);
    assert_eq!(left.event, ServerEvent::PeerLeft { peer: a });
    assert!(relay.names.get_all().is_empty());
    assert!(relay.disconnect(a).is_none());
    assert_eq!(relay.users.get_users(), vec![b, c]);
    let next = relay.users.broadcast(ServerEvent::PeerJoined { peer: 9 });
    assert!(!next.recipients.contains(&a));
    assert_eq!(next.recipients, vec![b, c]);
}

#[test]
fn rename_latest_name_is_replayed() {
    let mut relay: Relay<()> = Relay::new();
    let a = relay.connect(()).id;
    let first = relay.route_message(a, &rename(Some("first")), "t".to_string()).unwrap();
    assert_eq!(first.event, ServerEvent::PresenceChanged { user: a, name: "first".to_string() });
    assert_eq!(relay.names.get_all(), vec![(a, "first".to_string())]);
    relay.route_message(a, &rename(Some("second")), "t".to_string()).unwrap();
    assert_eq!(relay.names.get_all(), vec![(a, "second".to_string())]);
    let joined = relay.connect(());
    let names: Vec<&ServerEvent> = joined
        .replay
        .iter()
        .filter(|e| matches!(e, ServerEvent::PresenceChanged { .. }))
        .collect();
    assert_eq!(names, vec![&ServerEvent::PresenceChanged { user: a, name: "second".to_string() }]);
}

#[test]
fn handle_message_stamps_current_time() {
    let mut relay: Relay<()> = Relay::new();
    let a = relay.connect(()).id;
    relay.handle_message(a, &send("a", Some("now"), ReplyField::Absent)).unwrap();
    let stamp = relay.log.snapshot()[0].timestamp.clone();
    assert!(stamp.len() >= 20);
    assert!(stamp.contains('T'));
    assert!(stamp.starts_with("20"));
}

#[test]
fn event_action_names() {
    assert_eq!(ServerEvent::LoginAck { id: 1 }.action(), "login-ack");
    assert_eq!(ServerEvent::History { message: message(0, "x") }.action(), "history");
    assert_eq!(ServerEvent::PresenceChanged { user: 1, name: String::new() }.action(), "presence-changed");
    assert_eq!(ServerEvent::Message { message: message(0, "x") }.action(), "message");
    assert_eq!(ServerEvent::PeerPresent { peer: 1 }.action(), "peer-present");
    assert_eq!(ServerEvent::PeerJoined { peer: 1 }.action(), "peer-joined");
    assert_eq!(ServerEvent::PeerLeft { peer: 1 }.action(), "peer-left");
}

#[test]
fn connection_ids_start_at_one() {
    let mut relay: Relay<()> = Relay::new();
    assert!(relay.can_connect());
    assert!(relay.can_send());
    assert_eq!(relay.connect(()).id, 1);
    assert_eq!(relay.connect(()).id, 2);
    assert_eq!(relay.connection_ids.current(), 3);
}
