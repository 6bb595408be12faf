use share::action::{Action, Actions};
use share::chat::{AppReturn, Chat, NetCommand, NetEvent, Notice};
use share::inputs::Key;
use share::state::{Message, MessageType, State};

fn new_chat(peer: &str, name: &str) -> Chat {
    let actions = Actions::new(vec![Action::Quit, Action::Send]).unwrap();
    Chat::new(peer.to_string(), name.to_string(), actions)
}

fn chat_msg(text: &str, source: &str, addressee: Option<&str>) -> Message {
    Message {
        message_type: MessageType::Message,
        data: text.as_bytes().to_vec(),
        addressee: addressee.map(|a| a.to_string()),
        source: source.to_string(),
    }
}

fn texts(c: &Chat) -> Vec<Vec<u8>> {
    c.state.history.get_all().into_iter().map(|m| m.data).collect()
}

#[test]
fn snapshot_bootstraps_new_joiner() {
    // Peer A, freshly joined with an empty history and itself as only
    // participant, receives a snapshot from peer B carrying history
    // [hello] and participants {A, B}: A ends up with exactly that
    // history and both participants.
    let mut a = new_chat("A", "alice");
    let snapshot_state = State::from_parts(
        vec![chat_msg("hello", "B", None)],
        vec![
            ("A".to_string(), "alice".to_string()),
            ("B".to_string(), "bob".to_string()),
        ],
        0,
    );
    let envelope = Message::new_snapshot(Vec::new(), "A".to_string(), "B".to_string());
    let (cmd, notice) = a.handle_net_event(NetEvent::Snapshot(envelope, snapshot_state));
    assert_eq!(cmd, None);
    assert_eq!(notice, None);
    assert_eq!(texts(&a), vec![b"hello".to_vec()]);
    assert_eq!(a.state.get_username(&"A".to_string()), "alice".to_string());
    assert_eq!(a.state.get_username(&"B".to_string()), "bob".to_string());
}

#[test]
fn snapshot_addressed_to_someone_else_is_dropped() {
    let mut a = new_chat("A", "alice");
    let snapshot_state = State::from_parts(
        vec![chat_msg("hello", "B", None)],
        vec![("B".to_string(), "bob".to_string())],
        0,
    );
    let envelope = Message::new_snapshot(Vec::new(), "C".to_string(), "B".to_string());
    let (cmd, notice) = a.handle_net_event(NetEvent::Snapshot(envelope, snapshot_state));
    assert_eq!(cmd, None);
    assert_eq!(notice, None);
    assert!(texts(&a).is_empty());
    assert_eq!(a.state.get_username(&"B".to_string()), "n/d".to_string());
}

#[test]
fn inbound_chat_is_recorded_with_resolved_name() {
    let mut a = new_chat("A", "alice");
    let (cmd, notice) = a.handle_net_event(NetEvent::Chat(chat_msg("yo", "B", None)));
    assert_eq!(cmd, None);
    assert_eq!(
        notice,
        Some(Notice::MessageShown { name: "n/d".to_string(), data: b"yo".to_vec() })
    );
    assert_eq!(texts(&a), vec![b"yo".to_vec()]);
}

#[test]
fn chat_addressed_to_self_is_recorded() {
    let mut a = new_chat("A", "alice");
    let (_, notice) = a.handle_net_event(NetEvent::Chat(chat_msg("psst", "B", Some("A"))));
    assert!(notice.is_some());
    assert_eq!(texts(&a), vec![b"psst".to_vec()]);
}

#[test]
fn chat_addressed_to_other_is_dropped() {
    let mut a = new_chat("A", "alice");
    let (cmd, notice) = a.handle_net_event(NetEvent::Chat(chat_msg("psst", "B", Some("C"))));
    assert_eq!(cmd, None);
    assert_eq!(notice, None);
    assert!(texts(&a).is_empty());
}

#[test]
fn malformed_envelope_changes_nothing() {
    let mut a = new_chat("A", "alice");
    let (cmd, notice) = a.handle_net_event(NetEvent::Malformed);
    assert_eq!(cmd, None);
    assert_eq!(notice, None);
    assert!(texts(&a).is_empty());
    assert_eq!(a.state.count_tick(), None);
}

#[test]
fn discovery_and_expiry_drive_the_broadcast_view() {
    let mut a = new_chat("A", "alice");
    let (cmd, _) = a.handle_net_event(NetEvent::Discovered("B".to_string()));
    assert_eq!(cmd, Some(NetCommand::AddPeer("B".to_string())));
    let (cmd, _) = a.handle_net_event(NetEvent::Expired("B".to_string()));
    assert_eq!(cmd, Some(NetCommand::RemovePeer("B".to_string())));
}

#[test]
fn subscription_requests_a_state_snapshot() {
    let mut a = new_chat("A", "alice");
    let (cmd, notice) = a.handle_net_event(NetEvent::Subscribed("B".to_string()));
    assert_eq!(cmd, Some(NetCommand::SendState { to: "B".to_string() }));
    assert_eq!(notice, None);
}

#[test]
fn known_peer_leaving_is_announced_by_name() {
    let mut a = new_chat("A", "alice");
    let snapshot_state = State::from_parts(
        Vec::new(),
        vec![("B".to_string(), "bob".to_string())],
        0,
    );
    let envelope = Message::new_snapshot(Vec::new(), "A".to_string(), "B".to_string());
    a.handle_net_event(NetEvent::Snapshot(envelope, snapshot_state));
    let (cmd, notice) = a.handle_net_event(NetEvent::Unsubscribed("B".to_string()));
    assert_eq!(cmd, None);
    assert_eq!(notice, Some(Notice::PeerLeft { name: "bob".to_string() }));
    assert_eq!(a.state.get_username(&"B".to_string()), "n/d".to_string());
}

#[test]
fn unknown_peer_leaving_is_announced_as_anon() {
    let mut a = new_chat("A", "alice");
    let (_, notice) = a.handle_net_event(NetEvent::Unsubscribed("Z".to_string()));
    assert_eq!(notice, Some(Notice::PeerLeft { name: "Anon".to_string() }));
}

#[test]
fn do_send_builds_and_records_the_envelope() {
    let mut a = new_chat("A", "alice");
    let env = a.do_send(b"hello all".to_vec());
    assert_eq!(env.message_type, MessageType::Message);
    assert_eq!(env.data, b"hello all".to_vec());
    assert_eq!(env.addressee, None);
    assert_eq!(env.source, "A".to_string());
    assert_eq!(texts(&a), vec![b"hello all".to_vec()]);
}

#[test]
fn quit_keys_end_the_session() {
    let a = new_chat("A", "alice");
    assert_eq!(a.do_action(Key::Ctrl('c')), AppReturn::Exit);
    assert_eq!(a.do_action(Key::Char('q')), AppReturn::Exit);
}

#[test]
fn other_keys_continue_the_session() {
    let a = new_chat("A", "alice");
    assert_eq!(a.do_action(Key::Enter), AppReturn::Continue);
    assert_eq!(a.do_action(Key::Char('z')), AppReturn::Continue);
    assert_eq!(a.do_action(Key::Esc), AppReturn::Continue);
}

#[test]
fn quit_key_continues_when_quit_is_disabled() {
    let actions = Actions::new(vec![Action::Send]).unwrap();
    let a = Chat::new("A".to_string(), "alice".to_string(), actions);
    assert_eq!(a.do_action(Key::Char('q')), AppReturn::Continue);
}

#[test]
fn tick_advances_the_counter_and_continues() {
    let mut a = new_chat("A", "alice");
    assert_eq!(a.update_on_tick(), AppReturn::Continue);
    assert_eq!(a.state.count_tick(), Some(1));
}

#[test]
fn snapshot_envelope_is_addressed_from_self() {
    let a = new_chat("A", "alice");
    let env = a.snapshot_envelope("B".to_string(), vec![9, 9]);
    assert_eq!(env.message_type, MessageType::State);
    assert_eq!(env.addressee, Some("B".to_string()));
    assert_eq!(env.source, "A".to_string());
    assert_eq!(env.data, vec![9, 9]);
}

#[test]
fn enabled_actions_are_exposed() {
    let a = new_chat("A", "alice");
    assert_eq!(a.actions().actions().as_slice(), &[Action::Quit, Action::Send]);
}
