use share::state::{Message, MessageType, State};

fn msg(text: &str, source: &str) -> Message {
    Message {
        message_type: MessageType::Message,
        data: text.as_bytes().to_vec(),
        addressee: None,
        source: source.to_string(),
    }
}

fn texts(s: &State) -> Vec<Vec<u8>> {
    s.history.get_all().into_iter().map(|m| m.data).collect()
}

#[test]
fn new_state_seeds_own_name() {
    let s = State::new("A".to_string(), "alice".to_string());
    assert_eq!(s.get_username(&"A".to_string()), "alice".to_string());
    assert_eq!(s.history.get_count(), 0);
    assert_eq!(s.count_tick(), None);
}

#[test]
fn unknown_peer_gets_placeholder_name() {
    let s = State::new("A".to_string(), "alice".to_string());
    assert_eq!(s.get_username(&"Z".to_string()), "n/d".to_string());
}

#[test]
fn tick_counter_counts() {
    let mut s = State::new("A".to_string(), "alice".to_string());
    assert_eq!(s.count_tick(), None);
    s.incr_tick();
    assert_eq!(s.count_tick(), Some(1));
    s.incr_tick();
    s.incr_tick();
    assert_eq!(s.count_tick(), Some(3));
}

#[test]
fn tick_counter_saturates_at_the_limit() {
    let mut s = State::new("A".to_string(), "alice".to_string());
    s.counter_tick = u64::MAX;
    s.incr_tick();
    assert_eq!(s.count_tick(), Some(u64::MAX));
}

#[test]
fn record_local_appends() {
    let mut s = State::new("A".to_string(), "alice".to_string());
    s.record_local(msg("hi", "A"));
    assert_eq!(s.history.get_count(), 1);
    assert_eq!(texts(&s), vec![b"hi".to_vec()]);
}

#[test]
fn record_remote_resolves_sender_name() {
    let mut s = State::new("A".to_string(), "alice".to_string());
    let shown = s.record_remote(msg("hi", "A"));
    assert_eq!(shown, "alice".to_string());
    let shown = s.record_remote(msg("yo", "B"));
    assert_eq!(shown, "n/d".to_string());
    assert_eq!(s.history.get_count(), 2);
}

#[test]
fn from_parts_is_first_writer_wins() {
    let s = State::from_parts(
        Vec::new(),
        vec![
            ("A".to_string(), "alice".to_string()),
            ("A".to_string(), "impostor".to_string()),
            ("B".to_string(), "bob".to_string()),
        ],
        0,
    );
    assert_eq!(s.get_username(&"A".to_string()), "alice".to_string());
    assert_eq!(s.get_username(&"B".to_string()), "bob".to_string());
}

#[test]
fn merge_adds_only_missing_participants() {
    let mut local = State::new("A".to_string(), "alice".to_string());
    let other = State::from_parts(
        Vec::new(),
        vec![
            ("A".to_string(), "impostor".to_string()),
            ("B".to_string(), "bob".to_string()),
        ],
        0,
    );
    local.merge(other);
    // First writer wins: the local entry for A is never overwritten.
    assert_eq!(local.get_username(&"A".to_string()), "alice".to_string());
    assert_eq!(local.get_username(&"B".to_string()), "bob".to_string());
}

#[test]
fn merge_adopts_incoming_history_when_local_is_empty() {
    let mut local = State::new("A".to_string(), "alice".to_string());
    let other = State::from_parts(
        vec![msg("hello", "B"), msg("again", "B")],
        vec![("B".to_string(), "bob".to_string())],
        0,
    );
    local.merge(other);
    assert_eq!(texts(&local), vec![b"hello".to_vec(), b"again".to_vec()]);
}

#[test]
fn merge_is_idempotent_for_subset_participants_and_nonempty_history() {
    let mut local = State::new("A".to_string(), "alice".to_string());
    local.record_local(msg("mine", "A"));
    local.incr_tick();
    let other = State::from_parts(
        vec![msg("other", "A")],
        vec![("A".to_string(), "impostor".to_string())],
        99,
    );
    local.merge(other);
    // The incoming participants are a subset of the local ones and the
    // local history is non-empty: the local state is unchanged.
    assert_eq!(local.get_username(&"A".to_string()), "alice".to_string());
    assert_eq!(texts(&local), vec![b"mine".to_vec()]);
    assert_eq!(local.count_tick(), Some(1));
}

#[test]
fn merge_directions_differ_for_nonempty_divergent_histories() {
    // Two non-empty, divergent histories are deliberately not
    // reconciled: each direction keeps its own history, so the merge is
    // not commutative.
    let mut left = State::new("A".to_string(), "alice".to_string());
    left.record_local(msg("m1", "A"));
    let mut right = State::new("B".to_string(), "bob".to_string());
    right.record_local(msg("m2", "B"));

    let right_snapshot = State::from_parts(
        right.history.get_all(),
        right.usernames.pairs().clone(),
        0,
    );
    let left_snapshot = State::from_parts(
        left.history.get_all(),
        left.usernames.pairs().clone(),
        0,
    );

    left.merge(right_snapshot);
    right.merge(left_snapshot);

    assert_eq!(texts(&left), vec![b"m1".to_vec()]);
    assert_eq!(texts(&right), vec![b"m2".to_vec()]);
    // Both learned each other's names all the same.
    assert_eq!(left.get_username(&"B".to_string()), "bob".to_string());
    assert_eq!(right.get_username(&"A".to_string()), "alice".to_string());
}

#[test]
fn merge_into_nonempty_history_keeps_it() {
    // Merging {hist=[], ppl={A}} into {hist=[m1], ppl={B}} yields
    // history [m1] unchanged.
    let mut target = State::new("B".to_string(), "bob".to_string());
    target.record_local(msg("m1", "B"));
    let incoming = State::from_parts(
        Vec::new(),
        vec![("A".to_string(), "alice".to_string())],
        0,
    );
    target.merge(incoming);
    assert_eq!(texts(&target), vec![b"m1".to_vec()]);
    assert_eq!(target.get_username(&"A".to_string()), "alice".to_string());
}

#[test]
fn merge_reverse_direction_bootstraps_the_empty_side() {
    // The reverse direction: merging {hist=[m1], ppl={B}} into
    // {hist=[], ppl={A}} adopts [m1] wholesale - the replace-if-empty
    // bootstrap rule for new joiners, which is what makes the merge
    // asymmetric in mechanism even when the results converge.
    let mut target = State::new("A".to_string(), "alice".to_string());
    let incoming = State::from_parts(
        vec![msg("m1", "B")],
        vec![("B".to_string(), "bob".to_string())],
        0,
    );
    target.merge(incoming);
    assert_eq!(texts(&target), vec![b"m1".to_vec()]);
}

#[test]
fn merge_keeps_empty_history_when_both_sides_empty() {
    let mut target = State::new("A".to_string(), "alice".to_string());
    let incoming = State::from_parts(
        Vec::new(),
        vec![("B".to_string(), "bob".to_string())],
        0,
    );
    target.merge(incoming);
    assert!(texts(&target).is_empty());
    assert_eq!(target.get_username(&"B".to_string()), "bob".to_string());
}

#[test]
fn snapshot_envelope_fields() {
    let m = Message::new_snapshot(vec![1, 2, 3], "B".to_string(), "A".to_string());
    assert_eq!(m.message_type, MessageType::State);
    assert_eq!(m.data, vec![1, 2, 3]);
    assert_eq!(m.addressee, Some("B".to_string()));
    assert_eq!(m.source, "A".to_string());
}

#[test]
fn chat_envelope_fields() {
    let m = Message::new_chat(b"hey".to_vec(), "A".to_string());
    assert_eq!(m.message_type, MessageType::Message);
    assert_eq!(m.data, b"hey".to_vec());
    assert_eq!(m.addressee, None);
    assert_eq!(m.source, "A".to_string());
}
