use pairchat::message::SenderKind;
use pairchat::model::Placement;
use pairchat::room::RoomPhase;
use pairchat::state::AppState;

fn s(text: &str) -> String {
    String::from(text)
}

/// A state that knows the given visitors, entered at times 1, 2, 3, ...
fn with_visitors(ids: &[&str]) -> AppState {
    let mut state = AppState::new();
    let mut now = 0;
    for id in ids {
        now += 1;
        let entered = state.get_or_create_with(None, now, s(id));
        assert_eq!(entered, Some((s(id), true)));
    }
    state
}

fn slot_invariant_holds(state: &AppState) -> bool {
    match state.next_room() {
        Some(id) => match state.room(id) {
            Some(room) => room.user_count() == 1 && room.terminator().is_none(),
            None => false,
        },
        None => true,
    }
}

#[test]
fn new_state_is_empty() {
    let state = AppState::new();
    assert_eq!(state.visitor_count(), 0);
    assert_eq!(state.room_count(), 0);
    assert!(state.next_room().is_none());
    assert_eq!(state.dump(), "");
}

#[test]
fn get_or_create_with_enters_and_refreshes() {
    let mut state = AppState::new();
    assert_eq!(state.get_or_create_with(None, 10, s("a")), Some((s("a"), true)));
    let a = state.visitor("a").unwrap();
    assert_eq!((a.first_seen, a.last_seen, a.chat_ctr), (10, 10, 0));
    assert!(a.room_id.is_none());
    assert_eq!(a.id, "a");

    // a known cookie refreshes and ignores the fresh identifier
    assert_eq!(state.get_or_create_with(Some("a"), 20, s("b")), Some((s("a"), false)));
    let a = state.visitor("a").unwrap();
    assert_eq!((a.first_seen, a.last_seen), (10, 20));
    assert_eq!(state.visitor_count(), 1);

    // an unknown cookie gets the fresh identifier
    assert_eq!(state.get_or_create_with(Some("zzz"), 30, s("b")), Some((s("b"), true)));
    assert_eq!(state.visitor_ids(), vec!["a", "b"]);

    // a fresh identifier that is taken enters nobody
    assert_eq!(state.get_or_create_with(None, 40, s("a")), None);
    assert_eq!(state.get_or_create_with(Some("zzz"), 40, s("b")), None);
    assert_eq!(state.visitor_count(), 2);
    assert_eq!(state.visitor("a").unwrap().last_seen, 20);
}

#[test]
fn get_or_create_draws_an_identifier() {
    let mut state = AppState::new();
    let (id, is_new) = state.get_or_create(None, 5).unwrap();
    assert!(is_new);
    assert_eq!(id.len(), 28);
    assert_eq!(state.visitor(&id).unwrap().first_seen, 5);
    let (again, is_new) = state.get_or_create(Some(&id), 9).unwrap();
    assert!(!is_new);
    assert_eq!(again, id);
    assert_eq!(state.visitor(&id).unwrap().last_seen, 9);
    let (other, is_new) = state.get_or_create(Some("stale-cookie"), 9).unwrap();
    assert!(is_new);
    assert_ne!(other, id);
    assert_eq!(state.visitor_count(), 2);
}

#[test]
fn identify_issues_a_cookie_only_for_new_visitors() {
    let mut state = AppState::new();
    let (id, cookie) = state.identify(None, 5).unwrap();
    assert_eq!(cookie.as_deref(), Some(id.as_str()));
    let (again, cookie) = state.identify(Some(&id), 6).unwrap();
    assert_eq!(again, id);
    assert!(cookie.is_none());
    assert_eq!(state.visitor_count(), 1);
    assert_eq!(state.visitor(&id).unwrap().last_seen, 6);
}

#[test]
fn touch_refreshes_known_visitors_only() {
    let mut state = with_visitors(&["a"]);
    assert!(state.touch("a", 50));
    assert_eq!(state.visitor("a").unwrap().last_seen, 50);
    assert!(!state.touch("b", 60));
    assert_eq!(state.visitor_count(), 1);
}

#[test]
fn remove_takes_a_visitor_out() {
    let mut state = with_visitors(&["a", "b"]);
    assert!(state.remove("a"));
    assert!(!state.remove("a"));
    assert!(state.visitor("a").is_none());
    assert_eq!(state.visitor_ids(), vec!["b"]);
}

#[test]
fn first_visitor_waits_in_a_new_room() {
    let mut state = with_visitors(&["a"]);
    assert!(state.needs_room("a"));
    let r = state.assign_room_with("a", 10, s("r1"));
    assert_eq!(r.placement, Placement::Waiting);
    assert_eq!(r.room.as_deref(), Some("r1"));
    assert!(r.messages.is_empty());
    assert_eq!(state.next_room().as_deref(), Some("r1"));
    let room = state.room("r1").unwrap();
    assert_eq!(room.users(), &vec![s("a")]);
    assert_eq!(room.created(), 10);
    assert_eq!(room.messages().len(), 1);
    assert_eq!(room.messages()[0].msg, "Chat initiated");
    let a = state.visitor("a").unwrap();
    assert_eq!(a.room_id.as_deref(), Some("r1"));
    assert_eq!(a.chat_ctr, 1);
    assert_eq!(state.room_phase("a"), Some(RoomPhase::Waiting));
    assert!(!state.needs_room("a"));
}

#[test]
fn pairing_is_first_come_first_served() {
    let mut state = with_visitors(&["a", "b", "c"]);
    let ra = state.assign_room_with("a", 10, s("r1"));
    let rb = state.assign_room_with("b", 11, s("r2"));
    assert_eq!(ra.placement, Placement::Waiting);
    assert_eq!(rb.placement, Placement::Paired);
    assert_eq!(rb.room.as_deref(), Some("r1"));
    assert_eq!(state.visitor("a").unwrap().room_id.as_deref(), Some("r1"));
    assert_eq!(state.visitor("b").unwrap().room_id.as_deref(), Some("r1"));
    assert!(state.next_room().is_none());
    assert!(state.room("r2").is_none());
    assert_eq!(state.room("r1").unwrap().users(), &vec![s("a"), s("b")]);
    assert_eq!(state.room_phase("a"), Some(RoomPhase::Active));

    // the backlog is rendered for the one who completes the pair
    assert_eq!(rb.messages.len(), 1);
    assert_eq!(rb.messages[0].msg, "Chat initiated");
    assert_eq!(rb.messages[0].senderkind, SenderKind::SYSTEM);

    // a third visitor starts a new waiting room
    let rc = state.assign_room_with("c", 12, s("r3"));
    assert_eq!(rc.placement, Placement::Waiting);
    assert_eq!(rc.room.as_deref(), Some("r3"));
    assert_eq!(state.room("r1").unwrap().users(), &vec![s("a"), s("b")]);
    assert_eq!(state.room("r3").unwrap().users(), &vec![s("c")]);
    assert_eq!(state.next_room().as_deref(), Some("r3"));
    assert_eq!(state.room_ids(), vec!["r1", "r3"]);
}

#[test]
fn pairing_delivers_what_the_waiter_wrote() {
    let mut state = with_visitors(&["a", "b"]);
    state.assign_room_with("a", 10, s("r1"));
    assert!(state.post_message("a", s("anyone?"), 11, 10));
    let rb = state.assign_room_with("b", 20_000, s("r2"));
    assert_eq!(rb.placement, Placement::Paired);
    assert_eq!(rb.messages.len(), 2);
    assert_eq!(rb.messages[0].msg, "anyone?");
    assert_eq!(rb.messages[0].senderkind, SenderKind::THEM);
    assert_eq!(rb.messages[0].time, "19s");
    assert!(!rb.messages[0].seen);
    assert!(state.room("r1").unwrap().messages()[1].seen);
}

#[test]
fn assign_room_turns_away_unknown_and_placed_visitors() {
    let mut state = with_visitors(&["a"]);
    let unknown = state.assign_room_with("ghost", 10, s("r1"));
    assert_eq!(unknown.placement, Placement::Unknown);
    assert!(unknown.room.is_none());
    assert_eq!(state.room_count(), 0);

    state.assign_room_with("a", 10, s("r1"));
    let again = state.assign_room_with("a", 11, s("r2"));
    assert_eq!(again.placement, Placement::Occupied);
    assert!(again.room.is_none());
    assert_eq!(state.room_count(), 1);
    assert_eq!(state.visitor("a").unwrap().chat_ctr, 1);
}

#[test]
fn assign_room_reports_a_collision() {
    let mut state = with_visitors(&["a", "b", "c"]);
    state.assign_room_with("a", 10, s("r1"));
    state.assign_room_with("b", 11, s("r2"));
    let before = state.dump();
    let rc = state.assign_room_with("c", 12, s("r1"));
    assert_eq!(rc.placement, Placement::Collision);
    assert!(rc.room.is_none());
    assert_eq!(state.dump(), before);
    assert!(state.visitor("c").unwrap().room_id.is_none());
}

#[test]
fn slot_invariant_survives_any_run_of_requests() {
    let ids = ["a", "b", "c", "d", "e", "f", "g"];
    let mut state = with_visitors(&ids);
    assert!(slot_invariant_holds(&state));
    let order = ["a", "a", "c", "ghost", "b", "d", "d", "g", "e", "f", "a"];
    for (i, id) in order.iter().enumerate() {
        state.assign_room_with(id, i as u64, format!("room{}", i));
        assert!(slot_invariant_holds(&state));
        for room in state.room_ids() {
            let n = state.room(&room).unwrap().user_count();
            assert!(n == 1 || n == 2);
        }
    }
    // seven visitors: three pairs and one who waits
    assert_eq!(state.room_count(), 4);
    assert!(state.next_room().is_some());
}

#[test]
fn assign_room_draws_the_room_identifier() {
    let mut state = with_visitors(&["a", "b"]);
    let ra = state.assign_room("a", 10);
    assert_eq!(ra.placement, Placement::Waiting);
    let room = ra.room.unwrap();
    assert_eq!(room.len(), 28);
    assert_eq!(state.next_room().as_deref(), Some(room.as_str()));
    let rb = state.assign_room("b", 11);
    assert_eq!(rb.placement, Placement::Paired);
    assert_eq!(rb.room.as_deref(), Some(room.as_str()));
    assert_eq!(state.room_count(), 1);
    assert_eq!(state.assign_room("ghost", 12).placement, Placement::Unknown);
    assert_eq!(state.assign_room("a", 12).placement, Placement::Occupied);
}

#[test]
fn leave_room_twice_is_leave_room_once() {
    let mut state = with_visitors(&["a", "b"]);
    state.assign_room_with("a", 10, s("r1"));
    state.assign_room_with("b", 11, s("r2"));
    state.leave_room("a", 20);
    let once = state.dump();
    let ledger = state.room("r1").unwrap().dump();
    state.leave_room("a", 30);
    assert_eq!(state.dump(), once);
    assert_eq!(state.room("r1").unwrap().dump(), ledger);
    assert!(state.visitor("a").unwrap().room_id.is_none());
    assert_eq!(state.room("r1").unwrap().terminator().as_deref(), Some("a"));
}

#[test]
fn leave_room_of_a_stranger_changes_nothing() {
    let mut state = with_visitors(&["a"]);
    state.assign_room_with("a", 10, s("r1"));
    let before = state.dump();
    state.leave_room("ghost", 20);
    assert_eq!(state.dump(), before);
    let mut empty = with_visitors(&["a"]);
    empty.leave_room("a", 20);
    assert_eq!(empty.room_count(), 0);
}

#[test]
fn two_sided_departure_deletes_the_room() {
    let mut state = with_visitors(&["a", "b"]);
    state.assign_room_with("a", 10, s("r1"));
    state.assign_room_with("b", 11, s("r2"));
    state.leave_room("a", 20);
    let room = state.room("r1").unwrap();
    assert_eq!(room.phase(), RoomPhase::Terminated);
    assert_eq!(room.terminator().as_deref(), Some("a"));
    // one participant remains
    assert_eq!(room.users(), &vec![s("b")]);
    assert_eq!(room.peer_count(&s("b")), 0);
    assert_eq!(state.visitor("b").unwrap().room_id.as_deref(), Some("r1"));
    assert_eq!(room.messages().last().unwrap().msg, "User left the room");
    assert_eq!(room.messages().last().unwrap().time, 20);
    assert_eq!(state.room_phase("b"), Some(RoomPhase::Terminated));
    // the one who stayed still sees the room, departure included
    let seen = state.render_inbox("b", 21).unwrap();
    assert_eq!(seen[0].msg, "User left the room");
    assert_eq!(seen[0].senderkind, SenderKind::SYSTEM);
    assert!(state.render_inbox("a", 21).is_none());

    state.leave_room("b", 30);
    assert!(state.room("r1").is_none());
    assert_eq!(state.room_count(), 0);
    assert!(state.render_inbox("a", 31).is_none());
    assert!(state.render_inbox("b", 31).is_none());
    assert!(state.fetch_messages("a", 31).is_none());
    assert!(state.fetch_messages("b", 31).is_none());
    assert!(state.visitor("a").is_some());
    assert!(state.visitor("b").is_some());
}

#[test]
fn message_cap_evicts_the_oldest() {
    let capacity = 5;
    let mut state = with_visitors(&["a", "b"]);
    state.assign_room_with("a", 10, s("r1"));
    state.assign_room_with("b", 11, s("r2"));
    for i in 0..(capacity as u64 + 1) {
        let who = if i % 2 == 0 { "a" } else { "b" };
        assert!(state.post_message(who, format!("m{}", i), 100 + i, capacity));
        // half of the messages are seen before they are evicted
        if i % 3 == 0 {
            state.render_inbox("a", 100 + i);
            state.render_inbox("b", 100 + i);
        }
    }
    let room = state.room("r1").unwrap();
    let bodies: Vec<&str> = room.messages().iter().map(|m| m.msg.as_str()).collect();
    assert_eq!(bodies, vec!["m1", "m2", "m3", "m4", "m5"]);
    assert_eq!(room.messages().len(), capacity);
}

#[test]
fn post_message_is_dropped_without_a_live_room() {
    let mut state = with_visitors(&["a", "b"]);
    assert!(!state.post_message("a", s("x"), 5, 10));
    assert!(!state.post_message("ghost", s("x"), 5, 10));
    state.assign_room_with("a", 10, s("r1"));
    state.assign_room_with("b", 11, s("r2"));
    state.leave_room("a", 20);
    let before = state.room("r1").unwrap().dump();
    assert!(!state.post_message("b", s("still there?"), 21, 10));
    assert!(!state.post_message("a", s("gone"), 21, 10));
    assert_eq!(state.room("r1").unwrap().dump(), before);
}

#[test]
fn read_receipt_is_set_by_the_reader_only() {
    let mut state = with_visitors(&["a", "b"]);
    state.assign_room_with("a", 10, s("r1"));
    state.assign_room_with("b", 11, s("r2"));
    assert!(state.post_message("a", s("hello"), 1_000, 10));
    assert!(!state.room("r1").unwrap().messages()[1].seen);

    // the author's own fetch does not deliver
    let own = state.fetch_messages("a", 2_000).unwrap();
    assert_eq!(own[0].msg, "hello");
    assert_eq!(own[0].senderkind, SenderKind::YOU);
    assert!(!own[0].seen);
    assert!(!state.room("r1").unwrap().messages()[1].seen);

    // the reader's fetch does, and shows the receipt as it stood
    let first = state.fetch_messages("b", 3_000).unwrap();
    assert_eq!(first[0].msg, "hello");
    assert_eq!(first[0].senderkind, SenderKind::THEM);
    assert!(!first[0].seen);
    assert!(state.room("r1").unwrap().messages()[1].seen);

    // from then on the flag stays, whoever looks
    let again = state.fetch_messages("a", 4_000).unwrap();
    assert!(again[0].seen);
    assert!(state.room("r1").unwrap().messages()[1].seen);
    let second = state.fetch_messages("b", 5_000).unwrap();
    assert!(second[0].seen);
}

#[test]
fn fetch_messages_records_the_contact() {
    let mut state = with_visitors(&["a"]);
    state.assign_room_with("a", 10, s("r1"));
    let views = state.fetch_messages("a", 7_000).unwrap();
    assert_eq!(views.len(), 1);
    assert_eq!(views[0].time, "6s");
    assert_eq!(state.visitor("a").unwrap().last_seen, 7_000);
    // rendering alone does not
    state.render_inbox("a", 9_000).unwrap();
    assert_eq!(state.visitor("a").unwrap().last_seen, 7_000);
}

#[test]
fn send_message_accepts_one_field_named_message() {
    let mut state = with_visitors(&["a", "b"]);
    state.assign_room_with("a", 10, s("r1"));
    state.assign_room_with("b", 11, s("r2"));
    assert!(state.send_message("a", "message=hi+there%3F", 20, 10));
    // an accepted post is a contact
    assert_eq!(state.visitor("a").unwrap().last_seen, 20);
    assert_eq!(state.visitor("a").unwrap().first_seen, 1);
    assert_eq!(state.visitor("b").unwrap().last_seen, 2);
    assert_eq!(state.room("r1").unwrap().messages()[1].msg, "hi there?");
    assert_eq!(state.room("r1").unwrap().messages()[1].sender.as_deref(), Some("a"));
    assert_eq!(state.room("r1").unwrap().messages()[1].time, 20);
    assert!(!state.send_message("a", "text=hi", 21, 10));
    assert!(!state.send_message("a", "message=a&message=b", 21, 10));
    assert!(!state.send_message("a", "", 21, 10));
    assert!(!state.send_message("ghost", "message=hi", 21, 10));
    assert_eq!(state.room("r1").unwrap().messages().len(), 2);
    // a malformed post changes nothing
    assert_eq!(state.visitor("a").unwrap().last_seen, 20);
    assert_eq!(state.visitor_count(), 2);
}

#[test]
fn send_message_into_a_room_somebody_left_is_a_contact_but_writes_nothing() {
    let mut state = with_visitors(&["a", "b"]);
    state.assign_room_with("a", 10, s("r1"));
    state.assign_room_with("b", 11, s("r2"));
    state.leave_room("a", 12);
    let before = state.room("r1").unwrap().dump();
    assert!(!state.send_message("b", "message=hello", 30, 10));
    assert_eq!(state.room("r1").unwrap().dump(), before);
    assert_eq!(state.visitor("b").unwrap().last_seen, 30);
}

#[test]
fn join_or_status_places_and_reports() {
    let mut state = with_visitors(&["a", "b"]);
    let a = state.join_or_status_with("a", 10, s("r1")).unwrap();
    assert_eq!(a.state, RoomPhase::Waiting);
    assert_eq!(a.peer_count, 0);
    assert_eq!(a.messages.len(), 1);
    let b = state.join_or_status_with("b", 11, s("r2")).unwrap();
    assert_eq!(b.state, RoomPhase::Active);
    assert_eq!(b.peer_count, 1);
    let a = state.join_or_status_with("a", 12, s("r3")).unwrap();
    assert_eq!(a.state, RoomPhase::Active);
    assert_eq!(a.peer_count, 1);
    assert_eq!(state.room_count(), 1);
    state.leave_room("b", 13);
    let a = state.join_or_status_with("a", 14, s("r4")).unwrap();
    assert_eq!(a.state, RoomPhase::Terminated);
    assert_eq!(a.peer_count, 0);
    assert_eq!(a.messages[0].msg, "User left the room");
    assert!(state.join_or_status_with("ghost", 15, s("r5")).is_none());
    // a fresh identifier that is taken leaves the visitor without a room
    assert!(state.join_or_status_with("b", 16, s("r1")).is_none());
    assert!(state.visitor("b").unwrap().room_id.is_none());
}

#[test]
fn join_or_status_draws_the_room_identifier() {
    let mut state = with_visitors(&["a", "b"]);
    let a = state.join_or_status("a", 10).unwrap();
    assert_eq!(a.state, RoomPhase::Waiting);
    let b = state.join_or_status("b", 11).unwrap();
    assert_eq!(b.state, RoomPhase::Active);
    assert_eq!(state.room_count(), 1);
    assert!(state.join_or_status("ghost", 12).is_none());
}

#[test]
fn a_waiter_who_leaves_takes_the_room_along() {
    let mut state = with_visitors(&["a", "c"]);
    state.assign_room_with("a", 10, s("r1"));
    state.leave_room("a", 11);
    // no room without a participant, and nothing abandoned in the slot
    assert!(state.room("r1").is_none());
    assert_eq!(state.room_count(), 0);
    assert!(state.next_room().is_none());
    assert!(state.visitor("a").unwrap().room_id.is_none());
    assert!(slot_invariant_holds(&state));
    // the next visitor opens a room of its own
    let rc = state.assign_room_with("c", 12, s("r2"));
    assert_eq!(rc.placement, Placement::Waiting);
    assert_eq!(rc.room.as_deref(), Some("r2"));
    assert_eq!(state.room_phase("c"), Some(RoomPhase::Waiting));
    // and the one who left is paired with it on coming back
    let ra = state.assign_room_with("a", 13, s("r3"));
    assert_eq!(ra.placement, Placement::Paired);
    assert_eq!(ra.room.as_deref(), Some("r2"));
    assert_eq!(state.room("r2").unwrap().users(), &vec![s("c"), s("a")]);
}

#[test]
fn slot_invariant_survives_leaving_and_sweeping() {
    let ids = ["a", "b", "c", "d", "e"];
    let mut state = with_visitors(&ids);
    let config = pairchat::config::Config::default();
    let mut now = 10;
    for round in 0..6u64 {
        for (i, id) in ids.iter().enumerate() {
            now += 1;
            state.get_or_create_with(Some(id), now, format!("visitor{}-{}", round, i));
            state.assign_room_with(id, now, format!("room{}-{}", round, i));
            assert!(slot_invariant_holds(&state));
            if (round + i as u64) % 3 == 0 {
                state.leave_room(id, now);
                assert!(slot_invariant_holds(&state));
            }
        }
        now += 15_000 * round;
        state.cleanup(now, &config);
        assert!(slot_invariant_holds(&state));
        for room in state.room_ids() {
            let room = state.room(&room).unwrap();
            assert!(room.user_count() == 1 || room.user_count() == 2);
            for user in room.users() {
                let record = state.visitor(user).unwrap();
                assert_eq!(record.room_id.as_deref(), Some(room.id().as_str()));
            }
        }
        for id in state.visitor_ids() {
            if let Some(room) = &state.visitor(&id).unwrap().room_id {
                assert!(state.room(room).unwrap().has_user(&id));
            }
        }
    }
}

#[test]
fn room_counter_counts_assignments() {
    let mut state = with_visitors(&["a", "b"]);
    state.assign_room_with("a", 10, s("r1"));
    state.assign_room_with("b", 11, s("r2"));
    state.leave_room("a", 12);
    state.leave_room("b", 13);
    state.assign_room_with("a", 14, s("r3"));
    assert_eq!(state.visitor("a").unwrap().chat_ctr, 2);
    assert_eq!(state.visitor("b").unwrap().chat_ctr, 1);
}

#[test]
fn dump_lists_visitors_then_rooms() {
    let mut state = with_visitors(&["a", "b", "c"]);
    state.assign_room_with("a", 10, s("r1"));
    state.assign_room_with("b", 11, s("r2"));
    assert_eq!(
        state.dump(),
        "\na: r1\nb: r1\nc: none\nr1 -> {\"a\", \"b\"}"
    );
}
