use pairchat::message::copy_id;
use pairchat::message::Message;
use pairchat::message::SenderKind;
use pairchat::room::ChatRoom;
use pairchat::room::RoomPhase;
use pairchat::user::UserState;

fn id(s: &str) -> Option<String> {
    Some(String::from(s))
}

#[test]
fn message_new_at_is_unseen() {
    let m = Message::new_at(id("alice"), String::from("hello"), 42);
    assert_eq!(m.sender.as_deref(), Some("alice"));
    assert_eq!(m.msg, "hello");
    assert_eq!(m.time, 42);
    assert!(!m.seen);
}

#[test]
fn message_new_stamps_the_current_time() {
    let before = pairchat::clock::get_timestamp();
    let m = Message::new(None, String::from("note"));
    let after = pairchat::clock::get_timestamp();
    assert!(before <= m.time && m.time <= after);
    assert!(m.sender.is_none());
    assert!(!m.seen);
    assert_eq!(m.msg, "note");
}

#[test]
fn pov_classifies_the_sender() {
    let mine = Message::new_at(id("alice"), String::from("a"), 0);
    let theirs = Message::new_at(id("bob"), String::from("b"), 0);
    let system = Message::new_at(None, String::from("c"), 0);
    let viewer = id("alice");
    assert_eq!(mine.pov_at(&viewer, 0).senderkind, SenderKind::YOU);
    assert_eq!(theirs.pov_at(&viewer, 0).senderkind, SenderKind::THEM);
    assert_eq!(system.pov_at(&viewer, 0).senderkind, SenderKind::SYSTEM);
    assert_eq!(mine.pov_at(&None, 0).senderkind, SenderKind::SYSTEM);
    assert_eq!(theirs.pov_at(&None, 0).senderkind, SenderKind::SYSTEM);
    assert_eq!(mine.kind_for(&id("bob")), SenderKind::THEM);
}

#[test]
fn pov_renders_age_and_body() {
    let m = Message::new_at(id("alice"), String::from("hello"), 1_000);
    let view = m.pov_at(&id("bob"), 66_000);
    assert_eq!(view.time, "1m");
    assert_eq!(view.msg, "hello");
    assert!(!view.seen);
    // a message from the future of the clock is shown as new
    assert_eq!(m.pov_at(&id("bob"), 500).time, "now");
}

#[test]
fn pov_with_the_clock_leaves_the_message() {
    let m = Message::new(id("alice"), String::from("hello"));
    let view = m.pov(&id("bob"));
    assert_eq!(view.senderkind, SenderKind::THEM);
    assert_eq!(view.time, "now");
    assert_eq!(view.msg, "hello");
    assert!(!m.seen);
}

#[test]
fn pov_mut_marks_only_messages_of_others() {
    let mut theirs = Message::new_at(id("bob"), String::from("b"), 0);
    let first = theirs.pov_mut_at(&id("alice"), 0);
    assert!(!first.seen);
    assert!(theirs.seen);
    let second = theirs.pov_mut_at(&id("alice"), 0);
    assert!(second.seen);
    assert!(theirs.seen);

    let mut mine = Message::new_at(id("alice"), String::from("a"), 0);
    mine.pov_mut_at(&id("alice"), 0);
    assert!(!mine.seen);

    let mut system = Message::new_at(None, String::from("s"), 0);
    system.pov_mut_at(&id("alice"), 0);
    assert!(!system.seen);

    let mut unseen = Message::new_at(id("bob"), String::from("b"), 0);
    unseen.pov_mut_at(&None, 0);
    assert!(!unseen.seen);
}

#[test]
fn pov_mut_with_the_clock_marks_the_message() {
    let mut theirs = Message::new(id("bob"), String::from("b"));
    let view = theirs.pov_mut(&id("alice"));
    assert_eq!(view.senderkind, SenderKind::THEM);
    assert!(!view.seen);
    assert!(theirs.seen);
}

#[test]
fn copy_id_copies() {
    assert_eq!(copy_id(&id("x")), id("x"));
    assert_eq!(copy_id(&None), None);
}

#[test]
fn user_state_new_at() {
    let u = UserState::new_at(String::from("alice"), 77);
    assert_eq!(u.id, "alice");
    assert_eq!(u.first_seen, 77);
    assert_eq!(u.last_seen, 77);
    assert_eq!(u.chat_ctr, 0);
    assert!(u.room_id.is_none());
}

#[test]
fn user_state_new_reads_the_clock() {
    let before = pairchat::clock::get_timestamp();
    let u = UserState::new(String::from("alice"));
    let after = pairchat::clock::get_timestamp();
    assert_eq!(u.first_seen, u.last_seen);
    assert!(before <= u.first_seen && u.first_seen <= after);
    assert_eq!(u.chat_ctr, 0);
    assert!(u.room_id.is_none());
    assert_eq!(u.id, "alice");
}

#[test]
fn chat_room_new_at_opens_with_one_message() {
    let room = ChatRoom::new_at(String::from("r"), String::from("alice"), 5);
    assert_eq!(room.id(), "r");
    assert_eq!(room.users(), &vec![String::from("alice")]);
    assert_eq!(room.user_count(), 1);
    assert!(room.terminator().is_none());
    assert!(!room.is_terminated());
    assert_eq!(room.created(), 5);
    assert_eq!(room.messages().len(), 1);
    assert!(room.messages()[0].sender.is_none());
    assert_eq!(room.messages()[0].msg, "Chat initiated");
    assert_eq!(room.messages()[0].time, 5);
    assert!(!room.messages()[0].seen);
    assert_eq!(room.phase(), RoomPhase::Waiting);
}

#[test]
fn chat_room_new_reads_the_clock() {
    let before = pairchat::clock::get_timestamp();
    let room = ChatRoom::new(String::from("r"), String::from("alice"));
    let after = pairchat::clock::get_timestamp();
    assert!(before <= room.created() && room.created() <= after);
    assert_eq!(room.messages().len(), 1);
    assert_eq!(room.messages()[0].time, room.created());
    assert_eq!(room.users().len(), 1);
}

#[test]
fn chat_room_add_user_is_a_set_insert() {
    let mut room = ChatRoom::new_at(String::from("r"), String::from("alice"), 5);
    room.add_user(String::from("alice"));
    assert_eq!(room.user_count(), 1);
    room.add_user(String::from("bob"));
    assert_eq!(room.users(), &vec![String::from("alice"), String::from("bob")]);
    assert_eq!(room.phase(), RoomPhase::Active);
    assert!(room.has_user(&String::from("bob")));
    assert!(!room.has_user(&String::from("carol")));
    assert_eq!(room.peer_count(&String::from("alice")), 1);
    assert_eq!(room.peer_count(&String::from("carol")), 2);
}

#[test]
fn chat_room_terminate_at_records_and_announces() {
    let mut room = ChatRoom::new_at(String::from("r"), String::from("alice"), 5);
    room.add_user(String::from("bob"));
    room.terminate_at(String::from("bob"), 9);
    assert_eq!(room.terminator().as_deref(), Some("bob"));
    assert_eq!(room.phase(), RoomPhase::Terminated);
    // the one who left is no longer a participant
    assert_eq!(room.users(), &vec![String::from("alice")]);
    assert_eq!(room.user_count(), 1);
    assert_eq!(room.peer_count(&String::from("alice")), 0);
    assert!(!room.has_user(&String::from("bob")));
    assert_eq!(room.messages().len(), 2);
    assert!(room.messages()[1].sender.is_none());
    assert_eq!(room.messages()[1].msg, "User left the room");
    assert_eq!(room.messages()[1].time, 9);
}

#[test]
fn chat_room_terminate_reads_the_clock() {
    let mut room = ChatRoom::new_at(String::from("r"), String::from("alice"), 5);
    let before = pairchat::clock::get_timestamp();
    room.add_user(String::from("bob"));
    room.terminate(String::from("alice"));
    let after = pairchat::clock::get_timestamp();
    assert_eq!(room.terminator().as_deref(), Some("alice"));
    assert_eq!(room.users(), &vec![String::from("bob")]);
    assert_eq!(room.messages().len(), 2);
    assert_eq!(room.messages()[1].msg, "User left the room");
    assert!(before <= room.messages()[1].time && room.messages()[1].time <= after);
}

#[test]
fn chat_room_post_evicts_the_oldest() {
    let mut room = ChatRoom::new_at(String::from("r"), String::from("alice"), 0);
    for i in 0..4u64 {
        room.post(String::from("alice"), format!("m{}", i), i, 3);
    }
    let bodies: Vec<&str> = room.messages().iter().map(|m| m.msg.as_str()).collect();
    assert_eq!(bodies, vec!["m1", "m2", "m3"]);
    // a smaller bound cuts the ledger down at the next post
    room.post(String::from("alice"), String::from("m4"), 4, 1);
    let bodies: Vec<&str> = room.messages().iter().map(|m| m.msg.as_str()).collect();
    assert_eq!(bodies, vec!["m4"]);
    room.post(String::from("alice"), String::from("m5"), 5, 0);
    assert!(room.messages().is_empty());
}

#[test]
fn chat_room_render_is_newest_first_and_delivers() {
    let mut room = ChatRoom::new_at(String::from("r"), String::from("alice"), 0);
    room.add_user(String::from("bob"));
    room.post(String::from("alice"), String::from("one"), 1_000, 10);
    room.post(String::from("bob"), String::from("two"), 2_000, 10);
    let views = room.render(&String::from("bob"), 10_000);
    assert_eq!(views.len(), 3);
    assert_eq!(views[0].msg, "two");
    assert_eq!(views[0].senderkind, SenderKind::YOU);
    assert_eq!(views[0].time, "8s");
    assert_eq!(views[1].msg, "one");
    assert_eq!(views[1].senderkind, SenderKind::THEM);
    assert_eq!(views[1].time, "9s");
    assert!(!views[1].seen);
    assert_eq!(views[2].msg, "Chat initiated");
    assert_eq!(views[2].senderkind, SenderKind::SYSTEM);
    assert_eq!(views[2].time, "10s");
    let seen: Vec<bool> = room.messages().iter().map(|m| m.seen).collect();
    assert_eq!(seen, vec![false, true, false]);
    let again = room.render(&String::from("bob"), 10_000);
    assert!(again[1].seen);
}

#[test]
fn chat_room_dump_lists_the_ledger() {
    let mut room = ChatRoom::new_at(String::from("r"), String::from("alice"), 7);
    assert_eq!(room.dump(), "7|system|Chat initiated");
    room.post(String::from("alice"), String::from("hi|there"), 12, 10);
    room.terminate_at(String::from("alice"), 30);
    assert_eq!(
        room.dump(),
        "7|system|Chat initiated\n12|alice|hi|there\n30|system|User left the room"
    );
    room.post(String::from("alice"), String::from("x"), 31, 0);
    assert_eq!(room.dump(), "");
}

#[test]
fn chat_room_users_text() {
    let mut room = ChatRoom::new_at(String::from("r"), String::from("alice"), 7);
    assert_eq!(room.users_text(), "{\"alice\"}");
    room.add_user(String::from("bob"));
    assert_eq!(room.users_text(), "{\"alice\", \"bob\"}");
}

#[test]
fn chat_room_terminate_by_a_stranger_keeps_the_participants() {
    let mut room = ChatRoom::new_at(String::from("r"), String::from("alice"), 5);
    room.terminate_at(String::from("carol"), 9);
    assert_eq!(room.terminator().as_deref(), Some("carol"));
    assert_eq!(room.users(), &vec![String::from("alice")]);
    assert_eq!(room.messages().len(), 2);
}
