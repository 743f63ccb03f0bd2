use pairchat::config::Config;
use pairchat::model::Placement;
use pairchat::model::Reaped;
use pairchat::room::RoomPhase;
use pairchat::state::AppState;

fn s(text: &str) -> String {
    String::from(text)
}

fn config() -> Config {
    Config::default()
}

/// Visitors entered at time 0, and the first two paired in room `r1`.
fn paired() -> AppState {
    let mut state = AppState::new();
    state.get_or_create_with(None, 0, s("a"));
    state.get_or_create_with(None, 0, s("b"));
    assert_eq!(state.assign_room_with("a", 0, s("r1")).placement, Placement::Waiting);
    assert_eq!(state.assign_room_with("b", 0, s("r2")).placement, Placement::Paired);
    state
}

fn outcomes(report: &[pairchat::state::SweepEvent]) -> Vec<(String, Reaped)> {
    report.iter().map(|e| (e.visitor.clone(), e.outcome)).collect()
}

#[test]
fn config_defaults_and_validity() {
    let c = Config::default();
    assert_eq!(c.cleanup_poll_frequency, 5_000);
    assert_eq!(c.max_messages, 100);
    assert_eq!(c.max_idle_outside, 20);
    assert_eq!(c.max_idle_inside, 300);
    assert!(c.is_valid());
    assert!(Config::new(1, 1, 1, 1).is_some());
    assert!(Config::new(0, 1, 1, 1).is_none());
    assert!(Config::new(1, 0, 1, 1).is_none());
    assert!(Config::new(1, 1, 0, 1).is_none());
    assert!(Config::new(1, 1, 1, 0).is_none());
    let c = Config::new(2_000, 7, 3, 4).unwrap();
    assert_eq!(
        (c.cleanup_poll_frequency, c.max_messages, c.max_idle_outside, c.max_idle_inside),
        (2_000, 7, 3, 4)
    );
}

#[test]
fn idle_bounds_are_exclusive_and_in_seconds() {
    let c = Config::default();
    assert!(!c.stale_outside(19_999));
    assert!(!c.stale_outside(20_000));
    assert!(c.stale_outside(20_001));
    assert!(!c.stale_inside(300_000));
    assert!(c.stale_inside(300_001));
    let huge = Config::new(1, 1, u64::MAX, u64::MAX).unwrap();
    assert!(!huge.stale_outside(u64::MAX));
    assert!(!huge.stale_inside(u64::MAX));
}

#[test]
fn a_silent_visitor_without_a_room_is_removed() {
    let mut state = AppState::new();
    state.get_or_create_with(None, 1_000, s("a"));
    state.get_or_create_with(None, 10_000, s("b"));
    let report = state.cleanup(21_000, &config());
    assert!(report.is_empty());
    assert_eq!(state.visitor_count(), 2);
    let report = state.cleanup(21_001, &config());
    assert_eq!(outcomes(&report), vec![(s("a"), Reaped::Visitor)]);
    assert!(state.visitor("a").is_none());
    assert!(state.visitor("b").is_some());
}

#[test]
fn a_silent_waiter_is_removed_with_its_room() {
    let mut state = AppState::new();
    state.get_or_create_with(None, 0, s("a"));
    state.assign_room_with("a", 0, s("r1"));
    assert_eq!(state.reap("a", 20_000, &config()), Reaped::Kept);
    assert_eq!(state.reap("a", 20_001, &config()), Reaped::WaitingRoom);
    assert!(state.visitor("a").is_none());
    assert!(state.room("r1").is_none());
    assert!(state.next_room().is_none());
}

#[test]
fn a_silent_participant_times_out_of_an_active_room() {
    let mut state = paired();
    state.touch("b", 290_000);
    // past the outside bound but inside the inside bound: nothing happens
    assert!(state.cleanup(300_000, &config()).is_empty());
    let before = state.room("r1").unwrap().messages().len();
    let report = state.cleanup(300_001, &config());
    assert_eq!(outcomes(&report), vec![(s("a"), Reaped::TimedOut)]);
    assert!(state.visitor("a").is_none());
    assert!(state.visitor("b").is_some());
    let room = state.room("r1").unwrap();
    assert_eq!(room.terminator().as_deref(), Some("a"));
    assert_eq!(room.phase(), RoomPhase::Terminated);
    // the room stays with the one participant who is still there
    assert_eq!(room.users(), &vec![s("b")]);
    assert_eq!(state.visitor("b").unwrap().room_id.as_deref(), Some("r1"));
    assert_eq!(state.visitor("b").unwrap().last_seen, 290_000);
    assert_eq!(room.messages().len(), before + 1);
    assert_eq!(room.messages().last().unwrap().msg, "User left the room");
    assert!(room.messages().last().unwrap().sender.is_none());
    assert_eq!(room.messages().last().unwrap().time, 300_001);
    assert_eq!(state.room_phase("b"), Some(RoomPhase::Terminated));
}

#[test]
fn the_one_left_behind_is_torn_down_with_the_room() {
    let mut state = paired();
    state.leave_room("a", 1_000);
    state.touch("a", 100_000);
    let report = state.cleanup(20_001, &config());
    assert_eq!(outcomes(&report), vec![(s("b"), Reaped::Teardown)]);
    assert!(state.visitor("b").is_none());
    assert!(state.room("r1").is_none());
    assert!(state.visitor("a").is_some());
}

#[test]
fn the_sweep_works_through_the_directory_in_order() {
    // both are silent for long: the first times out, which leaves the second
    // behind in a terminated room, so that it is torn down in the same sweep
    let mut state = paired();
    let report = state.cleanup(300_001, &config());
    assert_eq!(
        outcomes(&report),
        vec![(s("a"), Reaped::TimedOut), (s("b"), Reaped::Teardown)]
    );
    assert_eq!(state.visitor_count(), 0);
    assert_eq!(state.room_count(), 0);
}

#[test]
fn a_waiter_who_left_and_came_back_is_swept_like_any_waiter() {
    let mut state = AppState::new();
    state.get_or_create_with(None, 0, s("a"));
    state.assign_room_with("a", 0, s("r1"));
    state.leave_room("a", 1);
    assert!(state.room("r1").is_none());
    assert!(state.next_room().is_none());
    assert_eq!(state.assign_room_with("a", 2, s("r2")).placement, Placement::Waiting);
    assert_eq!(state.visitor("a").unwrap().room_id.as_deref(), Some("r2"));
    assert_eq!(state.reap("a", 20_000, &config()), Reaped::Kept);
    assert_eq!(state.reap("a", 20_001, &config()), Reaped::WaitingRoom);
    assert!(state.visitor("a").is_none());
    assert!(state.room("r2").is_none());
    assert!(state.next_room().is_none());
}

#[test]
fn no_reference_outlives_its_room() {
    let mut state = AppState::new();
    state.get_or_create_with(None, 0, s("a"));
    state.get_or_create_with(None, 0, s("c"));
    state.assign_room_with("a", 0, s("r1"));
    state.leave_room("a", 1);
    state.assign_room_with("a", 2, s("r2"));
    assert_eq!(state.assign_room_with("c", 3, s("r3")).placement, Placement::Paired);
    state.leave_room("c", 4);
    // the room stays for the one who is still in it
    assert_eq!(state.room("r2").unwrap().users(), &vec![s("a")]);
    assert_eq!(state.visitor("a").unwrap().room_id.as_deref(), Some("r2"));
    assert!(state.visitor("c").unwrap().room_id.is_none());
    assert_eq!(state.room_phase("a"), Some(RoomPhase::Terminated));
    let report = state.cleanup(20_005, &config());
    assert_eq!(
        outcomes(&report),
        vec![(s("a"), Reaped::Teardown), (s("c"), Reaped::Visitor)]
    );
    assert_eq!(state.visitor_count(), 0);
    assert_eq!(state.room_count(), 0);
}

#[test]
fn reap_of_a_stranger_keeps_everything() {
    let mut state = paired();
    let before = state.dump();
    assert_eq!(state.reap("ghost", u64::MAX, &config()), Reaped::Kept);
    assert_eq!(state.dump(), before);
}

#[test]
fn a_clock_that_steps_back_reaps_nobody() {
    let mut state = AppState::new();
    state.get_or_create_with(None, 1_000_000, s("a"));
    assert!(state.cleanup(5, &config()).is_empty());
    assert!(state.visitor("a").is_some());
}

#[test]
fn configured_bounds_are_applied_by_case() {
    // an inside bound below the outside bound is honoured as configured
    let tight = Config::new(1_000, 10, 60, 5).unwrap();
    let mut state = paired();
    state.get_or_create_with(None, 0, s("c"));
    let report = state.cleanup(5_001, &tight);
    assert_eq!(
        outcomes(&report),
        vec![(s("a"), Reaped::TimedOut)]
    );
    // b now sits in a terminated room and c has no room: the outside bound applies
    assert!(state.cleanup(60_000, &tight).is_empty());
    let report = state.cleanup(60_001, &tight);
    assert_eq!(
        outcomes(&report),
        vec![(s("b"), Reaped::Teardown), (s("c"), Reaped::Visitor)]
    );
}
