use social_credit::user_reaction::UserReaction;
use social_credit::user_room_data::UserRoomData;

fn membership_with_times(times: &[u64]) -> UserRoomData {
    let mut reactions = Vec::new();
    for t in times {
        reactions.push(UserReaction::new(7, *t, "$m".to_string()));
    }
    UserRoomData { id: 7, user_id: 1, room_id: "!r".to_string(), social_credit: 0, last_reactions: reactions }
}

#[test]
fn fresh_membership_can_react() {
    let rd = membership_with_times(&[]);
    assert_eq!(rd.get_time_till_user_can_react(1000, 10, 1), 0);
}

#[test]
fn under_the_limit_can_react() {
    let rd = membership_with_times(&[900, 1000]);
    assert_eq!(rd.get_time_till_user_can_react(1060, 5, 3), 0);
}

#[test]
fn at_the_limit_blocks_with_remaining_time() {
    // two reactions inside a 5-minute window, limit 2: the latest one
    // (at 1000) leaves the window at 1300, so 240 seconds remain at 1060
    let rd = membership_with_times(&[900, 1000]);
    assert_eq!(rd.get_time_till_user_can_react(1060, 5, 2), 240);
}

#[test]
fn limiter_reopens_once_a_reaction_expires() {
    // at 1250 the reaction from 900 has left the 5-minute window,
    // leaving one recent reaction against a limit of two
    let rd = membership_with_times(&[900, 1000]);
    assert_eq!(rd.get_time_till_user_can_react(1250, 5, 2), 0);
}

#[test]
fn second_reaction_within_two_minutes_blocks() {
    // limit 1, period 10 minutes, reacted at 1000, asked again at 1120:
    // 480 seconds remain, inside (0, 600]
    let rd = membership_with_times(&[1000]);
    let t = rd.get_time_till_user_can_react(1120, 10, 1);
    assert_eq!(t, 480);
    assert!(t > 0 && t <= 600);
}

#[test]
fn future_timestamp_fails_open() {
    // a reaction recorded in the future counts as recent, but the
    // limiter never blocks on it
    let rd = membership_with_times(&[2000]);
    assert_eq!(rd.get_time_till_user_can_react(1000, 10, 1), 0);
}

#[test]
fn zero_limit_with_empty_history_allows() {
    let rd = membership_with_times(&[]);
    assert_eq!(rd.get_time_till_user_can_react(1000, 10, 0), 0);
}

#[test]
fn add_reaction_appends_and_prunes() {
    let mut rd = membership_with_times(&[100]);
    rd.add_reaction(100000, 10, "$msg9".to_string());
    assert_eq!(rd.last_reactions.len(), 1);
    assert_eq!(rd.last_reactions[0].time, 100000);
    assert_eq!(rd.last_reactions[0].user_room_data_id, 7);
    assert_eq!(rd.last_reactions[0].message_event_id, "$msg9");
    assert_eq!(rd.last_reactions[0].id, -1);
}

#[test]
fn add_reaction_keeps_records_still_in_window() {
    let mut rd = membership_with_times(&[950]);
    rd.add_reaction(1000, 10, "$msg".to_string());
    assert_eq!(rd.last_reactions.len(), 2);
    assert_eq!(rd.last_reactions[0].time, 950);
    assert_eq!(rd.last_reactions[1].time, 1000);
}

#[test]
fn reaction_record_construction() {
    let r = UserReaction::new(3, 42, "$e".to_string());
    assert_eq!(r.id, -1);
    assert_eq!(r.user_room_data_id, 3);
    assert_eq!(r.time, 42);
    assert_eq!(r.message_event_id, "$e");
}
