use social_credit::autojoin::INITIAL_AUTOJOIN_DELAY;
use social_credit::autojoin::next_autojoin_delay;
use social_credit::emoji::Emoji;
use social_credit::store::Store;
use social_credit::user::User;
use social_credit::user::UserType;
use social_credit::user::compare_user;
use social_credit::user::get_user_type_as_int;
use social_credit::user_room_data::UserRoomData;
use social_credit::user_util::setup_user;

fn plain_user(name: &str, url: &str) -> User {
    User {
        id: -1,
        name: name.to_string(),
        url: url.to_string(),
        user_type: UserType::Default,
        room_data: None,
    }
}

#[test]
fn role_codes_match_the_schema() {
    let mut u = plain_user("a", "x");
    assert_eq!(get_user_type_as_int(&u), 0);
    u.user_type = UserType::Moderator;
    assert_eq!(get_user_type_as_int(&u), 1);
    u.user_type = UserType::Admin;
    assert_eq!(get_user_type_as_int(&u), 2);
}

#[test]
fn compare_user_is_by_identity_only() {
    let mut a = plain_user("a", "x");
    let mut b = plain_user("a", "x");
    a.id = 1;
    b.id = 2;
    b.user_type = UserType::Admin;
    assert!(compare_user(&a, &b));
    b.url = "y".to_string();
    assert!(!compare_user(&a, &b));
}

#[test]
fn duplicate_user_insert_is_refused() {
    let mut store = Store::new();
    assert!(store.insert_user(&plain_user("a", "x")).is_ok());
    assert!(store.insert_user(&plain_user("a", "x")).is_err());
    assert!(store.insert_user(&plain_user("a", "y")).is_ok());
}

#[test]
fn duplicate_emoji_insert_is_refused() {
    let mut store = Store::new();
    let e = Emoji { id: -1, room_id: "!r".to_string(), emoji: "\u{1f44d}".to_string(), social_credit: 1 };
    assert!(store.insert_emoji(&e).is_ok());
    assert!(store.insert_emoji(&e).is_err());
}

#[test]
fn membership_requires_its_user() {
    let mut store = Store::new();
    let rd = UserRoomData {
        id: -1,
        user_id: 9,
        room_id: "!r".to_string(),
        social_credit: 0,
        last_reactions: Vec::new(),
    };
    assert!(store.insert_user_room_data(&rd).is_err());
}

#[test]
fn setup_user_creates_then_finds() {
    let mut store = Store::new();
    let room = "!r".to_string();
    let tag = "@a:x".to_string();
    let u1 = setup_user(&mut store, Some(&room), &tag, UserType::Default, 50).expect("created");
    assert_eq!(u1.name, "a");
    assert_eq!(u1.url, "x");
    let rd1 = u1.room_data.expect("room data created");
    assert_eq!(rd1.social_credit, 50);
    // a second call resolves the same user and the same membership
    let u2 = setup_user(&mut store, Some(&room), &tag, UserType::Default, 99).expect("found");
    assert_eq!(u2.id, u1.id);
    assert_eq!(u2.room_data.expect("kept").social_credit, 50);
    assert_eq!(store.users.len(), 1);
    assert_eq!(store.room_data.len(), 1);
}

#[test]
fn setup_user_rejects_malformed_tag() {
    let mut store = Store::new();
    assert!(setup_user(&mut store, None, &"not a tag".to_string(), UserType::Default, 0).is_none());
    assert_eq!(store.users.len(), 0);
}

#[test]
fn autojoin_delay_doubles_then_gives_up() {
    assert_eq!(INITIAL_AUTOJOIN_DELAY, 2);
    assert_eq!(next_autojoin_delay(2), Some(4));
    assert_eq!(next_autojoin_delay(1600), Some(3200));
    assert_eq!(next_autojoin_delay(1800), Some(3600));
    assert_eq!(next_autojoin_delay(3600), None);
}
