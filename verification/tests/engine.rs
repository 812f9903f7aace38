use social_credit::emoji::Emoji;
use social_credit::event_handler::EngineAction;
use social_credit::event_handler::EventContent;
use social_credit::event_handler::EventHandler;
use social_credit::event_handler::InboundEvent;
use social_credit::store::Store;
use social_credit::user::UserType;
use social_credit::user_room_data::UserRoomData;
use social_credit::user_util::initial_admin_user_setup;
use social_credit::user_util::setup_user;

fn engine(initial: i32, period: i32, limit: i32) -> EventHandler {
    EventHandler::new(
        Store::new(),
        "bot".to_string(),
        "example.org".to_string(),
        initial,
        period,
        limit,
    )
}

fn reaction_event(id: &str, sender: &str, room: &str, glyph: &str, related: &str) -> InboundEvent {
    InboundEvent {
        event_id: id.to_string(),
        event_type: "m.reaction".to_string(),
        sender_tag: sender.to_string(),
        room_id: room.to_string(),
        content: EventContent::Reaction {
            glyph: glyph.to_string(),
            related_event_id: related.to_string(),
        },
    }
}

fn message_event(id: &str, sender: &str, room: &str, body: &str) -> InboundEvent {
    InboundEvent {
        event_id: id.to_string(),
        event_type: "m.room.message".to_string(),
        sender_tag: sender.to_string(),
        room_id: room.to_string(),
        content: EventContent::Message { body: body.to_string() },
    }
}

fn score_of(eng: &EventHandler, name: &str, room: &str) -> Option<i32> {
    let user = eng.store.find_user(&name.to_string(), &"example.org".to_string())?;
    let rd = eng.store.find_user_room_data(user.id, &room.to_string())?;
    Some(rd.social_credit)
}

#[test]
fn thumbs_up_scores_recipient_and_repeat_event_is_inert() {
    let mut eng = engine(50, 10, 10);
    let reg = eng.store.insert_emoji(&Emoji {
        id: -1,
        room_id: "!room".to_string(),
        emoji: "\u{1f44d}".to_string(),
        social_credit: 5,
    });
    assert!(reg.is_ok());
    let ev = reaction_event("$e1", "@a:example.org", "!room", "\u{1f44d}", "$orig");
    let act = eng.handle_event(&ev, 1000);
    let pending = match act {
        EngineAction::FetchRelatedSender(p) => p,
        _ => panic!("expected a fetch of the related message's author"),
    };
    assert_eq!(pending.room_id, "!room");
    assert_eq!(pending.sender_name, "a");
    assert_eq!(pending.sender_url, "example.org");
    assert_eq!(pending.glyph, "\u{1f44d}");
    assert_eq!(pending.related_event_id, "$orig");
    let reply = eng
        .resume_reaction(pending, &"@b:example.org".to_string(), 1000)
        .expect("a reply with the new score");
    assert_eq!(reply.text, "<b>b's</b> new Social Credit Score: <b>55</b>");
    assert_eq!(reply.html, reply.text);
    assert!(reply.text.contains("55"));
    assert_eq!(score_of(&eng, "b", "!room"), Some(55));

    // the same event id a second time changes nothing and replies nothing
    let act2 = eng.handle_event(&ev, 1001);
    assert!(matches!(act2, EngineAction::Done));
    assert_eq!(score_of(&eng, "b", "!room"), Some(55));
}

#[test]
fn scores_add_up_over_several_reactions() {
    let mut eng = engine(50, 10, 10);
    assert!(eng.store.insert_emoji(&Emoji {
        id: -1,
        room_id: "!room".to_string(),
        emoji: "\u{1f44d}".to_string(),
        social_credit: 5,
    }).is_ok());
    assert!(eng.store.insert_emoji(&Emoji {
        id: -1,
        room_id: "!room".to_string(),
        emoji: "\u{1f611}".to_string(),
        social_credit: -3,
    }).is_ok());
    let first = eng.handle_event(&reaction_event("$e1", "@a:example.org", "!room", "\u{1f44d}", "$m1"), 1000);
    let p1 = match first {
        EngineAction::FetchRelatedSender(p) => p,
        _ => panic!("expected fetch"),
    };
    eng.resume_reaction(p1, &"@b:example.org".to_string(), 1000).expect("reply");
    let second = eng.handle_event(&reaction_event("$e2", "@c:example.org", "!room", "\u{1f611}", "$m2"), 1010);
    let p2 = match second {
        EngineAction::FetchRelatedSender(p) => p,
        _ => panic!("expected fetch"),
    };
    eng.resume_reaction(p2, &"@b:example.org".to_string(), 1010).expect("reply");
    // 50 + 5 - 3
    assert_eq!(score_of(&eng, "b", "!room"), Some(52));
}

#[test]
fn register_emoji_denied_for_default_role_and_applied_for_admin() {
    let mut eng = engine(50, 10, 10);
    let ev = message_event("$m1", "@carol:example.org", "!room", "!register_emoji \u{1f611} -25");
    let act = eng.handle_event(&ev, 1000);
    match act {
        EngineAction::Reply(a) => {
            assert_eq!(a.text, "You are not allowed to use this command");
        },
        _ => panic!("expected the fixed refusal"),
    }
    assert!(eng.store.find_emoji(&"\u{1f611}".to_string(), &"!room".to_string()).is_none());

    assert!(initial_admin_user_setup(&mut eng.store, &"root".to_string(), "example.org"));
    let ev2 = message_event("$m2", "@root:example.org", "!room", "!register_emoji \u{1f611} -25");
    let act2 = eng.handle_event(&ev2, 1001);
    match act2 {
        EngineAction::Reply(a) => {
            assert_eq!(a.text, "Emoji registered: \u{1f611} with social credit score: -25");
            assert!(a.text.contains("\u{1f611}"));
            assert!(a.text.contains("-25"));
        },
        _ => panic!("expected the confirmation"),
    }
    let e = eng.store.find_emoji(&"\u{1f611}".to_string(), &"!room".to_string()).expect("registered");
    assert_eq!(e.emoji, "\u{1f611}");
    assert_eq!(e.social_credit, -25);
}

#[test]
fn second_reaction_inside_the_window_gets_a_cooldown_reply() {
    let mut eng = engine(50, 10, 1);
    assert!(eng.store.insert_emoji(&Emoji {
        id: -1,
        room_id: "!room".to_string(),
        emoji: "\u{1f44d}".to_string(),
        social_credit: 5,
    }).is_ok());
    let p1 = match eng.handle_event(&reaction_event("$e1", "@a:example.org", "!room", "\u{1f44d}", "$m1"), 1000) {
        EngineAction::FetchRelatedSender(p) => p,
        _ => panic!("expected fetch"),
    };
    eng.resume_reaction(p1, &"@b:example.org".to_string(), 1000).expect("reply");
    assert_eq!(score_of(&eng, "b", "!room"), Some(55));

    // two minutes later the same user reacts again: limit 1, period 10
    let act = eng.handle_event(&reaction_event("$e2", "@a:example.org", "!room", "\u{1f44d}", "$m2"), 1120);
    match act {
        EngineAction::Reply(a) => {
            assert_eq!(a.text, "a, you are still on cooldown, remaining time: 8m 0s");
        },
        _ => panic!("expected the cooldown reply"),
    }
    // no score changed
    assert_eq!(score_of(&eng, "b", "!room"), Some(55));
}

#[test]
fn self_reaction_changes_no_score() {
    let mut eng = engine(50, 10, 10);
    assert!(eng.store.insert_emoji(&Emoji {
        id: -1,
        room_id: "!room".to_string(),
        emoji: "\u{1f44d}".to_string(),
        social_credit: 5,
    }).is_ok());
    let p = match eng.handle_event(&reaction_event("$e1", "@a:example.org", "!room", "\u{1f44d}", "$m1"), 1000) {
        EngineAction::FetchRelatedSender(p) => p,
        _ => panic!("expected fetch"),
    };
    let r = eng.resume_reaction(p, &"@a:example.org".to_string(), 1000);
    assert!(r.is_none());
    assert_eq!(score_of(&eng, "a", "!room"), Some(50));
}

#[test]
fn unregistered_glyph_is_inert() {
    let mut eng = engine(50, 10, 10);
    let act = eng.handle_event(&reaction_event("$e1", "@a:example.org", "!room", "\u{2764}", "$m1"), 1000);
    assert!(matches!(act, EngineAction::Done));
}

#[test]
fn reaction_to_the_bot_is_dropped() {
    let mut eng = engine(50, 10, 10);
    assert!(eng.store.insert_emoji(&Emoji {
        id: -1,
        room_id: "!room".to_string(),
        emoji: "\u{1f44d}".to_string(),
        social_credit: 5,
    }).is_ok());
    let p = match eng.handle_event(&reaction_event("$e1", "@a:example.org", "!room", "\u{1f44d}", "$m1"), 1000) {
        EngineAction::FetchRelatedSender(p) => p,
        _ => panic!("expected fetch"),
    };
    let r = eng.resume_reaction(p, &"@bot:example.org".to_string(), 1000);
    assert!(r.is_none());
}

#[test]
fn events_from_the_bot_are_ignored() {
    let mut eng = engine(50, 10, 10);
    let act = eng.handle_event(&message_event("$m1", "@bot:example.org", "!room", "!help"), 1000);
    assert!(matches!(act, EngineAction::Done));
    assert!(eng.store.find_user(&"bot".to_string(), &"example.org".to_string()).is_none());
}

#[test]
fn help_reply_lists_the_commands() {
    let mut eng = engine(50, 10, 10);
    let act = eng.handle_event(&message_event("$m1", "@a:example.org", "!room", "!help"), 1000);
    match act {
        EngineAction::Reply(a) => {
            assert!(a.text.starts_with("<h3>Commands:</h3><br>"));
            assert!(a.text.contains("!register_emoji"));
            assert_eq!(a.text, a.html);
        },
        _ => panic!("expected the help reply"),
    }
}

#[test]
fn edit_marker_is_stripped_before_dispatch() {
    let mut eng = engine(50, 10, 10);
    let act = eng.handle_event(&message_event("$m1", "@a:example.org", "!room", "* !help"), 1000);
    assert!(matches!(act, EngineAction::Reply(_)));
}

#[test]
fn non_command_text_gets_no_reply() {
    let mut eng = engine(50, 10, 10);
    let act = eng.handle_event(&message_event("$m1", "@a:example.org", "!room", "hello there"), 1000);
    assert!(matches!(act, EngineAction::Done));
}

#[test]
fn register_usage_errors() {
    let mut eng = engine(50, 10, 10);
    assert!(initial_admin_user_setup(&mut eng.store, &"root".to_string(), "example.org"));
    let usage = "Invalid command usage! Example: !register-emoji \u{1f611} -25";
    let cases = [
        "!register_emoji",
        "!register_emoji \u{1f611}",
        "!register_emoji \u{1f611} -25 extra",
        "!register_emoji \u{1f611} abc",
        "!register-emoji \u{1f611} 99999999999",
    ];
    let mut n: u32 = 0;
    for body in cases {
        n += 1;
        let ev = message_event(&format!("$u{}", n), "@root:example.org", "!room", body);
        match eng.handle_event(&ev, 1000 + n as u64) {
            EngineAction::Reply(a) => assert_eq!(a.text, usage),
            _ => panic!("expected the usage error"),
        }
    }
}

#[test]
fn duplicate_registration_is_reported() {
    let mut eng = engine(50, 10, 10);
    assert!(initial_admin_user_setup(&mut eng.store, &"root".to_string(), "example.org"));
    let ev1 = message_event("$m1", "@root:example.org", "!room", "!register-emoji \u{1f611} -25");
    assert!(matches!(eng.handle_event(&ev1, 1000), EngineAction::Reply(_)));
    let ev2 = message_event("$m2", "@root:example.org", "!room", "!register_emoji \u{1f611} 3");
    match eng.handle_event(&ev2, 1001) {
        EngineAction::Reply(a) => assert_eq!(a.text, "Emoji already registered"),
        _ => panic!("expected the duplicate reply"),
    }
    let e = eng.store.find_emoji(&"\u{1f611}".to_string(), &"!room".to_string()).expect("kept");
    assert_eq!(e.social_credit, -25);
}

#[test]
fn list_is_sorted_by_descending_score() {
    let mut eng = engine(0, 10, 10);
    let room = "!room".to_string();
    for (name, score) in [("a", 10), ("b", 30), ("c", 20)] {
        let tag = format!("@{}:example.org", name);
        let u = setup_user(&mut eng.store, Some(&room), &tag, UserType::Default, 0).expect("user");
        let upd = UserRoomData {
            id: -1,
            user_id: u.id,
            room_id: room.clone(),
            social_credit: score,
            last_reactions: Vec::new(),
        };
        assert!(eng.store.update_user_room_data(&upd).is_ok());
    }
    let act = eng.handle_event(&message_event("$m1", "@a:example.org", "!room", "!list"), 1000);
    match act {
        EngineAction::Reply(a) => {
            assert_eq!(a.text, "Social Credit Scores: b: 30,c: 20,a: 10");
            assert_eq!(
                a.html,
                "<h3>Social Credit Scores:</h3><br>b: <b>30</b><br>c: <b>20</b><br>a: <b>10</b>",
            );
        },
        _ => panic!("expected the scoreboard"),
    }
}

#[test]
fn empty_list_has_fixed_reply() {
    let eng = engine(0, 10, 10);
    // the sender's own membership is created before dispatch, so ask
    // about a room nobody has acted in
    let answer = social_credit::user_util::get_user_list_answer(&eng.store, &"!other".to_string());
    assert_eq!(answer.text, "No Scores");
    assert_eq!(answer.html, "No scores");
}

#[test]
fn emoji_list_is_sorted_by_descending_delta() {
    let mut eng = engine(0, 10, 10);
    for (glyph, delta) in [("\u{1f44d}", 5), ("\u{1f611}", -25), ("\u{2764}", 10)] {
        assert!(eng.store.insert_emoji(&Emoji {
            id: -1,
            room_id: "!room".to_string(),
            emoji: glyph.to_string(),
            social_credit: delta,
        }).is_ok());
    }
    let act = eng.handle_event(&message_event("$m1", "@a:example.org", "!room", "!list_emojis"), 1000);
    match act {
        EngineAction::Reply(a) => {
            assert_eq!(
                a.text,
                "Registered Emojis: \u{2764}: 10,\u{1f44d}: 5,\u{1f611}: -25",
            );
        },
        _ => panic!("expected the emoji scoreboard"),
    }
}

#[test]
fn empty_emoji_list_points_at_help() {
    let mut eng = engine(0, 10, 10);
    let act = eng.handle_event(&message_event("$m1", "@a:example.org", "!room", "!list-emoji"), 1000);
    match act {
        EngineAction::Reply(a) => {
            assert_eq!(a.text, "No emojis, use the !help command to see how to add emojis");
        },
        _ => panic!("expected the fixed no-emojis reply"),
    }
}
