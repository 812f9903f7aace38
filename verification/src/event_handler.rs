//! The reputation engine: one state machine per inbound event.  Each
//! event passes the dedup gate, then sender resolution, then either the
//! reaction path (emoji lookup, rate limit, score change) or the message
//! path (command dispatch).  The engine computes over its store and
//! returns what the transport should do; fetching the reacted-to message
//! and all sending stay outside.

use vstd::prelude::*;
use crate::emoji::Emoji;
use crate::emoji_util::emoji_list_answer_spec;
use crate::emoji_util::get_emoji_list_answer;
use crate::event::Event;
use crate::store::MAX_ROWS;
use crate::store::Store;
use crate::store::has_emoji;
use crate::store::emoji_index;
use crate::store::has_event;
use crate::store::is_membership_at;
use crate::store::is_user_at;
use crate::store::has_membership;
use crate::store::has_user;
use crate::store::membership_index;
use crate::store::user_index;
use crate::user_room_data::time_till_spec;
use crate::user_room_data::UserRoomData;
use crate::text::chars_eq;
use crate::text::chars_of;
use crate::text::chars_starts_with;
use crate::text::i32_to_string;
use crate::text::i64_to_string;
use crate::text::int_literal_val;
use crate::text::int_str;
use crate::text::is_int_literal;
use crate::text::is_prefix;
use crate::text::parse_i32;
use crate::text::split_on;
use crate::text::split_spaces;
use crate::text::string_from_chars;
use crate::user::HtmlAndTextAnswer;
use crate::user::UserType;
use crate::user_util::get_user_list_answer;
use crate::user_util::parse_user_tag;
use crate::user_util::user_list_answer_spec;
use vstd::string::StringExecFns;

verus! {

/// The type-dependent payload of an inbound event.
pub enum EventContent {
    Message { body: String },
    Reaction { glyph: String, related_event_id: String },
    Other,
}

/// The fields of an inbound chat event that the engine reads.
pub struct InboundEvent {
    pub event_id: String,
    pub event_type: String,
    pub sender_tag: String,
    pub room_id: String,
    pub content: EventContent,
}

/// A reaction that passed the dedup gate, the emoji registry and the
/// rate limiter, and now waits for the reacted-to message's author.
pub struct PendingReaction {
    pub room_id: String,
    pub sender_name: String,
    pub sender_url: String,
    pub glyph: String,
    pub related_event_id: String,
}

/// What the transport should do after one engine step.
pub enum EngineAction {
    Done,
    Reply(HtmlAndTextAnswer),
    FetchRelatedSender(PendingReaction),
}

/// The fixed `!help` reply.
pub open spec fn help_text() -> Seq<char> {
    "<h3>Commands:</h3><br>\n                - <b>!list</b>: List all users and their social credit score for the current room<br><br>\n                - <b>!list_emoji</b>: List all registered emojis and their social credit score for the current room<br><br>\n                - <b>!register_emoji</b> <emoji> <social_credit>: Register an emoji with a social credit score for the current room. Example: !register_emoji \u{1f611} -25\n            "@
}

/// The fixed refusal for a non-admin registration attempt.
pub open spec fn refusal_text() -> Seq<char> {
    "You are not allowed to use this command"@
}

/// The fixed usage error for a malformed registration.
pub open spec fn usage_text() -> Seq<char> {
    "Invalid command usage! Example: !register-emoji \u{1f611} -25"@
}

/// The fixed reply for a glyph registered twice.
pub open spec fn already_registered_text() -> Seq<char> {
    "Emoji already registered"@
}

/// The confirmation for a successful registration.
pub open spec fn registered_text(glyph: Seq<char>, delta: int) -> Seq<char> {
    "Emoji registered: "@ + glyph + " with social credit score: "@ + int_str(delta)
}

/// The reply for a sender still on cooldown, with the remaining time.
pub open spec fn cooldown_text(name: Seq<char>, t: int) -> Seq<char> {
    name + ", you are still on cooldown, remaining time: "@ + int_str(t / 60) + "m "@ + int_str(
        t % 60,
    ) + "s"@
}

/// The reply announcing a recipient's new score.
pub open spec fn new_score_text(name: Seq<char>, score: int) -> Seq<char> {
    "<b>"@ + name + "'s</b> new Social Credit Score: <b>"@ + int_str(score) + "</b>"@
}

/// `r` replies with `text` in both forms.
pub open spec fn reply_both(r: Option<HtmlAndTextAnswer>, text: Seq<char>) -> bool {
    match r {
        Some(a) => a.text@ == text && a.html@ == text,
        None => false,
    }
}

/// The body with the transport's edit marker stripped.
pub open spec fn stripped_body(body: Seq<char>) -> Seq<char> {
    if is_prefix("* "@, body) {
        body.skip(2)
    } else {
        body
    }
}

/// What registering `rest` (everything after the command keyword) does:
/// refusal for non-admins; a usage error unless exactly a glyph and an
/// integer follow; the fixed duplicate reply for a glyph already
/// registered; otherwise the new registration and its confirmation.  A
/// full registry drops the command without a reply.
pub open spec fn register_post(
    pre: Store,
    post: Store,
    ut: UserType,
    room_id: Seq<char>,
    rest: Seq<char>,
    r: Option<HtmlAndTextAnswer>,
) -> bool {
    if ut != UserType::Admin {
        post == pre && reply_both(r, refusal_text())
    } else {
        let toks0 = split_on(rest, ' ');
        let toks = if toks0.len() == 3 && toks0[0].len() == 0 {
            toks0.drop_first()
        } else {
            toks0
        };
        if toks.len() != 2 {
            post == pre && reply_both(r, usage_text())
        } else {
            let glyph = toks[0];
            let num = toks[1];
            if !(is_int_literal(num) && i32::MIN <= int_literal_val(num) <= i32::MAX)
                || glyph.len() == 0 || glyph == " "@ {
                post == pre && reply_both(r, usage_text())
            } else if has_emoji(pre.emojis@, room_id, glyph) {
                post == pre && reply_both(r, already_registered_text())
            } else if pre.emojis@.len() >= MAX_ROWS {
                post == pre && r is None
            } else {
                &&& post.users == pre.users
                &&& post.room_data == pre.room_data
                &&& post.events == pre.events
                &&& post.emojis@.len() == pre.emojis@.len() + 1
                &&& post.emojis@.subrange(0, pre.emojis@.len() as int) == pre.emojis@
                &&& post.emojis@.last().id == pre.emojis@.len()
                &&& post.emojis@.last().room_id@ == room_id
                &&& post.emojis@.last().emoji@ == glyph
                &&& post.emojis@.last().social_credit == int_literal_val(num)
                &&& reply_both(r, registered_text(glyph, int_literal_val(num)))
            }
        }
    }
}

/// What dispatching one text body does: the first matching command of
/// `!help`, `!list`, the `!list_emoji` spellings and the
/// `!register_emoji` spellings wins; anything else is no command and
/// changes nothing.
pub open spec fn message_post(
    pre: Store,
    post: Store,
    ut: UserType,
    room_id: Seq<char>,
    body: Seq<char>,
    r: Option<HtmlAndTextAnswer>,
) -> bool {
    let b = stripped_body(body);
    if b == "!help"@ {
        post == pre && reply_both(r, help_text())
    } else if b == "!list"@ {
        post == pre && (match r {
            Some(a) => user_list_answer_spec(pre, room_id, a),
            None => false,
        })
    } else if b == "!list_emoji"@ || b == "!list-emoji"@ || b == "!list_emojis"@ || b
        == "!list-emojis"@ {
        post == pre && (match r {
            Some(a) => emoji_list_answer_spec(pre, room_id, a),
            None => false,
        })
    } else if is_prefix("!register_emoji"@, b) || is_prefix("!register-emoji"@, b) {
        register_post(pre, post, ut, room_id, b.skip(15), r)
    } else {
        post == pre && r is None
    }
}

/// The engine: the store plus the configuration the orchestration
/// reads.
pub struct EventHandler {
    pub store: Store,
    pub bot_username: String,
    pub homeserver_url: String,
    pub initial_social_credit: i32,
    pub reaction_period_minutes: i32,
    pub reaction_limit: i32,
}

impl EventHandler {
    /// The engine is usable: its store is well-formed and its rate-limit
    /// configuration within machine bounds.
    pub open spec fn inv(self) -> bool {
        &&& self.store.inv()
        &&& 0 <= self.reaction_period_minutes
            <= crate::user_room_data::MAX_REACTION_PERIOD_MINUTES
        &&& 0 <= self.reaction_limit
    }

    /// An engine over `store` with this configuration.
    pub fn new(
        store: Store,
        bot_username: String,
        homeserver_url: String,
        initial_social_credit: i32,
        reaction_period_minutes: i32,
        reaction_limit: i32,
    ) -> (r: EventHandler)
        requires
            store.inv(),
            0 <= reaction_period_minutes <= crate::user_room_data::MAX_REACTION_PERIOD_MINUTES,
            0 <= reaction_limit,
        ensures
            r == (EventHandler {
                store,
                bot_username,
                homeserver_url,
                initial_social_credit,
                reaction_period_minutes,
                reaction_limit,
            }),
            r.inv(),
    {
        EventHandler {
            store,
            bot_username,
            homeserver_url,
            initial_social_credit,
            reaction_period_minutes,
            reaction_limit,
        }
    }

    /// The configured bot identity, compared exactly.
    fn is_user_the_bot(&self, name: &str, url: &str) -> (r: bool)
        ensures
            r == (name@ == self.bot_username@ && url@ == self.homeserver_url@),
    {
        let n = crate::text::str_eq(name, self.bot_username.as_str());
        let u = crate::text::str_eq(url, self.homeserver_url.as_str());
        n && u
    }

    /// The fixed `!help` reply.
    fn help_answer(&self) -> (r: HtmlAndTextAnswer)
        ensures
            r.text@ == help_text(),
            r.html@ == help_text(),
    {
        let body = String::new().concat(
            "<h3>Commands:</h3><br>\n                - <b>!list</b>: List all users and their social credit score for the current room<br><br>\n                - <b>!list_emoji</b>: List all registered emojis and their social credit score for the current room<br><br>\n                - <b>!register_emoji</b> <emoji> <social_credit>: Register an emoji with a social credit score for the current room. Example: !register_emoji \u{1f611} -25\n            ",
        );
        let body2 = body.clone();
        proof {
            assert(Seq::<char>::empty() + help_text() =~= help_text());
        }
        HtmlAndTextAnswer { text: body, html: body2 }
    }

    /// Registers `rest` (everything after the `!register_emoji` keyword)
    /// as [`register_post`] says.
    fn handle_register_emoji(
        &mut self,
        sender_type: UserType,
        room_id: &String,
        rest: &Vec<char>,
    ) -> (r: Option<HtmlAndTextAnswer>)
        requires
            old(self).store.inv(),
        ensures
            final(self).store.inv(),
            final(self).bot_username == old(self).bot_username,
            final(self).homeserver_url == old(self).homeserver_url,
            final(self).initial_social_credit == old(self).initial_social_credit,
            final(self).reaction_period_minutes == old(self).reaction_period_minutes,
            final(self).reaction_limit == old(self).reaction_limit,
            register_post(old(self).store, final(self).store, sender_type, room_id@, rest@, r),
    {
        match sender_type {
            UserType::Admin => {},
            _ => {
                let t = String::new().concat("You are not allowed to use this command");
                let h = t.clone();
                proof {
                    assert(Seq::<char>::empty() + refusal_text() =~= refusal_text());
                }
                return Some(HtmlAndTextAnswer { text: t, html: h });
            },
        }
        let mut parts = split_spaces(rest);
        proof {
            assert(parts.deep_view().len() == parts@.len());
        }
        if parts.len() == 3 {
            proof {
                assert(parts@[0].deep_view() =~= parts@[0]@);
            }
            if parts[0].len() == 0 {
                let ghost old_parts = parts.deep_view();
                let _ = parts.remove(0);
                proof {
                    assert(parts.deep_view() =~= old_parts.drop_first());
                }
            }
        }
        if parts.len() != 2 {
            let t = String::new().concat("Invalid command usage! Example: !register-emoji \u{1f611} -25");
            let h = t.clone();
            proof {
                assert(Seq::<char>::empty() + usage_text() =~= usage_text());
            }
            return Some(HtmlAndTextAnswer { text: t, html: h });
        }
        proof {
            assert(parts.deep_view()[0] =~= parts@[0]@);
            assert(parts.deep_view()[1] =~= parts@[1]@);
        }
        let delta_opt = parse_i32(&parts[1]);
        let mut single_space: Vec<char> = Vec::new();
        single_space.push(' ');
        let glyph_is_space = chars_eq(&parts[0], &single_space);
        proof {
            reveal_strlit(" ");
            assert(" "@ =~= seq![' ']);
            assert(single_space@ =~= seq![' ']);
        }
        let bad = match delta_opt {
            None => true,
            Some(_) => false,
        };
        if bad || parts[0].len() == 0 || glyph_is_space {
            let t = String::new().concat("Invalid command usage! Example: !register-emoji \u{1f611} -25");
            let h = t.clone();
            proof {
                assert(Seq::<char>::empty() + usage_text() =~= usage_text());
            }
            return Some(HtmlAndTextAnswer { text: t, html: h });
        }
        let delta = match delta_opt {
            Some(v) => v,
            None => 0,
        };
        let glyph = string_from_chars(&parts[0]);
        match self.store.find_emoji(&glyph, room_id) {
            Some(_) => {
                let t = String::new().concat("Emoji already registered");
                let h = t.clone();
                proof {
                    assert(Seq::<char>::empty() + already_registered_text()
                        =~= already_registered_text());
                }
                Some(HtmlAndTextAnswer { text: t, html: h })
            },
            None => {
                let proto = Emoji {
                    id: -1,
                    room_id: room_id.clone(),
                    emoji: glyph,
                    social_credit: delta,
                };
                match self.store.insert_emoji(&proto) {
                    Ok(_) => {
                        let num = i32_to_string(delta);
                        let mut t = String::new();
                        t.append("Emoji registered: ");
                        t.append(proto.emoji.as_str());
                        t.append(" with social credit score: ");
                        t.append(num.as_str());
                        let h = t.clone();
                        proof {
                            assert(t@ =~= registered_text(parts.deep_view()[0], delta as int));
                        }
                        Some(HtmlAndTextAnswer { text: t, html: h })
                    },
                    Err(_) => None,
                }
            },
        }
    }

    /// Dispatches one text message body as [`message_post`] says.
    fn handle_message(&mut self, sender_type: UserType, room_id: &String, body: &String) -> (r:
        Option<HtmlAndTextAnswer>)
        requires
            old(self).store.inv(),
        ensures
            final(self).store.inv(),
            final(self).bot_username == old(self).bot_username,
            final(self).homeserver_url == old(self).homeserver_url,
            final(self).initial_social_credit == old(self).initial_social_credit,
            final(self).reaction_period_minutes == old(self).reaction_period_minutes,
            final(self).reaction_limit == old(self).reaction_limit,
            message_post(old(self).store, final(self).store, sender_type, room_id@, body@, r),
    {
        let all = chars_of(body.as_str());
        let marker = chars_of("* ");
        let stripped: Vec<char> = if chars_starts_with(&all, &marker) {
            proof {
                reveal_strlit("* ");
            }
            crate::text::subvec(&all, 2, all.len())
        } else {
            all
        };
        proof {
            assert(stripped@ == stripped_body(body@));
        }
        let b_help = chars_of("!help");
        if chars_eq(&stripped, &b_help) {
            return Some(self.help_answer());
        }
        let b_list = chars_of("!list");
        if chars_eq(&stripped, &b_list) {
            return Some(get_user_list_answer(&self.store, room_id));
        }
        let v1 = chars_of("!list_emoji");
        let v2 = chars_of("!list-emoji");
        let v3 = chars_of("!list_emojis");
        let v4 = chars_of("!list-emojis");
        if chars_eq(&stripped, &v1) || chars_eq(&stripped, &v2) || chars_eq(&stripped, &v3)
            || chars_eq(&stripped, &v4) {
            return Some(get_emoji_list_answer(&self.store, room_id));
        }
        let p1 = chars_of("!register_emoji");
        let p2 = chars_of("!register-emoji");
        if chars_starts_with(&stripped, &p1) || chars_starts_with(&stripped, &p2) {
            proof {
                reveal_strlit("!register_emoji");
                reveal_strlit("!register-emoji");
            }
            let rest = crate::text::subvec(&stripped, 15, stripped.len());
            proof {
                assert(rest@ =~= stripped_body(body@).skip(15));
            }
            return self.handle_register_emoji(sender_type, room_id, &rest);
        }
        None
    }
}

/// The sender tag parses and names the bot's own identity.
pub open spec fn is_bot_sender(bot_username: Seq<char>, homeserver_url: Seq<char>, tag: Seq<char>) -> bool {
    match parse_user_tag(tag) {
        Some(p) => p.0 == bot_username && p.1 == homeserver_url,
        None => false,
    }
}

/// `post.events` is `pre.events` plus the handled-marker for this event.
pub open spec fn marked_store_ok(pre: Store, post: Store, id: Seq<char>, ty: Seq<char>) -> bool {
    &&& post.events@.len() == pre.events@.len() + 1
    &&& post.events@.subrange(0, pre.events@.len() as int) == pre.events@
    &&& post.events@.last().id@ == id
    &&& post.events@.last().event_type@ == ty
    &&& post.events@.last().handled == true
}

/// The configuration fields agree.
pub open spec fn same_config(pre: EventHandler, post: EventHandler) -> bool {
    &&& post.bot_username == pre.bot_username
    &&& post.homeserver_url == pre.homeserver_url
    &&& post.initial_social_credit == pre.initial_social_credit
    &&& post.reaction_period_minutes == pre.reaction_period_minutes
    &&& post.reaction_limit == pre.reaction_limit
}

/// What one engine step does, for every inbound event: an already-seen
/// event changes nothing; otherwise the event is marked handled first,
/// an event from the bot itself or an unresolvable sender ends there,
/// and the rest runs the reaction path (emoji gate, rate limiter) or the
/// message path (command dispatch).  Every score mutation is deferred to
/// [`EventHandler::resume_reaction`], reached only through the
/// fetch-the-recipient action this step may return.
pub open spec fn handle_event_post(
    pre: EventHandler,
    post: EventHandler,
    ev: InboundEvent,
    now: u64,
    r: EngineAction,
) -> bool {
    &&& same_config(pre, post)
    &&& ({
        let s0 = pre.store;
        if has_event(s0.events@, ev.event_id@) {
            post.store == s0 && r is Done
        } else {
            &&& marked_store_ok(s0, post.store, ev.event_id@, ev.event_type@)
            &&& ({
                let s1 = (Store { events: post.store.events, ..s0 });
                if is_bot_sender(pre.bot_username@, pre.homeserver_url@, ev.sender_tag@) {
                    post.store == s1 && r is Done
                } else {
                    match parse_user_tag(ev.sender_tag@) {
                        None => post.store == s1 && r is Done,
                        Some(parsed) => {
                            let name = parsed.0;
                            let url = parsed.1;
                            let had = has_user(s1.users@, name, url);
                            if !had && s1.users@.len() >= MAX_ROWS {
                                post.store == s1 && r is Done
                            } else {
                                let uidx = if had {
                                    user_index(s1.users@, name, url)
                                } else {
                                    s1.users@.len() as int
                                };
                                let ut = if had {
                                    s1.users@[uidx].user_type
                                } else {
                                    UserType::Default
                                };
                                &&& (if had {
                                    post.store.users == s1.users
                                } else {
                                    &&& post.store.users@.len() == s1.users@.len() + 1
                                    &&& post.store.users@.subrange(0, s1.users@.len() as int)
                                        == s1.users@
                                    &&& post.store.users@.last().id == s1.users@.len()
                                    &&& post.store.users@.last().name@ == name
                                    &&& post.store.users@.last().url@ == url
                                    &&& post.store.users@.last().user_type == UserType::Default
                                    &&& post.store.users@.last().room_data is None
                                })
                                &&& ({
                                    let had_m = has_membership(s1.room_data@, uidx, ev.room_id@);
                                    let created_m = !had_m && s1.room_data@.len() < MAX_ROWS;
                                    let midx = if had_m {
                                        membership_index(s1.room_data@, uidx, ev.room_id@)
                                    } else {
                                        s1.room_data@.len() as int
                                    };
                                    &&& (if had_m || !created_m {
                                        post.store.room_data == s1.room_data
                                    } else {
                                        &&& post.store.room_data@.len() == s1.room_data@.len() + 1
                                        &&& post.store.room_data@.subrange(
                                            0,
                                            s1.room_data@.len() as int,
                                        ) == s1.room_data@
                                        &&& post.store.room_data@.last().id == s1.room_data@.len()
                                        &&& post.store.room_data@.last().user_id == uidx
                                        &&& post.store.room_data@.last().room_id@ == ev.room_id@
                                        &&& post.store.room_data@.last().social_credit
                                            == pre.initial_social_credit
                                        &&& post.store.room_data@.last().last_reactions@.len() == 0
                                    })
                                    &&& (if ev.event_type@ == "m.reaction"@ {
                                        &&& post.store.emojis == s1.emojis
                                        &&& match ev.content {
                                            EventContent::Reaction { glyph, related_event_id } => {
                                                if !has_emoji(s1.emojis@, ev.room_id@, glyph@) {
                                                    r is Done
                                                } else if !(had_m || created_m) {
                                                    r is Done
                                                } else {
                                                    let m = post.store.room_data@[midx];
                                                    let t = time_till_spec(
                                                        m.last_reactions@,
                                                        now,
                                                        pre.reaction_period_minutes as int,
                                                        pre.reaction_limit as int,
                                                    );
                                                    if t > 0 {
                                                        &&& r matches EngineAction::Reply(a)
                                                        &&& a.text@ == cooldown_text(name, t)
                                                        &&& a.html@ == cooldown_text(name, t)
                                                    } else {
                                                        &&& r matches EngineAction::FetchRelatedSender(p)
                                                        &&& p.room_id@ == ev.room_id@
                                                        &&& p.sender_name@ == name
                                                        &&& p.sender_url@ == url
                                                        &&& p.glyph@ == glyph@
                                                        &&& p.related_event_id@
                                                            == related_event_id@
                                                    }
                                                }
                                            },
                                            _ => r is Done,
                                        }
                                    } else if ev.event_type@ == "m.room.message"@ {
                                        match ev.content {
                                            EventContent::Message { body } => {
                                                let s2 = (Store {
                                                    emojis: s0.emojis,
                                                    ..post.store
                                                });
                                                &&& !(r is FetchRelatedSender)
                                                &&& message_post(
                                                    s2,
                                                    post.store,
                                                    ut,
                                                    ev.room_id@,
                                                    body@,
                                                    action_reply(r),
                                                )
                                            },
                                            _ => post.store.emojis == s1.emojis && r is Done,
                                        }
                                    } else {
                                        post.store.emojis == s1.emojis && r is Done
                                    })
                                })
                            }
                        },
                    }
                }
            })
        }
    })
}

/// The reply carried by an action, if any.
pub open spec fn action_reply(r: EngineAction) -> Option<HtmlAndTextAnswer> {
    match r {
        EngineAction::Reply(a) => Some(a),
        _ => None,
    }
}

impl EventHandler {
    /// The dedup gate: returns whether this event was already marked
    /// handled; an unseen event is marked before anything else happens.
    fn check_and_handle_event_already_handled(&mut self, event_id: &String, event_type: &String)
        -> (r: bool)
        requires
            old(self).store.inv(),
        ensures
            final(self).store.inv(),
            same_config(*old(self), *final(self)),
            final(self).store.users == old(self).store.users,
            final(self).store.room_data == old(self).store.room_data,
            final(self).store.emojis == old(self).store.emojis,
            if has_event(old(self).store.events@, event_id@) {
                *final(self) == *old(self) && r
            } else {
                marked_store_ok(old(self).store, final(self).store, event_id@, event_type@) && !r
            },
    {
        match self.store.find_event(event_id) {
            Some(_) => true,
            None => {
                let marker = Event {
                    id: event_id.clone(),
                    event_type: event_type.clone(),
                    handled: true,
                };
                match self.store.insert_event(&marker) {
                    Ok(_) => {
                        proof {
                            assert(self.store.events@.subrange(
                                0,
                                old(self).store.events@.len() as int,
                            ) =~= old(self).store.events@);
                        }
                        false
                    },
                    Err(_) => {
                        proof {
                            assert(false);
                        }
                        true
                    },
                }
            },
        }
    }

    /// Whether the event's sender tag resolves to the bot's own identity.
    fn handle_user_tag_is_the_bot(&self, sender_tag: &String) -> (r: bool)
        ensures
            r == is_bot_sender(self.bot_username@, self.homeserver_url@, sender_tag@),
    {
        match crate::user_util::extract_userdata_from_string(sender_tag.as_str()) {
            Some((name, url)) => self.is_user_the_bot(name.as_str(), url.as_str()),
            None => false,
        }
    }

    /// One engine step for one inbound event, as [`handle_event_post`]
    /// says.
    pub fn handle_event(&mut self, event: &InboundEvent, now: u64) -> (r: EngineAction)
        requires
            old(self).inv(),
        ensures
            final(self).inv(),
            handle_event_post(*old(self), *final(self), *event, now, r),
    {
        if self.check_and_handle_event_already_handled(&event.event_id, &event.event_type) {
            return EngineAction::Done;
        }
        if self.handle_user_tag_is_the_bot(&event.sender_tag) {
            return EngineAction::Done;
        }
        let initial = self.initial_social_credit;
        let sender_opt = crate::user_util::setup_user(
            &mut self.store,
            Some(&event.room_id),
            &event.sender_tag,
            UserType::Default,
            initial,
        );
        let sender = match sender_opt {
            None => {
                return EngineAction::Done;
            },
            Some(u) => u,
        };
        if crate::text::str_eq(event.event_type.as_str(), "m.reaction") {
            match &event.content {
                EventContent::Reaction { glyph, related_event_id } => {
                    match self.store.find_emoji(glyph, &event.room_id) {
                        None => EngineAction::Done,
                        Some(_) => {
                            match &sender.room_data {
                                None => EngineAction::Done,
                                Some(rd) => {
                                    let t = rd.get_time_till_user_can_react(
                                        now,
                                        self.reaction_period_minutes,
                                        self.reaction_limit,
                                    );
                                    if t > 0 {
                                        let mins = i64_to_string(t / 60);
                                        let secs = i64_to_string(t % 60);
                                        let mut text = String::new();
                                        text.append(sender.name.as_str());
                                        text.append(
                                            ", you are still on cooldown, remaining time: ",
                                        );
                                        text.append(mins.as_str());
                                        text.append("m ");
                                        text.append(secs.as_str());
                                        text.append("s");
                                        let html = text.clone();
                                        proof {
                                            assert(text@ =~= cooldown_text(
                                                sender.name@,
                                                t as int,
                                            ));
                                        }
                                        EngineAction::Reply(HtmlAndTextAnswer { text, html })
                                    } else {
                                        EngineAction::FetchRelatedSender(
                                            PendingReaction {
                                                room_id: event.room_id.clone(),
                                                sender_name: sender.name,
                                                sender_url: sender.url,
                                                glyph: glyph.clone(),
                                                related_event_id: related_event_id.clone(),
                                            },
                                        )
                                    }
                                },
                            }
                        },
                    }
                },
                _ => EngineAction::Done,
            }
        } else if crate::text::str_eq(event.event_type.as_str(), "m.room.message") {
            match &event.content {
                EventContent::Message { body } => {
                    match self.handle_message(sender.user_type, &event.room_id, body) {
                        Some(a) => EngineAction::Reply(a),
                        None => EngineAction::Done,
                    }
                },
                _ => EngineAction::Done,
            }
        } else {
            EngineAction::Done
        }
    }
}

/// What completing a pending reaction does, once the transport hands
/// back the reacted-to message's author: the recipient is resolved or
/// created; a recipient that is the bot, or the sender themselves, ends
/// the path with no score change; otherwise the emoji's delta is added
/// to the recipient's score, the reaction is recorded against the
/// sender's membership, and the new score is announced.  A delta that
/// would overflow the score aborts with no change.
pub open spec fn resume_reaction_post(
    pre: EventHandler,
    post: EventHandler,
    pending: PendingReaction,
    recipient_tag: Seq<char>,
    now: u64,
    r: Option<HtmlAndTextAnswer>,
) -> bool {
    &&& same_config(pre, post)
    &&& post.store.events == pre.store.events
    &&& post.store.emojis == pre.store.emojis
    &&& ({
        let s0 = pre.store;
        match parse_user_tag(recipient_tag) {
            None => post.store == s0 && r is None,
            Some(parsed) => {
                let rname = parsed.0;
                let rurl = parsed.1;
                let had = has_user(s0.users@, rname, rurl);
                if !had && s0.users@.len() >= MAX_ROWS {
                    post.store == s0 && r is None
                } else {
                    let ridx = if had {
                        user_index(s0.users@, rname, rurl)
                    } else {
                        s0.users@.len() as int
                    };
                    &&& (if had {
                        post.store.users == s0.users
                    } else {
                        &&& post.store.users@.len() == s0.users@.len() + 1
                        &&& post.store.users@.subrange(0, s0.users@.len() as int) == s0.users@
                        &&& post.store.users@.last().id == s0.users@.len()
                        &&& post.store.users@.last().name@ == rname
                        &&& post.store.users@.last().url@ == rurl
                        &&& post.store.users@.last().user_type == UserType::Default
                        &&& post.store.users@.last().room_data is None
                    })
                    &&& ({
                        let had_m = has_membership(s0.room_data@, ridx, pending.room_id@);
                        let created_m = !had_m && s0.room_data@.len() < MAX_ROWS;
                        let rmidx = if had_m {
                            membership_index(s0.room_data@, ridx, pending.room_id@)
                        } else {
                            s0.room_data@.len() as int
                        };
                        let setup_only = (if had_m || !created_m {
                            post.store.room_data == s0.room_data
                        } else {
                            &&& post.store.room_data@.len() == s0.room_data@.len() + 1
                            &&& post.store.room_data@.subrange(0, s0.room_data@.len() as int)
                                == s0.room_data@
                            &&& post.store.room_data@.last().id == s0.room_data@.len()
                            &&& post.store.room_data@.last().user_id == ridx
                            &&& post.store.room_data@.last().room_id@ == pending.room_id@
                            &&& post.store.room_data@.last().social_credit
                                == pre.initial_social_credit
                            &&& post.store.room_data@.last().last_reactions@.len() == 0
                        });
                        let base = if had_m {
                            s0.room_data@[rmidx].social_credit as int
                        } else {
                            pre.initial_social_credit as int
                        };
                        let sender_exists = has_user(
                            s0.users@,
                            pending.sender_name@,
                            pending.sender_url@,
                        );
                        let sidx = user_index(
                            s0.users@,
                            pending.sender_name@,
                            pending.sender_url@,
                        );
                        let sender_has_m = sender_exists && has_membership(
                            s0.room_data@,
                            sidx,
                            pending.room_id@,
                        );
                        let smidx = membership_index(s0.room_data@, sidx, pending.room_id@);
                        if rname == pre.bot_username@ && rurl == pre.homeserver_url@ {
                            setup_only && r is None
                        } else if rname == pending.sender_name@ && rurl == pending.sender_url@ {
                            setup_only && r is None
                        } else if !(had_m || created_m) {
                            setup_only && r is None
                        } else if !has_emoji(s0.emojis@, pending.room_id@, pending.glyph@) {
                            setup_only && r is None
                        } else if !sender_has_m {
                            setup_only && r is None
                        } else {
                            let delta = s0.emojis@[emoji_index(
                                s0.emojis@,
                                pending.room_id@,
                                pending.glyph@,
                            )].social_credit as int;
                            if !(i32::MIN <= base + delta <= i32::MAX) {
                                setup_only && r is None
                            } else {
                                &&& post.store.room_data@.len() == (if created_m {
                                    s0.room_data@.len() as int + 1
                                } else {
                                    s0.room_data@.len() as int
                                })
                                &&& forall|j: int|
                                    0 <= j < s0.room_data@.len() && j != rmidx && j != smidx
                                        ==> post.store.room_data@[j] == s0.room_data@[j]
                                &&& (if created_m {
                                    &&& post.store.room_data@[rmidx].id == rmidx
                                    &&& post.store.room_data@[rmidx].user_id == ridx
                                    &&& post.store.room_data@[rmidx].room_id@ == pending.room_id@
                                    &&& post.store.room_data@[rmidx].last_reactions@.len() == 0
                                } else {
                                    &&& post.store.room_data@[rmidx].id == s0.room_data@[rmidx].id
                                    &&& post.store.room_data@[rmidx].user_id
                                        == s0.room_data@[rmidx].user_id
                                    &&& post.store.room_data@[rmidx].room_id
                                        == s0.room_data@[rmidx].room_id
                                    &&& post.store.room_data@[rmidx].last_reactions
                                        == s0.room_data@[rmidx].last_reactions
                                })
                                &&& post.store.room_data@[rmidx].social_credit == base + delta
                                &&& post.store.room_data@[smidx].id == s0.room_data@[smidx].id
                                &&& post.store.room_data@[smidx].user_id
                                    == s0.room_data@[smidx].user_id
                                &&& post.store.room_data@[smidx].room_id@
                                    == s0.room_data@[smidx].room_id@
                                &&& post.store.room_data@[smidx].social_credit
                                    == s0.room_data@[smidx].social_credit
                                &&& post.store.room_data@[smidx].last_reactions@
                                    == crate::user_room_data::recent_reactions(
                                    s0.room_data@[smidx].last_reactions@.push(
                                        (crate::user_reaction::UserReaction {
                                            id: -1i32,
                                            user_room_data_id: s0.room_data@[smidx].id,
                                            time: now,
                                            message_event_id: pending.related_event_id,
                                        }),
                                    ),
                                    now,
                                    pre.reaction_period_minutes as int,
                                )
                                &&& reply_both(r, new_score_text(rname, base + delta))
                            }
                        }
                    })
                }
            },
        }
    })
}

impl EventHandler {
    /// Completes a pending reaction with the recipient's identity tag,
    /// as [`resume_reaction_post`] says.
    pub fn resume_reaction(
        &mut self,
        pending: PendingReaction,
        recipient_tag: &String,
        now: u64,
    ) -> (r: Option<HtmlAndTextAnswer>)
        requires
            old(self).inv(),
        ensures
            final(self).inv(),
            resume_reaction_post(*old(self), *final(self), pending, recipient_tag@, now, r),
    {
        let initial = self.initial_social_credit;
        let recipient_opt = crate::user_util::setup_user(
            &mut self.store,
            Some(&pending.room_id),
            recipient_tag,
            UserType::Default,
            initial,
        );
        let recipient = match recipient_opt {
            None => {
                return None;
            },
            Some(u) => u,
        };
        if self.is_user_the_bot(recipient.name.as_str(), recipient.url.as_str()) {
            return None;
        }
        let same_name = crate::text::str_eq(recipient.name.as_str(), pending.sender_name.as_str());
        let same_url = crate::text::str_eq(recipient.url.as_str(), pending.sender_url.as_str());
        if same_name && same_url {
            return None;
        }
        let rrd = match recipient.room_data {
            None => {
                return None;
            },
            Some(rd) => rd,
        };
        let emoji = match self.store.find_emoji(&pending.glyph, &pending.room_id) {
            None => {
                return None;
            },
            Some(e) => e,
        };
        let sender = match self.store.find_user(&pending.sender_name, &pending.sender_url) {
            None => {
                proof {
                    let s0 = old(self).store;
                    if has_user(s0.users@, pending.sender_name@, pending.sender_url@) {
                        let k0 = user_index(s0.users@, pending.sender_name@, pending.sender_url@);
                        assert(is_user_at(s0.users@, k0, pending.sender_name@, pending.sender_url@));
                        assert(self.store.users@[k0] == s0.users@[k0]);
                        assert(is_user_at(
                            self.store.users@,
                            k0,
                            pending.sender_name@,
                            pending.sender_url@,
                        ));
                    }
                }
                return None;
            },
            Some(u) => u,
        };
        proof {
            let s0 = old(self).store;
            let k = user_index(self.store.users@, pending.sender_name@, pending.sender_url@);
            assert(is_user_at(self.store.users@, k, pending.sender_name@, pending.sender_url@));
            if k >= s0.users@.len() {
                assert(self.store.users@[k].name@ == recipient.name@);
                assert(false);
            }
            assert(is_user_at(s0.users@, k, pending.sender_name@, pending.sender_url@));
            let k0 = user_index(s0.users@, pending.sender_name@, pending.sender_url@);
            assert(is_user_at(s0.users@, k0, pending.sender_name@, pending.sender_url@));
            if k0 != k {
                assert(false);
            }
            assert(sender.id == k0);
        }
        let sender_rd = match self.store.find_user_room_data(sender.id, &pending.room_id) {
            None => {
                proof {
                    let s0 = old(self).store;
                    let room = pending.room_id@;
                    if has_membership(s0.room_data@, sender.id as int, room) {
                        let m0 = membership_index(s0.room_data@, sender.id as int, room);
                        assert(is_membership_at(s0.room_data@, m0, sender.id as int, room));
                        assert(self.store.room_data@[m0] == s0.room_data@[m0]);
                        assert(is_membership_at(self.store.room_data@, m0, sender.id as int, room));
                    }
                }
                return None;
            },
            Some(x) => x,
        };
        let base = rrd.social_credit;
        let delta = emoji.social_credit;
        let sum64: i64 = base as i64 + delta as i64;
        if sum64 < -2147483648i64 || sum64 > 2147483647i64 {
            return None;
        }
        let new_score: i32 = sum64 as i32;
        let upd = UserRoomData {
            id: -1,
            user_id: recipient.id,
            room_id: pending.room_id.clone(),
            social_credit: new_score,
            last_reactions: Vec::new(),
        };
        let ghost s2 = self.store;
        proof {
            let s0 = old(self).store;
            let rname = recipient.name@;
            let rurl = recipient.url@;
            let ridx = recipient.id as int;
            let room = pending.room_id@;
            let had_m = has_membership(s0.room_data@, ridx, room);
            let rmidx = if had_m {
                membership_index(s0.room_data@, ridx, room)
            } else {
                s0.room_data@.len() as int
            };
            if had_m {
                assert(is_membership_at(s0.room_data@, rmidx, ridx, room));
                assert(s2.room_data == s0.room_data);
            } else {
                assert(is_membership_at(s2.room_data@, s0.room_data@.len() as int, ridx, room));
            }
            let k = membership_index(s2.room_data@, ridx, room);
            assert(is_membership_at(s2.room_data@, k, ridx, room));
            if !had_m && k < s0.room_data@.len() {
                assert(s2.room_data@[k] == s0.room_data@[k]);
                assert(is_membership_at(s0.room_data@, k, ridx, room));
            }
            assert(k == rmidx);
            // the sender's user row and membership stand in the original store
            let sidx = user_index(s0.users@, pending.sender_name@, pending.sender_url@);
            assert(sender.id == sidx);
            if sidx == ridx {
                assert(s2.users@[ridx].name@ == rname && s2.users@[ridx].url@ == rurl);
                assert(false);
            }
            let sk = membership_index(s2.room_data@, sender.id as int, room);
            assert(is_membership_at(s2.room_data@, sk, sender.id as int, room));
            if !had_m && sk == s0.room_data@.len() {
                assert(s2.room_data@[sk].user_id == ridx);
                assert(false);
            }
            assert(s2.room_data@[sk] == s0.room_data@[sk]);
            assert(is_membership_at(s0.room_data@, sk, sidx as int, room));
            let smidx = membership_index(s0.room_data@, sidx as int, room);
            assert(is_membership_at(s0.room_data@, smidx, sidx as int, room));
            if smidx != sk {
                assert(false);
            }
            assert(s2.room_data@[rmidx].user_id == ridx && s2.room_data@[smidx].user_id == sidx);
            assert(rmidx != smidx);
        }
        let _ = self.store.update_user_room_data(&upd);
        let ghost s3 = self.store;
        proof {
            let room = pending.room_id@;
            let k3 = membership_index(s3.room_data@, sender.id as int, room);
            let smidx = membership_index(s2.room_data@, sender.id as int, room);
            let rmidx = membership_index(s2.room_data@, recipient.id as int, room);
            assert(s3.room_data@[smidx] == s2.room_data@[smidx]);
            assert(is_membership_at(s3.room_data@, smidx, sender.id as int, room));
            assert(is_membership_at(s3.room_data@, k3, sender.id as int, room));
            if k3 != smidx {
                assert(false);
            }
        }
        self.store.record_user_reaction(
            sender.id,
            &pending.room_id,
            now,
            self.reaction_period_minutes,
            pending.related_event_id,
        );
        let num = i32_to_string(new_score);
        let mut text = String::new();
        text.append("<b>");
        text.append(recipient.name.as_str());
        text.append("'s</b> new Social Credit Score: <b>");
        text.append(num.as_str());
        text.append("</b>");
        let html = text.clone();
        proof {
            assert(text@ =~= new_score_text(recipient.name@, new_score as int));
        }
        Some(HtmlAndTextAnswer { text, html })
    }
}

} // verus!
