//! The storage abstraction of the engine: an in-memory, invariant-carrying
//! record store with one logical table per record kind.  Surrogate keys
//! are indices into the tables; rows are never deleted, so keys stay
//! stable.  The surrounding application mirrors mutations into whatever
//! durable backend it uses.

use vstd::prelude::*;
use crate::emoji::Emoji;
use crate::event::Event;
use crate::user::User;
use crate::user::user_equiv;
use crate::user_room_data::UserRoomData;

verus! {

/// A storage operation that could not be applied: the key space is
/// exhausted, a referenced row is missing, or a row with the same natural
/// key already exists.
pub struct StoreError;

/// The largest row count of one table, so that a row's index always fits
/// the `i32` surrogate key.
pub const MAX_ROWS: usize = 0x7FFF_FFFF;

/// Row `i` of `users` has this identity.
pub open spec fn is_user_at(users: Seq<User>, i: int, name: Seq<char>, url: Seq<char>) -> bool {
    0 <= i < users.len() && users[i].name@ == name && users[i].url@ == url
}

/// Some row of `users` has this identity.
pub open spec fn has_user(users: Seq<User>, name: Seq<char>, url: Seq<char>) -> bool {
    exists|i: int| is_user_at(users, i, name, url)
}

/// The row index of this identity (meaningful only when `has_user`).
pub open spec fn user_index(users: Seq<User>, name: Seq<char>, url: Seq<char>) -> int {
    choose|i: int| is_user_at(users, i, name, url)
}

/// Row `i` of `rds` is the membership of `user_id` in `room_id`.
pub open spec fn is_membership_at(
    rds: Seq<UserRoomData>,
    i: int,
    user_id: int,
    room_id: Seq<char>,
) -> bool {
    0 <= i < rds.len() && rds[i].user_id == user_id && rds[i].room_id@ == room_id
}

/// Some row of `rds` is the membership of `user_id` in `room_id`.
pub open spec fn has_membership(rds: Seq<UserRoomData>, user_id: int, room_id: Seq<char>) -> bool {
    exists|i: int| is_membership_at(rds, i, user_id, room_id)
}

/// The row index of this membership (meaningful only when
/// `has_membership`).
pub open spec fn membership_index(rds: Seq<UserRoomData>, user_id: int, room_id: Seq<char>) -> int {
    choose|i: int| is_membership_at(rds, i, user_id, room_id)
}

/// Row `i` of `es` registers `glyph` in `room_id`.
pub open spec fn is_emoji_at(es: Seq<Emoji>, i: int, room_id: Seq<char>, glyph: Seq<char>) -> bool {
    0 <= i < es.len() && es[i].room_id@ == room_id && es[i].emoji@ == glyph
}

/// Some row of `es` registers `glyph` in `room_id`.
pub open spec fn has_emoji(es: Seq<Emoji>, room_id: Seq<char>, glyph: Seq<char>) -> bool {
    exists|i: int| is_emoji_at(es, i, room_id, glyph)
}

/// The row index of this registration (meaningful only when `has_emoji`).
pub open spec fn emoji_index(es: Seq<Emoji>, room_id: Seq<char>, glyph: Seq<char>) -> int {
    choose|i: int| is_emoji_at(es, i, room_id, glyph)
}

/// Row `i` of `evs` marks event `id` as handled.
pub open spec fn is_event_at(evs: Seq<Event>, i: int, id: Seq<char>) -> bool {
    0 <= i < evs.len() && evs[i].id@ == id
}

/// Some row of `evs` marks event `id` as handled.
pub open spec fn has_event(evs: Seq<Event>, id: Seq<char>) -> bool {
    exists|i: int| is_event_at(evs, i, id)
}

/// The row index of this marker (meaningful only when `has_event`).
pub open spec fn event_index(evs: Seq<Event>, id: Seq<char>) -> int {
    choose|i: int| is_event_at(evs, i, id)
}

/// The whole durable state of the engine.
pub struct Store {
    pub users: Vec<User>,
    pub room_data: Vec<UserRoomData>,
    pub emojis: Vec<Emoji>,
    pub events: Vec<Event>,
}

impl Store {
    /// Well-formedness: surrogate keys equal row indices, natural keys are
    /// unique, every membership references an existing user, and every
    /// reaction record names its owning membership.
    pub open spec fn inv(self) -> bool {
        &&& self.users@.len() <= MAX_ROWS
        &&& forall|i: int| 0 <= i < self.users@.len() ==> (#[trigger] self.users@[i]).id == i
        &&& forall|i: int|
            0 <= i < self.users@.len() ==> (#[trigger] self.users@[i]).room_data is None
        &&& forall|i: int, j: int|
            #![trigger self.users@[i], self.users@[j]]
            0 <= i < j < self.users@.len() ==> !(self.users@[i].name@ == self.users@[j].name@
                && self.users@[i].url@ == self.users@[j].url@)
        &&& self.room_data@.len() <= MAX_ROWS
        &&& forall|i: int| 0 <= i < self.room_data@.len() ==> (#[trigger] self.room_data@[i]).id == i
        &&& forall|i: int|
            0 <= i < self.room_data@.len() ==> 0 <= (#[trigger] self.room_data@[i]).user_id
                < self.users@.len()
        &&& forall|i: int, j: int|
            #![trigger self.room_data@[i], self.room_data@[j]]
            0 <= i < j < self.room_data@.len() ==> !(self.room_data@[i].user_id
                == self.room_data@[j].user_id && self.room_data@[i].room_id@
                == self.room_data@[j].room_id@)
        &&& forall|i: int, k: int|
            #![trigger self.room_data@[i].last_reactions@[k]]
            0 <= i < self.room_data@.len() && 0 <= k < self.room_data@[i].last_reactions@.len()
                ==> self.room_data@[i].last_reactions@[k].user_room_data_id
                == self.room_data@[i].id
        &&& self.emojis@.len() <= MAX_ROWS
        &&& forall|i: int| 0 <= i < self.emojis@.len() ==> (#[trigger] self.emojis@[i]).id == i
        &&& forall|i: int, j: int|
            #![trigger self.emojis@[i], self.emojis@[j]]
            0 <= i < j < self.emojis@.len() ==> !(self.emojis@[i].room_id@
                == self.emojis@[j].room_id@ && self.emojis@[i].emoji@ == self.emojis@[j].emoji@)
        &&& forall|i: int, j: int|
            #![trigger self.events@[i], self.events@[j]]
            0 <= i < j < self.events@.len() ==> self.events@[i].id@ != self.events@[j].id@
    }

    /// An empty store.
    pub fn new() -> (s: Store)
        ensures
            s.inv(),
            s.users@.len() == 0,
            s.room_data@.len() == 0,
            s.emojis@.len() == 0,
            s.events@.len() == 0,
    {
        Store { users: Vec::new(), room_data: Vec::new(), emojis: Vec::new(), events: Vec::new() }
    }

    /// Looks a user up by identity; the returned record carries no room
    /// data.
    pub fn find_user(&self, name: &String, url: &String) -> (r: Option<User>)
        requires
            self.inv(),
        ensures
            match r {
                Some(u) => has_user(self.users@, name@, url@) && user_equiv(
                    u,
                    self.users@[user_index(self.users@, name@, url@)],
                ),
                None => !has_user(self.users@, name@, url@),
            },
    {
        let mut i: usize = 0;
        while i < self.users.len()
            invariant
                self.inv(),
                i <= self.users@.len(),
                forall|j: int| 0 <= j < i ==> !is_user_at(self.users@, j, name@, url@),
            decreases self.users@.len() - i,
        {
            if self.users[i].name == *name && self.users[i].url == *url {
                proof {
                    assert(is_user_at(self.users@, i as int, name@, url@));
                    let k = user_index(self.users@, name@, url@);
                    assert(is_user_at(self.users@, k, name@, url@));
                    if k != i as int {
                        assert(false);
                    }
                }
                return Some(self.users[i].clone());
            }
            i = i + 1;
        }
        None
    }

    /// Appends a new user row with the next surrogate key; its identity
    /// must be new and the table not full.
    pub fn insert_user(&mut self, user: &User) -> (r: Result<(), StoreError>)
        requires
            old(self).inv(),
        ensures
            final(self).inv(),
            final(self).room_data == old(self).room_data,
            final(self).emojis == old(self).emojis,
            final(self).events == old(self).events,
            match r {
                Ok(_) => ({
                    &&& !has_user(old(self).users@, user.name@, user.url@)
                    &&& old(self).users@.len() < MAX_ROWS
                    &&& final(self).users@.len() == old(self).users@.len() + 1
                    &&& final(self).users@.subrange(0, old(self).users@.len() as int) == old(
                        self,
                    ).users@
                    &&& ({
                        let nu = final(self).users@.last();
                        &&& nu.id == old(self).users@.len()
                        &&& nu.name@ == user.name@
                        &&& nu.url@ == user.url@
                        &&& nu.user_type == user.user_type
                        &&& nu.room_data is None
                    })
                }),
                Err(_) => *final(self) == *old(self) && (has_user(
                    old(self).users@,
                    user.name@,
                    user.url@,
                ) || old(self).users@.len() == MAX_ROWS),
            },
    {
        if self.users.len() >= MAX_ROWS {
            return Err(StoreError);
        }
        match self.find_user(&user.name, &user.url) {
            Some(_) => Err(StoreError),
            None => {
                let id: i32 = self.users.len() as i32;
                let nu = User {
                    id,
                    name: user.name.clone(),
                    url: user.url.clone(),
                    user_type: user.user_type,
                    room_data: None,
                };
                let ghost old_users = self.users@;
                self.users.push(nu);
                proof {
                    assert(self.users@.subrange(0, old_users.len() as int) =~= old_users);
                    assert forall|i: int, j: int|
                        #![trigger self.users@[i], self.users@[j]]
                        0 <= i < j < self.users@.len() implies !(self.users@[i].name@
                        == self.users@[j].name@ && self.users@[i].url@
                        == self.users@[j].url@) by {
                        if j == old_users.len() {
                            assert(!is_user_at(old_users, i, user.name@, user.url@));
                        }
                    }
                }
                Ok(())
            },
        }
    }

    /// Overwrites the role of the user row keyed by `user.id`; a key that
    /// matches no row changes nothing, as an UPDATE matching no row does.
    pub fn update_user(&mut self, user: &User) -> (r: Result<(), StoreError>)
        requires
            old(self).inv(),
        ensures
            final(self).inv(),
            final(self).room_data == old(self).room_data,
            final(self).emojis == old(self).emojis,
            final(self).events == old(self).events,
            r is Ok,
            if 0 <= user.id < old(self).users@.len() {
                final(self).users@ == old(self).users@.update(
                    user.id as int,
                    (User { user_type: user.user_type, ..old(self).users@[user.id as int] }),
                )
            } else {
                *final(self) == *old(self)
            },
    {
        if user.id >= 0 && (user.id as usize) < self.users.len() {
            let i: usize = user.id as usize;
            self.users[i].user_type = user.user_type;
            proof {
                assert forall|a: int, b: int|
                    #![trigger self.users@[a], self.users@[b]]
                    0 <= a < b < self.users@.len() implies !(self.users@[a].name@
                    == self.users@[b].name@ && self.users@[a].url@ == self.users@[b].url@) by {
                    assert(old(self).users@[a].name@ == self.users@[a].name@);
                    assert(old(self).users@[b].name@ == self.users@[b].name@);
                }
            }
        }
        Ok(())
    }
}

impl Store {
    /// Looks a processed-event marker up by event id.
    pub fn find_event(&self, id: &String) -> (r: Option<Event>)
        requires
            self.inv(),
        ensures
            match r {
                Some(e) => has_event(self.events@, id@) && e == self.events@[event_index(
                    self.events@,
                    id@,
                )],
                None => !has_event(self.events@, id@),
            },
    {
        let mut i: usize = 0;
        while i < self.events.len()
            invariant
                self.inv(),
                i <= self.events@.len(),
                forall|j: int| 0 <= j < i ==> !is_event_at(self.events@, j, id@),
            decreases self.events@.len() - i,
        {
            if self.events[i].id == *id {
                proof {
                    assert(is_event_at(self.events@, i as int, id@));
                    let k = event_index(self.events@, id@);
                    assert(is_event_at(self.events@, k, id@));
                    if k != i as int {
                        assert(false);
                    }
                }
                return Some(self.events[i].clone());
            }
            i = i + 1;
        }
        None
    }

    /// Appends a processed-event marker; the event id must be new, as a
    /// primary key makes it.
    pub fn insert_event(&mut self, event: &Event) -> (r: Result<(), StoreError>)
        requires
            old(self).inv(),
        ensures
            final(self).inv(),
            final(self).users == old(self).users,
            final(self).room_data == old(self).room_data,
            final(self).emojis == old(self).emojis,
            match r {
                Ok(_) => !has_event(old(self).events@, event.id@) && final(self).events@ == old(
                    self,
                ).events@.push(*event),
                Err(_) => *final(self) == *old(self) && has_event(old(self).events@, event.id@),
            },
    {
        match self.find_event(&event.id) {
            Some(_) => Err(StoreError),
            None => {
                let ghost old_events = self.events@;
                let ne = event.clone();
                self.events.push(ne);
                proof {
                    assert forall|i: int, j: int|
                        #![trigger self.events@[i], self.events@[j]]
                        0 <= i < j < self.events@.len() implies self.events@[i].id@
                        != self.events@[j].id@ by {
                        if j == old_events.len() {
                            assert(!is_event_at(old_events, i, event.id@));
                        }
                    }
                }
                Ok(())
            },
        }
    }

    /// Looks an emoji registration up by glyph and room.
    pub fn find_emoji(&self, emoji: &String, room_id: &String) -> (r: Option<Emoji>)
        requires
            self.inv(),
        ensures
            match r {
                Some(e) => has_emoji(self.emojis@, room_id@, emoji@) && e
                    == self.emojis@[emoji_index(self.emojis@, room_id@, emoji@)],
                None => !has_emoji(self.emojis@, room_id@, emoji@),
            },
    {
        let mut i: usize = 0;
        while i < self.emojis.len()
            invariant
                self.inv(),
                i <= self.emojis@.len(),
                forall|j: int| 0 <= j < i ==> !is_emoji_at(self.emojis@, j, room_id@, emoji@),
            decreases self.emojis@.len() - i,
        {
            if self.emojis[i].emoji == *emoji && self.emojis[i].room_id == *room_id {
                proof {
                    assert(is_emoji_at(self.emojis@, i as int, room_id@, emoji@));
                    let k = emoji_index(self.emojis@, room_id@, emoji@);
                    assert(is_emoji_at(self.emojis@, k, room_id@, emoji@));
                    if k != i as int {
                        assert(false);
                    }
                }
                return Some(self.emojis[i].clone());
            }
            i = i + 1;
        }
        None
    }

    /// Appends an emoji registration with the next surrogate key; the
    /// (room, glyph) pair must be new and the table not full.
    pub fn insert_emoji(&mut self, emoji: &Emoji) -> (r: Result<(), StoreError>)
        requires
            old(self).inv(),
        ensures
            final(self).inv(),
            final(self).users == old(self).users,
            final(self).room_data == old(self).room_data,
            final(self).events == old(self).events,
            match r {
                Ok(_) => ({
                    &&& !has_emoji(old(self).emojis@, emoji.room_id@, emoji.emoji@)
                    &&& old(self).emojis@.len() < MAX_ROWS
                    &&& final(self).emojis@.len() == old(self).emojis@.len() + 1
                    &&& final(self).emojis@.subrange(0, old(self).emojis@.len() as int) == old(
                        self,
                    ).emojis@
                    &&& ({
                        let ne = final(self).emojis@.last();
                        &&& ne.id == old(self).emojis@.len()
                        &&& ne.room_id@ == emoji.room_id@
                        &&& ne.emoji@ == emoji.emoji@
                        &&& ne.social_credit == emoji.social_credit
                    })
                }),
                Err(_) => *final(self) == *old(self) && (has_emoji(
                    old(self).emojis@,
                    emoji.room_id@,
                    emoji.emoji@,
                ) || old(self).emojis@.len() == MAX_ROWS),
            },
    {
        if self.emojis.len() >= MAX_ROWS {
            return Err(StoreError);
        }
        match self.find_emoji(&emoji.emoji, &emoji.room_id) {
            Some(_) => Err(StoreError),
            None => {
                let id: i32 = self.emojis.len() as i32;
                let ne = Emoji {
                    id,
                    room_id: emoji.room_id.clone(),
                    emoji: emoji.emoji.clone(),
                    social_credit: emoji.social_credit,
                };
                let ghost old_emojis = self.emojis@;
                self.emojis.push(ne);
                proof {
                    assert(self.emojis@.subrange(0, old_emojis.len() as int) =~= old_emojis);
                    assert forall|i: int, j: int|
                        #![trigger self.emojis@[i], self.emojis@[j]]
                        0 <= i < j < self.emojis@.len() implies !(self.emojis@[i].room_id@
                        == self.emojis@[j].room_id@ && self.emojis@[i].emoji@
                        == self.emojis@[j].emoji@) by {
                        if j == old_emojis.len() {
                            assert(!is_emoji_at(old_emojis, i, emoji.room_id@, emoji.emoji@));
                        }
                    }
                }
                Ok(())
            },
        }
    }
}

/// The registrations that belong to one room.
pub open spec fn emoji_room_pred(room_id: Seq<char>) -> spec_fn(Emoji) -> bool {
    |e: Emoji| e.room_id@ == room_id
}

impl Store {
    /// Every emoji registered in `room_id`, in registration order.
    pub fn find_all_emoji_for_room(&self, room_id: &String) -> (r: Vec<Emoji>)
        requires
            self.inv(),
        ensures
            r@ == self.emojis@.filter(emoji_room_pred(room_id@)),
    {
        let ghost pred = emoji_room_pred(room_id@);
        let mut r: Vec<Emoji> = Vec::new();
        let mut i: usize = 0;
        proof {
            reveal(Seq::filter);
            assert(self.emojis@.take(0) =~= Seq::<Emoji>::empty());
        }
        while i < self.emojis.len()
            invariant
                i <= self.emojis@.len(),
                pred == emoji_room_pred(room_id@),
                r@ == self.emojis@.take(i as int).filter(pred),
            decreases self.emojis@.len() - i,
        {
            let ghost pre = self.emojis@.take(i as int);
            let ghost post = self.emojis@.take(i + 1 as int);
            proof {
                reveal(Seq::filter);
                assert(post.drop_last() =~= pre);
                assert(post.last() == self.emojis@[i as int]);
            }
            if self.emojis[i].room_id == *room_id {
                let e = self.emojis[i].clone();
                r.push(e);
            }
            i = i + 1;
        }
        proof {
            assert(self.emojis@.take(self.emojis@.len() as int) =~= self.emojis@);
        }
        r
    }
}

/// The memberships that belong to one room.
pub open spec fn membership_room_pred(room_id: Seq<char>) -> spec_fn(UserRoomData) -> bool {
    |rd: UserRoomData| rd.room_id@ == room_id
}

/// `u` is the read model of the stored user `su` joined with its room
/// record `m`.
pub open spec fn user_joined_with(u: User, su: User, m: UserRoomData) -> bool {
    &&& u.id == su.id
    &&& u.name@ == su.name@
    &&& u.url@ == su.url@
    &&& u.user_type == su.user_type
    &&& match u.room_data {
        Some(rd) => crate::user_room_data::room_data_equiv(rd, m),
        None => false,
    }
}

impl Store {
    /// Looks the membership of `user_id` in `room_id` up, reaction history
    /// included.
    pub fn find_user_room_data(&self, user_id: i32, room_id: &String) -> (r: Option<UserRoomData>)
        requires
            self.inv(),
        ensures
            match r {
                Some(rd) => has_membership(self.room_data@, user_id as int, room_id@)
                    && crate::user_room_data::room_data_equiv(
                    rd,
                    self.room_data@[membership_index(self.room_data@, user_id as int, room_id@)],
                ),
                None => !has_membership(self.room_data@, user_id as int, room_id@),
            },
    {
        let mut i: usize = 0;
        while i < self.room_data.len()
            invariant
                self.inv(),
                i <= self.room_data@.len(),
                forall|j: int| 0 <= j < i ==> !is_membership_at(self.room_data@, j, user_id as int, room_id@),
            decreases self.room_data@.len() - i,
        {
            if self.room_data[i].user_id == user_id && self.room_data[i].room_id == *room_id {
                proof {
                    assert(is_membership_at(self.room_data@, i as int, user_id as int, room_id@));
                    let k = membership_index(self.room_data@, user_id as int, room_id@);
                    assert(is_membership_at(self.room_data@, k, user_id as int, room_id@));
                    if k != i as int {
                        assert(false);
                    }
                }
                return Some(self.room_data[i].clone());
            }
            i = i + 1;
        }
        None
    }

    /// Appends a membership row with the next surrogate key and an empty
    /// reaction history; the (user, room) pair must be new, the user row
    /// must exist, and the table must not be full.
    pub fn insert_user_room_data(&mut self, rd: &UserRoomData) -> (r: Result<(), StoreError>)
        requires
            old(self).inv(),
        ensures
            final(self).inv(),
            final(self).users == old(self).users,
            final(self).emojis == old(self).emojis,
            final(self).events == old(self).events,
            match r {
                Ok(_) => ({
                    &&& !has_membership(old(self).room_data@, rd.user_id as int, rd.room_id@)
                    &&& 0 <= rd.user_id < old(self).users@.len()
                    &&& old(self).room_data@.len() < MAX_ROWS
                    &&& final(self).room_data@.len() == old(self).room_data@.len() + 1
                    &&& final(self).room_data@.subrange(0, old(self).room_data@.len() as int)
                        == old(self).room_data@
                    &&& ({
                        let nm = final(self).room_data@.last();
                        &&& nm.id == old(self).room_data@.len()
                        &&& nm.user_id == rd.user_id
                        &&& nm.room_id@ == rd.room_id@
                        &&& nm.social_credit == rd.social_credit
                        &&& nm.last_reactions@.len() == 0
                    })
                }),
                Err(_) => *final(self) == *old(self) && (has_membership(
                    old(self).room_data@,
                    rd.user_id as int,
                    rd.room_id@,
                ) || !(0 <= rd.user_id < old(self).users@.len()) || old(self).room_data@.len()
                    == MAX_ROWS),
            },
    {
        if self.room_data.len() >= MAX_ROWS {
            return Err(StoreError);
        }
        if rd.user_id < 0 || (rd.user_id as usize) >= self.users.len() {
            return Err(StoreError);
        }
        match self.find_user_room_data(rd.user_id, &rd.room_id) {
            Some(_) => Err(StoreError),
            None => {
                let id: i32 = self.room_data.len() as i32;
                let nm = UserRoomData {
                    id,
                    user_id: rd.user_id,
                    room_id: rd.room_id.clone(),
                    social_credit: rd.social_credit,
                    last_reactions: Vec::new(),
                };
                let ghost old_rds = self.room_data@;
                self.room_data.push(nm);
                proof {
                    assert(self.room_data@.subrange(0, old_rds.len() as int) =~= old_rds);
                    assert forall|i: int, j: int|
                        #![trigger self.room_data@[i], self.room_data@[j]]
                        0 <= i < j < self.room_data@.len() implies !(self.room_data@[i].user_id
                        == self.room_data@[j].user_id && self.room_data@[i].room_id@
                        == self.room_data@[j].room_id@) by {
                        if j == old_rds.len() {
                            assert(!is_membership_at(old_rds, i, rd.user_id as int, rd.room_id@));
                        }
                    }
                }
                Ok(())
            },
        }
    }

    /// Overwrites the score of the membership keyed by (`rd.user_id`,
    /// `rd.room_id`); a key that matches no row changes nothing.  Reaction
    /// history is written only through [`Store::record_user_reaction`].
    pub fn update_user_room_data(&mut self, rd: &UserRoomData) -> (r: Result<(), StoreError>)
        requires
            old(self).inv(),
        ensures
            final(self).inv(),
            final(self).users == old(self).users,
            final(self).emojis == old(self).emojis,
            final(self).events == old(self).events,
            r is Ok,
            if has_membership(old(self).room_data@, rd.user_id as int, rd.room_id@) {
                final(self).room_data@ == old(self).room_data@.update(
                    membership_index(old(self).room_data@, rd.user_id as int, rd.room_id@),
                    (UserRoomData {
                        social_credit: rd.social_credit,
                        ..old(self).room_data@[membership_index(
                            old(self).room_data@,
                            rd.user_id as int,
                            rd.room_id@,
                        )]
                    }),
                )
            } else {
                *final(self) == *old(self)
            },
    {
        let mut i: usize = 0;
        while i < self.room_data.len()
            invariant
                self.inv(),
                *self == *old(self),
                i <= self.room_data@.len(),
                forall|j: int| 0 <= j < i ==> !is_membership_at(self.room_data@, j, rd.user_id as int, rd.room_id@),
            decreases self.room_data@.len() - i,
        {
            if self.room_data[i].user_id == rd.user_id && self.room_data[i].room_id == rd.room_id {
                proof {
                    assert(is_membership_at(self.room_data@, i as int, rd.user_id as int, rd.room_id@));
                    let k = membership_index(self.room_data@, rd.user_id as int, rd.room_id@);
                    assert(is_membership_at(self.room_data@, k, rd.user_id as int, rd.room_id@));
                    if k != i as int {
                        assert(false);
                    }
                }
                self.room_data[i].social_credit = rd.social_credit;
                proof {
                    assert forall|a: int, b: int|
                        #![trigger self.room_data@[a], self.room_data@[b]]
                        0 <= a < b < self.room_data@.len() implies !(self.room_data@[a].user_id
                        == self.room_data@[b].user_id && self.room_data@[a].room_id@
                        == self.room_data@[b].room_id@) by {
                        assert(old(self).room_data@[a].room_id@ == self.room_data@[a].room_id@);
                        assert(old(self).room_data@[b].room_id@ == self.room_data@[b].room_id@);
                    }
                }
                return Ok(());
            }
            i = i + 1;
        }
        Ok(())
    }

    /// Appends a reaction performed now by `user_id` in `room_id` to that
    /// membership's history and prunes expired records, as
    /// [`UserRoomData::add_reaction`] does; without such a membership
    /// nothing changes.
    pub fn record_user_reaction(
        &mut self,
        user_id: i32,
        room_id: &String,
        now: u64,
        reaction_period_minutes: i32,
        message_event_id: String,
    )
        requires
            old(self).inv(),
            0 <= reaction_period_minutes <= crate::user_room_data::MAX_REACTION_PERIOD_MINUTES,
        ensures
            final(self).inv(),
            final(self).users == old(self).users,
            final(self).emojis == old(self).emojis,
            final(self).events == old(self).events,
            if has_membership(old(self).room_data@, user_id as int, room_id@) {
                ({
                    let k = membership_index(old(self).room_data@, user_id as int, room_id@);
                    let m = old(self).room_data@[k];
                    let nm = final(self).room_data@[k];
                    &&& final(self).room_data@ == old(self).room_data@.update(k, nm)
                    &&& nm.id == m.id
                    &&& nm.user_id == m.user_id
                    &&& nm.room_id@ == m.room_id@
                    &&& nm.social_credit == m.social_credit
                    &&& nm.last_reactions@ == crate::user_room_data::recent_reactions(
                        m.last_reactions@.push(
                            (crate::user_reaction::UserReaction {
                                id: -1i32,
                                user_room_data_id: m.id,
                                time: now,
                                message_event_id,
                            }),
                        ),
                        now,
                        reaction_period_minutes as int,
                    )
                })
            } else {
                *final(self) == *old(self)
            },
    {
        let mut i: usize = 0;
        while i < self.room_data.len()
            invariant
                self.inv(),
                *self == *old(self),
                0 <= reaction_period_minutes <= crate::user_room_data::MAX_REACTION_PERIOD_MINUTES,
                i <= self.room_data@.len(),
                forall|j: int| 0 <= j < i ==> !is_membership_at(self.room_data@, j, user_id as int, room_id@),
            decreases self.room_data@.len() - i,
        {
            if self.room_data[i].user_id == user_id && self.room_data[i].room_id == *room_id {
                proof {
                    assert(is_membership_at(self.room_data@, i as int, user_id as int, room_id@));
                    let k = membership_index(self.room_data@, user_id as int, room_id@);
                    assert(is_membership_at(self.room_data@, k, user_id as int, room_id@));
                    if k != i as int {
                        assert(false);
                    }
                }
                let mut elem = self.room_data[i].clone();
                elem.add_reaction(now, reaction_period_minutes, message_event_id);
                self.room_data[i] = elem;
                proof {
                    let m = old(self).room_data@[i as int];
                    let nm = self.room_data@[i as int];
                    let pushed = m.last_reactions@.push(
                        crate::user_reaction::UserReaction {
                            id: -1i32,
                            user_room_data_id: m.id,
                            time: now,
                            message_event_id,
                        },
                    );
                    crate::user_room_data::lemma_filter_subset(
                        pushed,
                        crate::user_room_data::recent_pred(now, reaction_period_minutes as int),
                    );
                    assert forall|a: int, k2: int|
                        #![trigger self.room_data@[a].last_reactions@[k2]]
                        0 <= a < self.room_data@.len() && 0 <= k2
                            < self.room_data@[a].last_reactions@.len() implies
                        self.room_data@[a].last_reactions@[k2].user_room_data_id
                        == self.room_data@[a].id by {
                        if a == i as int {
                            assert(pushed.contains(nm.last_reactions@[k2]));
                            let w = choose|w: int|
                                0 <= w < pushed.len() && pushed[w] == nm.last_reactions@[k2];
                            if w < m.last_reactions@.len() {
                                assert(m.last_reactions@[w].user_room_data_id == m.id);
                            }
                        }
                    }
                    assert forall|a: int, b: int|
                        #![trigger self.room_data@[a], self.room_data@[b]]
                        0 <= a < b < self.room_data@.len() implies !(self.room_data@[a].user_id
                        == self.room_data@[b].user_id && self.room_data@[a].room_id@
                        == self.room_data@[b].room_id@) by {
                        assert(old(self).room_data@[a].room_id@ == self.room_data@[a].room_id@);
                        assert(old(self).room_data@[b].room_id@ == self.room_data@[b].room_id@);
                    }
                }
                return ;
            }
            i = i + 1;
        }
    }

    /// Every user that has a membership in `room_id`, in row order, each
    /// joined with that membership.
    pub fn find_all_users_with_room_data(&self, room_id: &String) -> (r: Vec<User>)
        requires
            self.inv(),
        ensures
            ({
                let ms = self.room_data@.filter(membership_room_pred(room_id@));
                &&& r@.len() == ms.len()
                &&& forall|i: int|
                    0 <= i < ms.len() ==> user_joined_with(
                        #[trigger] r@[i],
                        self.users@[ms[i].user_id as int],
                        ms[i],
                    )
            }),
    {
        let ghost pred = membership_room_pred(room_id@);
        let mut r: Vec<User> = Vec::new();
        let mut i: usize = 0;
        proof {
            reveal(Seq::filter);
            assert(self.room_data@.take(0) =~= Seq::<UserRoomData>::empty());
        }
        while i < self.room_data.len()
            invariant
                self.inv(),
                i <= self.room_data@.len(),
                pred == membership_room_pred(room_id@),
                ({
                    let ms = self.room_data@.take(i as int).filter(pred);
                    &&& r@.len() == ms.len()
                    &&& forall|j: int|
                        0 <= j < ms.len() ==> user_joined_with(
                            #[trigger] r@[j],
                            self.users@[ms[j].user_id as int],
                            ms[j],
                        )
                }),
            decreases self.room_data@.len() - i,
        {
            let ghost pre = self.room_data@.take(i as int);
            let ghost post = self.room_data@.take(i + 1 as int);
            proof {
                reveal(Seq::filter);
                assert(post.drop_last() =~= pre);
                assert(post.last() == self.room_data@[i as int]);
            }
            if self.room_data[i].room_id == *room_id {
                let uid: usize = self.room_data[i].user_id as usize;
                let rd_copy = self.room_data[i].clone();
                let entry = User {
                    id: self.users[uid].id,
                    name: self.users[uid].name.clone(),
                    url: self.users[uid].url.clone(),
                    user_type: self.users[uid].user_type,
                    room_data: Some(rd_copy),
                };
                r.push(entry);
                proof {
                    assert(post.filter(pred) == pre.filter(pred).push(self.room_data@[i as int]));
                    assert forall|j: int| 0 <= j < post.filter(pred).len() implies user_joined_with(
                        #[trigger] r@[j],
                        self.users@[post.filter(pred)[j].user_id as int],
                        post.filter(pred)[j],
                    ) by {
                        if j < pre.filter(pred).len() {
                            assert(post.filter(pred)[j] == pre.filter(pred)[j]);
                        }
                    }
                }
            } else {
                proof {
                    assert(post.filter(pred) == pre.filter(pred));
                }
            }
            i = i + 1;
        }
        proof {
            assert(self.room_data@.take(self.room_data@.len() as int) =~= self.room_data@);
        }
        r
    }
}

} // verus!
