//! Users: a chat identity (local name plus domain) with a role, and,
//! when read for one room, that room's reputation record.

use vstd::prelude::*;
use crate::user_room_data::UserRoomData;
use crate::user_room_data::room_data_equiv;

verus! {

/// A user's role; only administrators may register emojis.
#[derive(Clone, Copy, PartialEq, Eq, Structural, Debug)]
pub enum UserType {
    Default,
    Moderator,
    Admin,
}

/// A durable user record.  `room_data` carries the record for the room a
/// read was scoped to, when there is one; the store itself keeps room
/// records separately.
pub struct User {
    pub id: i32,
    pub name: String,
    pub url: String,
    pub user_type: UserType,
    pub room_data: Option<UserRoomData>,
}

/// A response in the two forms the chat surface accepts.
pub struct HtmlAndTextAnswer {
    pub text: String,
    pub html: String,
}

/// The small integer a role is persisted as.
pub open spec fn user_type_code(t: UserType) -> int {
    match t {
        UserType::Default => 0,
        UserType::Moderator => 1,
        UserType::Admin => 2,
    }
}

/// The role of `user` as its persisted integer code.
pub fn get_user_type_as_int(user: &User) -> (r: i32)
    ensures
        r == user_type_code(user.user_type),
{
    match user.user_type {
        UserType::Default => 0,
        UserType::Moderator => 1,
        UserType::Admin => 2,
    }
}

/// Field-wise agreement of two user records, with strings compared by
/// their characters.
pub open spec fn user_equiv(a: User, b: User) -> bool {
    &&& a.id == b.id
    &&& a.name@ == b.name@
    &&& a.url@ == b.url@
    &&& a.user_type == b.user_type
    &&& match (a.room_data, b.room_data) {
        (Option::None, Option::None) => true,
        (Option::Some(x), Option::Some(y)) => room_data_equiv(x, y),
        _ => false,
    }
}

/// Two users denote the same chat identity: equal local name and domain.
pub fn compare_user(user1: &User, user2: &User) -> (r: bool)
    ensures
        r == (user1.name@ == user2.name@ && user1.url@ == user2.url@),
{
    user1.name == user2.name && user1.url == user2.url
}

impl Clone for User {
    fn clone(&self) -> (r: Self)
        ensures
            user_equiv(r, *self),
    {
        let room_data = match &self.room_data {
            Some(rd) => Some(rd.clone()),
            None => None,
        };
        User {
            id: self.id,
            name: self.name.clone(),
            url: self.url.clone(),
            user_type: self.user_type,
            room_data,
        }
    }
}

} // verus!
