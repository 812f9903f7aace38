//! One record of a user performing a scoring reaction, kept for rate
//! limiting.  Times are seconds since the Unix epoch.

use vstd::prelude::*;

verus! {

/// A reaction performed by the owner of one room membership, against the
/// message with `message_event_id`, at `time` (epoch seconds).
pub struct UserReaction {
    pub id: i32,
    pub user_room_data_id: i32,
    pub time: u64,
    pub message_event_id: String,
}

impl UserReaction {
    /// A fresh, not yet persisted record (surrogate id -1).
    pub fn new(user_room_data_id: i32, reaction_time: u64, message_event_id: String) -> (r: Self)
        ensures
            r == (UserReaction {
                id: -1i32,
                user_room_data_id,
                time: reaction_time,
                message_event_id,
            }),
    {
        Self { id: -1, user_room_data_id, time: reaction_time, message_event_id }
    }
}

impl Clone for UserReaction {
    fn clone(&self) -> (r: Self)
        ensures
            r == *self,
    {
        UserReaction {
            id: self.id,
            user_room_data_id: self.user_room_data_id,
            time: self.time,
            message_event_id: self.message_event_id.clone(),
        }
    }
}

} // verus!
