//! A room-scoped mapping from an emoji glyph to a signed score delta.

use vstd::prelude::*;

verus! {

/// One registered emoji: reacting with `emoji` in room `room_id` adds
/// `social_credit` to the recipient's score.
pub struct Emoji {
    pub id: i32,
    pub room_id: String,
    pub emoji: String,
    pub social_credit: i32,
}

impl Clone for Emoji {
    fn clone(&self) -> (r: Self)
        ensures
            r == *self,
    {
        Emoji {
            id: self.id,
            room_id: self.room_id.clone(),
            emoji: self.emoji.clone(),
            social_credit: self.social_credit,
        }
    }
}

} // verus!
