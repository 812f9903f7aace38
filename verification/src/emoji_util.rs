//! The `!list_emoji` scoreboard: every emoji registered in a room with
//! its score delta, sorted by descending delta.

use vstd::prelude::*;
use crate::emoji::Emoji;
use crate::listing::entry_views;
use crate::listing::scoreboard_answer;
use crate::listing::scoreboard_html;
use crate::listing::scoreboard_text;
use crate::listing::scores_sorted_desc;
use crate::store::Store;
use crate::store::emoji_room_pred;
use crate::user::HtmlAndTextAnswer;
use vstd::string::StringExecFns;

verus! {

/// The (glyph, delta) pairs of every emoji registered in one room, in
/// registration order.
pub open spec fn room_emoji_entries(store: Store, room_id: Seq<char>) -> Seq<(Seq<char>, int)> {
    store.emojis@.filter(emoji_room_pred(room_id)).map_values(
        |e: Emoji| (e.emoji@, e.social_credit as int),
    )
}

/// The `!list_emoji` reply is exactly this: every emoji registered in
/// the room, sorted by descending delta (ties in any order), each
/// rendered once as `glyph: delta`; or the fixed no-emojis reply for a
/// room without registrations.
pub open spec fn emoji_list_answer_spec(store: Store, room_id: Seq<char>, r: HtmlAndTextAnswer) -> bool {
    if room_emoji_entries(store, room_id).len() == 0 {
        r.text@ == "No emojis, use the !help command to see how to add emojis"@ && r.html@
            == "No emojis, use the !help command to see how to add emojis"@
    } else {
        exists|s: Seq<(String, i32)>|
            {
                &&& #[trigger] scores_sorted_desc(s)
                &&& entry_views(s).to_multiset() == room_emoji_entries(store, room_id).to_multiset()
                &&& r.text@ == scoreboard_text("Registered Emojis: "@, s)
                &&& r.html@ == scoreboard_html("<h3>Registered Emojis:</h3><br>"@, s)
            }
    }
}

/// The `!list_emoji` scoreboard for one room.
pub fn get_emoji_list_answer(store: &Store, room_id: &String) -> (r: HtmlAndTextAnswer)
    requires
        store.inv(),
    ensures
        emoji_list_answer_spec(*store, room_id@, r),
{
    let emojis = store.find_all_emoji_for_room(room_id);
    if emojis.len() == 0 {
        let empty = HtmlAndTextAnswer {
            text: String::new().concat("No emojis, use the !help command to see how to add emojis"),
            html: String::new().concat("No emojis, use the !help command to see how to add emojis"),
        };
        proof {
            assert(Seq::<char>::empty()
                + "No emojis, use the !help command to see how to add emojis"@
                =~= "No emojis, use the !help command to see how to add emojis"@);
        }
        return empty;
    }
    let ghost es = store.emojis@.filter(emoji_room_pred(room_id@));
    let mut entries: Vec<(String, i32)> = Vec::new();
    let mut i: usize = 0;
    while i < emojis.len()
        invariant
            i <= emojis@.len(),
            emojis@ == es,
            es == store.emojis@.filter(emoji_room_pred(room_id@)),
            entries@.len() == i,
            forall|j: int|
                0 <= j < i ==> (#[trigger] entries@[j]).0@ == room_emoji_entries(
                    *store,
                    room_id@,
                )[j].0 && entries@[j].1 as int == room_emoji_entries(*store, room_id@)[j].1,
        decreases emojis@.len() - i,
    {
        let glyph = emojis[i].emoji.clone();
        let delta = emojis[i].social_credit;
        entries.push((glyph, delta));
        i = i + 1;
    }
    proof {
        assert(entry_views(entries@) =~= room_emoji_entries(*store, room_id@));
        reveal_strlit("Registered Emojis: ");
        reveal_strlit("<h3>Registered Emojis:</h3><br>");
    }
    scoreboard_answer(entries, "Registered Emojis: ", "<h3>Registered Emojis:</h3><br>")
}

} // verus!
