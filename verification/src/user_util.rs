//! User handling around the store: parsing identity tags of the form
//! `@localpart:domain`, resolving or creating users and their room
//! records, the admin bootstrap, and the `!list` scoreboard.

use vstd::prelude::*;
use crate::store::MAX_ROWS;
use crate::store::Store;
use crate::store::has_membership;
use crate::store::has_user;
use crate::store::is_membership_at;
use crate::store::is_user_at;
use crate::store::membership_index;
use crate::store::membership_room_pred;
use crate::listing::entry_views;
use crate::listing::scoreboard_answer;
use crate::listing::scoreboard_html;
use crate::listing::scoreboard_text;
use crate::listing::scores_sorted_desc;
use crate::store::user_index;
use crate::text::chars_of;
use crate::text::find_from;
use crate::text::lemma_find_from_scan;
use crate::text::string_from_chars;
use crate::text::subvec;
use crate::user::HtmlAndTextAnswer;
use crate::user::User;
use crate::user::UserType;
use crate::user_room_data::UserRoomData;
use crate::user_room_data::room_data_equiv;
use vstd::string::StringExecFns;

verus! {

// ---------------------------------------------------------------------------
// Identity tags
// ---------------------------------------------------------------------------
//
// A tag matches at a position `i` when an `@` stands there, at least one
// character other than `:` follows, then a `:`, then at least one
// character other than `"` and `>`.  The username runs to the first `:`
// after the `@`; the domain runs to the first `"` or `>` after that, or
// to the end.  The first position where all of that holds wins.

/// The least index `>= j` where `"` or `>` occurs in `s`, or `s.len()`.
pub open spec fn domain_end_from(s: Seq<char>, j: int) -> int
    decreases s.len() - j,
{
    if j < 0 || j >= s.len() {
        s.len() as int
    } else if s[j] == '"' || s[j] == '>' {
        j
    } else {
        domain_end_from(s, j + 1)
    }
}

/// If nothing in `[i, j)` ends a domain, and `j` is the end or ends one,
/// then `j` is where the search from `i` lands.
pub proof fn lemma_domain_end_scan(s: Seq<char>, i: int, j: int)
    requires
        0 <= i <= j <= s.len(),
        forall|t: int| i <= t < j ==> s[t] != '"' && s[t] != '>',
        j == s.len() || s[j] == '"' || s[j] == '>',
    ensures
        domain_end_from(s, i) == j,
    decreases j - i,
{
    if i < j {
        lemma_domain_end_scan(s, i + 1, j);
    }
}

/// A full identity tag stands at position `i` of `s`.
pub open spec fn tag_match_at(s: Seq<char>, i: int) -> bool {
    &&& 0 <= i < s.len()
    &&& s[i] == '@'
    &&& ({
        let k = find_from(s, i + 1, ':');
        &&& i + 1 < k < s.len()
        &&& k + 1 < s.len()
        &&& s[k + 1] != '"'
        &&& s[k + 1] != '>'
    })
}

/// The username of the tag at `i`: everything between the `@` and the
/// first `:` after it.
pub open spec fn tag_username(s: Seq<char>, i: int) -> Seq<char> {
    s.subrange(i + 1, find_from(s, i + 1, ':'))
}

/// The domain of the tag at `i`: everything after that `:` up to the
/// first `"` or `>`, or the end.
pub open spec fn tag_domain(s: Seq<char>, i: int) -> Seq<char> {
    let k = find_from(s, i + 1, ':');
    s.subrange(k + 1, domain_end_from(s, k + 1))
}

/// The least position `>= i` where a tag matches, or `s.len()`.
pub open spec fn first_tag_match(s: Seq<char>, i: int) -> int
    decreases s.len() - i,
{
    if i < 0 || i >= s.len() {
        s.len() as int
    } else if tag_match_at(s, i) {
        i
    } else {
        first_tag_match(s, i + 1)
    }
}

/// If no tag matches in `[i, j)`, and `j` is the end or a match, then `j`
/// is where the search from `i` lands.
pub proof fn lemma_first_tag_match_scan(s: Seq<char>, i: int, j: int)
    requires
        0 <= i <= j <= s.len(),
        forall|t: int| i <= t < j ==> !tag_match_at(s, t),
        j == s.len() || tag_match_at(s, j),
    ensures
        first_tag_match(s, i) == j,
    decreases j - i,
{
    if i < j {
        lemma_first_tag_match_scan(s, i + 1, j);
    }
}

/// What the canonical-form parse of an identity tag yields: the username
/// and domain of the first tag in `s`, or nothing.
pub open spec fn parse_user_tag(s: Seq<char>) -> Option<(Seq<char>, Seq<char>)> {
    let i = first_tag_match(s, 0);
    if i < s.len() {
        Some((tag_username(s, i), tag_domain(s, i)))
    } else {
        None
    }
}

/// Extracts the username and domain of the first identity tag in `body`,
/// or nothing when no tag of the canonical shape occurs.
pub fn extract_userdata_from_string(body: &str) -> (r: Option<(String, String)>)
    ensures
        match (r, parse_user_tag(body@)) {
            (Some(p), Some(q)) => p.0@ == q.0 && p.1@ == q.1,
            (None, None) => true,
            _ => false,
        },
{
    let chars = chars_of(body);
    let n: usize = chars.len();
    let mut i: usize = 0;
    while i < n
        invariant
            n == chars@.len(),
            chars@ == body@,
            i <= n,
            forall|t: int| 0 <= t < i ==> !tag_match_at(body@, t),
        decreases n - i,
    {
        if chars[i] == '@' {
            let mut k: usize = i + 1;
            while k < n && chars[k] != ':'
                invariant
                    n == chars@.len(),
                    chars@ == body@,
                    i + 1 <= k <= n,
                    forall|t: int| i + 1 <= t < k ==> body@[t] != ':',
                decreases n - k,
            {
                k = k + 1;
            }
            proof {
                lemma_find_from_scan(body@, i + 1 as int, k as int, ':');
            }
            if k < n && k > i + 1 && k + 1 < n {
                let c = chars[k + 1];
                if c != '"' && c != '>' {
                    proof {
                        assert(tag_match_at(body@, i as int));
                        lemma_first_tag_match_scan(body@, 0, i as int);
                    }
                    let mut m: usize = k + 1;
                    while m < n && chars[m] != '"' && chars[m] != '>'
                        invariant
                            n == chars@.len(),
                            chars@ == body@,
                            k + 1 <= m <= n,
                            forall|t: int| k + 1 <= t < m ==> body@[t] != '"' && body@[t] != '>',
                        decreases n - m,
                    {
                        m = m + 1;
                    }
                    proof {
                        lemma_domain_end_scan(body@, k + 1 as int, m as int);
                    }
                    let uname = subvec(&chars, i + 1, k);
                    let dom = subvec(&chars, k + 1, m);
                    return Some((string_from_chars(&uname), string_from_chars(&dom)));
                }
            }
            proof {
                assert(!tag_match_at(body@, i as int));
            }
        }
        i = i + 1;
    }
    proof {
        lemma_first_tag_match_scan(body@, 0, n as int);
    }
    None
}

// ---------------------------------------------------------------------------
// Resolving or creating users
// ---------------------------------------------------------------------------

/// The view of an optional room id.
pub open spec fn room_id_view(room_id: Option<&String>) -> Option<Seq<char>> {
    match room_id {
        Some(s) => Some(s@),
        None => None,
    }
}

/// What [`setup_user`] does to the store and returns: nothing on a tag
/// that does not parse; otherwise the user looked up or created, with the
/// room record for `room_id` looked up or created alongside.  A full user
/// table yields nothing; a full membership table yields the user without
/// room data.
pub open spec fn setup_user_post(
    pre: Store,
    post: Store,
    room_id: Option<Seq<char>>,
    tag: Seq<char>,
    ut: UserType,
    init: i32,
    r: Option<User>,
) -> bool {
    match parse_user_tag(tag) {
        None => post == pre && r is None,
        Some(parsed) => {
            let name = parsed.0;
            let url = parsed.1;
            let had = has_user(pre.users@, name, url);
            if !had && pre.users@.len() >= MAX_ROWS {
                post == pre && r is None
            } else {
                let uidx = if had {
                    user_index(pre.users@, name, url)
                } else {
                    pre.users@.len() as int
                };
                &&& post.emojis == pre.emojis
                &&& post.events == pre.events
                &&& if had {
                    post.users == pre.users
                } else {
                    &&& post.users@.len() == pre.users@.len() + 1
                    &&& post.users@.subrange(0, pre.users@.len() as int) == pre.users@
                    &&& post.users@.last().id == pre.users@.len()
                    &&& post.users@.last().name@ == name
                    &&& post.users@.last().url@ == url
                    &&& post.users@.last().user_type == ut
                    &&& post.users@.last().room_data is None
                }
                &&& match r {
                    None => false,
                    Some(u) => {
                        &&& u.id == uidx
                        &&& u.name@ == name
                        &&& u.url@ == url
                        &&& u.user_type == (if had {
                            pre.users@[uidx].user_type
                        } else {
                            ut
                        })
                        &&& match room_id {
                            None => post.room_data == pre.room_data && u.room_data is None,
                            Some(rid) => {
                                if has_membership(pre.room_data@, uidx, rid) {
                                    &&& post.room_data == pre.room_data
                                    &&& match u.room_data {
                                        Some(rd) => room_data_equiv(
                                            rd,
                                            pre.room_data@[membership_index(
                                                pre.room_data@,
                                                uidx,
                                                rid,
                                            )],
                                        ),
                                        None => false,
                                    }
                                } else if pre.room_data@.len() >= MAX_ROWS {
                                    &&& post.room_data == pre.room_data
                                    &&& u.room_data is None
                                } else {
                                    &&& post.room_data@.len() == pre.room_data@.len() + 1
                                    &&& post.room_data@.subrange(0, pre.room_data@.len() as int)
                                        == pre.room_data@
                                    &&& ({
                                        let nm = post.room_data@.last();
                                        &&& nm.id == pre.room_data@.len()
                                        &&& nm.user_id == uidx
                                        &&& nm.room_id@ == rid
                                        &&& nm.social_credit == init
                                        &&& nm.last_reactions@.len() == 0
                                    })
                                    &&& match u.room_data {
                                        Some(rd) => room_data_equiv(rd, post.room_data@.last()),
                                        None => false,
                                    }
                                }
                            },
                        }
                    },
                }
            }
        },
    }
}

/// Loads the user's room record for `room_id` into `user`, creating it
/// with `initial_social_credit` on first sight; with no room given, or a
/// full membership table, the user is left without room data.
fn setup_user_room_data_for_room(
    store: &mut Store,
    room_id: Option<&String>,
    user: &mut User,
    initial_social_credit: i32,
)
    requires
        old(store).inv(),
        0 <= old(user).id < old(store).users@.len(),
    ensures
        final(store).inv(),
        final(store).users == old(store).users,
        final(store).emojis == old(store).emojis,
        final(store).events == old(store).events,
        final(user).id == old(user).id,
        final(user).name == old(user).name,
        final(user).url == old(user).url,
        final(user).user_type == old(user).user_type,
        match room_id_view(room_id) {
            None => final(store).room_data == old(store).room_data && final(user).room_data == old(
                user,
            ).room_data,
            Some(rid) => {
                let uidx = old(user).id as int;
                if has_membership(old(store).room_data@, uidx, rid) {
                    &&& final(store).room_data == old(store).room_data
                    &&& match final(user).room_data {
                        Some(rd) => room_data_equiv(
                            rd,
                            old(store).room_data@[membership_index(
                                old(store).room_data@,
                                uidx,
                                rid,
                            )],
                        ),
                        None => false,
                    }
                } else if old(store).room_data@.len() >= MAX_ROWS {
                    &&& final(store).room_data == old(store).room_data
                    &&& final(user).room_data is None
                } else {
                    &&& final(store).room_data@.len() == old(store).room_data@.len() + 1
                    &&& final(store).room_data@.subrange(0, old(store).room_data@.len() as int)
                        == old(store).room_data@
                    &&& ({
                        let nm = final(store).room_data@.last();
                        &&& nm.id == old(store).room_data@.len()
                        &&& nm.user_id == uidx
                        &&& nm.room_id@ == rid
                        &&& nm.social_credit == initial_social_credit
                        &&& nm.last_reactions@.len() == 0
                    })
                    &&& match final(user).room_data {
                        Some(rd) => room_data_equiv(rd, final(store).room_data@.last()),
                        None => false,
                    }
                }
            },
        },
{
    match room_id {
        None => {},
        Some(rid) => {
            match store.find_user_room_data(user.id, rid) {
                Some(rd) => {
                    user.room_data = Some(rd);
                },
                None => {
                    let proto = UserRoomData {
                        id: -1,
                        user_id: user.id,
                        room_id: rid.clone(),
                        social_credit: initial_social_credit,
                        last_reactions: Vec::new(),
                    };
                    match store.insert_user_room_data(&proto) {
                        Ok(_) => {
                            proof {
                                assert(is_membership_at(
                                    store.room_data@,
                                    store.room_data@.len() - 1,
                                    user.id as int,
                                    rid@,
                                ));
                            }
                            match store.find_user_room_data(user.id, rid) {
                                Some(rd) => {
                                    proof {
                                        let k = membership_index(
                                            store.room_data@,
                                            user.id as int,
                                            rid@,
                                        );
                                        assert(is_membership_at(
                                            store.room_data@,
                                            k,
                                            user.id as int,
                                            rid@,
                                        ));
                                        if k != store.room_data@.len() - 1 {
                                            assert(is_membership_at(
                                                old(store).room_data@,
                                                k,
                                                user.id as int,
                                                rid@,
                                            ));
                                        }
                                    }
                                    user.room_data = Some(rd);
                                },
                                None => {
                                    proof {
                                        assert(false);
                                    }
                                },
                            }
                        },
                        Err(_) => {
                            user.room_data = None;
                        },
                    }
                },
            }
        },
    }
}

/// Resolves an identity tag to its user, creating the user (with role
/// `user_type`) and, when a room is given, its room record (with score
/// `initial_social_credit`) on first sight.  A tag that does not parse
/// yields nothing.
pub fn setup_user(
    store: &mut Store,
    room_id: Option<&String>,
    user_tag: &String,
    user_type: UserType,
    initial_social_credit: i32,
) -> (r: Option<User>)
    requires
        old(store).inv(),
    ensures
        final(store).inv(),
        setup_user_post(
            *old(store),
            *final(store),
            room_id_view(room_id),
            user_tag@,
            user_type,
            initial_social_credit,
            r,
        ),
{
    match extract_userdata_from_string(user_tag.as_str()) {
        None => None,
        Some((username, domain)) => {
            match store.find_user(&username, &domain) {
                Some(mut u) => {
                    proof {
                        let k = user_index(store.users@, username@, domain@);
                        assert(is_user_at(store.users@, k, username@, domain@));
                        assert(u.id == k);
                    }
                    setup_user_room_data_for_room(store, room_id, &mut u, initial_social_credit);
                    Some(u)
                },
                None => {
                    let proto = User {
                        id: -1,
                        name: username.clone(),
                        url: domain.clone(),
                        user_type,
                        room_data: None,
                    };
                    match store.insert_user(&proto) {
                        Ok(_) => {
                            proof {
                                assert(is_user_at(
                                    store.users@,
                                    store.users@.len() - 1,
                                    username@,
                                    domain@,
                                ));
                            }
                            match store.find_user(&username, &domain) {
                                Some(mut u) => {
                                    proof {
                                        let k = user_index(store.users@, username@, domain@);
                                        assert(is_user_at(store.users@, k, username@, domain@));
                                        if k != store.users@.len() - 1 {
                                            assert(is_user_at(
                                                old(store).users@,
                                                k,
                                                username@,
                                                domain@,
                                            ));
                                        }
                                        assert(u.id == store.users@.len() - 1);
                                    }
                                    setup_user_room_data_for_room(
                                        store,
                                        room_id,
                                        &mut u,
                                        initial_social_credit,
                                    );
                                    Some(u)
                                },
                                None => {
                                    proof {
                                        assert(false);
                                    }
                                    None
                                },
                            }
                        },
                        Err(_) => None,
                    }
                },
            }
        },
    }
}

// ---------------------------------------------------------------------------
// Admin bootstrap and the !list scoreboard
// ---------------------------------------------------------------------------

/// Grants the configured administrator the Admin role: an existing user
/// with that identity is promoted; an absent one is created through
/// [`setup_user`].  Returns whether an admin user stands in the store
/// afterwards.
pub fn initial_admin_user_setup(
    store: &mut Store,
    username: &String,
    homeserver_url_relative: &str,
) -> (r: bool)
    requires
        old(store).inv(),
    ensures
        final(store).inv(),
        if has_user(old(store).users@, username@, homeserver_url_relative@) {
            ({
                let k = user_index(old(store).users@, username@, homeserver_url_relative@);
                &&& r
                &&& final(store).room_data == old(store).room_data
                &&& final(store).emojis == old(store).emojis
                &&& final(store).events == old(store).events
                &&& final(store).users@ == old(store).users@.update(
                    k,
                    (User { user_type: UserType::Admin, ..old(store).users@[k] }),
                )
            })
        } else {
            ({
                let tag = "@"@ + username@ + ":"@ + homeserver_url_relative@;
                exists|res: Option<User>|
                    {
                        &&& #[trigger] setup_user_post(
                            *old(store),
                            *final(store),
                            None,
                            tag,
                            UserType::Admin,
                            -1i32,
                            res,
                        )
                        &&& r == (res is Some)
                    }
            })
        },
{
    match store.find_user(username, &homeserver_url_relative.to_owned()) {
        Some(admin) => {
            proof {
                let k = user_index(store.users@, username@, homeserver_url_relative@);
                assert(is_user_at(store.users@, k, username@, homeserver_url_relative@));
                assert(admin.id == k);
            }
            match admin.user_type {
                UserType::Admin => {
                    proof {
                        let k = user_index(store.users@, username@, homeserver_url_relative@);
                        assert(store.users@ =~= store.users@.update(
                            k,
                            (User { user_type: UserType::Admin, ..store.users@[k] }),
                        ));
                    }
                },
                _ => {
                    let promoted = User {
                        id: admin.id,
                        name: admin.name,
                        url: admin.url,
                        user_type: UserType::Admin,
                        room_data: None,
                    };
                    let _ = store.update_user(&promoted);
                },
            }
            true
        },
        None => {
            let mut tag = String::new();
            tag.append("@");
            tag.append(username.as_str());
            tag.append(":");
            tag.append(homeserver_url_relative);
            let res = setup_user(store, None, &tag, UserType::Admin, -1);
            let r = res.is_some();
            proof {
                assert(tag@ =~= "@"@ + username@ + ":"@ + homeserver_url_relative@);
            }
            r
        },
    }
}

/// The (name, score) pairs of every membership of one room, in row
/// order.
pub open spec fn room_user_entries(store: Store, room_id: Seq<char>) -> Seq<(Seq<char>, int)> {
    store.room_data@.filter(membership_room_pred(room_id)).map_values(
        |m: UserRoomData| (store.users@[m.user_id as int].name@, m.social_credit as int),
    )
}

/// The `!list` reply is exactly this: every user with a membership in
/// the room, sorted by descending score (ties in any order), each
/// rendered once as `name: score`; or the fixed no-scores reply for a
/// room without memberships.
pub open spec fn user_list_answer_spec(store: Store, room_id: Seq<char>, r: HtmlAndTextAnswer) -> bool {
    if room_user_entries(store, room_id).len() == 0 {
        r.text@ == "No Scores"@ && r.html@ == "No scores"@
    } else {
        exists|s: Seq<(String, i32)>|
            {
                &&& #[trigger] scores_sorted_desc(s)
                &&& entry_views(s).to_multiset() == room_user_entries(store, room_id).to_multiset()
                &&& r.text@ == scoreboard_text("Social Credit Scores: "@, s)
                &&& r.html@ == scoreboard_html("<h3>Social Credit Scores:</h3><br>"@, s)
            }
    }
}

/// The `!list` scoreboard for one room.
pub fn get_user_list_answer(store: &Store, room_id: &String) -> (r: HtmlAndTextAnswer)
    requires
        store.inv(),
    ensures
        user_list_answer_spec(*store, room_id@, r),
{
    let users = store.find_all_users_with_room_data(room_id);
    if users.len() == 0 {
        let empty = HtmlAndTextAnswer {
            text: String::new().concat("No Scores"),
            html: String::new().concat("No scores"),
        };
        proof {
            assert(Seq::<char>::empty() + "No Scores"@ =~= "No Scores"@);
            assert(Seq::<char>::empty() + "No scores"@ =~= "No scores"@);
        }
        return empty;
    }
    let ghost ms = store.room_data@.filter(membership_room_pred(room_id@));
    let mut entries: Vec<(String, i32)> = Vec::new();
    let mut i: usize = 0;
    while i < users.len()
        invariant
            store.inv(),
            i <= users@.len(),
            ms == store.room_data@.filter(membership_room_pred(room_id@)),
            users@.len() == ms.len(),
            forall|j: int|
                0 <= j < ms.len() ==> crate::store::user_joined_with(
                    #[trigger] users@[j],
                    store.users@[ms[j].user_id as int],
                    ms[j],
                ),
            entries@.len() == i,
            forall|j: int|
                0 <= j < i ==> (#[trigger] entries@[j]).0@ == room_user_entries(*store, room_id@)[j].0
                    && entries@[j].1 as int == room_user_entries(*store, room_id@)[j].1,
        decreases users@.len() - i,
    {
        let score: i32 = match &users[i].room_data {
            Some(rd) => rd.social_credit,
            None => {
                proof {
                    assert(false);
                }
                0
            },
        };
        let name = users[i].name.clone();
        entries.push((name, score));
        i = i + 1;
    }
    proof {
        assert(entry_views(entries@) =~= room_user_entries(*store, room_id@));
        reveal_strlit("Social Credit Scores: ");
        reveal_strlit("<h3>Social Credit Scores:</h3><br>");
    }
    scoreboard_answer(entries, "Social Credit Scores: ", "<h3>Social Credit Scores:</h3><br>")
}

} // verus!
