//! A user's reputation record in one room: the current score and the
//! recent-reaction history that feeds the sliding-window rate limiter.

use vstd::prelude::*;
use crate::user_reaction::UserReaction;

verus! {

/// The largest rate-limit window, in minutes, whose length in seconds still
/// fits in an `i32`.
pub const MAX_REACTION_PERIOD_MINUTES: i32 = 35791394;

/// Per-user, per-room reputation record.
pub struct UserRoomData {
    pub id: i32,
    pub user_id: i32,
    pub room_id: String,
    pub social_credit: i32,
    pub last_reactions: Vec<UserReaction>,
}

/// A reaction at time `t` still counts against the window of `psecs`
/// seconds ending at `now`; a timestamp in the future always counts.
pub open spec fn reaction_is_recent(t: u64, now: u64, psecs: int) -> bool {
    t + psecs >= now
}

/// The recency test as a predicate on records, for a fixed window.
pub open spec fn recent_pred(now: u64, period_min: int) -> spec_fn(UserReaction) -> bool {
    |r: UserReaction| reaction_is_recent(r.time, now, period_min * 60)
}

/// The records of `rs` still inside the window.
pub open spec fn recent_reactions(rs: Seq<UserReaction>, now: u64, period_min: int) -> Seq<
    UserReaction,
> {
    rs.filter(recent_pred(now, period_min))
}

/// The latest timestamp among `rs`; 0 for an empty history.
pub open spec fn latest_time(rs: Seq<UserReaction>) -> u64
    decreases rs.len(),
{
    if rs.len() == 0 {
        0u64
    } else {
        let m = latest_time(rs.drop_last());
        if rs.last().time > m {
            rs.last().time
        } else {
            m
        }
    }
}

/// Everything a filter keeps was in the sequence it filtered.
pub proof fn lemma_filter_subset<A>(s: Seq<A>, pred: spec_fn(A) -> bool)
    ensures
        forall|i: int| 0 <= i < s.filter(pred).len() ==> s.contains(#[trigger] s.filter(pred)[i]),
    decreases s.len(),
{
    reveal(Seq::filter);
    if s.len() > 0 {
        let head = s.drop_last();
        lemma_filter_subset(head, pred);
        assert forall|i: int| 0 <= i < s.filter(pred).len() implies s.contains(
            #[trigger] s.filter(pred)[i],
        ) by {
            if i < head.filter(pred).len() {
                assert(head.contains(head.filter(pred)[i]));
                let j = choose|j: int| 0 <= j < head.len() && head[j] == head.filter(pred)[i];
                assert(s[j] == s.filter(pred)[i]);
            } else {
                assert(s[s.len() - 1] == s.filter(pred)[i]);
            }
        }
    }
}

/// The latest timestamp of a non-empty history belongs to one of its
/// records.
pub proof fn lemma_latest_time_mem(rs: Seq<UserReaction>)
    requires
        rs.len() > 0,
    ensures
        exists|i: int| 0 <= i < rs.len() && #[trigger] rs[i].time == latest_time(rs),
    decreases rs.len(),
{
    if rs.len() == 1 {
        assert(rs.drop_last() =~= Seq::<UserReaction>::empty());
        assert(latest_time(Seq::<UserReaction>::empty()) == 0);
        assert(rs[0].time == latest_time(rs));
    } else {
        let m = latest_time(rs.drop_last());
        if rs.last().time > m {
            assert(rs[rs.len() - 1].time == latest_time(rs));
        } else {
            lemma_latest_time_mem(rs.drop_last());
            let i = choose|i: int|
                0 <= i < rs.drop_last().len() && #[trigger] rs.drop_last()[i].time == m;
            assert(rs[i].time == latest_time(rs));
        }
    }
}

/// What the rate limiter answers: 0 when fewer than `limit` recent
/// reactions stand in the window (or when the latest of them lies in the
/// future, failing open), else the seconds until the latest one leaves the
/// window.
pub open spec fn time_till_spec(
    rs: Seq<UserReaction>,
    now: u64,
    period_min: int,
    limit: int,
) -> int {
    let psecs = period_min * 60;
    let recent = recent_reactions(rs, now, period_min);
    if recent.len() < limit {
        0
    } else if recent.len() == 0 {
        0
    } else {
        let lt = latest_time(recent);
        if lt <= now {
            psecs - (now - lt)
        } else {
            0
        }
    }
}

/// The recency test, executably.
pub fn is_recent_exec(t: u64, now: u64, psecs: u64) -> (r: bool)
    ensures
        r == reaction_is_recent(t, now, psecs as int),
{
    if t > now {
        true
    } else {
        now - t <= psecs
    }
}

impl UserRoomData {
    /// Whether the owner of this record may perform a scoring reaction:
    /// returns 0 when allowed, else the seconds until allowed again.
    pub fn get_time_till_user_can_react(
        &self,
        now: u64,
        reaction_period_minutes: i32,
        reaction_limit: i32,
    ) -> (r: i64)
        requires
            0 <= reaction_period_minutes <= MAX_REACTION_PERIOD_MINUTES,
            0 <= reaction_limit,
        ensures
            r == time_till_spec(
                self.last_reactions@,
                now,
                reaction_period_minutes as int,
                reaction_limit as int,
            ),
            r >= 0,
    {
        broadcast use vstd::seq_lib::group_filter_ensures;

        let psecs: u64 = (reaction_period_minutes * 60) as u64;
        let ghost pred = recent_pred(now, reaction_period_minutes as int);
        let rs = &self.last_reactions;
        let mut cnt: usize = 0;
        let mut best: u64 = 0;
        let mut i: usize = 0;
        proof {
            reveal(Seq::filter);
            assert(rs@.take(0) =~= Seq::<UserReaction>::empty());
        }
        while i < rs.len()
            invariant
                i <= rs@.len(),
                psecs == reaction_period_minutes * 60,
                pred == recent_pred(now, reaction_period_minutes as int),
                cnt == rs@.take(i as int).filter(pred).len(),
                cnt <= i,
                cnt > 0 ==> best == latest_time(rs@.take(i as int).filter(pred)),
            decreases rs@.len() - i,
        {
            let ghost pre = rs@.take(i as int);
            let ghost post = rs@.take(i + 1 as int);
            proof {
                reveal(Seq::filter);
                assert(post.drop_last() =~= pre);
                assert(post.last() == rs@[i as int]);
            }
            let t = rs[i].time;
            if is_recent_exec(t, now, psecs) {
                proof {
                    assert(post.filter(pred) == pre.filter(pred).push(rs@[i as int]));
                    assert(post.filter(pred).drop_last() =~= pre.filter(pred));
                    assert(post.filter(pred).last() == rs@[i as int]);
                    if pre.filter(pred).len() == 0 {
                        assert(pre.filter(pred) =~= Seq::<UserReaction>::empty());
                        assert(latest_time(Seq::<UserReaction>::empty()) == 0);
                    }
                    let lt_pre = latest_time(pre.filter(pred));
                    assert(latest_time(post.filter(pred)) == if rs@[i as int].time > lt_pre {
                        rs@[i as int].time
                    } else {
                        lt_pre
                    });
                }
                if cnt == 0 || t > best {
                    best = t;
                }
                cnt = cnt + 1;
            } else {
                proof {
                    assert(post.filter(pred) == pre.filter(pred));
                }
            }
            i = i + 1;
        }
        proof {
            assert(rs@.take(rs@.len() as int) =~= rs@);
        }
        if cnt < reaction_limit as usize {
            return 0;
        }
        if cnt == 0 {
            return 0;
        }
        let ghost recent = recent_reactions(rs@, now, reaction_period_minutes as int);
        if best <= now {
            proof {
                lemma_latest_time_mem(recent);
                let k = choose|k: int|
                    0 <= k < recent.len() && #[trigger] recent[k].time == latest_time(recent);
                assert(pred(recent[k]));
            }
            let since: u64 = now - best;
            (psecs - since) as i64
        } else {
            0
        }
    }

    /// Appends a reaction performed now against `message_event_id`, then
    /// prunes every record that has left the window, keeping the record
    /// just added.
    pub fn add_reaction(&mut self, now: u64, reaction_period_minutes: i32, message_event_id: String)
        requires
            0 <= reaction_period_minutes <= MAX_REACTION_PERIOD_MINUTES,
        ensures
            final(self).id == old(self).id,
            final(self).user_id == old(self).user_id,
            final(self).room_id == old(self).room_id,
            final(self).social_credit == old(self).social_credit,
            final(self).last_reactions@ == recent_reactions(
                old(self).last_reactions@.push(
                    UserReaction {
                        id: -1i32,
                        user_room_data_id: old(self).id,
                        time: now,
                        message_event_id,
                    },
                ),
                now,
                reaction_period_minutes as int,
            ),
    {
        let psecs: u64 = (reaction_period_minutes * 60) as u64;
        let ghost pred = recent_pred(now, reaction_period_minutes as int);
        let reaction = UserReaction::new(self.id, now, message_event_id);
        self.last_reactions.push(reaction);
        let ghost all = self.last_reactions@;
        let mut kept: Vec<UserReaction> = Vec::new();
        let mut i: usize = 0;
        proof {
            reveal(Seq::filter);
            assert(all.take(0) =~= Seq::<UserReaction>::empty());
        }
        while i < self.last_reactions.len()
            invariant
                i <= all.len(),
                self.last_reactions@ == all,
                psecs == reaction_period_minutes * 60,
                pred == recent_pred(now, reaction_period_minutes as int),
                kept@ == all.take(i as int).filter(pred),
            decreases all.len() - i,
        {
            let ghost pre = all.take(i as int);
            let ghost post = all.take(i + 1 as int);
            proof {
                reveal(Seq::filter);
                assert(post.drop_last() =~= pre);
                assert(post.last() == all[i as int]);
            }
            if is_recent_exec(self.last_reactions[i].time, now, psecs) {
                let r = self.last_reactions[i].clone();
                kept.push(r);
            }
            i = i + 1;
        }
        proof {
            assert(all.take(all.len() as int) =~= all);
        }
        self.last_reactions = kept;
    }
}

/// Field-wise agreement of two room records, with the reaction history
/// compared as a sequence.
pub open spec fn room_data_equiv(a: UserRoomData, b: UserRoomData) -> bool {
    &&& a.id == b.id
    &&& a.user_id == b.user_id
    &&& a.room_id@ == b.room_id@
    &&& a.social_credit == b.social_credit
    &&& a.last_reactions@ == b.last_reactions@
}

impl Clone for UserRoomData {
    fn clone(&self) -> (r: Self)
        ensures
            room_data_equiv(r, *self),
    {
        let mut reactions: Vec<UserReaction> = Vec::new();
        let mut i: usize = 0;
        while i < self.last_reactions.len()
            invariant
                i <= self.last_reactions@.len(),
                reactions@ == self.last_reactions@.subrange(0, i as int),
            decreases self.last_reactions@.len() - i,
        {
            let r = self.last_reactions[i].clone();
            reactions.push(r);
            i = i + 1;
            proof {
                assert(reactions@ =~= self.last_reactions@.subrange(0, i as int));
            }
        }
        proof {
            assert(self.last_reactions@.subrange(0, self.last_reactions@.len() as int)
                =~= self.last_reactions@);
        }
        UserRoomData {
            id: self.id,
            user_id: self.user_id,
            room_id: self.room_id.clone(),
            social_credit: self.social_credit,
            last_reactions: reactions,
        }
    }
}

} // verus!
