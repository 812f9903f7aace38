//! The engine's cross-function laws, each proved from the contracts in
//! the other modules: at-most-once event handling, the additivity of
//! reaction scoring, the two faces of the rate limiter, and the
//! harmlessness of self-reactions.

use vstd::prelude::*;
use crate::event_handler::EngineAction;
use crate::event_handler::EventHandler;
use crate::user::HtmlAndTextAnswer;
use crate::event_handler::InboundEvent;
use crate::event_handler::PendingReaction;
use crate::event_handler::handle_event_post;
use crate::event_handler::resume_reaction_post;
use crate::store::has_event;
use crate::store::is_event_at;
use crate::user_reaction::UserReaction;
use crate::user_room_data::latest_time;
use crate::user_room_data::lemma_latest_time_mem;
use crate::user_room_data::recent_pred;
use crate::user_room_data::recent_reactions;
use crate::user_room_data::time_till_spec;
use crate::user_util::parse_user_tag;

verus! {

// ---------------------------------------------------------------------------
// At-most-once handling
// ---------------------------------------------------------------------------

/// Handling any event leaves it marked: afterwards the ledger knows its
/// id.
pub proof fn lemma_event_marked_after_handling(
    pre: EventHandler,
    post: EventHandler,
    ev: InboundEvent,
    now: u64,
    r: EngineAction,
)
    requires
        handle_event_post(pre, post, ev, now, r),
    ensures
        has_event(post.store.events@, ev.event_id@),
{
    if has_event(pre.store.events@, ev.event_id@) {
        let i = choose|i: int| is_event_at(pre.store.events@, i, ev.event_id@);
        assert(is_event_at(post.store.events@, i, ev.event_id@));
    } else {
        assert(is_event_at(
            post.store.events@,
            post.store.events@.len() - 1,
            ev.event_id@,
        ));
    }
}

/// Processing the same event id twice yields exactly one pass through
/// the engine: the second step changes nothing and emits nothing.
pub proof fn lemma_event_processed_once(
    pre: EventHandler,
    mid: EventHandler,
    post: EventHandler,
    ev: InboundEvent,
    now1: u64,
    now2: u64,
    r1: EngineAction,
    r2: EngineAction,
)
    requires
        handle_event_post(pre, mid, ev, now1, r1),
        handle_event_post(mid, post, ev, now2, r2),
    ensures
        post == mid,
        r2 is Done,
{
    lemma_event_marked_after_handling(pre, mid, ev, now1, r1);
}

// ---------------------------------------------------------------------------
// Additivity of reaction scoring
// ---------------------------------------------------------------------------

/// The sum of a sequence of score deltas.
pub open spec fn sum_of(deltas: Seq<int>) -> int
    decreases deltas.len(),
{
    if deltas.len() == 0 {
        0
    } else {
        sum_of(deltas.drop_last()) + deltas.last()
    }
}

/// A membership's score after reactions of these deltas land on it one
/// by one, each adding its delta as the success case of
/// [`resume_reaction_post`] guarantees.
pub open spec fn score_after(initial: int, deltas: Seq<int>) -> int
    decreases deltas.len(),
{
    if deltas.len() == 0 {
        initial
    } else {
        score_after(initial, deltas.drop_last()) + deltas.last()
    }
}

/// A score that starts at `initial` and takes registered-emoji reactions
/// of deltas d1..dN, none rate-limited, ends at `initial + (d1 + .. +
/// dN)`.
pub proof fn lemma_score_after_sums(initial: int, deltas: Seq<int>)
    ensures
        score_after(initial, deltas) == initial + sum_of(deltas),
    decreases deltas.len(),
{
    if deltas.len() > 0 {
        lemma_score_after_sums(initial, deltas.drop_last());
    }
}

/// Across any chain of engine states in which one membership takes one
/// reaction per step — its score moving by that reaction's delta, as the
/// success case of [`resume_reaction_post`] guarantees — the final score
/// is the first score plus the sum of the deltas.
pub proof fn lemma_scores_accumulate(states: Seq<EventHandler>, deltas: Seq<int>, k: int)
    requires
        states.len() == deltas.len() + 1,
        forall|i: int|
            0 <= i < deltas.len() ==> (#[trigger] states[i + 1]).store.room_data@[k].social_credit
                == states[i].store.room_data@[k].social_credit + deltas[i],
    ensures
        states.last().store.room_data@[k].social_credit == score_after(
            states[0].store.room_data@[k].social_credit as int,
            deltas,
        ),
        states.last().store.room_data@[k].social_credit == states[0].store.room_data@[
            k
        ].social_credit + sum_of(deltas),
    decreases deltas.len(),
{
    if deltas.len() == 0 {
    } else {
        lemma_scores_accumulate(states.drop_last(), deltas.drop_last(), k);
        assert(states.drop_last()[0] == states[0]);
        assert(states.drop_last().last() == states[states.len() - 2]);
        assert(states[deltas.len() - 1 + 1].store.room_data@[k].social_credit == states[deltas.len()
            - 1].store.room_data@[k].social_credit + deltas[deltas.len() - 1]);
    }
    lemma_score_after_sums(states[0].store.room_data@[k].social_credit as int, deltas);
}

// ---------------------------------------------------------------------------
// The rate limiter's two faces
// ---------------------------------------------------------------------------

/// A filter that keeps everything returns the whole sequence.
pub proof fn lemma_filter_all<A>(s: Seq<A>, pred: spec_fn(A) -> bool)
    requires
        forall|i: int| 0 <= i < s.len() ==> pred(#[trigger] s[i]),
    ensures
        s.filter(pred) == s,
    decreases s.len(),
{
    reveal(Seq::filter);
    if s.len() > 0 {
        lemma_filter_all(s.drop_last(), pred);
        assert(s.filter(pred) =~= s);
    } else {
        assert(s.filter(pred) =~= s);
    }
}

/// A filter that drops at least one element returns fewer elements.
pub proof fn lemma_filter_shorter<A>(s: Seq<A>, pred: spec_fn(A) -> bool, i: int)
    requires
        0 <= i < s.len(),
        !pred(s[i]),
    ensures
        s.filter(pred).len() < s.len(),
    decreases s.len(),
{
    reveal(Seq::filter);
    broadcast use vstd::seq_lib::group_filter_ensures;

    if i == s.len() - 1 {
        assert(s.drop_last().filter(pred).len() <= s.drop_last().len());
    } else {
        lemma_filter_shorter(s.drop_last(), pred, i);
    }
}

/// After `limit` reactions, all strictly inside the window ending `now`,
/// the limiter blocks: the time until the next reaction is positive.
pub proof fn lemma_rate_limited_after_limit(
    rs: Seq<UserReaction>,
    now: u64,
    period_min: int,
    limit: int,
)
    requires
        1 <= limit <= rs.len(),
        0 < period_min,
        forall|i: int|
            0 <= i < rs.len() ==> (#[trigger] rs[i]).time <= now && now - rs[i].time < period_min
                * 60,
    ensures
        time_till_spec(rs, now, period_min, limit) > 0,
{
    let pred = recent_pred(now, period_min);
    assert(forall|i: int| 0 <= i < rs.len() ==> pred(#[trigger] rs[i]));
    lemma_filter_all(rs, pred);
    let recent = recent_reactions(rs, now, period_min);
    assert(recent == rs);
    lemma_latest_time_mem(recent);
    let k = choose|k: int| 0 <= k < recent.len() && #[trigger] recent[k].time == latest_time(recent);
    assert(now - latest_time(recent) < period_min * 60);
}

/// Once any one of `limit` recorded reactions has left the window, the
/// limiter opens again: the time until the next reaction is zero.
pub proof fn lemma_can_react_after_window(
    rs: Seq<UserReaction>,
    now: u64,
    period_min: int,
    limit: int,
    expired: int,
)
    requires
        rs.len() == limit,
        0 <= expired < rs.len(),
        rs[expired].time + period_min * 60 < now,
    ensures
        time_till_spec(rs, now, period_min, limit) == 0,
{
    let pred = recent_pred(now, period_min);
    assert(!pred(rs[expired]));
    lemma_filter_shorter(rs, pred, expired);
}

// ---------------------------------------------------------------------------
// Self-reactions
// ---------------------------------------------------------------------------

/// A reaction whose recipient resolves to the sender's own identity
/// never changes any score: every membership that existed keeps its
/// score, any membership created along the way starts at the configured
/// initial score, and no reply is sent.
pub proof fn lemma_self_reaction_changes_no_score(
    pre: EventHandler,
    post: EventHandler,
    pending: PendingReaction,
    recipient_tag: Seq<char>,
    now: u64,
    r: Option<HtmlAndTextAnswer>,
)
    requires
        resume_reaction_post(pre, post, pending, recipient_tag, now, r),
        match parse_user_tag(recipient_tag) {
            Some(p) => p.0 == pending.sender_name@ && p.1 == pending.sender_url@,
            None => true,
        },
    ensures
        r is None,
        forall|j: int|
            0 <= j < pre.store.room_data@.len() ==> (#[trigger] post.store.room_data@[j]).social_credit
                == pre.store.room_data@[j].social_credit,
        forall|j: int|
            pre.store.room_data@.len() <= j < post.store.room_data@.len()
                ==> (#[trigger] post.store.room_data@[j]).social_credit
                == pre.initial_social_credit,
{
    match parse_user_tag(recipient_tag) {
        None => {
            assert(post.store == pre.store);
        },
        Some(parsed) => {
            if post.store.room_data@ =~= pre.store.room_data@ {
            }
            assert forall|j: int| 0 <= j < pre.store.room_data@.len() implies (
            #[trigger] post.store.room_data@[j]).social_credit
                == pre.store.room_data@[j].social_credit by {
                if post.store.room_data == pre.store.room_data {
                } else {
                    assert(post.store.room_data@[j] == post.store.room_data@.subrange(
                        0,
                        pre.store.room_data@.len() as int,
                    )[j]);
                }
            }
            assert forall|j: int|
                pre.store.room_data@.len() <= j < post.store.room_data@.len() implies (
            #[trigger] post.store.room_data@[j]).social_credit == pre.initial_social_credit by {
                assert(j == post.store.room_data@.len() - 1);
            }
        },
    }
}

} // verus!
