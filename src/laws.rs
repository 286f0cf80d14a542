//! What holds of the protocol over every state and every sequence of events.
use vstd::prelude::*;
use crate::contract::{
    find_player, lemma_merge_finds, merge_score, message_step, operation_step, record_score,
};
use crate::ranking::{lemma_ranked, ranked, sorted_desc, top_k, TOP_SIZE};
use crate::state::StateView;
use crate::types::{ContractError, EntryView, MessageStatus, MessageView, NodeId, OperationView};

verus! {

/// Submitting the same score for the same player a second time, from any
/// node and at any later time, changes nothing at the aggregator and sends
/// nothing: the state is the one a single submission leaves.
pub proof fn lemma_submit_idempotent(
    s: StateView,
    me: NodeId,
    name: Seq<char>,
    score: u64,
    first_origin: NodeId,
    second_origin: NodeId,
    first_time: u64,
    second_time: u64,
)
    ensures
        ({
            let m1 = MessageView::SubmitScore {
                player_name: name,
                score,
                player_chain_id: first_origin,
            };
            let m2 = MessageView::SubmitScore {
                player_name: name,
                score,
                player_chain_id: second_origin,
            };
            let once = message_step(s, me, MessageStatus::Delivered, first_time, m1);
            once is Ok && once->Ok_0.1 is None && message_step(
                once->Ok_0.0,
                me,
                MessageStatus::Delivered,
                second_time,
                m2,
            ) == once
        }),
{
    if s.is_leaderboard_chain {
        lemma_merge_finds(s.leaderboard, name, score, first_origin, first_time);
        let s1 = record_score(s, name, score, first_origin, first_time);
        assert(record_score(s1, name, score, second_origin, second_time) == s1);
    }
}

/// The aggregator's state after the submissions `subs` for player `name`,
/// one after another; each is a score, the submitting node and the time of arrival.
pub open spec fn submit_all(
    s: StateView,
    me: NodeId,
    name: Seq<char>,
    subs: Seq<(u64, NodeId, u64)>,
) -> StateView
    decreases subs.len(),
{
    if subs.len() == 0 {
        s
    } else {
        let prev = submit_all(s, me, name, subs.drop_last());
        let (score, origin, now) = subs.last();
        let m = MessageView::SubmitScore { player_name: name, score, player_chain_id: origin };
        match message_step(prev, me, MessageStatus::Delivered, now, m) {
            Ok((next, _)) => next,
            Err(_) => prev,
        }
    }
}

/// After any non-empty sequence of submissions for a player the aggregator
/// had no record of, in whatever order they arrive, the stored score is
/// the highest score submitted.
pub proof fn lemma_stored_score_is_max(
    s: StateView,
    me: NodeId,
    name: Seq<char>,
    subs: Seq<(u64, NodeId, u64)>,
)
    requires
        s.is_leaderboard_chain,
        find_player(s.leaderboard, name) is None,
        subs.len() > 0,
    ensures
        ({
            let t = submit_all(s, me, name, subs).leaderboard;
            &&& find_player(t, name) is Some
            &&& forall|k: int|
                0 <= k < subs.len() ==> #[trigger] subs[k].0 <= t[find_player(t, name)->Some_0].score
            &&& exists|k: int|
                0 <= k < subs.len() && #[trigger] subs[k].0 == t[find_player(
                    t,
                    name,
                )->Some_0].score
        }),
    decreases subs.len(),
{
    let p = subs.drop_last();
    let (score, origin, now) = subs.last();
    let last = subs.len() - 1;
    if p.len() == 0 {
        lemma_merge_finds(s.leaderboard, name, score, origin, now);
        assert(subs[0].0 == score);
    } else {
        lemma_stored_score_is_max(s, me, name, p);
        let prev = submit_all(s, me, name, p);
        lemma_submit_keeps_role(s, me, name, p);
        let i = find_player(prev.leaderboard, name)->Some_0;
        lemma_merge_finds(prev.leaderboard, name, score, origin, now);
        let t = submit_all(s, me, name, subs).leaderboard;
        assert(t == merge_score(prev.leaderboard, name, score, origin, now).0);
        assert forall|k: int| 0 <= k < subs.len() implies #[trigger] subs[k].0 <= t[i].score by {
            if k < last {
                assert(subs[k] == p[k]);
            }
        }
        if score > prev.leaderboard[i].score {
            assert(subs[last].0 == t[i].score);
        } else {
            let k = choose|k: int| 0 <= k < p.len() && #[trigger] p[k].0 == prev.leaderboard[i].score;
            assert(subs[k] == p[k]);
        }
    }
}

/// The score that the aggregator ends up storing for a new player depends
/// only on which scores were submitted, not on their order, their senders or
/// their times of arrival.
pub proof fn lemma_arrival_order_irrelevant(
    s: StateView,
    me: NodeId,
    name: Seq<char>,
    a: Seq<(u64, NodeId, u64)>,
    b: Seq<(u64, NodeId, u64)>,
)
    requires
        s.is_leaderboard_chain,
        find_player(s.leaderboard, name) is None,
        a.len() > 0,
        b.len() > 0,
        forall|k: int| 0 <= k < a.len() ==> exists|j: int| 0 <= j < b.len() && #[trigger] b[j].0 == #[trigger] a[k].0,
        forall|j: int| 0 <= j < b.len() ==> exists|k: int| 0 <= k < a.len() && #[trigger] a[k].0 == #[trigger] b[j].0,
    ensures
        ({
            let ta = submit_all(s, me, name, a).leaderboard;
            let tb = submit_all(s, me, name, b).leaderboard;
            ta[find_player(ta, name)->Some_0].score == tb[find_player(tb, name)->Some_0].score
        }),
{
    lemma_stored_score_is_max(s, me, name, a);
    lemma_stored_score_is_max(s, me, name, b);
    let ta = submit_all(s, me, name, a).leaderboard;
    let tb = submit_all(s, me, name, b).leaderboard;
    let x = ta[find_player(ta, name)->Some_0].score;
    let y = tb[find_player(tb, name)->Some_0].score;
    let ka = choose|k: int| 0 <= k < a.len() && #[trigger] a[k].0 == x;
    let jb = choose|j: int| 0 <= j < b.len() && #[trigger] b[j].0 == a[ka].0;
    assert(b[jb].0 <= y);
    let kb = choose|k: int| 0 <= k < b.len() && #[trigger] b[k].0 == y;
    let ja = choose|j: int| 0 <= j < a.len() && #[trigger] a[j].0 == b[kb].0;
    assert(a[ja].0 <= x);
}

/// Submissions leave the aggregator the aggregator.
pub proof fn lemma_submit_keeps_role(
    s: StateView,
    me: NodeId,
    name: Seq<char>,
    subs: Seq<(u64, NodeId, u64)>,
)
    requires
        s.is_leaderboard_chain,
    ensures
        submit_all(s, me, name, subs).is_leaderboard_chain,
    decreases subs.len(),
{
    if subs.len() > 0 {
        lemma_submit_keeps_role(s, me, name, subs.drop_last());
    }
}

/// The leaderboard of a table of N records holds min(N, TOP_SIZE) of them,
/// sorted by score, best first; each is a record of the table, and every
/// record left out scores no more than the last one kept.
pub proof fn lemma_top_k(t: Seq<EntryView>)
    ensures
        top_k(t).len() == if t.len() <= TOP_SIZE {
            t.len()
        } else {
            TOP_SIZE as nat
        },
        sorted_desc(top_k(t)),
        forall|i: int| 0 <= i < top_k(t).len() ==> t.contains(#[trigger] top_k(t)[i]),
        forall|x: EntryView|
            #[trigger] t.contains(x) && !top_k(t).contains(x) ==> x.score <= top_k(t).last().score,
{
    lemma_ranked(t);
    let r = ranked(t);
    let top = top_k(t);
    assert forall|i: int| 0 <= i < top.len() implies t.contains(#[trigger] top[i]) by {
        assert(top[i] == r[i]);
        vstd::seq_lib::to_multiset_contains(r, r[i]);
        assert(r.contains(r[i]));
        vstd::seq_lib::to_multiset_contains(t, r[i]);
    }
    assert forall|x: EntryView| #[trigger]
        t.contains(x) && !top.contains(x) implies x.score <= top.last().score by {
        vstd::seq_lib::to_multiset_contains(t, x);
        vstd::seq_lib::to_multiset_contains(r, x);
        let k = choose|k: int| 0 <= k < r.len() && r[k] == x;
        if k < top.len() {
            assert(top[k] == x);
        } else {
            assert(top.last() == r[TOP_SIZE - 1]);
        }
    }
}

/// A node's aggregator can be named only once: after a first naming from an
/// unnamed state, which makes the node the aggregator exactly when it is the
/// node named, every later naming, of any node, fails.
pub proof fn lemma_configure_once(
    s: StateView,
    me: NodeId,
    first: OperationView,
    second: OperationView,
)
    requires
        s.leaderboard_chain_id is None,
        first is SetupGame || first is SetLeaderboardChain,
        second is SetupGame || second is SetLeaderboardChain,
    ensures
        ({
            let once = operation_step(s, me, first);
            let named = match first {
                OperationView::SetupGame { leaderboard_chain_id, .. } => leaderboard_chain_id,
                OperationView::SetLeaderboardChain { chain_id } => chain_id,
                _ => me,
            };
            &&& once is Ok
            &&& once->Ok_0.0.leaderboard_chain_id == Some(named)
            &&& once->Ok_0.0.is_leaderboard_chain == (me == named)
            &&& operation_step(once->Ok_0.0, me, second) == Err::<
                (StateView, Option<(NodeId, MessageView)>),
                ContractError,
            >(ContractError::AlreadyConfigured)
        }),
{
}

/// A bounced message changes nothing and sends nothing, whatever it holds.
pub proof fn lemma_bounce_ignored(s: StateView, me: NodeId, now: u64, m: MessageView)
    ensures
        message_step(s, me, MessageStatus::Bounced, now, m) == Ok::<
            (StateView, Option<(NodeId, MessageView)>),
            ContractError,
        >((s, None)),
{
}

} // verus!
