//! The leaderboard: every record, ranked by score, best first, cut to ten.
//!
//! The ranking is a stable sort: records with equal scores keep the order in
//! which the score table holds them.
use vstd::prelude::*;
use vstd::seq_lib::{to_multiset_build, to_multiset_insert};
use crate::types::{entries_view, EntryView, LeaderboardEntry};

verus! {

/// How many records the leaderboard holds at most.
pub const TOP_SIZE: usize = 10;

/// Where `x` goes into `s` when it is placed after every record that scores at
/// least as much: before the first record that scores below it.
pub open spec fn slot(s: Seq<EntryView>, x: EntryView) -> nat
    decreases s.len(),
{
    if s.len() == 0 {
        0
    } else if s[0].score < x.score {
        0
    } else {
        1 + slot(s.drop_first(), x)
    }
}

/// The records of `t` sorted by score, best first; equal scores keep their order in `t`.
pub open spec fn ranked(t: Seq<EntryView>) -> Seq<EntryView>
    decreases t.len(),
{
    if t.len() == 0 {
        Seq::empty()
    } else {
        let r = ranked(t.drop_last());
        r.insert(slot(r, t.last()) as int, t.last())
    }
}

/// The first `TOP_SIZE` records of the ranking of `t`, or all of them if there are fewer.
pub open spec fn top_k(t: Seq<EntryView>) -> Seq<EntryView> {
    let r = ranked(t);
    if r.len() <= TOP_SIZE {
        r
    } else {
        r.subrange(0, TOP_SIZE as int)
    }
}

/// Scores never rise from one record to the next.
pub open spec fn sorted_desc(s: Seq<EntryView>) -> bool {
    forall|i: int, j: int| 0 <= i < j < s.len() ==> s[i].score >= s[j].score
}

/// The slot is the first place whose record scores below `x`.
pub proof fn lemma_slot(s: Seq<EntryView>, x: EntryView)
    ensures
        slot(s, x) <= s.len(),
        forall|k: int| 0 <= k < slot(s, x) ==> s[k].score >= x.score,
        slot(s, x) < s.len() ==> s[slot(s, x) as int].score < x.score,
    decreases s.len(),
{
    if s.len() > 0 && s[0].score >= x.score {
        lemma_slot(s.drop_first(), x);
        assert forall|k: int| 0 <= k < slot(s, x) implies s[k].score >= x.score by {
            if k > 0 {
                assert(s[k] == s.drop_first()[k - 1]);
            }
        }
    }
}

/// A place `j` that follows only records scoring at least `x`, and stands
/// before one that scores below it or at the end, is the slot.
pub proof fn lemma_slot_at(s: Seq<EntryView>, x: EntryView, j: int)
    requires
        0 <= j <= s.len(),
        forall|k: int| 0 <= k < j ==> s[k].score >= x.score,
        j < s.len() ==> s[j].score < x.score,
    ensures
        slot(s, x) == j,
    decreases s.len(),
{
    if s.len() > 0 && j > 0 {
        assert forall|k: int| 0 <= k < j - 1 implies s.drop_first()[k].score >= x.score by {
            assert(s.drop_first()[k] == s[k + 1]);
        }
        lemma_slot_at(s.drop_first(), x, j - 1);
    }
}

/// The ranking holds the records of `t`, as many times each, sorted best first.
pub proof fn lemma_ranked(t: Seq<EntryView>)
    ensures
        ranked(t).len() == t.len(),
        ranked(t).to_multiset() == t.to_multiset(),
        sorted_desc(ranked(t)),
    decreases t.len(),
{
    if t.len() > 0 {
        let p = t.drop_last();
        let x = t.last();
        lemma_ranked(p);
        let r = ranked(p);
        let j = slot(r, x) as int;
        lemma_slot(r, x);
        to_multiset_insert(r, j, x);
        assert(t =~= p.push(x));
        to_multiset_build(p, x);
        let q = r.insert(j, x);
        assert forall|a: int, b: int| 0 <= a < b < q.len() implies q[a].score >= q[b].score by {
            if b < j {
            } else if b == j {
            } else if a < j {
                assert(q[b] == r[b - 1]);
            } else if a == j {
                assert(q[b] == r[b - 1]);
                assert(r[j].score < x.score);
                assert(r[j].score >= r[b - 1].score);
            } else {
                assert(q[a] == r[a - 1]);
                assert(q[b] == r[b - 1]);
            }
        }
    } else {
        assert(t =~= Seq::empty());
    }
}

/// The records of `table` ranked by score, best first, ties in table order.
pub fn ranked_entries(table: &Vec<LeaderboardEntry>) -> (r: Vec<LeaderboardEntry>)
    ensures
        entries_view(r@) == ranked(entries_view(table@)),
{
    let ghost t = entries_view(table@);
    let mut r: Vec<LeaderboardEntry> = Vec::new();
    let mut i: usize = 0;
    while i < table.len()
        invariant
            i <= table@.len(),
            t == entries_view(table@),
            entries_view(r@) == ranked(t.subrange(0, i as int)),
        decreases table@.len() - i,
    {
        let e = table[i].duplicate();
        proof {
            lemma_ranked(t.subrange(0, i as int));
        }
        let mut j: usize = 0;
        while j < r.len() && r[j].score >= e.score
            invariant
                j <= r@.len(),
                r@.len() == i,
                forall|k: int| 0 <= k < j ==> #[trigger] r@[k].score >= e.score,
            decreases r@.len() - j,
        {
            j = j + 1;
        }
        let ghost rv = entries_view(r@);
        proof {
            assert forall|k: int| 0 <= k < j implies rv[k].score >= e@.score by {
                assert(r@[k].score >= e.score);
            }
            lemma_slot_at(rv, e@, j as int);
        }
        r.insert(j, e);
        proof {
            assert(entries_view(r@) =~= rv.insert(j as int, e@));
            let s1 = t.subrange(0, i + 1);
            assert(s1.drop_last() =~= t.subrange(0, i as int));
            assert(s1.last() == e@);
        }
        i = i + 1;
    }
    assert(t.subrange(0, i as int) =~= t);
    r
}

/// The leaderboard of `table`: its best `TOP_SIZE` records, best first.
pub fn rebuild_top_leaderboard(table: &Vec<LeaderboardEntry>) -> (r: Vec<LeaderboardEntry>)
    ensures
        entries_view(r@) == top_k(entries_view(table@)),
{
    let mut r = ranked_entries(table);
    let ghost full = r@;
    r.truncate(TOP_SIZE);
    assert(entries_view(r@) =~= top_k(entries_view(table@)));
    r
}

} // verus!
