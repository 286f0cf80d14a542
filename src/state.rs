//! What a node keeps from one step to the next.
use vstd::prelude::*;
use crate::types::{entries_view, EntryView, LeaderboardEntry, NodeId};

verus! {

/// The whole persisted state of a node.
#[derive(Clone, Debug, PartialEq, Eq)]
pub struct DannyGameState {
    /// The running counter of the current run.
    pub value: u64,
    /// The last best score that was set.
    pub best: u64,
    pub player_name: String,
    /// The aggregator's score table, one record per player, in the order in
    /// which players first appeared.
    pub leaderboard: Vec<LeaderboardEntry>,
    /// The cached leaderboard, best first.
    pub top_leaderboard: Vec<LeaderboardEntry>,
    /// The aggregator, once it has been named.
    pub leaderboard_chain_id: Option<NodeId>,
    /// Whether this node is the aggregator.
    pub is_leaderboard_chain: bool,
}

/// The mathematical value of a `DannyGameState`.
pub ghost struct StateView {
    pub value: u64,
    pub best: u64,
    pub player_name: Seq<char>,
    pub leaderboard: Seq<EntryView>,
    pub top_leaderboard: Seq<EntryView>,
    pub leaderboard_chain_id: Option<NodeId>,
    pub is_leaderboard_chain: bool,
}

impl View for DannyGameState {
    type V = StateView;

    open spec fn view(&self) -> StateView {
        StateView {
            value: self.value,
            best: self.best,
            player_name: self.player_name@,
            leaderboard: entries_view(self.leaderboard@),
            top_leaderboard: entries_view(self.top_leaderboard@),
            leaderboard_chain_id: self.leaderboard_chain_id,
            is_leaderboard_chain: self.is_leaderboard_chain,
        }
    }
}

/// No two records of the score table are for the same player.
pub open spec fn names_unique(t: Seq<EntryView>) -> bool {
    forall|i: int, j: int|
        0 <= i < t.len() && 0 <= j < t.len() && i != j ==> t[i].name != t[j].name
}

impl StateView {
    /// The invariant of a node's state: one record per player.
    pub open spec fn wf(self) -> bool {
        names_unique(self.leaderboard)
    }
}

/// The state of a node that was just created for `player_name`.
pub open spec fn initial_state(player_name: Seq<char>) -> StateView {
    StateView {
        value: 0,
        best: 0,
        player_name,
        leaderboard: Seq::empty(),
        top_leaderboard: Seq::empty(),
        leaderboard_chain_id: None,
        is_leaderboard_chain: false,
    }
}

impl DannyGameState {
    /// A fresh state for a node of `player_name`, with no aggregator named.
    pub fn new(player_name: String) -> (r: Self)
        ensures
            r@ == initial_state(player_name@),
            r@.wf(),
    {
        let r = DannyGameState {
            value: 0,
            best: 0,
            player_name,
            leaderboard: Vec::new(),
            top_leaderboard: Vec::new(),
            leaderboard_chain_id: None,
            is_leaderboard_chain: false,
        };
        assert(r@.leaderboard =~= Seq::empty());
        assert(r@.top_leaderboard =~= Seq::empty());
        r
    }
}

} // verus!
