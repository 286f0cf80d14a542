//! Read-only answers about a node's state.
use vstd::prelude::*;
use crate::contract::{find_player, find_player_index};
use crate::state::DannyGameState;
use crate::types::{duplicate_entries, entries_view, LeaderboardEntry, NodeId};

verus! {

/// The place of `name` in `board`, counted from one, as a `u32`.
pub open spec fn rank_of(board: Seq<crate::types::EntryView>, name: Seq<char>) -> Option<u32> {
    match find_player(board, name) {
        Some(i) => Some((i + 1) as u32),
        None => None,
    }
}

/// The queries that can be asked of one stored state.
pub struct QueryRoot {
    pub state: DannyGameState,
}

impl QueryRoot {
    pub fn new(state: DannyGameState) -> (r: Self)
        ensures
            r.state@ == state@,
    {
        QueryRoot { state }
    }

    /// The running counter.
    pub fn value(&self) -> (r: u64)
        ensures
            r == self.state@.value,
    {
        self.state.value
    }

    /// The last best score that was set.
    pub fn best(&self) -> (r: u64)
        ensures
            r == self.state@.best,
    {
        self.state.best
    }

    pub fn player_name(&self) -> (r: String)
        ensures
            r@ == self.state@.player_name,
    {
        self.state.player_name.clone()
    }

    /// The cached leaderboard, best first.
    pub fn leaderboard(&self) -> (r: Vec<LeaderboardEntry>)
        ensures
            entries_view(r@) == self.state@.top_leaderboard,
    {
        duplicate_entries(&self.state.top_leaderboard)
    }

    /// Whether this node is the aggregator.
    pub fn is_leaderboard_chain(&self) -> (r: bool)
        ensures
            r == self.state@.is_leaderboard_chain,
    {
        self.state.is_leaderboard_chain
    }

    /// The aggregator, if one was named.
    pub fn leaderboard_chain_id(&self) -> (r: Option<NodeId>)
        ensures
            r == self.state@.leaderboard_chain_id,
    {
        self.state.leaderboard_chain_id
    }

    /// The local player's place in the cached leaderboard, counted from one,
    /// or `None` when the player is not on it.
    pub fn my_rank(&self) -> (r: Option<u32>)
        ensures
            r == rank_of(self.state@.top_leaderboard, self.state@.player_name),
    {
        match find_player_index(&self.state.top_leaderboard, &self.state.player_name) {
            Some(i) => Some(#[verifier::truncate] ((i + 1) as u32)),
            None => None,
        }
    }
}

/// The read side of a node: it answers queries on the state it was loaded with.
pub struct DannyGameService {
    pub state: DannyGameState,
}

impl DannyGameService {
    pub fn new(state: DannyGameState) -> (r: Self)
        ensures
            r.state@ == state@,
    {
        DannyGameService { state }
    }

    /// The queries on the loaded state.
    pub fn query_root(self) -> (r: QueryRoot)
        ensures
            r.state@ == self.state@,
    {
        QueryRoot::new(self.state)
    }
}

} // verus!
