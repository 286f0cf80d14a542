//! A leaderboard protocol between player nodes and one aggregator node.
//!
//! Every node runs the same state machine: operations from its own user and
//! messages from other nodes move it from one state to the next and may ask
//! for one outbound message. The runtime around the library loads the state,
//! hands in the event, sends what is asked for and stores the state again.
pub mod contract;
pub mod laws;
pub mod ranking;
pub mod service;
pub mod state;
pub mod types;

pub use contract::{find_player_index, DannyGameContract};
pub use ranking::{ranked_entries, rebuild_top_leaderboard, TOP_SIZE};
pub use service::{DannyGameService, QueryRoot};
pub use state::DannyGameState;
pub use types::{
    duplicate_entries, ApplicationParameters, ContractError, DannyGameAbi, DannyGameMessage,
    LeaderboardEntry, MessageStatus, NodeId, Operation, Outbound,
};
