//! The values that nodes hold and exchange.
use vstd::prelude::*;

verus! {

/// The address of a node: the 256-bit hash that names its chain, as four words.
#[derive(Clone, Copy, Debug, PartialEq, Eq, Hash, Structural)]
pub struct NodeId {
    pub w0: u64,
    pub w1: u64,
    pub w2: u64,
    pub w3: u64,
}

/// The marker type of the application's interface.
#[derive(Clone, Copy, Debug)]
pub struct DannyGameAbi;

/// What a node is created with.
#[derive(Clone, Copy, Debug, PartialEq, Eq)]
pub struct ApplicationParameters {
    pub leaderboard_chain_id: Option<NodeId>,
}

impl Default for ApplicationParameters {
    /// Parameters that name no aggregator.
    fn default() -> (r: Self)
        ensures
            r.leaderboard_chain_id is None,
    {
        ApplicationParameters { leaderboard_chain_id: None }
    }
}

/// One player's best known score, as the aggregator records it.
#[derive(Clone, Debug, PartialEq, Eq)]
pub struct LeaderboardEntry {
    pub player_name: String,
    pub score: u64,
    /// Microseconds of the aggregator's clock when the record was written.
    pub timestamp: u64,
    /// The node that submitted the score.
    pub player_chain_id: NodeId,
}

/// The mathematical value of a `LeaderboardEntry`.
pub ghost struct EntryView {
    pub name: Seq<char>,
    pub score: u64,
    pub timestamp: u64,
    pub origin: NodeId,
}

impl View for LeaderboardEntry {
    type V = EntryView;

    open spec fn view(&self) -> EntryView {
        EntryView {
            name: self.player_name@,
            score: self.score,
            timestamp: self.timestamp,
            origin: self.player_chain_id,
        }
    }
}

/// The views of a sequence of entries, one by one.
pub open spec fn entries_view(s: Seq<LeaderboardEntry>) -> Seq<EntryView> {
    s.map_values(|e: LeaderboardEntry| e@)
}

impl LeaderboardEntry {
    pub fn new(player_name: String, score: u64, timestamp: u64, player_chain_id: NodeId) -> (r:
        Self)
        ensures
            r@ == (EntryView { name: player_name@, score, timestamp, origin: player_chain_id }),
    {
        LeaderboardEntry { player_name, score, timestamp, player_chain_id }
    }

    /// A copy of the entry with the same fields.
    pub fn duplicate(&self) -> (r: Self)
        ensures
            r@ == self@,
    {
        LeaderboardEntry {
            player_name: self.player_name.clone(),
            score: self.score,
            timestamp: self.timestamp,
            player_chain_id: self.player_chain_id,
        }
    }
}

/// A copy of a list of entries, entry by entry.
pub fn duplicate_entries(v: &Vec<LeaderboardEntry>) -> (r: Vec<LeaderboardEntry>)
    ensures
        entries_view(r@) == entries_view(v@),
{
    let mut r: Vec<LeaderboardEntry> = Vec::new();
    let mut i: usize = 0;
    while i < v.len()
        invariant
            i <= v@.len(),
            r@.len() == i,
            forall|k: int| 0 <= k < i ==> #[trigger] r@[k]@ == v@[k]@,
        decreases v@.len() - i,
    {
        r.push(v[i].duplicate());
        i = i + 1;
    }
    assert(entries_view(r@) =~= entries_view(v@));
    r
}

/// What a node's user asks of it.
#[derive(Clone, Debug, PartialEq, Eq)]
pub enum Operation {
    /// Add to the running counter.
    Increment { value: u64 },
    /// Record a best score and submit it; the same as `SetBestAndSubmit`.
    SetBest { best: u64 },
    /// Rename the local player; an empty name is ignored.
    SetPlayerName { name: String },
    /// Name the aggregator, once.
    SetLeaderboardChain { chain_id: NodeId },
    /// Ask the aggregator for its current leaderboard.
    RequestLeaderboard,
    /// Name the aggregator and the local player, once.
    SetupGame { leaderboard_chain_id: NodeId, player_name: String },
    /// Record a best score, submit it to the aggregator and reset the counter.
    SetBestAndSubmit { best: u64 },
}

/// The mathematical value of an `Operation`.
pub ghost enum OperationView {
    Increment { value: u64 },
    SetBest { best: u64 },
    SetPlayerName { name: Seq<char> },
    SetLeaderboardChain { chain_id: NodeId },
    RequestLeaderboard,
    SetupGame { leaderboard_chain_id: NodeId, player_name: Seq<char> },
    SetBestAndSubmit { best: u64 },
}

impl View for Operation {
    type V = OperationView;

    open spec fn view(&self) -> OperationView {
        match self {
            Operation::Increment { value } => OperationView::Increment { value: *value },
            Operation::SetBest { best } => OperationView::SetBest { best: *best },
            Operation::SetPlayerName { name } => OperationView::SetPlayerName { name: name@ },
            Operation::SetLeaderboardChain { chain_id } => OperationView::SetLeaderboardChain {
                chain_id: *chain_id,
            },
            Operation::RequestLeaderboard => OperationView::RequestLeaderboard,
            Operation::SetupGame { leaderboard_chain_id, player_name } => OperationView::SetupGame {
                leaderboard_chain_id: *leaderboard_chain_id,
                player_name: player_name@,
            },
            Operation::SetBestAndSubmit { best } => OperationView::SetBestAndSubmit { best: *best },
        }
    }
}

/// A message between nodes.
#[derive(Clone, Debug, PartialEq, Eq)]
pub enum DannyGameMessage {
    /// A player's best score, sent to the aggregator.
    SubmitScore { player_name: String, score: u64, player_chain_id: NodeId },
    /// A request for the aggregator's leaderboard, answered to `requester_chain_id`.
    RequestLeaderboard { requester_chain_id: NodeId },
    /// The aggregator's leaderboard, best first.
    LeaderboardResponse { leaderboard: Vec<LeaderboardEntry> },
}

/// The mathematical value of a `DannyGameMessage`.
pub ghost enum MessageView {
    SubmitScore { player_name: Seq<char>, score: u64, player_chain_id: NodeId },
    RequestLeaderboard { requester_chain_id: NodeId },
    LeaderboardResponse { leaderboard: Seq<EntryView> },
}

impl View for DannyGameMessage {
    type V = MessageView;

    open spec fn view(&self) -> MessageView {
        match self {
            DannyGameMessage::SubmitScore { player_name, score, player_chain_id } =>
                MessageView::SubmitScore {
                player_name: player_name@,
                score: *score,
                player_chain_id: *player_chain_id,
            },
            DannyGameMessage::RequestLeaderboard { requester_chain_id } =>
                MessageView::RequestLeaderboard { requester_chain_id: *requester_chain_id },
            DannyGameMessage::LeaderboardResponse { leaderboard } =>
                MessageView::LeaderboardResponse { leaderboard: entries_view(leaderboard@) },
        }
    }
}

/// A message that a step asks the runtime to send.
#[derive(Clone, Debug, PartialEq, Eq)]
pub struct Outbound {
    pub destination: NodeId,
    pub message: DannyGameMessage,
}

impl View for Outbound {
    type V = (NodeId, MessageView);

    open spec fn view(&self) -> (NodeId, MessageView) {
        (self.destination, self.message@)
    }
}

/// The mathematical value of an optional outbound message.
pub open spec fn outbound_view(o: Option<Outbound>) -> Option<(NodeId, MessageView)> {
    match o {
        Some(m) => Some(m@),
        None => None,
    }
}

/// What the runtime knows of how an inbound message arrived.
#[derive(Clone, Copy, Debug, PartialEq, Eq, Structural)]
pub enum MessageStatus {
    /// It reached the node it was addressed to.
    Delivered,
    /// It was refused and came back to the node that sent it.
    Bounced,
    /// The runtime could not tell.
    Unknown,
}

/// A condition that aborts a whole step: nothing is changed and nothing is sent.
#[derive(Clone, Copy, Debug, PartialEq, Eq, Structural)]
pub enum ContractError {
    /// The aggregator was already named; it can be named only once.
    AlreadyConfigured,
    /// The delivery status of an inbound message is unknown.
    UnknownDeliveryStatus,
    /// Adding to the running counter would pass the largest `u64`.
    CounterOverflow,
}

} // verus!
