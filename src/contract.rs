//! The node's state machine: how an operation or an inbound message changes
//! the state, and which message, if any, goes out.
use vstd::prelude::*;
use crate::ranking::{rebuild_top_leaderboard, top_k};
use crate::state::{names_unique, DannyGameState, StateView};
use crate::types::{
    duplicate_entries, entries_view, outbound_view, ContractError, DannyGameMessage, EntryView,
    LeaderboardEntry, MessageStatus, MessageView, NodeId, Operation, OperationView, Outbound,
};

verus! {

/// What a step does: the next state and the message to send, or a fatal error.
pub type StepView = Result<(StateView, Option<(NodeId, MessageView)>), ContractError>;

/// `i` is the first place in `t` that holds a record for `name`.
pub open spec fn is_first_record(t: Seq<EntryView>, name: Seq<char>, i: int) -> bool {
    &&& 0 <= i < t.len()
    &&& t[i].name == name
    &&& forall|j: int| 0 <= j < i ==> #[trigger] t[j].name != name
}

/// Where `t` holds the record for `name`, if it holds one.
pub open spec fn find_player(t: Seq<EntryView>, name: Seq<char>) -> Option<int> {
    if exists|i: int| is_first_record(t, name, i) {
        Some(choose|i: int| is_first_record(t, name, i))
    } else {
        None
    }
}

/// The table after a submission of `score` for `name`, and whether it was
/// accepted: a new player is added at the end; a known one is replaced in
/// place only by a strictly higher score.
pub open spec fn merge_score(
    t: Seq<EntryView>,
    name: Seq<char>,
    score: u64,
    origin: NodeId,
    now: u64,
) -> (Seq<EntryView>, bool) {
    let rec = EntryView { name, score, timestamp: now, origin };
    match find_player(t, name) {
        None => (t.push(rec), true),
        Some(i) => if score > t[i].score {
            (t.update(i, rec), true)
        } else {
            (t, false)
        },
    }
}

/// A record for `name` at `i` means there is a first one.
pub proof fn lemma_first_exists(t: Seq<EntryView>, name: Seq<char>, i: int)
    requires
        0 <= i < t.len(),
        t[i].name == name,
    ensures
        exists|c: int| is_first_record(t, name, c),
    decreases i,
{
    if exists|j: int| 0 <= j < i && t[j].name == name {
        let j = choose|j: int| 0 <= j < i && t[j].name == name;
        lemma_first_exists(t, name, j);
    } else {
        assert(is_first_record(t, name, i));
    }
}

/// The first record for a name is found, and it is the only first one.
pub proof fn lemma_find_first(t: Seq<EntryView>, name: Seq<char>, i: int)
    requires
        is_first_record(t, name, i),
    ensures
        find_player(t, name) == Some(i),
{
    let c = choose|c: int| is_first_record(t, name, c);
    if c < i {
        assert(t[c].name != name);
    } else if c > i {
        assert(t[i].name != name);
    }
}

/// When nothing is found for a name, no record has it.
pub proof fn lemma_find_none(t: Seq<EntryView>, name: Seq<char>)
    requires
        find_player(t, name) is None,
    ensures
        forall|i: int| 0 <= i < t.len() ==> #[trigger] t[i].name != name,
{
    assert forall|i: int| 0 <= i < t.len() implies #[trigger] t[i].name != name by {
        if t[i].name == name {
            lemma_first_exists(t, name, i);
        }
    }
}

/// After a submission the table holds a record for the player, at the same
/// place as before if there was one, with the higher of the two scores.
pub proof fn lemma_merge_finds(
    t: Seq<EntryView>,
    name: Seq<char>,
    score: u64,
    origin: NodeId,
    now: u64,
)
    ensures
        ({
            let t2 = merge_score(t, name, score, origin, now).0;
            match find_player(t, name) {
                None => find_player(t2, name) == Some(t.len() as int) && t2[t.len() as int].score
                    == score,
                Some(i) => 0 <= i < t.len() && find_player(t2, name) == Some(i) && t2[i].score == if score
                    > t[i].score {
                    score
                } else {
                    t[i].score
                },
            }
        }),
{
    let t2 = merge_score(t, name, score, origin, now).0;
    match find_player(t, name) {
        None => {
            lemma_find_none(t, name);
            assert forall|j: int| 0 <= j < t.len() implies #[trigger] t2[j].name != name by {
                assert(t2[j] == t[j]);
            }
            assert(is_first_record(t2, name, t.len() as int));
            lemma_find_first(t2, name, t.len() as int);
        },
        Some(i) => {
            let c = choose|c: int| is_first_record(t, name, c);
            assert(is_first_record(t, name, i));
            assert forall|j: int| 0 <= j < i implies #[trigger] t2[j].name != name by {
                assert(t[j].name != name);
            }
            assert(is_first_record(t2, name, i));
            lemma_find_first(t2, name, i);
        },
    }
}

/// A submission keeps one record per player.
pub proof fn lemma_merge_keeps_unique(
    t: Seq<EntryView>,
    name: Seq<char>,
    score: u64,
    origin: NodeId,
    now: u64,
)
    requires
        names_unique(t),
    ensures
        names_unique(merge_score(t, name, score, origin, now).0),
{
    let t2 = merge_score(t, name, score, origin, now).0;
    if find_player(t, name) is None {
        lemma_find_none(t, name);
        assert forall|i: int, j: int|
            0 <= i < t2.len() && 0 <= j < t2.len() && i != j implies t2[i].name != t2[j].name by {
            if i < t.len() && j < t.len() {
                assert(t2[i] == t[i] && t2[j] == t[j]);
            } else if i < t.len() {
                assert(t2[i] == t[i]);
            } else {
                assert(t2[j] == t[j]);
            }
        }
    } else {
        let k = find_player(t, name)->Some_0;
        lemma_merge_finds(t, name, score, origin, now);
        assert forall|i: int, j: int|
            0 <= i < t2.len() && 0 <= j < t2.len() && i != j implies t2[i].name != t2[j].name by {
            assert(t2[i].name == t[i].name);
            assert(t2[j].name == t[j].name);
        }
    }
}

/// The aggregator's state after a submission: an accepted one also rebuilds
/// the leaderboard from the whole table.
pub open spec fn record_score(
    s: StateView,
    name: Seq<char>,
    score: u64,
    origin: NodeId,
    now: u64,
) -> StateView {
    let (t, accepted) = merge_score(s.leaderboard, name, score, origin, now);
    if accepted {
        StateView { leaderboard: t, top_leaderboard: top_k(t), ..s }
    } else {
        s
    }
}

/// Setting the best score: it is recorded, the counter goes back to zero, and
/// a player node that knows the aggregator submits it there.
pub open spec fn submit_step(s: StateView, me: NodeId, best: u64) -> StepView {
    let next = StateView { best, value: 0, ..s };
    if !s.is_leaderboard_chain && s.leaderboard_chain_id is Some {
        Ok(
            (
                next,
                Some(
                    (
                        s.leaderboard_chain_id->Some_0,
                        MessageView::SubmitScore {
                            player_name: s.player_name,
                            score: best,
                            player_chain_id: me,
                        },
                    ),
                ),
            ),
        )
    } else {
        Ok((next, None))
    }
}

/// Naming the aggregator: allowed once; the node is the aggregator exactly
/// when it is the node named.
pub open spec fn configure_step(
    s: StateView,
    me: NodeId,
    aggregator: NodeId,
    player_name: Seq<char>,
) -> StepView {
    if s.leaderboard_chain_id is Some {
        Err(ContractError::AlreadyConfigured)
    } else {
        Ok(
            (
                StateView {
                    leaderboard_chain_id: Some(aggregator),
                    is_leaderboard_chain: me == aggregator,
                    player_name,
                    ..s
                },
                None,
            ),
        )
    }
}

/// What operation `op` does on node `me` in state `s`.
pub open spec fn operation_step(s: StateView, me: NodeId, op: OperationView) -> StepView {
    match op {
        OperationView::Increment { value } => if s.value + value > u64::MAX {
            Err(ContractError::CounterOverflow)
        } else {
            Ok((StateView { value: (s.value + value) as u64, ..s }, None))
        },
        OperationView::SetBest { best } => submit_step(s, me, best),
        OperationView::SetBestAndSubmit { best } => submit_step(s, me, best),
        OperationView::SetPlayerName { name } => if name.len() > 0 {
            Ok((StateView { player_name: name, ..s }, None))
        } else {
            Ok((s, None))
        },
        OperationView::SetLeaderboardChain { chain_id } => configure_step(
            s,
            me,
            chain_id,
            s.player_name,
        ),
        OperationView::SetupGame { leaderboard_chain_id, player_name } => configure_step(
            s,
            me,
            leaderboard_chain_id,
            player_name,
        ),
        OperationView::RequestLeaderboard => if !s.is_leaderboard_chain
            && s.leaderboard_chain_id is Some {
            Ok(
                (
                    s,
                    Some(
                        (
                            s.leaderboard_chain_id->Some_0,
                            MessageView::RequestLeaderboard { requester_chain_id: me },
                        ),
                    ),
                ),
            )
        } else {
            Ok((s, None))
        },
    }
}

/// What message `m`, arriving at node `me` in state `s` with delivery status
/// `status` when the clock reads `now`, does.
pub open spec fn message_step(
    s: StateView,
    me: NodeId,
    status: MessageStatus,
    now: u64,
    m: MessageView,
) -> StepView {
    match status {
        MessageStatus::Unknown => Err(ContractError::UnknownDeliveryStatus),
        MessageStatus::Bounced => Ok((s, None)),
        MessageStatus::Delivered => match m {
            MessageView::SubmitScore { player_name, score, player_chain_id } => if s.is_leaderboard_chain {
                Ok((record_score(s, player_name, score, player_chain_id, now), None))
            } else {
                Ok((s, None))
            },
            MessageView::RequestLeaderboard { requester_chain_id } => if s.is_leaderboard_chain {
                Ok(
                    (
                        s,
                        Some(
                            (
                                requester_chain_id,
                                MessageView::LeaderboardResponse { leaderboard: s.top_leaderboard },
                            ),
                        ),
                    ),
                )
            } else {
                Ok((s, None))
            },
            MessageView::LeaderboardResponse { leaderboard } => Ok(
                (StateView { top_leaderboard: leaderboard, ..s }, None),
            ),
        },
    }
}

/// Every step keeps one record per player in the score table.
pub proof fn lemma_steps_keep_wf(
    s: StateView,
    me: NodeId,
    status: MessageStatus,
    now: u64,
    m: MessageView,
    op: OperationView,
)
    requires
        s.wf(),
    ensures
        message_step(s, me, status, now, m) is Ok ==> message_step(
            s,
            me,
            status,
            now,
            m,
        )->Ok_0.0.wf(),
        operation_step(s, me, op) is Ok ==> operation_step(s, me, op)->Ok_0.0.wf(),
{
    if let MessageView::SubmitScore { player_name, score, player_chain_id } = m {
        lemma_merge_keeps_unique(s.leaderboard, player_name, score, player_chain_id, now);
    }
}

/// A step's result and state after it agree with `expected`; on a fatal error
/// the state is as before.
pub open spec fn step_done(
    before: StateView,
    after: StateView,
    r: Result<Option<Outbound>, ContractError>,
    expected: StepView,
) -> bool {
    match expected {
        Ok((s, out)) => r is Ok && after == s && outbound_view(r->Ok_0) == out,
        Err(e) => r == Err::<Option<Outbound>, ContractError>(e) && after == before,
    }
}

/// Where `table` holds the record for `name`, found by a scan from the front.
pub fn find_player_index(table: &Vec<LeaderboardEntry>, name: &String) -> (r: Option<usize>)
    ensures
        match r {
            Some(i) => i < table.len() && find_player(entries_view(table@), name@) == Some(
                i as int,
            ),
            None => find_player(entries_view(table@), name@) is None,
        },
{
    let ghost t = entries_view(table@);
    let mut i: usize = 0;
    while i < table.len()
        invariant
            i <= table@.len(),
            t == entries_view(table@),
            forall|j: int| 0 <= j < i ==> #[trigger] t[j].name != name@,
        decreases table@.len() - i,
    {
        if table[i].player_name == *name {
            proof {
                assert(is_first_record(t, name@, i as int));
                let c = choose|c: int| is_first_record(t, name@, c);
                if c < i {
                    assert(t[c].name != name@);
                } else if c > i {
                    assert(t[i as int].name != name@);
                }
            }
            return Some(i);
        }
        assert(t[i as int].name != name@);
        i = i + 1;
    }
    proof {
        if exists|c: int| is_first_record(t, name@, c) {
            let c = choose|c: int| is_first_record(t, name@, c);
            assert(t[c].name != name@);
        }
    }
    None
}

/// One node: its state and its own address.
pub struct DannyGameContract {
    pub state: DannyGameState,
    pub chain_id: NodeId,
}

impl DannyGameContract {
    /// The node `chain_id` with the state that was stored for it.
    pub fn load(chain_id: NodeId, state: DannyGameState) -> (r: Self)
        ensures
            r.state@ == state@,
            r.chain_id == chain_id,
    {
        DannyGameContract { state, chain_id }
    }

    /// Creates the node's state for `player_name`, with no aggregator named
    /// and an empty leaderboard cache; the score table is kept.
    pub fn instantiate(&mut self, player_name: String)
        ensures
            final(self).state@ == (StateView {
                leaderboard: old(self).state@.leaderboard,
                ..crate::state::initial_state(player_name@)
            }),
            final(self).chain_id == old(self).chain_id,
    {
        self.state.value = 0;
        self.state.best = 0;
        self.state.player_name = player_name;
        self.state.top_leaderboard = Vec::new();
        self.state.leaderboard_chain_id = None;
        self.state.is_leaderboard_chain = false;
        assert(entries_view(self.state.top_leaderboard@) =~= Seq::empty());
    }

    /// Merges a submitted score into the score table and, when it is
    /// accepted, rebuilds the leaderboard.
    pub fn update_leaderboard(
        &mut self,
        player_name: String,
        score: u64,
        player_chain_id: NodeId,
        timestamp: u64,
    )
        ensures
            final(self).state@ == record_score(
                old(self).state@,
                player_name@,
                score,
                player_chain_id,
                timestamp,
            ),
            final(self).chain_id == old(self).chain_id,
    {
        let ghost t = old(self).state@.leaderboard;
        let ghost rec = EntryView {
            name: player_name@,
            score,
            timestamp,
            origin: player_chain_id,
        };
        match find_player_index(&self.state.leaderboard, &player_name) {
            None => {
                let e = LeaderboardEntry::new(player_name, score, timestamp, player_chain_id);
                self.state.leaderboard.push(e);
                assert(entries_view(self.state.leaderboard@) =~= t.push(rec));
            },
            Some(i) => {
                if score > self.state.leaderboard[i].score {
                    let e = LeaderboardEntry::new(player_name, score, timestamp, player_chain_id);
                    self.state.leaderboard.set(i, e);
                    assert(entries_view(self.state.leaderboard@) =~= t.update(i as int, rec));
                } else {
                    return ;
                }
            },
        }
        self.state.top_leaderboard = rebuild_top_leaderboard(&self.state.leaderboard);
    }

    /// Records `best`, resets the counter and, on a player node that knows
    /// the aggregator, asks for the score to be submitted there.
    fn submit_best(&mut self, best: u64) -> (r: Result<Option<Outbound>, ContractError>)
        ensures
            step_done(
                old(self).state@,
                final(self).state@,
                r,
                submit_step(old(self).state@, old(self).chain_id, best),
            ),
            final(self).chain_id == old(self).chain_id,
    {
        self.state.best = best;
        let mut out: Option<Outbound> = None;
        if !self.state.is_leaderboard_chain {
            if let Some(aggregator) = self.state.leaderboard_chain_id {
                let message = DannyGameMessage::SubmitScore {
                    player_name: self.state.player_name.clone(),
                    score: best,
                    player_chain_id: self.chain_id,
                };
                out = Some(Outbound { destination: aggregator, message });
            }
        }
        self.state.value = 0;
        Ok(out)
    }

    /// Names the aggregator, once, and with `player_name` the local player.
    fn configure(&mut self, aggregator: NodeId, player_name: Option<String>) -> (r: Result<
        Option<Outbound>,
        ContractError,
    >)
        ensures
            step_done(
                old(self).state@,
                final(self).state@,
                r,
                configure_step(
                    old(self).state@,
                    old(self).chain_id,
                    aggregator,
                    match player_name {
                        Some(n) => n@,
                        None => old(self).state@.player_name,
                    },
                ),
            ),
            final(self).chain_id == old(self).chain_id,
    {
        if self.state.leaderboard_chain_id.is_some() {
            return Err(ContractError::AlreadyConfigured);
        }
        self.state.leaderboard_chain_id = Some(aggregator);
        self.state.is_leaderboard_chain = self.chain_id == aggregator;
        if let Some(name) = player_name {
            self.state.player_name = name;
        }
        Ok(None)
    }

    /// Carries out an operation of the node's user.
    pub fn execute_operation(&mut self, operation: Operation) -> (r: Result<
        Option<Outbound>,
        ContractError,
    >)
        ensures
            step_done(
                old(self).state@,
                final(self).state@,
                r,
                operation_step(old(self).state@, old(self).chain_id, operation@),
            ),
            final(self).chain_id == old(self).chain_id,
            old(self).state@.wf() ==> final(self).state@.wf(),
    {
        proof {
            if old(self).state@.wf() {
                lemma_steps_keep_wf(
                    old(self).state@,
                    old(self).chain_id,
                    MessageStatus::Bounced,
                    0,
                    MessageView::RequestLeaderboard { requester_chain_id: old(self).chain_id },
                    operation@,
                );
            }
        }
        match operation {
            Operation::Increment { value } => {
                if value > u64::MAX - self.state.value {
                    return Err(ContractError::CounterOverflow);
                }
                self.state.value = self.state.value + value;
                Ok(None)
            },
            Operation::SetBest { best } => self.submit_best(best),
            Operation::SetBestAndSubmit { best } => self.submit_best(best),
            Operation::SetPlayerName { name } => {
                if !name.as_str().is_empty() {
                    self.state.player_name = name;
                }
                Ok(None)
            },
            Operation::SetLeaderboardChain { chain_id } => self.configure(chain_id, None),
            Operation::SetupGame { leaderboard_chain_id, player_name } => self.configure(
                leaderboard_chain_id,
                Some(player_name),
            ),
            Operation::RequestLeaderboard => {
                if !self.state.is_leaderboard_chain {
                    if let Some(aggregator) = self.state.leaderboard_chain_id {
                        let message = DannyGameMessage::RequestLeaderboard {
                            requester_chain_id: self.chain_id,
                        };
                        return Ok(Some(Outbound { destination: aggregator, message }));
                    }
                }
                Ok(None)
            },
        }
    }

    /// Handles a message from another node that arrived with delivery status
    /// `status` when the clock read `now` microseconds.
    pub fn execute_message(
        &mut self,
        message: DannyGameMessage,
        status: MessageStatus,
        now: u64,
    ) -> (r: Result<Option<Outbound>, ContractError>)
        ensures
            step_done(
                old(self).state@,
                final(self).state@,
                r,
                message_step(old(self).state@, old(self).chain_id, status, now, message@),
            ),
            final(self).chain_id == old(self).chain_id,
            old(self).state@.wf() ==> final(self).state@.wf(),
    {
        proof {
            if old(self).state@.wf() {
                lemma_steps_keep_wf(
                    old(self).state@,
                    old(self).chain_id,
                    status,
                    now,
                    message@,
                    OperationView::RequestLeaderboard,
                );
            }
        }
        match status {
            MessageStatus::Unknown => {
                return Err(ContractError::UnknownDeliveryStatus);
            },
            MessageStatus::Bounced => {
                return Ok(None);
            },
            MessageStatus::Delivered => {},
        }
        match message {
            DannyGameMessage::SubmitScore { player_name, score, player_chain_id } => {
                if self.state.is_leaderboard_chain {
                    self.update_leaderboard(player_name, score, player_chain_id, now);
                }
                Ok(None)
            },
            DannyGameMessage::RequestLeaderboard { requester_chain_id } => {
                if self.state.is_leaderboard_chain {
                    let leaderboard = duplicate_entries(&self.state.top_leaderboard);
                    let response = DannyGameMessage::LeaderboardResponse { leaderboard };
                    return Ok(Some(Outbound { destination: requester_chain_id, message: response }));
                }
                Ok(None)
            },
            DannyGameMessage::LeaderboardResponse { leaderboard } => {
                self.state.top_leaderboard = leaderboard;
                Ok(None)
            },
        }
    }

    /// The state to store at the end of the step.
    pub fn store(self) -> (r: DannyGameState)
        ensures
            r@ == self.state@,
    {
        self.state
    }
}

} // verus!
