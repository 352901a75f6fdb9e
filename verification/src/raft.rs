//! Joint-consensus configuration changes with timeout and rollback.
//!
//! A configuration change commits only when both the old and the new
//! voter sets reach quorum. If the new set cannot answer, the change rolls
//! back to the old configuration after a timeout instead of leaving the
//! cluster waiting forever on a quorum that will never come.

use vstd::prelude::*;
use crate::keys::{canonicalize, sorted_strict};

verus! {

/// How long a configuration change may wait for its joint quorum.
pub const CONFIG_CHANGE_TIMEOUT: u64 = 500;

/// How many of `voters` appear in `votes`.
pub open spec fn count_votes(voters: Seq<u64>, votes: Seq<u64>) -> int
    decreases voters.len(),
{
    if voters.len() == 0 {
        0
    } else {
        (if votes.contains(voters[0]) {
            1int
        } else {
            0int
        }) + count_votes(voters.drop_first(), votes)
    }
}

/// A Raft configuration: a duplicate-free set of voter nodes.
pub struct Configuration {
    /// The voter nodes, in canonical order.
    pub voters: Vec<u64>,
}

impl Configuration {
    /// Voters stay canonical, so their count is the set's size.
    pub open spec fn wf(self) -> bool {
        sorted_strict(self.voters@)
    }

    /// Votes needed for a quorum of this configuration.
    pub open spec fn spec_quorum_size(self) -> int {
        self.voters@.len() as int / 2 + 1
    }

    /// Whether `votes` contains a quorum of this configuration.
    pub open spec fn spec_has_quorum(self, votes: Seq<u64>) -> bool {
        count_votes(self.voters@, votes) >= self.spec_quorum_size()
    }

    /// Build a configuration from the listed voters, dropping duplicates.
    pub fn new(voters: &Vec<u64>) -> (c: Self)
        ensures
            c.wf(),
            forall|x: u64| c.voters@.contains(x) <==> voters@.contains(x),
    {
        Configuration { voters: canonicalize(voters) }
    }

    /// Votes needed for a quorum: a strict majority of the voters.
    pub fn quorum_size(&self) -> (n: usize)
        ensures
            n == self.spec_quorum_size(),
    {
        self.voters.len() / 2 + 1
    }

    /// Whether the given votes contain a quorum of this configuration.
    pub fn has_quorum(&self, votes: &Vec<u64>) -> (r: bool)
        ensures
            r == self.spec_has_quorum(votes@),
    {
        let mut count: usize = 0;
        let mut i: usize = 0;
        proof {
            assert(self.voters@.subrange(0, self.voters@.len() as int) =~= self.voters@);
        }
        while i < self.voters.len()
            invariant
                i <= self.voters@.len(),
                count <= i,
                count_votes(self.voters@, votes@) == count + count_votes(
                    self.voters@.subrange(i as int, self.voters@.len() as int),
                    votes@,
                ),
            decreases self.voters@.len() - i,
        {
            let ghost rest = self.voters@.subrange(i as int, self.voters@.len() as int);
            proof {
                assert(rest[0] == self.voters@[i as int]);
                assert(rest.drop_first() =~= self.voters@.subrange(
                    i + 1,
                    self.voters@.len() as int,
                ));
            }
            if contains_node(votes, self.voters[i]) {
                count = count + 1;
            }
            i += 1;
        }
        proof {
            assert(self.voters@.subrange(
                self.voters@.len() as int,
                self.voters@.len() as int,
            ) =~= Seq::<u64>::empty());
        }
        count >= self.quorum_size()
    }

    /// An identical copy of this configuration.
    pub fn duplicate(&self) -> (c: Self)
        ensures
            c.voters@ == self.voters@,
    {
        let mut voters: Vec<u64> = Vec::new();
        let mut i: usize = 0;
        while i < self.voters.len()
            invariant
                i <= self.voters@.len(),
                voters@ == self.voters@.subrange(0, i as int),
            decreases self.voters@.len() - i,
        {
            voters.push(self.voters[i]);
            proof {
                assert(voters@ =~= self.voters@.subrange(0, i + 1 as int));
            }
            i += 1;
        }
        proof {
            assert(voters@ =~= self.voters@);
        }
        Configuration { voters }
    }
}

/// Whether `nodes` lists `node`.
pub fn contains_node(nodes: &Vec<u64>, node: u64) -> (b: bool)
    ensures
        b == nodes@.contains(node),
{
    let mut i: usize = 0;
    while i < nodes.len()
        invariant
            i <= nodes@.len(),
            forall|j: int| 0 <= j < i ==> nodes@[j] != node,
        decreases nodes@.len() - i,
    {
        if nodes[i] == node {
            proof {
                assert(nodes@.contains(nodes@[i as int]));
            }
            return true;
        }
        i += 1;
    }
    proof {
        if nodes@.contains(node) {
            let j = choose|j: int| 0 <= j < nodes@.len() && nodes@[j] == node;
        }
    }
    false
}

/// The transitional configuration while a change is in flight.
pub struct JointConfiguration {
    /// The outgoing configuration.
    pub c_old: Configuration,
    /// The incoming configuration.
    pub c_new: Configuration,
}

impl JointConfiguration {
    /// Pair the outgoing and incoming configurations.
    pub fn new(c_old: Configuration, c_new: Configuration) -> (j: Self)
        ensures
            j.c_old == c_old,
            j.c_new == c_new,
    {
        JointConfiguration { c_old, c_new }
    }

    /// Joint consensus needs a quorum of both configurations at once.
    pub fn has_joint_quorum(&self, votes: &Vec<u64>) -> (r: bool)
        ensures
            r == (self.c_old.spec_has_quorum(votes@) && self.c_new.spec_has_quorum(votes@)),
    {
        self.c_old.has_quorum(votes) && self.c_new.has_quorum(votes)
    }
}

/// An entry of the replicated log.
pub enum LogEntry {
    /// A configuration change carrying the joint configuration.
    ConfigChange(JointConfiguration),
    /// An ordinary payload entry.
    Normal(Vec<u8>),
}

/// A follower's answer to a replication request.
#[derive(Clone, Copy, Debug, PartialEq, Eq, Structural)]
pub struct ReplicationStatus {
    /// The answering node.
    pub node: u64,
    /// Whether the node accepted the entry.
    pub success: bool,
    /// The node's highest matching log index.
    pub match_index: u64,
}

/// A Raft node driving a configuration change.
pub struct RaftNode {
    /// This node's identifier.
    pub id: u64,
    /// The joint configuration while a change is in flight.
    pub current_config: Option<JointConfiguration>,
    /// The outgoing configuration, kept for rollback.
    pub original_config: Option<Configuration>,
    /// Nonzero once the change resolved (committed or rolled back).
    pub committed_index: u64,
    /// Nodes that acknowledged the change.
    pub replication_responses: Vec<u64>,
    /// When the change started, for the rollback timeout.
    pub config_change_start: Option<u64>,
    /// Whether the change was rolled back to the old configuration.
    pub rolled_back: bool,
    /// Whether the node is currently stuck short of a joint quorum.
    pub blocked: bool,
}

impl RaftNode {
    /// Build a node with no change in flight.
    pub fn new(id: u64) -> (n: Self)
        ensures
            n.id == id,
            n.current_config is None,
            n.committed_index == 0,
            n.replication_responses@.len() == 0,
            !n.rolled_back,
            !n.blocked,
    {
        RaftNode {
            id,
            current_config: None,
            original_config: None,
            committed_index: 0,
            replication_responses: Vec::new(),
            config_change_start: None,
            rolled_back: false,
            blocked: false,
        }
    }

    /// Start a configuration change at time `now`: enter joint consensus,
    /// keep the outgoing configuration for a possible rollback, and count
    /// this node's own acknowledgement.
    pub fn begin_config_change(&mut self, c_old: Configuration, c_new: Configuration, now: u64)
        ensures
            final(self).id == old(self).id,
            final(self).current_config matches Some(j) && j.c_old.voters@ == c_old.voters@
                && j.c_new.voters@ == c_new.voters@,
            final(self).original_config matches Some(o) && o.voters@ == c_old.voters@,
            final(self).config_change_start == Some(now),
            final(self).replication_responses@ == seq![old(self).id],
            final(self).committed_index == old(self).committed_index,
            final(self).rolled_back == old(self).rolled_back,
    {
        self.original_config = Some(c_old.duplicate());
        self.current_config = Some(JointConfiguration::new(c_old, c_new));
        self.config_change_start = Some(now);
        let mut responses: Vec<u64> = Vec::new();
        responses.push(self.id);
        self.replication_responses = responses;
        proof {
            assert(self.replication_responses@ =~= seq![old(self).id]);
        }
    }

    /// Record a follower's acknowledgement and re-check progress at time
    /// `now`.
    pub fn receive_replication_response(&mut self, status: ReplicationStatus, now: u64)
        ensures
            final(self).id == old(self).id,
            status.success ==> (forall|x: u64|
                #[trigger] final(self).replication_responses@.contains(x) <==> (old(self).replication_responses@.contains(x) || x == status.node)),
            !status.success ==> final(self).replication_responses@ == old(self).replication_responses@,
            final(self).current_config == old(self).current_config || final(self).current_config is None,
            old(self).current_config matches Some(j) && j.c_old.spec_has_quorum(
                final(self).replication_responses@,
            ) && j.c_new.spec_has_quorum(final(self).replication_responses@) ==> final(self).committed_index == 1,
    {
        if status.success {
            let ghost pre = self.replication_responses@;
            if !contains_node(&self.replication_responses, status.node) {
                self.replication_responses.push(status.node);
                proof {
                    assert forall|x: u64|
                        #[trigger] self.replication_responses@.contains(x) <==> (pre.contains(x)
                            || x == status.node) by {
                        if self.replication_responses@.contains(x) {
                            let j = choose|j: int|
                                0 <= j < self.replication_responses@.len()
                                    && self.replication_responses@[j] == x;
                            if j < pre.len() {
                                assert(pre.contains(x));
                            }
                        }
                        if pre.contains(x) {
                            let j = choose|j: int| 0 <= j < pre.len() && pre[j] == x;
                            assert(self.replication_responses@[j] == x);
                        }
                        if x == status.node {
                            assert(self.replication_responses@[pre.len() as int] == x);
                        }
                    }
                }
            }
        }
        self.check_commit_progress(now);
    }

    /// Check the change's progress at time `now`: commit when both
    /// quorums answered; when only the old quorum answered, mark the node
    /// blocked and roll back once the timeout has elapsed.
    pub fn check_commit_progress(&mut self, now: u64)
        ensures
            final(self).id == old(self).id,
            final(self).replication_responses@ == old(self).replication_responses@,
            final(self).current_config == old(self).current_config || final(self).current_config is None,
            old(self).current_config is None ==> *final(self) == *old(self),
            old(self).current_config matches Some(j) ==> {
                let votes = old(self).replication_responses@;
                &&& ((j.c_old.spec_has_quorum(votes) && j.c_new.spec_has_quorum(votes)) ==> final(self).committed_index == 1 && !final(self).rolled_back == !old(self).rolled_back)
                &&& ((j.c_old.spec_has_quorum(votes) && !j.c_new.spec_has_quorum(votes)) ==> {
                    &&& (roll_due(old(self).config_change_start, now) ==> final(self).rolled_back
                        && final(self).committed_index == 1 && final(self).current_config is None)
                    &&& (!roll_due(old(self).config_change_start, now) ==> final(self).blocked
                        && final(self).committed_index == old(self).committed_index && final(self).rolled_back == old(self).rolled_back)
                })
                &&& (!j.c_old.spec_has_quorum(votes) ==> final(self).committed_index == old(self).committed_index && final(self).rolled_back == old(self).rolled_back)
            },
    {
        let (has_old, has_new) = match &self.current_config {
            Some(joint) => {
                let a = joint.c_old.has_quorum(&self.replication_responses);
                let b = joint.c_new.has_quorum(&self.replication_responses);
                (a, b)
            },
            None => {
                return ;
            },
        };
        if has_old && has_new {
            self.committed_index = 1;
        } else if has_old && !has_new {
            self.maybe_rollback(now);
        }
    }

    /// Roll back to the outgoing configuration when the change has waited
    /// out its timeout; otherwise record that the node is blocked.
    pub fn maybe_rollback(&mut self, now: u64)
        ensures
            final(self).id == old(self).id,
            final(self).replication_responses@ == old(self).replication_responses@,
            roll_due(old(self).config_change_start, now) ==> final(self).rolled_back && final(self).committed_index == 1 && final(self).current_config is None && final(self).original_config is None,
            !roll_due(old(self).config_change_start, now) ==> final(self).blocked && final(self).committed_index == old(self).committed_index && final(self).rolled_back == old(self).rolled_back && final(self).current_config == old(self).current_config,
    {
        let due = match self.config_change_start {
            Some(start) => now >= start && now - start >= CONFIG_CHANGE_TIMEOUT,
            None => false,
        };
        if due {
            self.original_config = None;
            self.current_config = None;
            self.rolled_back = true;
            self.committed_index = 1;
        } else {
            self.blocked = true;
        }
    }

    /// One poll of the commit check at time `now`; the caller's runtime
    /// repeats it until the change resolves or its own budget runs out.
    pub fn wait_for_commit(&mut self, now: u64) -> (committed: bool)
        ensures
            committed == (final(self).committed_index > 0),
            old(self).committed_index > 0 ==> committed,
            old(self).current_config matches Some(j) ==> {
                let votes = old(self).replication_responses@;
                &&& ((j.c_old.spec_has_quorum(votes) && j.c_new.spec_has_quorum(votes))
                    ==> committed)
                &&& ((j.c_old.spec_has_quorum(votes) && !j.c_new.spec_has_quorum(votes)
                    && roll_due(old(self).config_change_start, now)) ==> committed && final(self).rolled_back)
            },
    {
        self.check_commit_progress(now);
        self.committed_index > 0
    }

    /// Whether the node is stuck short of a joint quorum.
    pub fn is_blocked(&self) -> (b: bool)
        ensures
            b == self.blocked,
    {
        self.blocked
    }

    /// Whether the change was rolled back to the old configuration.
    pub fn was_rolled_back(&self) -> (b: bool)
        ensures
            b == self.rolled_back,
    {
        self.rolled_back
    }
}

/// Whether a change started at `start` has waited out its timeout at
/// `now`.
pub open spec fn roll_due(start: Option<u64>, now: u64) -> bool {
    match start {
        Some(s) => now >= s && now - s >= CONFIG_CHANGE_TIMEOUT,
        None => false,
    }
}

} // verus!
