//! Job and node states: their wire discriminants, display names, Slurm state
//! codes and classification.
use vstd::prelude::*;

use crate::text::{eq_ignore_ascii_case, same_text_ignore_ascii_case};

verus! {

/// The lifecycle state of a job.
#[derive(Debug, Clone, Copy, PartialEq, Eq, Structural)]
pub enum JobState {
    Pending,
    Running,
    Completing,
    Completed,
    Failed,
    Cancelled,
    Timeout,
    NodeFail,
    Preempted,
    Suspended,
}

/// Every job state, in the order reports list them.
pub open spec fn all_job_states() -> Seq<JobState> {
    seq![
        JobState::Pending,
        JobState::Running,
        JobState::Completing,
        JobState::Completed,
        JobState::Failed,
        JobState::Cancelled,
        JobState::Timeout,
        JobState::NodeFail,
        JobState::Preempted,
        JobState::Suspended,
    ]
}

impl JobState {
    /// The discriminant the wire format uses for this state.
    pub open spec fn wire(self) -> i32 {
        match self {
            JobState::Pending => 0,
            JobState::Running => 1,
            JobState::Completing => 2,
            JobState::Completed => 3,
            JobState::Failed => 4,
            JobState::Cancelled => 5,
            JobState::Timeout => 6,
            JobState::NodeFail => 7,
            JobState::Preempted => 8,
            JobState::Suspended => 9,
        }
    }

    /// The state whose discriminant is `v`, if any.
    pub open spec fn from_wire(v: i32) -> Option<JobState> {
        if 0 <= v < 10 {
            Some(all_job_states()[v as int])
        } else {
            None
        }
    }

    /// The upper-case name Slurm prints for this state.
    pub open spec fn name(self) -> Seq<char> {
        match self {
            JobState::Pending => "PENDING"@,
            JobState::Running => "RUNNING"@,
            JobState::Completing => "COMPLETING"@,
            JobState::Completed => "COMPLETED"@,
            JobState::Failed => "FAILED"@,
            JobState::Cancelled => "CANCELLED"@,
            JobState::Timeout => "TIMEOUT"@,
            JobState::NodeFail => "NODE_FAIL"@,
            JobState::Preempted => "PREEMPTED"@,
            JobState::Suspended => "SUSPENDED"@,
        }
    }

    /// Slurm's compact state code (`PD`, `R`, ...).
    pub open spec fn code(self) -> Seq<char> {
        match self {
            JobState::Pending => "PD"@,
            JobState::Running => "R"@,
            JobState::Completing => "CG"@,
            JobState::Completed => "CD"@,
            JobState::Failed => "F"@,
            JobState::Cancelled => "CA"@,
            JobState::Timeout => "TO"@,
            JobState::NodeFail => "NF"@,
            JobState::Preempted => "PR"@,
            JobState::Suspended => "S"@,
        }
    }

    /// A job in this state has finished and will not run again.
    pub open spec fn terminal(self) -> bool {
        match self {
            JobState::Completed | JobState::Failed | JobState::Cancelled | JobState::Timeout
            | JobState::NodeFail | JobState::Preempted => true,
            _ => false,
        }
    }

    /// A job in this state holds resources: running, completing or suspended.
    pub open spec fn active(self) -> bool {
        match self {
            JobState::Running | JobState::Completing | JobState::Suspended => true,
            _ => false,
        }
    }

    /// Whether `t` names this state, by name or by code, ignoring ASCII case.
    pub open spec fn named_by(self, t: Seq<char>) -> bool {
        eq_ignore_ascii_case(t, self.name()) || eq_ignore_ascii_case(t, self.code())
    }

    /// Every job state, in the order reports list them.
    pub fn all() -> (v: Vec<JobState>)
        ensures
            v@ == all_job_states(),
    {
        vec![
            JobState::Pending,
            JobState::Running,
            JobState::Completing,
            JobState::Completed,
            JobState::Failed,
            JobState::Cancelled,
            JobState::Timeout,
            JobState::NodeFail,
            JobState::Preempted,
            JobState::Suspended,
        ]
    }

    pub fn to_proto_i32(&self) -> (r: i32)
        ensures
            r == self.wire(),
    {
        match self {
            JobState::Pending => 0,
            JobState::Running => 1,
            JobState::Completing => 2,
            JobState::Completed => 3,
            JobState::Failed => 4,
            JobState::Cancelled => 5,
            JobState::Timeout => 6,
            JobState::NodeFail => 7,
            JobState::Preempted => 8,
            JobState::Suspended => 9,
        }
    }

    pub fn from_proto_i32(v: i32) -> (r: Option<JobState>)
        ensures
            r == JobState::from_wire(v),
    {
        if 0 <= v && v < 10 {
            let all = JobState::all();
            Some(all[v as usize])
        } else {
            None
        }
    }

    pub fn display(&self) -> (r: &'static str)
        ensures
            r@ == self.name(),
    {
        match self {
            JobState::Pending => "PENDING",
            JobState::Running => "RUNNING",
            JobState::Completing => "COMPLETING",
            JobState::Completed => "COMPLETED",
            JobState::Failed => "FAILED",
            JobState::Cancelled => "CANCELLED",
            JobState::Timeout => "TIMEOUT",
            JobState::NodeFail => "NODE_FAIL",
            JobState::Preempted => "PREEMPTED",
            JobState::Suspended => "SUSPENDED",
        }
    }

    pub fn code_str(&self) -> (r: &'static str)
        ensures
            r@ == self.code(),
    {
        match self {
            JobState::Pending => "PD",
            JobState::Running => "R",
            JobState::Completing => "CG",
            JobState::Completed => "CD",
            JobState::Failed => "F",
            JobState::Cancelled => "CA",
            JobState::Timeout => "TO",
            JobState::NodeFail => "NF",
            JobState::Preempted => "PR",
            JobState::Suspended => "S",
        }
    }

    pub fn is_terminal(&self) -> (r: bool)
        ensures
            r == self.terminal(),
    {
        match self {
            JobState::Completed | JobState::Failed | JobState::Cancelled | JobState::Timeout
            | JobState::NodeFail | JobState::Preempted => true,
            _ => false,
        }
    }

    pub fn is_active(&self) -> (r: bool)
        ensures
            r == self.active(),
    {
        match self {
            JobState::Running | JobState::Completing | JobState::Suspended => true,
            _ => false,
        }
    }

    /// The first state, in report order, that `token` names by name or code,
    /// ASCII case ignored.
    pub fn from_code_or_name(token: &str) -> (r: Option<JobState>)
        ensures
            r == first_job_state_named(all_job_states(), token@),
    {
        let all = JobState::all();
        let mut i: usize = 0;
        assert(all_job_states().skip(0) == all_job_states());
        while i < all.len()
            invariant
                i <= all.len(),
                all@ == all_job_states(),
                first_job_state_named(all_job_states(), token@) == first_job_state_named(
                    all_job_states().skip(i as int),
                    token@,
                ),
            decreases all.len() - i,
        {
            let s = all[i];
            assert(all_job_states().skip(i as int)[0] == s);
            assert(all_job_states().skip(i as int).drop_first() == all_job_states().skip(i + 1));
            if same_text_ignore_ascii_case(token, s.display()) || same_text_ignore_ascii_case(
                token,
                s.code_str(),
            ) {
                return Some(s);
            }
            i = i + 1;
        }
        None
    }
}

/// The first state of `states` that `t` names.
pub open spec fn first_job_state_named(states: Seq<JobState>, t: Seq<char>) -> Option<JobState>
    decreases states.len(),
{
    if states.len() == 0 {
        None
    } else if states[0].named_by(t) {
        Some(states[0])
    } else {
        first_job_state_named(states.drop_first(), t)
    }
}

/// The availability state of a node.
#[derive(Debug, Clone, Copy, PartialEq, Eq, Structural)]
pub enum NodeState {
    Idle,
    Allocated,
    Mixed,
    Down,
    Drain,
    Draining,
    Error,
}

/// Every node state, in the order reports list them.
pub open spec fn all_node_states() -> Seq<NodeState> {
    seq![
        NodeState::Idle,
        NodeState::Allocated,
        NodeState::Mixed,
        NodeState::Down,
        NodeState::Drain,
        NodeState::Draining,
        NodeState::Error,
    ]
}

impl NodeState {
    /// The discriminant the wire format uses for this state.
    pub open spec fn wire(self) -> i32 {
        match self {
            NodeState::Idle => 0,
            NodeState::Allocated => 1,
            NodeState::Mixed => 2,
            NodeState::Down => 3,
            NodeState::Drain => 4,
            NodeState::Draining => 5,
            NodeState::Error => 6,
        }
    }

    /// The state whose discriminant is `v`, if any.
    pub open spec fn from_wire(v: i32) -> Option<NodeState> {
        if 0 <= v < 7 {
            Some(all_node_states()[v as int])
        } else {
            None
        }
    }

    /// The lower-case name `sinfo` prints for this state.
    pub open spec fn name(self) -> Seq<char> {
        match self {
            NodeState::Idle => "idle"@,
            NodeState::Allocated => "alloc"@,
            NodeState::Mixed => "mixed"@,
            NodeState::Down => "down"@,
            NodeState::Drain => "drain"@,
            NodeState::Draining => "draining"@,
            NodeState::Error => "error"@,
        }
    }

    /// The upper-case name reports key node counts by.
    pub open spec fn upper_name(self) -> Seq<char> {
        match self {
            NodeState::Idle => "IDLE"@,
            NodeState::Allocated => "ALLOC"@,
            NodeState::Mixed => "MIXED"@,
            NodeState::Down => "DOWN"@,
            NodeState::Drain => "DRAIN"@,
            NodeState::Draining => "DRAINING"@,
            NodeState::Error => "ERROR"@,
        }
    }

    /// Every node state, in the order reports list them.
    pub fn all() -> (v: Vec<NodeState>)
        ensures
            v@ == all_node_states(),
    {
        vec![
            NodeState::Idle,
            NodeState::Allocated,
            NodeState::Mixed,
            NodeState::Down,
            NodeState::Drain,
            NodeState::Draining,
            NodeState::Error,
        ]
    }

    pub fn to_proto_i32(&self) -> (r: i32)
        ensures
            r == self.wire(),
    {
        match self {
            NodeState::Idle => 0,
            NodeState::Allocated => 1,
            NodeState::Mixed => 2,
            NodeState::Down => 3,
            NodeState::Drain => 4,
            NodeState::Draining => 5,
            NodeState::Error => 6,
        }
    }

    pub fn from_proto_i32(v: i32) -> (r: Option<NodeState>)
        ensures
            r == NodeState::from_wire(v),
    {
        if 0 <= v && v < 7 {
            let all = NodeState::all();
            Some(all[v as usize])
        } else {
            None
        }
    }

    pub fn display(&self) -> (r: &'static str)
        ensures
            r@ == self.name(),
    {
        match self {
            NodeState::Idle => "idle",
            NodeState::Allocated => "alloc",
            NodeState::Mixed => "mixed",
            NodeState::Down => "down",
            NodeState::Drain => "drain",
            NodeState::Draining => "draining",
            NodeState::Error => "error",
        }
    }

    pub fn display_upper(&self) -> (r: &'static str)
        ensures
            r@ == self.upper_name(),
    {
        match self {
            NodeState::Idle => "IDLE",
            NodeState::Allocated => "ALLOC",
            NodeState::Mixed => "MIXED",
            NodeState::Down => "DOWN",
            NodeState::Drain => "DRAIN",
            NodeState::Draining => "DRAINING",
            NodeState::Error => "ERROR",
        }
    }
}

/// Every job state is sent on the wire as a discriminant that decodes back to
/// it, and every discriminant that decodes names the state it came from.
pub proof fn job_state_wire_round_trip(s: JobState, v: i32)
    ensures
        JobState::from_wire(s.wire()) == Some(s),
        JobState::from_wire(v) matches Some(t) ==> t.wire() == v,
{
}

/// Every node state is sent on the wire as a discriminant that decodes back
/// to it, and every discriminant that decodes names the state it came from.
pub proof fn node_state_wire_round_trip(s: NodeState, v: i32)
    ensures
        NodeState::from_wire(s.wire()) == Some(s),
        NodeState::from_wire(v) matches Some(t) ==> t.wire() == v,
{
}

/// No job state is both finished and active.
pub proof fn terminal_and_active_are_disjoint(s: JobState)
    ensures
        !(s.terminal() && s.active()),
{
}


proof fn lemma_case_insensitive_prefix()
    ensures
        forall|a: Seq<char>, b: Seq<char>|
            #[trigger] eq_ignore_ascii_case(a, b) ==> a.len() == b.len() && (a.len() > 0
                ==> crate::text::ascii_lower(a[0]) == crate::text::ascii_lower(b[0])) && (a.len()
                > 1 ==> crate::text::ascii_lower(a[1]) == crate::text::ascii_lower(b[1])),
{
}


proof fn lemma_first_named(states: Seq<JobState>, t: Seq<char>, k: int)
    requires
        0 <= k < states.len(),
        states[k].named_by(t),
        forall|j: int| 0 <= j < k ==> !(#[trigger] states[j]).named_by(t),
    ensures
        first_job_state_named(states, t) == Some(states[k]),
    decreases k,
{
    if k > 0 {
        assert(!states[0].named_by(t));
        lemma_first_named(states.drop_first(), t, k - 1);
    }
}

/// A job state's name and its code each select that state, whatever other
/// states come before it in report order.
pub proof fn job_state_named_by_own_texts(s: JobState)
    ensures
        first_job_state_named(all_job_states(), s.name()) == Some(s),
        first_job_state_named(all_job_states(), s.code()) == Some(s),
{
    reveal_strlit("PENDING");
    reveal_strlit("RUNNING");
    reveal_strlit("COMPLETING");
    reveal_strlit("COMPLETED");
    reveal_strlit("FAILED");
    reveal_strlit("CANCELLED");
    reveal_strlit("TIMEOUT");
    reveal_strlit("NODE_FAIL");
    reveal_strlit("PREEMPTED");
    reveal_strlit("SUSPENDED");
    reveal_strlit("PD");
    reveal_strlit("R");
    reveal_strlit("CG");
    reveal_strlit("CD");
    reveal_strlit("F");
    reveal_strlit("CA");
    reveal_strlit("TO");
    reveal_strlit("NF");
    reveal_strlit("PR");
    reveal_strlit("S");
    lemma_case_insensitive_prefix();
    let all = all_job_states();
    let k = s.wire() as int;
    assert(all[k] == s);
    assert forall|j: int| 0 <= j < k implies !(#[trigger] all[j]).named_by(s.name()) by {
        assert(all[j] != s);
    }
    assert forall|j: int| 0 <= j < k implies !(#[trigger] all[j]).named_by(s.code()) by {
        assert(all[j] != s);
    }
    lemma_first_named(all, s.name(), k);
    lemma_first_named(all, s.code(), k);
}


/// Every job state's name and code is a plain word of capitals: not blank,
/// without commas, without white space at either end, and starting with a
/// letter other than `A`.
pub proof fn job_state_texts_are_words(s: JobState)
    ensures
        crate::util::list_safe(s.name()),
        crate::util::list_safe(s.code()),
        'B' <= s.name()[0] <= 'Z',
        'B' <= s.code()[0] <= 'Z',
{
    reveal_strlit("PENDING");
    reveal_strlit("RUNNING");
    reveal_strlit("COMPLETING");
    reveal_strlit("COMPLETED");
    reveal_strlit("FAILED");
    reveal_strlit("CANCELLED");
    reveal_strlit("TIMEOUT");
    reveal_strlit("NODE_FAIL");
    reveal_strlit("PREEMPTED");
    reveal_strlit("SUSPENDED");
    reveal_strlit("PD");
    reveal_strlit("R");
    reveal_strlit("CG");
    reveal_strlit("CD");
    reveal_strlit("F");
    reveal_strlit("CA");
    reveal_strlit("TO");
    reveal_strlit("NF");
    reveal_strlit("PR");
    reveal_strlit("S");
    assert(!s.name().contains(','));
    assert(!s.code().contains(','));
}

/// Distinct job states have distinct names, so a report keyed by name has
/// one entry per state.
pub proof fn job_state_names_are_distinct(a: JobState, b: JobState)
    requires
        a != b,
    ensures
        a.name() != b.name(),
{
    reveal_strlit("PENDING");
    reveal_strlit("RUNNING");
    reveal_strlit("COMPLETING");
    reveal_strlit("COMPLETED");
    reveal_strlit("FAILED");
    reveal_strlit("CANCELLED");
    reveal_strlit("TIMEOUT");
    reveal_strlit("NODE_FAIL");
    reveal_strlit("PREEMPTED");
    reveal_strlit("SUSPENDED");
    reveal_strlit("PD");
    reveal_strlit("R");
    reveal_strlit("CG");
    reveal_strlit("CD");
    reveal_strlit("F");
    reveal_strlit("CA");
    reveal_strlit("TO");
    reveal_strlit("NF");
    reveal_strlit("PR");
    reveal_strlit("S");
    lemma_case_insensitive_prefix();
    job_state_named_by_own_texts(a);
    job_state_named_by_own_texts(b);
}

/// Distinct node states have distinct upper-case names, so a report keyed by
/// name has one entry per state.
pub proof fn node_state_names_are_distinct(a: NodeState, b: NodeState)
    requires
        a != b,
    ensures
        a.upper_name() != b.upper_name(),
{
    reveal_strlit("IDLE");
    reveal_strlit("ALLOC");
    reveal_strlit("MIXED");
    reveal_strlit("DOWN");
    reveal_strlit("DRAIN");
    reveal_strlit("DRAINING");
    reveal_strlit("ERROR");
    if a.upper_name() == b.upper_name() {
        assert(a.upper_name()[0] == b.upper_name()[0]);
        assert(a.upper_name().len() == b.upper_name().len());
        assert(a.upper_name()[1] == b.upper_name()[1]);
    }
}

} // verus!
