//! Pipeline graph navigation and the node-by-node walk of a pipeline run.
//!
//! A run starts at the first node that no edge points to and follows, after
//! each node, the edge chosen by that node's type, until an output node or a
//! node without a successor, or until three times the node count has been
//! visited. Awaiting models, timers and caches is the caller's part: it asks
//! the walk for the next node, runs it, and reports the chosen successor.

use vstd::prelude::*;
use crate::text::str_equal;
use crate::table::KeyedTable;
use crate::types::NodeKind;

verus! {

/// A directed edge between two pipeline nodes; a branch node chooses among
/// its out-edges by `source_handle`.
pub struct PipelineEdge {
    pub source: String,
    pub target: String,
    pub source_handle: Option<String>,
}

/// A pipeline node as far as graph navigation is concerned.
pub struct GraphNode {
    pub id: String,
    pub node_type: String,
}

/// Why a pipeline run could not proceed.
#[derive(Clone, Debug, PartialEq, Eq)]
pub enum PipelineError {
    /// Every node is the target of some edge.
    NoRootNode,
    /// An edge points to a node id that the pipeline does not hold.
    NodeNotFound(String),
}

/// Node `i` is the target of no edge.
pub open spec fn is_root(nodes: Seq<GraphNode>, edges: Seq<PipelineEdge>, i: int) -> bool {
    forall|e: int| 0 <= e < edges.len() ==> #[trigger] edges[e].target@ != nodes[i].id@
}

/// The first node that is the target of no edge.
pub fn find_root_node(nodes: &[GraphNode], edges: &[PipelineEdge]) -> (r: Option<usize>)
    ensures
        match r {
            Some(i) => i < nodes.len() && is_root(nodes@, edges@, i as int) && forall|j: int|
                0 <= j < i ==> !is_root(nodes@, edges@, j),
            None => forall|j: int| 0 <= j < nodes.len() ==> !is_root(nodes@, edges@, j),
        },
{
    let mut i: usize = 0;
    while i < nodes.len()
        invariant
            i <= nodes.len(),
            forall|j: int| 0 <= j < i ==> !is_root(nodes@, edges@, j),
        decreases nodes.len() - i,
    {
        let mut targeted = false;
        let mut e: usize = 0;
        while e < edges.len()
            invariant
                e <= edges.len(),
                i < nodes.len(),
                targeted <==> exists|k: int| 0 <= k < e && #[trigger] edges@[k].target@ == nodes@[i as int].id@,
            decreases edges.len() - e,
        {
            if edges[e].target == nodes[i].id {
                targeted = true;
            }
            e = e + 1;
        }
        if !targeted {
            return Some(i);
        }
        i = i + 1;
    }
    None
}

/// The target of the first edge leaving `node_id`: the default successor.
pub fn find_default_next_edge(node_id: &str, edges: &[PipelineEdge]) -> (next: Option<String>)
    ensures
        match next {
            Some(t) => exists|k: int|
                0 <= k < edges.len() && #[trigger] edges@[k].source@ == node_id@ && t@
                    == edges@[k].target@ && forall|j: int| 0 <= j < k ==> edges@[j].source@ != node_id@,
            None => forall|k: int| 0 <= k < edges.len() ==> #[trigger] edges@[k].source@ != node_id@,
        },
{
    let mut k: usize = 0;
    while k < edges.len()
        invariant
            k <= edges.len(),
            forall|j: int| 0 <= j < k ==> #[trigger] edges@[j].source@ != node_id@,
        decreases edges.len() - k,
    {
        if str_equal(edges[k].source.as_str(), node_id) {
            return Some(edges[k].target.clone());
        }
        k = k + 1;
    }
    None
}

/// The handle of the branch taken: `high_confidence` when the watched
/// answer's confidence reached the threshold, else `low_confidence`.
pub open spec fn branch_handle(high: bool) -> Seq<char> {
    if high { "high_confidence"@ } else { "low_confidence"@ }
}

/// Edge `e` leaves `node_id` and carries the handle `handle` or no handle.
pub open spec fn branch_edge_matches(e: PipelineEdge, node_id: Seq<char>, handle: Seq<char>) -> bool {
    e.source@ == node_id && (e.source_handle is None || e.source_handle->0@ == handle)
}

/// The successor of a branch node: the target of the first edge leaving it
/// whose handle is the taken branch's handle or that has no handle.
pub fn branch_next(node_id: &str, edges: &[PipelineEdge], high_confidence: bool) -> (next: Option<String>)
    ensures
        match next {
            Some(t) => exists|k: int|
                0 <= k < edges.len() && #[trigger] branch_edge_matches(
                    edges@[k],
                    node_id@,
                    branch_handle(high_confidence),
                ) && t@ == edges@[k].target@ && forall|j: int|
                    0 <= j < k ==> !branch_edge_matches(
                        edges@[j],
                        node_id@,
                        branch_handle(high_confidence),
                    ),
            None => forall|k: int|
                0 <= k < edges.len() ==> !#[trigger] branch_edge_matches(
                    edges@[k],
                    node_id@,
                    branch_handle(high_confidence),
                ),
        },
{
    let handle: &str = if high_confidence { "high_confidence" } else { "low_confidence" };
    let mut k: usize = 0;
    while k < edges.len()
        invariant
            k <= edges.len(),
            handle@ == branch_handle(high_confidence),
            forall|j: int|
                0 <= j < k ==> !#[trigger] branch_edge_matches(
                    edges@[j],
                    node_id@,
                    branch_handle(high_confidence),
                ),
        decreases edges.len() - k,
    {
        let e = &edges[k];
        if str_equal(e.source.as_str(), node_id) {
            let ok = match &e.source_handle {
                None => true,
                Some(h) => str_equal(h.as_str(), handle),
            };
            if ok {
                assert(branch_edge_matches(edges@[k as int], node_id@, branch_handle(high_confidence)));
                return Some(e.target.clone());
            }
        }
        k = k + 1;
    }
    None
}

/// What running a node of a given type does, as far as the walk is concerned.
#[derive(Clone, Copy, Debug, PartialEq, Eq, Structural)]
pub enum NodeAction {
    /// Ask a model for answers, then follow the default edge.
    Decision,
    /// Follow the edge of the high- or low-confidence branch.
    Branch,
    /// Open a human review task, then follow the default edge.
    HumanEscalation,
    /// Log the shadow model's divergence, then follow the default edge.
    Shadow,
    /// Read or fill the pipeline cache, then follow the default edge.
    Cache,
    /// Terminal node: the run ends here.
    Output,
    /// Fan-out, fan-in, loop, ensemble, model escalation or an unknown type:
    /// follow the default edge.
    PassThrough,
}

/// The action for a node type, accepting the snake-case and the
/// upper-camel-case spelling of each type.
pub open spec fn node_action_spec(t: Seq<char>) -> NodeAction {
    if t == "decision"@ || t == "Decision"@ {
        NodeAction::Decision
    } else if t == "branch"@ || t == "Branch"@ {
        NodeAction::Branch
    } else if t == "human_escalation"@ || t == "HumanEscalation"@ {
        NodeAction::HumanEscalation
    } else if t == "shadow"@ || t == "Shadow"@ {
        NodeAction::Shadow
    } else if t == "cache"@ || t == "Cache"@ {
        NodeAction::Cache
    } else if t == "output"@ || t == "Output"@ {
        NodeAction::Output
    } else {
        NodeAction::PassThrough
    }
}

/// The type name a node of kind `k` carries in a saved pipeline
/// (snake case).
pub open spec fn node_kind_snake_name(k: NodeKind) -> Seq<char> {
    match k {
        NodeKind::Decision => "decision"@,
        NodeKind::Branch => "branch"@,
        NodeKind::ParallelFanout => "parallel_fanout"@,
        NodeKind::FanIn => "fan_in"@,
        NodeKind::Loop => "loop"@,
        NodeKind::Ensemble => "ensemble"@,
        NodeKind::HumanEscalation => "human_escalation"@,
        NodeKind::ModelEscalation => "model_escalation"@,
        NodeKind::Shadow => "shadow"@,
        NodeKind::Cache => "cache"@,
        NodeKind::Output => "output"@,
    }
}

/// The type name of kind `k` spelled as the variant (upper camel case).
pub open spec fn node_kind_camel_name(k: NodeKind) -> Seq<char> {
    match k {
        NodeKind::Decision => "Decision"@,
        NodeKind::Branch => "Branch"@,
        NodeKind::ParallelFanout => "ParallelFanout"@,
        NodeKind::FanIn => "FanIn"@,
        NodeKind::Loop => "Loop"@,
        NodeKind::Ensemble => "Ensemble"@,
        NodeKind::HumanEscalation => "HumanEscalation"@,
        NodeKind::ModelEscalation => "ModelEscalation"@,
        NodeKind::Shadow => "Shadow"@,
        NodeKind::Cache => "Cache"@,
        NodeKind::Output => "Output"@,
    }
}

/// What running a node of kind `k` does: decisions, branches, review
/// tasks, shadow logs, the cache and the terminal output each have their
/// own action; fan-out, fan-in, loops, ensembles and model escalation
/// follow the default edge.
pub open spec fn kind_action(k: NodeKind) -> NodeAction {
    match k {
        NodeKind::Decision => NodeAction::Decision,
        NodeKind::Branch => NodeAction::Branch,
        NodeKind::HumanEscalation => NodeAction::HumanEscalation,
        NodeKind::Shadow => NodeAction::Shadow,
        NodeKind::Cache => NodeAction::Cache,
        NodeKind::Output => NodeAction::Output,
        _ => NodeAction::PassThrough,
    }
}

/// Classifies a node by its type name.
pub fn classify_node_type(node_type: &str) -> (a: NodeAction)
    ensures
        a == node_action_spec(node_type@),
{
    if str_equal(node_type, "decision") || str_equal(node_type, "Decision") {
        NodeAction::Decision
    } else if str_equal(node_type, "branch") || str_equal(node_type, "Branch") {
        NodeAction::Branch
    } else if str_equal(node_type, "human_escalation") || str_equal(node_type, "HumanEscalation") {
        NodeAction::HumanEscalation
    } else if str_equal(node_type, "shadow") || str_equal(node_type, "Shadow") {
        NodeAction::Shadow
    } else if str_equal(node_type, "cache") || str_equal(node_type, "Cache") {
        NodeAction::Cache
    } else if str_equal(node_type, "output") || str_equal(node_type, "Output") {
        NodeAction::Output
    } else {
        NodeAction::PassThrough
    }
}

/// Every node kind is classified by what a node of that kind does, whether
/// its type is written in snake case (as saved) or as the variant name:
/// both spellings of a kind give the same action, and a human-escalation
/// node, for one, always opens a review task.
pub proof fn lemma_node_kind_spellings_agree(k: NodeKind)
    ensures
        node_action_spec(node_kind_snake_name(k)) == kind_action(k),
        node_action_spec(node_kind_camel_name(k)) == kind_action(k),
{
    reveal_strlit("decision");
    reveal_strlit("Decision");
    reveal_strlit("branch");
    reveal_strlit("Branch");
    reveal_strlit("parallel_fanout");
    reveal_strlit("ParallelFanout");
    reveal_strlit("fan_in");
    reveal_strlit("FanIn");
    reveal_strlit("loop");
    reveal_strlit("Loop");
    reveal_strlit("ensemble");
    reveal_strlit("Ensemble");
    reveal_strlit("human_escalation");
    reveal_strlit("HumanEscalation");
    reveal_strlit("model_escalation");
    reveal_strlit("ModelEscalation");
    reveal_strlit("shadow");
    reveal_strlit("Shadow");
    reveal_strlit("cache");
    reveal_strlit("Cache");
    reveal_strlit("output");
    reveal_strlit("Output");
    assert("decision"@.len() == 8 && "decision"@[0] == 'd');
    assert("Decision"@.len() == 8 && "Decision"@[0] == 'D');
    assert("branch"@.len() == 6 && "branch"@[0] == 'b');
    assert("Branch"@.len() == 6 && "Branch"@[0] == 'B');
    assert("parallel_fanout"@.len() == 15 && "parallel_fanout"@[0] == 'p');
    assert("ParallelFanout"@.len() == 14 && "ParallelFanout"@[0] == 'P');
    assert("fan_in"@.len() == 6 && "fan_in"@[0] == 'f');
    assert("FanIn"@.len() == 5 && "FanIn"@[0] == 'F');
    assert("loop"@.len() == 4 && "loop"@[0] == 'l');
    assert("Loop"@.len() == 4 && "Loop"@[0] == 'L');
    assert("ensemble"@.len() == 8 && "ensemble"@[0] == 'e');
    assert("Ensemble"@.len() == 8 && "Ensemble"@[0] == 'E');
    assert("human_escalation"@.len() == 16 && "human_escalation"@[0] == 'h');
    assert("HumanEscalation"@.len() == 15 && "HumanEscalation"@[0] == 'H');
    assert("model_escalation"@.len() == 16 && "model_escalation"@[0] == 'm');
    assert("ModelEscalation"@.len() == 15 && "ModelEscalation"@[0] == 'M');
    assert("shadow"@.len() == 6 && "shadow"@[0] == 's');
    assert("Shadow"@.len() == 6 && "Shadow"@[0] == 'S');
    assert("cache"@.len() == 5 && "cache"@[0] == 'c');
    assert("Cache"@.len() == 5 && "Cache"@[0] == 'C');
    assert("output"@.len() == 6 && "output"@[0] == 'o');
    assert("Output"@.len() == 6 && "Output"@[0] == 'O');
}

/// The reason recorded on the review task a human-escalation node opens:
/// the node's configured reason, or `Low confidence threshold breached`.
pub fn escalation_reason(configured: Option<&str>) -> (r: String)
    ensures
        r@ == match configured {
            Some(c) => c@,
            None => "Low confidence threshold breached"@,
        },
{
    match configured {
        Some(c) => String::from_str(c),
        None => String::from_str("Low confidence threshold breached"),
    }
}

/// The status of a review task when it is opened.
pub fn new_escalation_status() -> (s: &'static str)
    ensures
        s@ == "pending"@,
{
    "pending"
}

/// Index of the first node with id `id`.
pub fn find_node(nodes: &[GraphNode], id: &str) -> (r: Option<usize>)
    ensures
        match r {
            Some(i) => i < nodes.len() && nodes@[i as int].id@ == id@ && forall|j: int|
                0 <= j < i ==> nodes@[j].id@ != id@,
            None => forall|j: int| 0 <= j < nodes.len() ==> #[trigger] nodes@[j].id@ != id@,
        },
{
    let mut i: usize = 0;
    while i < nodes.len()
        invariant
            i <= nodes.len(),
            forall|j: int| 0 <= j < i ==> #[trigger] nodes@[j].id@ != id@,
        decreases nodes.len() - i,
    {
        if str_equal(nodes[i].id.as_str(), id) {
            return Some(i);
        }
        i = i + 1;
    }
    None
}

/// Delay before retrying a decision node whose model call failed for the
/// `attempt`-th time (1-based): 50 ms times the attempt for the first two
/// failures; after the third failure the node gives up.
pub fn decision_retry_delay_ms(attempt: u32) -> (d: Option<u64>)
    ensures
        d == if 1 <= attempt <= 2 { Some((50 * attempt) as u64) } else { None::<u64> },
{
    if 1 <= attempt && attempt <= 2 {
        Some(50 * (attempt as u64))
    } else {
        None
    }
}

/// Key under which a cache node stores the pipeline state: the node id and
/// the state's JSON text, joined by a colon.
pub fn cache_key(node_id: &str, state_json: &str) -> (k: String)
    ensures
        k@ == node_id@ + ":"@ + state_json@,
{
    let mut k = String::from_str(node_id);
    k.append(":");
    k.append(state_json);
    k
}

/// A reading of the monotonic clock.
#[verifier::external_type_specification]
#[verifier::external_body]
pub struct ExInstant(std::time::Instant);

/// The current reading of the monotonic clock (`std::time::Instant::now`).
/// It depends on the clock, so nothing is stated of it.
#[verifier::external_body]
fn clock_now() -> (t: std::time::Instant) {
    std::time::Instant::now()
}

/// The time elapsed since `t` (`Instant::elapsed`). It depends on the
/// clock, so nothing is stated of it.
#[verifier::external_body]
fn elapsed_since(t: &std::time::Instant) -> (d: std::time::Duration) {
    t.elapsed()
}

/// The whole nanoseconds of a duration (`Duration::as_nanos`). The
/// duration's contents are not modelled, so nothing is stated of it.
#[verifier::external_body]
fn duration_nanos(d: std::time::Duration) -> (ns: u128) {
    d.as_nanos()
}

/// Whether an entry stored `elapsed_nanos` nanoseconds ago is still within
/// a time-to-live of `ttl_seconds` seconds.
pub fn is_fresh(elapsed_nanos: u128, ttl_seconds: u64) -> (b: bool)
    ensures
        b == (elapsed_nanos < ttl_seconds * 1_000_000_000),
{
    elapsed_nanos < (ttl_seconds as u128) * 1_000_000_000
}

/// What a cache lookup gives for an entry holding `val` that was stored
/// `elapsed_nanos` nanoseconds ago: the value while it is fresh, `None`
/// once it has expired.
pub fn fresh_entry(val: &str, elapsed_nanos: u128, ttl_seconds: u64) -> (r: Option<String>)
    ensures
        r matches Some(v) ==> v@ == val@,
        r is Some <==> elapsed_nanos < ttl_seconds * 1_000_000_000,
{
    if is_fresh(elapsed_nanos, ttl_seconds) {
        Some(String::from_str(val))
    } else {
        None
    }
}

/// The state a cache node stored under each key (as JSON text), with the
/// time it was stored; an entry expires after the time-to-live.
pub struct PipelineCache {
    entries: KeyedTable<(String, std::time::Instant)>,
    ttl_seconds: u64,
}

impl PipelineCache {
    /// The stored state texts by key, expired or not.
    pub closed spec fn stored(&self) -> Map<Seq<char>, Seq<char>> {
        self.entries@.map_values(|e: (String, std::time::Instant)| e.0@)
    }

    /// The time-to-live of an entry, in seconds.
    pub closed spec fn ttl(&self) -> nat {
        self.ttl_seconds as nat
    }

    /// An empty cache whose entries live `ttl_seconds` seconds.
    pub fn new(ttl_seconds: u64) -> (c: Self)
        ensures
            c.stored() == Map::<Seq<char>, Seq<char>>::empty(),
            c.ttl() == ttl_seconds,
    {
        let c = PipelineCache { entries: KeyedTable::new(), ttl_seconds };
        assert(c.stored() =~= Map::<Seq<char>, Seq<char>>::empty());
        c
    }

    /// The state stored under `key` while it is fresh; `None` when nothing
    /// is stored there or the entry has expired. Whether a stored entry is
    /// still fresh depends on the clock; with a time-to-live of zero no
    /// entry ever is.
    pub fn get(&self, key: &str) -> (r: Option<String>)
        ensures
            r matches Some(v) ==> self.stored().contains_key(key@) && v@ == self.stored()[key@],
            !self.stored().contains_key(key@) ==> r is None,
            self.ttl() == 0 ==> r is None,
    {
        match self.entries.get(key) {
            Some(entry) => {
                let age = duration_nanos(elapsed_since(&entry.1));
                fresh_entry(entry.0.as_str(), age, self.ttl_seconds)
            },
            None => None,
        }
    }

    /// Stores `val` under `key`, stamped with the current time, replacing
    /// any earlier entry.
    pub fn set(&mut self, key: String, val: String)
        ensures
            final(self).stored() == old(self).stored().insert(key@, val@),
            final(self).ttl() == old(self).ttl(),
    {
        let ghost k = key@;
        let ghost v = val@;
        self.entries.insert(key, (val, clock_now()));
        assert(self.stored() =~= old(self).stored().insert(k, v));
    }
}

/// The stored state texts after `set` was called with each `(key, value)`
/// of `sets` in turn, starting from `before`.
pub open spec fn after_sets(before: Map<Seq<char>, Seq<char>>, sets: Seq<(Seq<char>, Seq<char>)>) -> Map<
    Seq<char>,
    Seq<char>,
>
    decreases sets.len(),
{
    if sets.len() == 0 {
        before
    } else {
        after_sets(before, sets.drop_last()).insert(sets.last().0, sets.last().1)
    }
}

/// The cache keeps the last value set for a key across any later sets on
/// other keys: a `get` on that key that finds the entry fresh gives back
/// that value.
pub proof fn lemma_cache_last_set_wins(before: Map<Seq<char>, Seq<char>>, sets: Seq<(Seq<char>, Seq<char>)>, i: int)
    requires
        0 <= i < sets.len(),
        forall|j: int| i < j < sets.len() ==> #[trigger] sets[j].0 != sets[i].0,
    ensures
        after_sets(before, sets).contains_key(sets[i].0),
        after_sets(before, sets)[sets[i].0] == sets[i].1,
    decreases sets.len(),
{
    if i < sets.len() - 1 {
        let rest = sets.drop_last();
        assert forall|j: int| i < j < rest.len() implies #[trigger] rest[j].0 != rest[i].0 by {
            assert(sets[j].0 != sets[i].0);
        }
        lemma_cache_last_set_wins(before, rest, i);
        assert(sets[sets.len() - 1].0 != sets[i].0);
    }
}

/// A key never set keeps whatever `before` held for it; in particular a
/// key absent from a new cache and never set stays absent, so `get`
/// answers `None` for it.
pub proof fn lemma_cache_unset_key(before: Map<Seq<char>, Seq<char>>, sets: Seq<(Seq<char>, Seq<char>)>, k: Seq<char>)
    requires
        forall|j: int| 0 <= j < sets.len() ==> #[trigger] sets[j].0 != k,
    ensures
        after_sets(before, sets).contains_key(k) == before.contains_key(k),
        before.contains_key(k) ==> after_sets(before, sets)[k] == before[k],
    decreases sets.len(),
{
    if sets.len() > 0 {
        let rest = sets.drop_last();
        assert forall|j: int| 0 <= j < rest.len() implies #[trigger] rest[j].0 != k by {
            assert(sets[j].0 != k);
        }
        lemma_cache_unset_key(before, rest, k);
        assert(sets[sets.len() - 1].0 != k);
    }
}

/// After `set(key, val)`, a `get(key)` that finds a fresh entry gives back
/// `val`, and the entries under other keys are those stored before.
pub proof fn lemma_cache_set_then_get(before: Map<Seq<char>, Seq<char>>, key: Seq<char>, val: Seq<char>, other: Seq<char>)
    requires
        other != key,
    ensures
        before.insert(key, val).contains_key(key),
        before.insert(key, val)[key] == val,
        before.insert(key, val).contains_key(other) == before.contains_key(other),
        before.contains_key(other) ==> before.insert(key, val)[other] == before[other],
{
}

/// The next thing the caller of a pipeline walk has to do.
#[derive(Clone, Debug, PartialEq, Eq)]
pub enum WalkStep {
    /// Run node `nodes[index]`, then report its successor.
    Run(usize),
    /// The run is over.
    Finished,
}

/// The state of a pipeline run between two nodes.
pub struct PipelineWalk {
    current: String,
    visited: usize,
    max_nodes: usize,
    done: bool,
}

impl PipelineWalk {
    /// A run never counts more visits than its budget.
    #[verifier::type_invariant]
    spec fn within_budget(self) -> bool {
        self.visited <= self.max_nodes
    }

    /// Id of the node to be run next (meaningless once finished).
    pub closed spec fn current_id(&self) -> Seq<char> {
        self.current@
    }

    /// Number of nodes run so far.
    pub closed spec fn visited_count(&self) -> nat {
        self.visited as nat
    }

    /// Most nodes one run may visit: three times the node count.
    pub closed spec fn node_budget(&self) -> nat {
        self.max_nodes as nat
    }

    /// Whether the run has reached a terminal node.
    pub closed spec fn is_done(&self) -> bool {
        self.done
    }

    /// Starts a run at the first root node; fails when there is none.
    pub fn start(nodes: &[GraphNode], edges: &[PipelineEdge]) -> (r: Result<Self, PipelineError>)
        requires
            nodes.len() * 3 <= usize::MAX,
        ensures
            match r {
                Ok(w) => {
                    &&& exists|i: int|
                        0 <= i < nodes.len() && is_root(nodes@, edges@, i) && w.current_id()
                            == nodes@[i].id@ && forall|j: int|
                            0 <= j < i ==> !is_root(nodes@, edges@, j)
                    &&& w.visited_count() == 0
                    &&& w.node_budget() == nodes.len() * 3
                    &&& !w.is_done()
                },
                Err(e) => e == PipelineError::NoRootNode && forall|j: int|
                    0 <= j < nodes.len() ==> !is_root(nodes@, edges@, j),
            },
    {
        match find_root_node(nodes, edges) {
            Some(i) => Ok(
                PipelineWalk {
                    current: nodes[i].id.clone(),
                    visited: 0,
                    max_nodes: nodes.len() * 3,
                    done: false,
                },
            ),
            None => Err(PipelineError::NoRootNode),
        }
    }

    /// The next node to run, counting it as visited. The run is finished
    /// once a terminal node has been reached or the budget is spent; a
    /// successor id that names no node is an error.
    pub fn next_step(&mut self, nodes: &[GraphNode]) -> (r: Result<WalkStep, PipelineError>)
        ensures
            final(self).current_id() == old(self).current_id(),
            final(self).node_budget() == old(self).node_budget(),
            final(self).is_done() == old(self).is_done(),
            final(self).visited_count() <= final(self).node_budget(),
            old(self).is_done() || old(self).visited_count() >= old(self).node_budget() ==> r == Ok::<
                WalkStep,
                PipelineError,
            >(WalkStep::Finished) && final(self).visited_count() == old(self).visited_count(),
            !old(self).is_done() && old(self).visited_count() < old(self).node_budget() ==> {
                &&& final(self).visited_count() == old(self).visited_count() + 1
                &&& match r {
                    Ok(WalkStep::Run(i)) => i < nodes.len() && nodes@[i as int].id@
                        == old(self).current_id() && forall|j: int|
                        0 <= j < i ==> nodes@[j].id@ != old(self).current_id(),
                    Ok(WalkStep::Finished) => false,
                    Err(e) => (e matches PipelineError::NodeNotFound(id) && id@ == old(self).current_id())
                        && forall|j: int|
                        0 <= j < nodes.len() ==> nodes@[j].id@ != old(self).current_id(),
                }
            },
    {
        proof {
            use_type_invariant(&*self);
        }
        if self.done || self.visited >= self.max_nodes {
            return Ok(WalkStep::Finished);
        }
        self.visited = self.visited + 1;
        match find_node(nodes, self.current.as_str()) {
            Some(i) => Ok(WalkStep::Run(i)),
            None => Err(PipelineError::NodeNotFound(self.current.clone())),
        }
    }

    /// Records the successor chosen by the node just run: the walk moves
    /// there, or ends when there is none.
    pub fn complete_node(&mut self, next: Option<String>)
        ensures
            final(self).visited_count() == old(self).visited_count(),
            final(self).node_budget() == old(self).node_budget(),
            final(self).visited_count() <= final(self).node_budget(),
            match next {
                Some(n) => final(self).current_id() == n@ && final(self).is_done() == old(self).is_done(),
                None => final(self).is_done() && final(self).current_id() == old(self).current_id(),
            },
    {
        proof {
            use_type_invariant(&*self);
        }
        match next {
            Some(n) => {
                self.current = n;
            },
            None => {
                self.done = true;
            },
        }
    }
}

// ─────────────────────────────────────────────────────────────────────────────
// Runnable client exporters
// ─────────────────────────────────────────────────────────────────────────────

/// The Python client script that runs the pipeline named `name` with id `id` through the local API.
pub open spec fn python_export_text(name: Seq<char>, id: Seq<char>) -> Seq<char> {
    "# Auto-generated by Tiny Decision v1.0.0\n# Pipeline: "@
        + name
        + " (ID: "@
        + id
        + ")\nimport requests\nimport json\n\nTINY_DECISION_URL = \"http://127.0.0.1:11535/v1/decide\"\n\ndef run_decision_pipeline(state: dict) -> dict:\n    \"\"\"Executes the "@
        + name
        + " decision pipeline graph.\"\"\"\n    payload = {\n        \"pipeline_id\": \""@
        + id
        + "\",\n        \"state\": state\n    }\n    resp = requests.post(f\"http://127.0.0.1:11535/v1/pipelines/"@
        + id
        + "/run\", json=payload)\n    resp.raise_for_status()\n    return resp.json()\n\nif __name__ == \"__main__\":\n    sample_state = {\"text\": \"Sample input decision state\"}\n    result = run_decision_pipeline(sample_state)\n    print(\"Decision Result:\", json.dumps(result, indent=2))\n"@
}

/// Exports a runnable Python client script for the pipeline.
pub fn export_pipeline_to_python(name: &str, id: &str) -> (text: String)
    ensures
        text@ == python_export_text(name@, id@),
{
    let mut text = String::from_str("# Auto-generated by Tiny Decision v1.0.0\n# Pipeline: ");
    text.append(name);
    text.append(" (ID: ");
    text.append(id);
    text.append(")\nimport requests\nimport json\n\nTINY_DECISION_URL = \"http://127.0.0.1:11535/v1/decide\"\n\ndef run_decision_pipeline(state: dict) -> dict:\n    \"\"\"Executes the ");
    text.append(name);
    text.append(" decision pipeline graph.\"\"\"\n    payload = {\n        \"pipeline_id\": \"");
    text.append(id);
    text.append("\",\n        \"state\": state\n    }\n    resp = requests.post(f\"http://127.0.0.1:11535/v1/pipelines/");
    text.append(id);
    text.append("/run\", json=payload)\n    resp.raise_for_status()\n    return resp.json()\n\nif __name__ == \"__main__\":\n    sample_state = {\"text\": \"Sample input decision state\"}\n    result = run_decision_pipeline(sample_state)\n    print(\"Decision Result:\", json.dumps(result, indent=2))\n");
    text
}

/// The TypeScript client module that runs the pipeline named `name` with id `id` through the local API.
pub open spec fn node_export_text(name: Seq<char>, id: Seq<char>) -> Seq<char> {
    "// Auto-generated by Tiny Decision v1.0.0\n// Pipeline: "@
        + name
        + " (ID: "@
        + id
        + ")\n\nexport interface DecisionState {\n  [key: string]: unknown;\n}\n\nexport async function runDecisionPipeline(state: DecisionState) {\n  const endpoint = \"http://127.0.0.1:11535/v1/pipelines/"@
        + id
        + "/run\";\n  const res = await fetch(endpoint, {\n    method: \"POST\",\n    headers: { \"Content-Type\": \"application/json\" },\n    body: JSON.stringify({ pipeline_id: \""@
        + id
        + "\", state }),\n  });\n  if (!res.ok) {\n    throw new Error(`Pipeline execution failed: ${res.statusText}`);\n  }\n  return res.json();\n}\n\n// Example usage:\n// runDecisionPipeline({ text: \"Sample input state\" }).then(console.log);\n"@
}

/// Exports a runnable TypeScript (Node.js) client module for the pipeline.
pub fn export_pipeline_to_node(name: &str, id: &str) -> (text: String)
    ensures
        text@ == node_export_text(name@, id@),
{
    let mut text = String::from_str("// Auto-generated by Tiny Decision v1.0.0\n// Pipeline: ");
    text.append(name);
    text.append(" (ID: ");
    text.append(id);
    text.append(")\n\nexport interface DecisionState {\n  [key: string]: unknown;\n}\n\nexport async function runDecisionPipeline(state: DecisionState) {\n  const endpoint = \"http://127.0.0.1:11535/v1/pipelines/");
    text.append(id);
    text.append("/run\";\n  const res = await fetch(endpoint, {\n    method: \"POST\",\n    headers: { \"Content-Type\": \"application/json\" },\n    body: JSON.stringify({ pipeline_id: \"");
    text.append(id);
    text.append("\", state }),\n  });\n  if (!res.ok) {\n    throw new Error(`Pipeline execution failed: ${res.statusText}`);\n  }\n  return res.json();\n}\n\n// Example usage:\n// runDecisionPipeline({ text: \"Sample input state\" }).then(console.log);\n");
    text
}

} // verus!
