//! Agent flows: the flow documents, and the runtime state of one execution
//! (the node outputs passed between agents, node statuses and the log).

use vstd::prelude::*;
use crate::json::{
    ents, jget, json_parse, json_pretty, jview, key_index, lemma_key_index, parse_json_checked, lemma_take_put, lemma_upsert_get,
    lemma_upsert_other, put_key, take_key, upsert, JView, JsonValue,
};
use crate::text::{concat, dec, dec_u64, from_chars, owned, to_chars};

verus! {

// ─── Documents ──────────────────────────────────────────────────────────────

/// Where a node sits on the canvas; the coordinates are carried through as
/// JSON numbers.
pub struct NodePosition {
    pub x: serde_json::Number,
    pub y: serde_json::Number,
}

pub struct FlowNode {
    pub id: String,
    /// `agent`, `start` or `end`.
    pub node_type: String,
    pub agent_work: Option<String>,
    pub label: String,
    pub position: NodePosition,
}

pub struct FlowEdge {
    pub id: String,
    pub source: String,
    pub target: String,
    pub condition: Option<String>,
}

pub struct AgentFlow {
    pub id: String,
    pub name: String,
    pub description: Option<String>,
    pub nodes: Vec<FlowNode>,
    pub edges: Vec<FlowEdge>,
    pub version: u32,
    pub created_at: String,
    pub updated_at: String,
}

#[derive(Clone, Copy, PartialEq, Eq, Structural)]
pub enum NodeStatus {
    Idle,
    Running,
    Completed,
    Failed,
    Paused,
}

#[derive(Clone, Copy, PartialEq, Eq, Structural)]
pub enum FlowStatus {
    Idle,
    Running,
    Completed,
    Failed,
    Paused,
}

pub struct NodeExecution {
    pub node_id: String,
    pub status: NodeStatus,
    pub output: Option<JsonValue>,
    pub error: Option<String>,
    pub started_at: Option<u64>,
    pub finished_at: Option<u64>,
}

pub struct FlowExecution {
    pub id: String,
    pub flow_id: String,
    pub status: FlowStatus,
    /// One entry per node id.
    pub node_executions: Vec<(String, NodeExecution)>,
    pub logs: Vec<String>,
    pub started_at: u64,
    pub finished_at: Option<u64>,
}

// ─── Time ───────────────────────────────────────────────────────────────────

/// Seconds since the Unix epoch by the system clock
/// (`SystemTime::now().duration_since(UNIX_EPOCH)`, zero for a clock set
/// before the epoch).  Nothing is known of the value: it is the time.
#[verifier::external_body]
fn system_secs() -> u64 {
    std::time::SystemTime::now().duration_since(std::time::UNIX_EPOCH).unwrap_or_default().as_secs()
}

/// The current time in seconds since the Unix epoch.
pub fn now_ts() -> u64 {
    system_secs()
}

/// A time stamp as text: the seconds in decimal.
pub fn iso_of(ts: u64) -> (r: String)
    ensures
        r@ == dec(ts as nat),
{
    from_chars(&dec_u64(ts))
}

/// The current time as text: some number of seconds, in decimal.
pub fn now_iso() -> (r: String)
    ensures
        exists|t: u64| r@ == dec(t as nat),
{
    let t = now_ts();
    iso_of(t)
}

// ─── Saving ─────────────────────────────────────────────────────────────────

/// The id a new flow gets: `flow-<seconds>`.
pub open spec fn new_flow_id(ts: u64) -> Seq<char> {
    "flow-"@ + dec(ts as nat)
}

/// A flow as saved at the given times: a new one (empty id) gets an id, a
/// creation time and version 1; a known one its version raised by one; both
/// the update time.
pub fn stamp_flow(flow: AgentFlow, id_ts: u64, created_ts: u64, updated_ts: u64) -> (r: AgentFlow)
    requires
        flow.id@.len() > 0 ==> flow.version < u32::MAX,
    ensures
        flow.id@.len() == 0 ==> r.id@ == new_flow_id(id_ts) && r.created_at@ == dec(created_ts as nat)
            && r.version == 1,
        flow.id@.len() > 0 ==> r.id == flow.id && r.created_at == flow.created_at && r.version
            == flow.version + 1,
        r.updated_at@ == dec(updated_ts as nat),
        r.name == flow.name,
        r.description == flow.description,
        r.nodes == flow.nodes,
        r.edges == flow.edges,
{
    let mut f = flow;
    if to_chars(f.id.as_str()).len() == 0 {
        f.id = from_chars(&concat(&to_chars("flow-"), &dec_u64(id_ts)));
        f.created_at = iso_of(created_ts);
        f.version = 1;
    } else {
        f.version = f.version + 1;
    }
    f.updated_at = iso_of(updated_ts);
    f
}

/// Prepares a flow for saving, reading the clock for each time stamp.
pub fn save_flow(flow: AgentFlow) -> (r: AgentFlow)
    requires
        flow.id@.len() > 0 ==> flow.version < u32::MAX,
    ensures
        flow.id@.len() == 0 ==> (exists|t: u64| r.id@ == new_flow_id(t)) && (exists|t: u64|
            r.created_at@ == dec(t as nat)) && r.version == 1,
        flow.id@.len() > 0 ==> r.id == flow.id && r.created_at == flow.created_at && r.version
            == flow.version + 1,
        exists|t: u64| r.updated_at@ == dec(t as nat),
        r.name == flow.name,
        r.description == flow.description,
        r.nodes == flow.nodes,
        r.edges == flow.edges,
{
    let new_id = to_chars(flow.id.as_str()).len() == 0;
    let t1 = if new_id {
        now_ts()
    } else {
        0
    };
    let t2 = if new_id {
        now_ts()
    } else {
        0
    };
    let t3 = now_ts();
    stamp_flow(flow, t1, t2, t3)
}

/// The file a flow is stored in, inside the flows directory: `<id>.json`.
pub fn flow_file_name(flow_id: &str) -> (r: String)
    ensures
        r@ == flow_id@ + ".json"@,
{
    from_chars(&concat(&to_chars(flow_id), &to_chars(".json")))
}

/// The file a node output is stored in, inside the flow's context directory.
pub fn node_output_file_name(node_id: &str) -> (r: String)
    ensures
        r@ == node_id@ + ".json"@,
{
    from_chars(&concat(&to_chars(node_id), &to_chars(".json")))
}

/// Flows as listed: most recently updated first (by the text of
/// `updated_at`); flows with the same update time keep their order.
pub fn sort_flows(flows: Vec<AgentFlow>) -> (r: Vec<AgentFlow>)
    ensures
        exists|p: Seq<int>|
            {
                &&& crate::order::is_perm(p, flows@.len() as int)
                &&& r@.len() == flows@.len()
                &&& forall|i: int| 0 <= i < r@.len() ==> #[trigger] r@[i] == flows@[p[i]]
                &&& crate::order::sorted_by(updated_times(r@), true)
                &&& forall|i: int, j: int|
                    0 <= i < j < r@.len() && r@[i].updated_at@ == r@[j].updated_at@
                        ==> #[trigger] p[i] < #[trigger] p[j]
            },
{
    let ghost fs = flows@;
    let n = flows.len();
    let mut src = flows;
    let mut pairs: Vec<(Vec<char>, AgentFlow)> = Vec::new();
    let mut k: usize = 0;
    while k < n
        invariant
            n == fs.len(),
            k <= n,
            src@ == fs.skip(k as int),
            pairs@.len() == k,
            forall|i: int|
                0 <= i < k ==> (#[trigger] pairs@[i]).1 == fs[i] && pairs@[i].0@ == fs[i].updated_at@,
        decreases n - k,
    {
        let f = src.remove(0);
        assert(f == fs[k as int]);
        assert(src@ =~= fs.skip(k + 1));
        let key = to_chars(f.updated_at.as_str());
        pairs.push((key, f));
        k = k + 1;
    }
    let sorted = crate::order::stable_sort(pairs, true);
    let ghost ps = pairs@;
    let ghost p = choose|p: Seq<int>|
        {
            &&& crate::order::is_perm(p, ps.len() as int)
            &&& sorted@.len() == ps.len()
            &&& forall|i: int| 0 <= i < sorted@.len() ==> #[trigger] sorted@[i] == ps[p[i]]
            &&& crate::order::sorted_by(crate::order::keys(sorted@), true)
            &&& forall|i: int, j: int|
                0 <= i < j < sorted@.len() && sorted@[i].0@ == sorted@[j].0@ ==> #[trigger] p[i]
                    < #[trigger] p[j]
        };
    let m = sorted.len();
    let mut src2 = sorted;
    let ghost srt = src2@;
    let mut out: Vec<AgentFlow> = Vec::new();
    let mut j: usize = 0;
    while j < m
        invariant
            m == srt.len(),
            j <= m,
            src2@ == srt.skip(j as int),
            out@.len() == j,
            forall|i: int| 0 <= i < j ==> #[trigger] out@[i] == srt[i].1,
        decreases m - j,
    {
        let x = src2.remove(0);
        assert(x == srt[j as int]);
        assert(src2@ =~= srt.skip(j + 1));
        out.push(x.1);
        j = j + 1;
    }
    proof {
        assert forall|i: int| 0 <= i < out@.len() implies #[trigger] out@[i] == fs[p[i]] by {
            assert(srt[i] == ps[p[i]]);
        }
        assert forall|i: int| 0 <= i < out@.len() implies #[trigger] updated_times(out@)[i]
            == crate::order::keys(srt)[i] by {
            assert(srt[i] == ps[p[i]]);
        }
        assert(updated_times(out@) =~= crate::order::keys(srt));
        assert forall|i: int, j: int|
            0 <= i < j < out@.len() && out@[i].updated_at@ == out@[j].updated_at@ implies #[trigger] p[i]
            < #[trigger] p[j] by {
            assert(srt[i] == ps[p[i]]);
            assert(srt[j] == ps[p[j]]);
        }
        assert(crate::order::is_perm(p, fs.len() as int));
    }
    out
}

/// The update times of flows.
pub open spec fn updated_times(fs: Seq<AgentFlow>) -> Seq<Seq<char>> {
    fs.map_values(|f: AgentFlow| f.updated_at@)
}

} // verus!

verus! {

// ─── Execution state ────────────────────────────────────────────────────────

/// The abstract content of a node's execution.
pub struct NodeView {
    pub node_id: Seq<char>,
    pub status: NodeStatus,
    pub output: Option<JView>,
    pub error: Option<Seq<char>>,
    pub started_at: Option<u64>,
    pub finished_at: Option<u64>,
}

pub open spec fn opt_jview(o: Option<JsonValue>) -> Option<JView> {
    match o {
        Some(v) => Some(jview(v)),
        None => None,
    }
}

impl View for NodeExecution {
    type V = NodeView;

    open spec fn view(&self) -> NodeView {
        NodeView {
            node_id: self.node_id@,
            status: self.status,
            output: opt_jview(self.output),
            error: crate::text::opt_view(self.error),
            started_at: self.started_at,
            finished_at: self.finished_at,
        }
    }
}

/// The abstract content of an execution.
pub struct ExecView {
    pub id: Seq<char>,
    pub flow_id: Seq<char>,
    pub status: FlowStatus,
    pub nodes: Seq<(Seq<char>, NodeView)>,
    pub logs: Seq<Seq<char>>,
    pub started_at: u64,
    pub finished_at: Option<u64>,
}

pub open spec fn node_views(ns: Seq<(String, NodeExecution)>) -> Seq<(Seq<char>, NodeView)> {
    ns.map_values(|e: (String, NodeExecution)| (e.0@, e.1@))
}

impl View for FlowExecution {
    type V = ExecView;

    open spec fn view(&self) -> ExecView {
        ExecView {
            id: self.id@,
            flow_id: self.flow_id@,
            status: self.status,
            nodes: node_views(self.node_executions@),
            logs: crate::text::sviews(self.logs@),
            started_at: self.started_at,
            finished_at: self.finished_at,
        }
    }
}

fn clone_opt_json(o: &Option<JsonValue>) -> (r: Option<JsonValue>)
    ensures
        opt_jview(r) == opt_jview(*o),
{
    match o {
        Some(v) => Some(crate::json::clone_json(v)),
        None => None,
    }
}

fn clone_node(n: &NodeExecution) -> (r: NodeExecution)
    ensures
        r@ == n@,
{
    NodeExecution {
        node_id: n.node_id.clone(),
        status: n.status,
        output: clone_opt_json(&n.output),
        error: n.error.clone(),
        started_at: n.started_at,
        finished_at: n.finished_at,
    }
}

/// A copy of an execution.
pub fn clone_execution(e: &FlowExecution) -> (r: FlowExecution)
    ensures
        r@ == e@,
{
    let mut nodes: Vec<(String, NodeExecution)> = Vec::new();
    let mut i: usize = 0;
    while i < e.node_executions.len()
        invariant
            i <= e.node_executions@.len(),
            node_views(nodes@) == node_views(e.node_executions@).take(i as int),
        decreases e.node_executions@.len() - i,
    {
        let k = e.node_executions[i].0.clone();
        let n = clone_node(&e.node_executions[i].1);
        let ghost prev = nodes@;
        nodes.push((k, n));
        assert(node_views(nodes@) =~= node_views(prev).push(
            (e.node_executions@[i as int].0@, e.node_executions@[i as int].1@),
        ));
        assert(node_views(e.node_executions@).take(i + 1) =~= node_views(e.node_executions@).take(
            i as int,
        ).push((e.node_executions@[i as int].0@, e.node_executions@[i as int].1@)));
        i = i + 1;
    }
    assert(node_views(e.node_executions@).take(e.node_executions@.len() as int) =~= node_views(
        e.node_executions@,
    ));
    let mut logs: Vec<String> = Vec::new();
    let mut j: usize = 0;
    while j < e.logs.len()
        invariant
            j <= e.logs@.len(),
            crate::text::sviews(logs@) == crate::text::sviews(e.logs@).take(j as int),
        decreases e.logs@.len() - j,
    {
        let ghost prev = logs@;
        logs.push(e.logs[j].clone());
        assert(crate::text::sviews(logs@) =~= crate::text::sviews(prev).push(e.logs@[j as int]@));
        assert(crate::text::sviews(e.logs@).take(j + 1) =~= crate::text::sviews(e.logs@).take(
            j as int,
        ).push(e.logs@[j as int]@));
        j = j + 1;
    }
    assert(crate::text::sviews(e.logs@).take(e.logs@.len() as int) =~= crate::text::sviews(
        e.logs@,
    ));
    FlowExecution {
        id: e.id.clone(),
        flow_id: e.flow_id.clone(),
        status: e.status,
        node_executions: nodes,
        logs,
        started_at: e.started_at,
        finished_at: e.finished_at,
    }
}

/// Index of the first node with id `k`.
pub open spec fn find_node(ns: Seq<(Seq<char>, NodeView)>, k: Seq<char>) -> Option<int>
    decreases ns.len(),
{
    if ns.len() == 0 {
        None
    } else if ns[0].0 == k {
        Some(0)
    } else {
        match find_node(ns.drop_first(), k) {
            Some(i) => Some(i + 1),
            None => None,
        }
    }
}

proof fn lemma_find_node_unique(ns: Seq<(Seq<char>, NodeView)>, k: Seq<char>, i: int)
    requires
        0 <= i <= ns.len(),
        forall|j: int| 0 <= j < i ==> ns[j].0 != k,
        i < ns.len() ==> ns[i].0 == k,
    ensures
        find_node(ns, k) == (if i < ns.len() {
            Some(i)
        } else {
            None::<int>
        }),
    decreases ns.len(),
{
    if ns.len() > 0 && i > 0 {
        assert forall|j: int| 0 <= j < i - 1 implies ns.drop_first()[j].0 != k by {
            assert(ns.drop_first()[j] == ns[j + 1]);
        }
        if i < ns.len() {
            assert(ns.drop_first()[i - 1] == ns[i]);
        }
        lemma_find_node_unique(ns.drop_first(), k, i - 1);
    }
}

/// The node as it is after a status update at time `now`: the new status and
/// error; a start time when it starts running, a finish time when it
/// completes or fails.
pub open spec fn updated_node(n: NodeView, status: NodeStatus, error: Option<Seq<char>>, now: u64) -> NodeView {
    NodeView {
        status,
        error,
        started_at: if status == NodeStatus::Running {
            Some(now)
        } else {
            n.started_at
        },
        finished_at: if status == NodeStatus::Completed || status == NodeStatus::Failed {
            Some(now)
        } else {
            n.finished_at
        },
        ..n
    }
}

/// The log entry for a message at time `now`: `[<seconds>] <message>`.
pub open spec fn log_entry(now: u64, message: Seq<char>) -> Seq<char> {
    seq!['['] + dec(now as nat) + "] "@ + message
}

/// The log after appending an entry: at most 1000 entries are kept; past
/// that the oldest 100 go.
pub open spec fn appended_log(logs: Seq<Seq<char>>, entry: Seq<char>) -> Seq<Seq<char>> {
    let l = logs.push(entry);
    if l.len() > 1000 {
        l.skip(100)
    } else {
        l
    }
}

/// The error when no flow is running.
pub open spec fn not_running_error() -> Seq<char> {
    "没有正在运行的 Flow"@
}

/// The in-memory state of flow execution: node outputs by node id, and the
/// current execution.
pub struct FlowRuntimeState {
    pub context: Vec<(String, JsonValue)>,
    pub execution: Option<FlowExecution>,
}

pub open spec fn opt_exec_view(e: Option<FlowExecution>) -> Option<ExecView> {
    match e {
        Some(x) => Some(x@),
        None => None,
    }
}

} // verus!

verus! {

/// The execution a flow starts with: every node idle.
pub open spec fn initial_nodes(nodes: Seq<FlowNode>) -> Seq<(Seq<char>, NodeView)>
    decreases nodes.len(),
{
    if nodes.len() == 0 {
        seq![]
    } else {
        let prev = initial_nodes(nodes.drop_last());
        let id = nodes.last().id@;
        let idle = NodeView {
            node_id: id,
            status: NodeStatus::Idle,
            output: None,
            error: None,
            started_at: None,
            finished_at: None,
        };
        match find_node(prev, id) {
            Some(i) => prev.update(i, (id, idle)),
            None => prev.push((id, idle)),
        }
    }
}

impl FlowRuntimeState {
    pub fn new() -> (r: Self)
        ensures
            r.context@.len() == 0,
            r.execution is None,
    {
        FlowRuntimeState { context: Vec::new(), execution: None }
    }

    /// Stores a node's output in memory; returns the text to persist it as.
    pub fn set_node_output(&mut self, node_id: &str, output: JsonValue) -> (r: String)
        ensures
            ents(final(self).context@) == upsert(
                ents(old(self).context@),
                node_id@,
                |x: Option<JView>| jview(output),
            ),
            final(self).execution == old(self).execution,
            r@ == crate::json::json_pretty(jview(output)),
    {
        let text = crate::json::to_pretty(&output);
        let ghost o0 = self.context@;
        let (i, _cur) = take_key(&mut self.context, node_id);
        let ghost mid = self.context@;
        let ghost ov = jview(output);
        put_key(&mut self.context, i, node_id, output);
        proof {
            lemma_take_put(o0, node_id@, i as int, mid, ents(self.context@), ov, |x: Option<JView>| ov);
        }
        text
    }

    /// The output stored for a node, if any.
    pub fn get_node_output(&self, node_id: &str) -> (r: Option<JsonValue>)
        ensures
            match r {
                Some(v) => jget(ents(self.context@), node_id@) == Some(jview(v)),
                None => jget(ents(self.context@), node_id@) is None,
            },
    {
        proof {
            lemma_key_index(ents(self.context@), node_id@);
        }
        match crate::json::find_key(&self.context, node_id) {
            Some(i) => Some(crate::json::clone_json(&self.context[i].1)),
            None => None,
        }
    }

    /// Starts executing a flow: the outputs are cleared and every node is
    /// idle.  `id_ts` names the execution, `start_ts` is its start time.
    pub fn init_flow_execution(&mut self, flow: &AgentFlow, id_ts: u64, start_ts: u64) -> (r:
        FlowExecution)
        ensures
            final(self).context@.len() == 0,
            r@.id == "exec-"@ + dec(id_ts as nat),
            r@.flow_id == flow.id@,
            r@.status == FlowStatus::Running,
            r@.nodes == initial_nodes(flow.nodes@),
            r@.logs.len() == 0,
            r@.started_at == start_ts,
            r@.finished_at is None,
            opt_exec_view(final(self).execution) == Some(r@),
    {
        self.context = Vec::new();
        let mut nodes: Vec<(String, NodeExecution)> = Vec::new();
        let mut i: usize = 0;
        while i < flow.nodes.len()
            invariant
                i <= flow.nodes@.len(),
                node_views(nodes@) == initial_nodes(flow.nodes@.take(i as int)),
            decreases flow.nodes@.len() - i,
        {
            proof {
                assert(flow.nodes@.take(i + 1).drop_last() =~= flow.nodes@.take(i as int));
            }
            let id = &flow.nodes[i].id;
            let idle = NodeExecution {
                node_id: id.clone(),
                status: NodeStatus::Idle,
                output: None,
                error: None,
                started_at: None,
                finished_at: None,
            };
            let idc = to_chars(id.as_str());
            let mut k: usize = 0;
            while k < nodes.len() && !crate::text::same_chars(&to_chars(nodes[k].0.as_str()), &idc)
                invariant
                    k <= nodes@.len(),
                    idc@ == id@,
                    forall|j: int| 0 <= j < k ==> node_views(nodes@)[j].0 != id@,
                decreases nodes@.len() - k,
            {
                k = k + 1;
            }
            let ghost prev = node_views(nodes@);
            proof {
                lemma_find_node_unique(prev, id@, k as int);
            }
            if k < nodes.len() {
                let _old = nodes.remove(k);
                nodes.insert(k, (id.clone(), idle));
                assert(node_views(nodes@) =~= prev.update(k as int, (id@, idle@)));
            } else {
                nodes.push((id.clone(), idle));
                assert(node_views(nodes@) =~= prev.push((id@, idle@)));
            }
            i = i + 1;
        }
        assert(flow.nodes@.take(flow.nodes@.len() as int) =~= flow.nodes@);
        let logs: Vec<String> = Vec::new();
        assert(crate::text::sviews(logs@) =~= Seq::<Seq<char>>::empty());
        let exec = FlowExecution {
            id: from_chars(&concat(&to_chars("exec-"), &dec_u64(id_ts))),
            flow_id: flow.id.clone(),
            status: FlowStatus::Running,
            node_executions: nodes,
            logs,
            started_at: start_ts,
            finished_at: None,
        };
        let copy = clone_execution(&exec);
        self.execution = Some(exec);
        copy
    }

    /// A copy of the current execution.
    pub fn get_flow_execution(&self) -> (r: Option<FlowExecution>)
        ensures
            opt_exec_view(r) == opt_exec_view(self.execution),
    {
        match &self.execution {
            Some(e) => Some(clone_execution(e)),
            None => None,
        }
    }

    /// Sets a node's status (and error) at time `now`; nothing changes for a
    /// node id the execution does not have.
    pub fn update_node_status(
        &mut self,
        node_id: &str,
        status: NodeStatus,
        error: Option<String>,
        now: u64,
    ) -> (r: Result<(), String>)
        ensures
            final(self).context == old(self).context,
            match old(self).execution {
                None => r matches Err(e) && e@ == not_running_error() && final(self).execution
                    is None,
                Some(x) => r is Ok && (final(self).execution matches Some(y) && y@ == ExecView {
                    nodes: match find_node(x@.nodes, node_id@) {
                        Some(i) => x@.nodes.update(
                            i,
                            (
                                x@.nodes[i].0,
                                updated_node(
                                    x@.nodes[i].1,
                                    status,
                                    crate::text::opt_view(error),
                                    now,
                                ),
                            ),
                        ),
                        None => x@.nodes,
                    },
                    ..x@
                }),
            },
    {
        let mut taken: Option<FlowExecution> = None;
        std::mem::swap(&mut taken, &mut self.execution);
        let mut exec = match taken {
            Some(e) => e,
            None => return Err(owned("没有正在运行的 Flow")),
        };
        let ghost x = exec@;
        let idc = to_chars(node_id);
        let mut k: usize = 0;
        while k < exec.node_executions.len() && !crate::text::same_chars(
            &to_chars(exec.node_executions[k].0.as_str()),
            &idc,
        )
            invariant
                k <= exec.node_executions@.len(),
                idc@ == node_id@,
                exec@ == x,
                forall|j: int| 0 <= j < k ==> x.nodes[j].0 != node_id@,
            decreases exec.node_executions@.len() - k,
        {
            k = k + 1;
        }
        proof {
            lemma_find_node_unique(x.nodes, node_id@, k as int);
        }
        if k < exec.node_executions.len() {
            let (key, node) = exec.node_executions.remove(k);
            let mut node = node;
            node.status = status;
            node.error = error;
            match status {
                NodeStatus::Running => {
                    node.started_at = Some(now);
                },
                NodeStatus::Completed | NodeStatus::Failed => {
                    node.finished_at = Some(now);
                },
                _ => {},
            }
            let ghost nv = node@;
            exec.node_executions.insert(k, (key, node));
            assert(node_views(exec.node_executions@) =~= x.nodes.update(k as int, (x.nodes[k as int].0, nv)));
        }
        self.execution = Some(exec);
        Ok(())
    }

    /// Appends a message to the execution's log at time `now`.
    pub fn append_flow_log(&mut self, message: &str, now: u64) -> (r: Result<(), String>)
        ensures
            final(self).context == old(self).context,
            match old(self).execution {
                None => r matches Err(e) && e@ == not_running_error() && final(self).execution
                    is None,
                Some(x) => r is Ok && (final(self).execution matches Some(y) && y@ == ExecView {
                    logs: appended_log(x@.logs, log_entry(now, message@)),
                    ..x@
                }),
            },
    {
        let mut taken: Option<FlowExecution> = None;
        std::mem::swap(&mut taken, &mut self.execution);
        let mut exec = match taken {
            Some(e) => e,
            None => return Err(owned("没有正在运行的 Flow")),
        };
        let ghost x = exec@;
        let mut entry: Vec<char> = Vec::new();
        entry.push('[');
        entry = concat(&entry, &dec_u64(now));
        entry = concat(&entry, &to_chars("] "));
        entry = concat(&entry, &to_chars(message));
        assert(entry@ =~= log_entry(now, message@));
        let mut logs: Vec<String> = Vec::new();
        std::mem::swap(&mut logs, &mut exec.logs);
        logs.push(from_chars(&entry));
        let ghost l = crate::text::sviews(logs@);
        assert(l =~= x.logs.push(log_entry(now, message@)));
        if logs.len() > 1000 {
            let mut kept: Vec<String> = Vec::new();
            let mut src = logs;
            let n = src.len();
            let ghost all = src@;
            let mut i: usize = 0;
            while i < n
                invariant
                    n == all.len(),
                    i <= n,
                    src@ == all.skip(i as int),
                    i <= 100 ==> kept@.len() == 0,
                    i > 100 ==> crate::text::sviews(kept@) == crate::text::sviews(all).subrange(
                        100,
                        i as int,
                    ),
                decreases n - i,
            {
                let s = src.remove(0);
                assert(s == all[i as int]);
                assert(src@ =~= all.skip(i + 1));
                if i >= 100 {
                    let ghost prev = kept@;
                    kept.push(s);
                    assert(crate::text::sviews(kept@) =~= crate::text::sviews(all).subrange(
                        100,
                        i + 1,
                    ));
                }
                i = i + 1;
            }
            assert(crate::text::sviews(all).subrange(100, n as int) =~= l.skip(100));
            logs = kept;
        }
        exec.logs = logs;
        self.execution = Some(exec);
        Ok(())
    }

    /// Ends the execution with a status at time `now`; without an execution
    /// nothing happens.
    pub fn finish_flow_execution(&mut self, status: FlowStatus, now: u64) -> (r: Result<(), String>)
        ensures
            r is Ok,
            final(self).context == old(self).context,
            match old(self).execution {
                None => final(self).execution is None,
                Some(x) => final(self).execution matches Some(y) && y@ == ExecView {
                    status,
                    finished_at: Some(now),
                    ..x@
                },
            },
    {
        match &mut self.execution {
            Some(e) => {
                e.status = status;
                e.finished_at = Some(now);
            },
            None => {},
        }
        Ok(())
    }
}

// ─── Node outputs on disk ───────────────────────────────────────────────────

/// The output a node-output file holds: its text parsed as JSON, or the
/// parser's message.
pub fn node_output_from_text(text: &str) -> (r: Result<JsonValue, String>)
    ensures
        match r {
            Ok(v) => json_parse(text@) == Ok::<JView, Seq<char>>(jview(v)),
            Err(e) => json_parse(text@) == Err::<JView, Seq<char>>(e@),
        },
{
    parse_json_checked(text)
}

/// What reading a node's output back from its file gives: nothing when there
/// is no file, the read error, or the file's text parsed as JSON (the
/// parser's message when it is not JSON).
pub open spec fn stored_output(stored: Option<Result<Seq<char>, Seq<char>>>) -> Result<
    Option<JView>,
    Seq<char>,
> {
    match stored {
        None => Ok(None),
        Some(Err(e)) => Err(e),
        Some(Ok(t)) => match json_parse(t) {
            Ok(v) => Ok(Some(v)),
            Err(m) => Err(m),
        },
    }
}

/// A node's output read back from its file, given what reading the file
/// gave (`None` when there is no file).
pub fn node_output_from_file(stored: Option<Result<String, String>>) -> (r: Result<
    Option<JsonValue>,
    String,
>)
    ensures
        stored_output(
            match stored {
                None => None,
                Some(Ok(t)) => Some(Ok(t@)),
                Some(Err(e)) => Some(Err(e@)),
            },
        ) == match r {
            Ok(Some(v)) => Ok::<Option<JView>, Seq<char>>(Some(jview(v))),
            Ok(None) => Ok(None),
            Err(e) => Err(e@),
        },
{
    match stored {
        None => Ok(None),
        Some(Err(e)) => Err(e),
        Some(Ok(t)) => match node_output_from_text(t.as_str()) {
            Ok(v) => Ok(Some(v)),
            Err(m) => Err(m),
        },
    }
}

// ─── Laws ───────────────────────────────────────────────────────────────────

/// A node's output reads back as it was written.
pub proof fn law_output_read_after_write(
    ctx: Seq<(Seq<char>, JView)>,
    node_id: Seq<char>,
    v: JView,
)
    ensures
        jget(upsert(ctx, node_id, |x: Option<JView>| v), node_id) == Some(v),
{
    lemma_upsert_get(ctx, node_id, |x: Option<JView>| v);
}

/// Writing one node's output leaves the others' as they were.
pub proof fn law_output_write_keeps_others(
    ctx: Seq<(Seq<char>, JView)>,
    node_id: Seq<char>,
    v: JView,
    other: Seq<char>,
)
    requires
        other != node_id,
    ensures
        jget(upsert(ctx, node_id, |x: Option<JView>| v), other) == jget(ctx, other),
{
    lemma_upsert_other(ctx, node_id, |x: Option<JView>| v, other);
}

/// Once the outputs in memory are cleared (a new execution starts), a node's
/// output is read from its file, and the file `set_node_output` wrote reads
/// back as what the JSON parser makes of that pretty-printed text.
pub proof fn law_persisted_output_reads_back(ctx: Seq<(Seq<char>, JView)>, node_id: Seq<char>, v: JView)
    requires
        ctx.len() == 0,
    ensures
        jget(ctx, node_id) is None,
        stored_output(Some(Ok(json_pretty(v)))) == match json_parse(json_pretty(v)) {
            Ok(w) => Ok::<Option<JView>, Seq<char>>(Some(w)),
            Err(m) => Err(m),
        },
{
    lemma_key_index(ctx, node_id);
}

/// A status update at time `now` sets the node's status and error; a node
/// that starts running gets `now` as its start time, one that completes or
/// fails gets `now` as its finish time, and every other time stays as it was.
pub proof fn law_status_times(n: NodeView, status: NodeStatus, error: Option<Seq<char>>, now: u64)
    ensures
        updated_node(n, status, error, now).status == status,
        updated_node(n, status, error, now).error == error,
        updated_node(n, status, error, now).node_id == n.node_id,
        updated_node(n, status, error, now).output == n.output,
        status == NodeStatus::Running ==> updated_node(n, status, error, now).started_at == Some(now)
            && updated_node(n, status, error, now).finished_at == n.finished_at,
        (status == NodeStatus::Completed || status == NodeStatus::Failed) ==> updated_node(
            n,
            status,
            error,
            now,
        ).finished_at == Some(now) && updated_node(n, status, error, now).started_at == n.started_at,
        (status == NodeStatus::Idle || status == NodeStatus::Paused) ==> updated_node(
            n,
            status,
            error,
            now,
        ).started_at == n.started_at && updated_node(n, status, error, now).finished_at
            == n.finished_at,
{
}

/// The log never holds more than 1000 entries, and its newest entry is the
/// last message appended.
pub proof fn law_log_bounded(logs: Seq<Seq<char>>, entry: Seq<char>)
    requires
        logs.len() <= 1000,
    ensures
        appended_log(logs, entry).len() <= 1000,
        appended_log(logs, entry).last() == entry,
{
}

} // verus!
