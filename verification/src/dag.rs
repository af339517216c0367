//! Decisions of DAG execution.
//!
//! A node becomes decidable once every incoming edge has a conclusion: all
//! upstream nodes are in a terminal state. It runs when at least one incoming
//! edge lets it through and is skipped when all of them refuse. `map` fans out
//! inside one node; the graph itself never changes while a run executes.
//!
//! Running nodes, writing events and evaluating edge conditions are the
//! caller's work; this module holds the state that decides what runs next,
//! when a run stops, what a retry feeds back and how a `map` is cut into
//! batches.

use vstd::prelude::*;
use crate::json::{entry, entry_views, json_array, json_array_of, json_bool, json_bool_of, json_null, json_object, json_object_of, json_string, json_string_of};

use crate::text::{join, push_all, chars_of, lex_le, lex_le_chars, lemma_lex_total, lemma_lex_trans, push_decimal, decimal};

verus! {

#[verifier::external_type_specification]
#[verifier::external_body]
pub struct ExJsonValue(serde_json::Value);

/// The state of one node in a run.
#[derive(Debug, Clone, Copy, PartialEq, Eq, Structural)]
pub enum NodeStatus {
    Pending,
    Running,
    Succeeded,
    Failed,
    Skipped,
    Cancelled,
}

/// Finished one way or another.
pub open spec fn is_terminal(s: NodeStatus) -> bool {
    s == NodeStatus::Succeeded || s == NodeStatus::Failed || s == NodeStatus::Skipped || s
        == NodeStatus::Cancelled
}

/// The `Debug` name of a status, as it appears in skip reasons.
pub open spec fn status_name(s: NodeStatus) -> Seq<char> {
    match s {
        NodeStatus::Pending => "Pending"@,
        NodeStatus::Running => "Running"@,
        NodeStatus::Succeeded => "Succeeded"@,
        NodeStatus::Failed => "Failed"@,
        NodeStatus::Skipped => "Skipped"@,
        NodeStatus::Cancelled => "Cancelled"@,
    }
}

impl NodeStatus {
    pub fn is_terminal(&self) -> (b: bool)
        ensures
            b == is_terminal(*self),
    {
        match self {
            NodeStatus::Succeeded | NodeStatus::Failed | NodeStatus::Skipped
            | NodeStatus::Cancelled => true,
            _ => false,
        }
    }

    pub fn name(&self) -> (s: &'static str)
        ensures
            s@ == status_name(*self),
    {
        match self {
            NodeStatus::Pending => "Pending",
            NodeStatus::Running => "Running",
            NodeStatus::Succeeded => "Succeeded",
            NodeStatus::Failed => "Failed",
            NodeStatus::Skipped => "Skipped",
            NodeStatus::Cancelled => "Cancelled",
        }
    }
}

// ------------------------------------------------------------------ the graph

/// A node as the scheduler sees it.
#[derive(Debug, Clone)]
pub struct DagNode {
    pub key: String,
    /// `on_failure = fail_fast`: a failure stops the run.
    pub fail_fast: bool,
}

/// An edge between nodes, by index.
#[derive(Debug, Clone, Copy)]
pub struct DagEdge {
    pub from: usize,
    pub to: usize,
    /// The edge's condition is `on_failure`: it is meant for the failure.
    pub on_failure: bool,
}

/// The nodes and edges of a validated DAG.
#[derive(Debug, Clone)]
pub struct DagGraph {
    pub nodes: Vec<DagNode>,
    pub edges: Vec<DagEdge>,
}

impl DagGraph {
    /// Every edge connects two nodes of the graph.
    pub open spec fn well_formed(&self) -> bool {
        forall|k: int|
            0 <= k < self.edges@.len() ==> #[trigger] self.edges@[k].from < self.nodes@.len()
                && self.edges@[k].to < self.nodes@.len()
    }

    pub open spec fn key(&self, i: int) -> Seq<char> {
        self.nodes@[i].key@
    }
}

/// Node `i` has at least one incoming edge.
pub open spec fn has_incoming(g: DagGraph, i: int) -> bool {
    exists|k: int| 0 <= k < g.edges@.len() && #[trigger] g.edges@[k].to == i
}

/// Every upstream node of `i` has finished.
pub open spec fn upstream_done(g: DagGraph, status: Seq<NodeStatus>, i: int) -> bool {
    forall|k: int|
        0 <= k < g.edges@.len() && #[trigger] g.edges@[k].to == i ==> is_terminal(
            status[g.edges@[k].from as int],
        )
}

/// Some incoming edge of `i` lets it through.
pub open spec fn any_passes(g: DagGraph, passes: Seq<bool>, i: int) -> bool {
    exists|k: int| 0 <= k < g.edges@.len() && #[trigger] g.edges@[k].to == i && passes[k]
}

/// Node `i` runs in this round.
pub open spec fn runs_now(
    g: DagGraph,
    status: Seq<NodeStatus>,
    started: Seq<bool>,
    passes: Seq<bool>,
    i: int,
) -> bool {
    &&& !started[i]
    &&& (!has_incoming(g, i) || (upstream_done(g, status, i) && any_passes(g, passes, i)))
}

/// Node `i` is skipped in this round: every incoming edge refused it.
pub open spec fn skipped_now(
    g: DagGraph,
    status: Seq<NodeStatus>,
    started: Seq<bool>,
    passes: Seq<bool>,
    i: int,
) -> bool {
    &&& !started[i]
    &&& has_incoming(g, i)
    &&& upstream_done(g, status, i)
    &&& !any_passes(g, passes, i)
}

/// The `key(Status)` items of the incoming edges of `i` among `edges`, in
/// edge order.
pub open spec fn upstream_items(
    g: DagGraph,
    edges: Seq<DagEdge>,
    status: Seq<NodeStatus>,
    i: int,
) -> Seq<Seq<char>>
    decreases edges.len(),
{
    if edges.len() == 0 {
        Seq::empty()
    } else {
        let e = edges.last();
        upstream_items(g, edges.drop_last(), status, i) + if e.to == i {
            seq![g.key(e.from as int) + "("@ + status_name(status[e.from as int]) + ")"@]
        } else {
            Seq::empty()
        }
    }
}

/// Why node `i` was skipped.
pub open spec fn skip_reason(g: DagGraph, status: Seq<NodeStatus>, i: int) -> Seq<char> {
    "入边条件全部不满足："@ + join(upstream_items(g, g.edges@, status, i), "、"@)
}

/// Strictly increasing.
pub open spec fn increasing(s: Seq<usize>) -> bool {
    forall|a: int, b: int| 0 <= a < b < s.len() ==> s[a] < s[b]
}

/// The nodes that are ready and those skipped in one round.
pub struct Ready {
    /// Nodes to run, in node order.
    pub ready: Vec<usize>,
    /// Nodes skipped because every incoming edge refused them, in node
    /// order, with the reason.
    pub skipped: Vec<(usize, String)>,
}

/// Per-node state while a DAG executes.
pub struct RunState {
    status: Vec<NodeStatus>,
    started: Vec<bool>,
}

impl RunState {
    pub closed spec fn statuses(&self) -> Seq<NodeStatus> {
        self.status@
    }

    pub closed spec fn started_set(&self) -> Seq<bool> {
        self.started@
    }

    pub open spec fn inv(&self, g: DagGraph) -> bool {
        &&& self.statuses().len() == g.nodes@.len()
        &&& self.started_set().len() == g.nodes@.len()
    }

    /// Every node pending, nothing started.
    pub fn new(g: &DagGraph) -> (s: RunState)
        ensures
            s.inv(*g),
            forall|i: int| 0 <= i < g.nodes@.len() ==> #[trigger] s.statuses()[i] == NodeStatus::Pending,
            forall|i: int| 0 <= i < g.nodes@.len() ==> !#[trigger] s.started_set()[i],
    {
        let n = g.nodes.len();
        let mut status: Vec<NodeStatus> = Vec::new();
        let mut started: Vec<bool> = Vec::new();
        let mut i: usize = 0;
        while i < n
            invariant
                n == g.nodes@.len(),
                i <= n,
                status@.len() == i,
                started@.len() == i,
                forall|j: int| 0 <= j < i ==> #[trigger] status@[j] == NodeStatus::Pending,
                forall|j: int| 0 <= j < i ==> !#[trigger] started@[j],
            decreases n - i,
        {
            status.push(NodeStatus::Pending);
            started.push(false);
            i += 1;
        }
        RunState { status, started }
    }

    /// The state of node `i`.
    pub fn status_of(&self, i: usize) -> (s: NodeStatus)
        requires
            i < self.statuses().len(),
        ensures
            s == self.statuses()[i as int],
    {
        self.status[i]
    }

    /// Records how node `i` finished.
    pub fn finish(&mut self, i: usize, status: NodeStatus)
        requires
            i < old(self).statuses().len(),
        ensures
            final(self).statuses() == old(self).statuses().update(i as int, status),
            final(self).started_set() == old(self).started_set(),
    {
        self.status.set(i, status);
    }

    /// Takes the nodes decidable in this round and marks them started.
    ///
    /// `passes[k]` says whether edge `k` lets its target through, judged on
    /// the current state. A node with no incoming edge is ready at once; a
    /// node whose upstream nodes have all finished is ready when some
    /// incoming edge passes and skipped (with the reason recorded) when none
    /// does.
    pub fn take_ready(&mut self, g: &DagGraph, passes: &Vec<bool>) -> (r: Ready)
        requires
            old(self).inv(*g),
            g.well_formed(),
            passes@.len() == g.edges@.len(),
        ensures
            final(self).inv(*g),
            increasing(r.ready@),
            forall|a: int| 0 <= a < r.ready@.len() ==> r.ready@[a] < g.nodes@.len(),
            forall|a: int| 0 <= a < r.skipped@.len() ==> (#[trigger] r.skipped@[a]).0 < g.nodes@.len(),
            forall|j: int|
                0 <= j < g.nodes@.len() ==> (r.ready@.contains(j as usize) <==> runs_now(
                    *g,
                    old(self).statuses(),
                    old(self).started_set(),
                    passes@,
                    j,
                )),
            increasing(r.skipped@.map_values(|p: (usize, String)| p.0)),
            forall|j: int|
                0 <= j < g.nodes@.len() ==> (r.skipped@.map_values(|p: (usize, String)| p.0).contains(
                    j as usize,
                ) <==> skipped_now(
                    *g,
                    old(self).statuses(),
                    old(self).started_set(),
                    passes@,
                    j,
                )),
            forall|k: int|
                0 <= k < r.skipped@.len() ==> (#[trigger] r.skipped@[k]).1@ == skip_reason(
                    *g,
                    old(self).statuses(),
                    r.skipped@[k].0 as int,
                ),
            forall|j: int|
                0 <= j < g.nodes@.len() ==> #[trigger] final(self).statuses()[j] == if skipped_now(
                    *g,
                    old(self).statuses(),
                    old(self).started_set(),
                    passes@,
                    j,
                ) {
                    NodeStatus::Skipped
                } else {
                    old(self).statuses()[j]
                },
            forall|j: int|
                0 <= j < g.nodes@.len() ==> #[trigger] final(self).started_set()[j] == (old(
                    self,
                ).started_set()[j] || runs_now(
                    *g,
                    old(self).statuses(),
                    old(self).started_set(),
                    passes@,
                    j,
                ) || skipped_now(*g, old(self).statuses(), old(self).started_set(), passes@, j)),
    {
        let n = self.status.len();
        let m = g.edges.len();
        let ghost st0 = self.status@;
        let ghost sd0 = self.started@;
        let mut ready: Vec<usize> = Vec::new();
        let mut skipped: Vec<(usize, String)> = Vec::new();
        let mut i: usize = 0;
        while i < n
            invariant
                n == g.nodes@.len(),
                m == g.edges@.len(),
                g.well_formed(),
                passes@.len() == m,
                self.status@ == st0,
                self.started@ == sd0,
                st0.len() == n,
                sd0.len() == n,
                i <= n,
                increasing(ready@),
                forall|a: int| 0 <= a < ready@.len() ==> ready@[a] < i,
                forall|j: int|
                    0 <= j < i ==> (ready@.contains(j as usize) <==> runs_now(
                        *g,
                        st0,
                        sd0,
                        passes@,
                        j,
                    )),
                increasing(skipped@.map_values(|p: (usize, String)| p.0)),
                forall|a: int| 0 <= a < skipped@.len() ==> (#[trigger] skipped@[a]).0 < i,
                forall|j: int|
                    0 <= j < i ==> (skipped@.map_values(|p: (usize, String)| p.0).contains(
                        j as usize,
                    ) <==> skipped_now(*g, st0, sd0, passes@, j)),
                forall|k: int|
                    0 <= k < skipped@.len() ==> (#[trigger] skipped@[k]).1@ == skip_reason(
                        *g,
                        st0,
                        skipped@[k].0 as int,
                    ),
            decreases n - i,
        {
            let ghost rb = ready@;
            let ghost sb = skipped@.map_values(|p: (usize, String)| p.0);
            if !self.started[i] {
                // scan the incoming edges
                let mut incoming = false;
                let mut all_done = true;
                let mut any_pass = false;
                let mut items = String::new();
                let mut k: usize = 0;
                while k < m
                    invariant
                        n == g.nodes@.len(),
                        m == g.edges@.len(),
                        g.well_formed(),
                        passes@.len() == m,
                        self.status@ == st0,
                        st0.len() == n,
                        i < n,
                        k <= m,
                        incoming == (exists|q: int| 0 <= q < k && #[trigger] g.edges@[q].to == i),
                        all_done == (forall|q: int|
                            0 <= q < k && #[trigger] g.edges@[q].to == i ==> is_terminal(
                                st0[g.edges@[q].from as int],
                            )),
                        any_pass == (exists|q: int|
                            0 <= q < k && #[trigger] g.edges@[q].to == i && passes@[q]),
                        items@ == join(upstream_items(*g, g.edges@.take(k as int), st0, i as int), "、"@),
                        incoming == (upstream_items(*g, g.edges@.take(k as int), st0, i as int).len() > 0),
                    decreases m - k,
                {
                    let e = g.edges[k];
                    proof {
                        assert(g.edges@.take(k + 1).drop_last() =~= g.edges@.take(k as int));
                        assert(g.edges@.take(k + 1).last() == e);
                    }
                    if e.to == i {
                        let from = e.from;
                        let s = self.status[from];
                        let ghost prev = upstream_items(*g, g.edges@.take(k as int), st0, i as int);
                        let mut item = String::new();
                        item.append(g.nodes[from].key.as_str());
                        item.append("(");
                        item.append(s.name());
                        item.append(")");
                        if incoming {
                            items.append("、");
                        }
                        items.append(item.as_str());
                        proof {
                            let x = g.key(from as int) + "("@ + status_name(st0[from as int]) + ")"@;
                            assert(item@ =~= x);
                            assert(upstream_items(*g, g.edges@.take(k + 1), st0, i as int) =~= prev.push(x));
                            assert(prev.push(x).drop_last() =~= prev);
                            if prev.len() == 0 {
                                assert(join(prev.push(x), "、"@) == x);
                                assert(items@ =~= x);
                            } else {
                                assert(join(prev.push(x), "、"@) == join(prev, "、"@) + "、"@ + x);
                            }
                        }
                        incoming = true;
                        if !s.is_terminal() {
                            all_done = false;
                        }
                        if passes[k] {
                            any_pass = true;
                        }
                    } else {
                        proof {
                            assert(upstream_items(*g, g.edges@.take(k + 1), st0, i as int) =~= upstream_items(
                                *g,
                                g.edges@.take(k as int),
                                st0,
                                i as int,
                            ));
                        }
                    }
                    k += 1;
                }
                proof {
                    assert(g.edges@.take(m as int) =~= g.edges@);
                    assert(incoming == has_incoming(*g, i as int));
                    assert(all_done == upstream_done(*g, st0, i as int));
                    assert(any_pass == any_passes(*g, passes@, i as int));
                    assert(!sd0[i as int]);
                }
                if !incoming {
                    ready.push(i);
                } else if all_done {
                    if any_pass {
                        ready.push(i);
                    } else {
                        let mut reason = String::from_str("入边条件全部不满足：");
                        reason.append(items.as_str());
                        let ghost before = skipped@;
                        skipped.push((i, reason));
                        proof {
                            assert(skipped@.map_values(|p: (usize, String)| p.0) =~= before.map_values(
                                |p: (usize, String)| p.0,
                            ).push(i));
                            assert(before.map_values(|p: (usize, String)| p.0) == sb);
                            assert(skipped_now(*g, st0, sd0, passes@, i as int));
                        }
                    }
                }
            }
            proof {
                let ks = skipped@.map_values(|p: (usize, String)| p.0);
                lemma_push_contains(rb, i);
                lemma_push_contains(sb, i);
                assert(ready@ == rb || ready@ == rb.push(i));
                assert(ks == sb || ks == sb.push(i));
                assert(ready@ == rb.push(i) <==> runs_now(*g, st0, sd0, passes@, i as int));
                if ks == sb {
                    assert(ks.len() != sb.push(i).len());
                    assert(!skipped_now(*g, st0, sd0, passes@, i as int));
                }
                assert(ks == sb.push(i) <==> skipped_now(*g, st0, sd0, passes@, i as int));
                assert(!rb.contains(i)) by {
                    if rb.contains(i) {
                        let q = choose|q: int| 0 <= q < rb.len() && rb[q] == i;
                    }
                }
                assert(!sb.contains(i)) by {
                    if sb.contains(i) {
                        let q = choose|q: int| 0 <= q < sb.len() && sb[q] == i;
                    }
                }
            }
            i += 1;
        }
        // apply: skipped nodes become Skipped; every taken node is started
        let ghost ks = skipped@.map_values(|p: (usize, String)| p.0);
        assert(ks.take(0) =~= Seq::<usize>::empty());
        let mut a: usize = 0;
        while a < skipped.len()
            invariant
                n == g.nodes@.len(),
                self.status@.len() == n,
                self.started@.len() == n,
                a <= skipped@.len(),
                st0.len() == n,
                sd0.len() == n,
                ks == skipped@.map_values(|p: (usize, String)| p.0),
                forall|q: int| 0 <= q < skipped@.len() ==> (#[trigger] skipped@[q]).0 < n,
                forall|j: int|
                    0 <= j < n ==> #[trigger] self.status@[j] == if ks.take(a as int).contains(j as usize) {
                        NodeStatus::Skipped
                    } else {
                        st0[j]
                    },
                forall|j: int|
                    0 <= j < n ==> #[trigger] self.started@[j] == (sd0[j] || ks.take(a as int).contains(
                        j as usize,
                    )),
            decreases skipped@.len() - a,
        {
            let j = skipped[a].0;
            self.status.set(j, NodeStatus::Skipped);
            self.started.set(j, true);
            proof {
                assert(ks[a as int] == j);
                assert(ks.take(a + 1) =~= ks.take(a as int).push(j));
                lemma_push_contains(ks.take(a as int), j);
            }
            a += 1;
        }
        assert(ks.take(skipped@.len() as int) =~= ks);
        assert(ks.take(0) =~= Seq::<usize>::empty());
        assert(ready@.take(0) =~= Seq::<usize>::empty());
        let mut b: usize = 0;
        while b < ready.len()
            invariant
                n == g.nodes@.len(),
                self.status@.len() == n,
                self.started@.len() == n,
                b <= ready@.len(),
                st0.len() == n,
                sd0.len() == n,
                forall|q: int| 0 <= q < ready@.len() ==> ready@[q] < n,
                forall|j: int|
                    0 <= j < n ==> #[trigger] self.status@[j] == if ks.contains(j as usize) {
                        NodeStatus::Skipped
                    } else {
                        st0[j]
                    },
                forall|j: int|
                    0 <= j < n ==> #[trigger] self.started@[j] == (sd0[j] || ks.contains(j as usize)
                        || ready@.take(b as int).contains(j as usize)),
            decreases ready@.len() - b,
        {
            let j = ready[b];
            self.started.set(j, true);
            proof {
                assert(ready@.take(b + 1) =~= ready@.take(b as int).push(j));
                lemma_push_contains(ready@.take(b as int), j);
            }
            b += 1;
        }
        assert(ready@.take(ready@.len() as int) =~= ready@);
        Ready { ready, skipped }
    }

    /// A node failed under `fail_fast` and no failure edge leaves it: the
    /// run starts nothing new.
    pub fn should_stop(&self, g: &DagGraph) -> (b: bool)
        requires
            self.inv(*g),
        ensures
            b == (exists|i: int|
                0 <= i < g.nodes@.len() && #[trigger] stops_run(*g, self.statuses(), i)),
    {
        let n = self.status.len();
        let m = g.edges.len();
        let mut i: usize = 0;
        while i < n
            invariant
                n == g.nodes@.len(),
                m == g.edges@.len(),
                self.status@.len() == n,
                i <= n,
                forall|q: int| 0 <= q < i ==> !#[trigger] stops_run(*g, self.statuses(), q),
            decreases n - i,
        {
            if self.status[i] == NodeStatus::Failed && g.nodes[i].fail_fast {
                let mut handled = false;
                let mut k: usize = 0;
                while k < m
                    invariant
                        m == g.edges@.len(),
                        k <= m,
                        handled == (exists|q: int|
                            0 <= q < k && #[trigger] g.edges@[q].from == i && g.edges@[q].on_failure),
                    decreases m - k,
                {
                    if g.edges[k].from == i && g.edges[k].on_failure {
                        handled = true;
                    }
                    k += 1;
                }
                if !handled {
                    assert(stops_run(*g, self.statuses(), i as int));
                    return true;
                }
            }
            i += 1;
        }
        false
    }

    /// Marks every node that has not started as skipped and returns them,
    /// ordered by key.
    pub fn cancel_pending(&mut self, g: &DagGraph) -> (r: Vec<usize>)
        requires
            old(self).inv(*g),
        ensures
            final(self).inv(*g),
            forall|j: int|
                0 <= j < g.nodes@.len() ==> (r@.contains(j as usize) <==> old(self).statuses()[j]
                    == NodeStatus::Pending),
            r@.no_duplicates(),
            forall|a: int, b: int|
                0 <= a < b < r@.len() ==> lex_le(
                    g.key(#[trigger] r@[a] as int),
                    g.key(#[trigger] r@[b] as int),
                ),
            forall|j: int|
                0 <= j < g.nodes@.len() ==> #[trigger] final(self).statuses()[j] == if old(
                    self,
                ).statuses()[j] == NodeStatus::Pending {
                    NodeStatus::Skipped
                } else {
                    old(self).statuses()[j]
                },
            final(self).started_set() == old(self).started_set(),
            forall|j: int| 0 <= j < g.nodes@.len() ==> #[trigger] final(self).statuses()[j] != NodeStatus::Pending,
    {
        let n = self.status.len();
        let ghost st0 = self.status@;
        let mut out: Vec<usize> = Vec::new();
        let mut i: usize = 0;
        while i < n
            invariant
                n == g.nodes@.len(),
                self.status@.len() == n,
                self.started@ == old(self).started@,
                i <= n,
                forall|q: int| 0 <= q < out@.len() ==> (#[trigger] out@[q]) < i,
                out@.no_duplicates(),
                forall|j: int|
                    0 <= j < i ==> (out@.contains(j as usize) <==> st0[j] == NodeStatus::Pending),
                forall|j: int|
                    0 <= j < n ==> #[trigger] self.status@[j] == if j < i && st0[j]
                        == NodeStatus::Pending {
                        NodeStatus::Skipped
                    } else {
                        st0[j]
                    },
                forall|a: int, b: int|
                    0 <= a < b < out@.len() ==> lex_le(
                        g.key(#[trigger] out@[a] as int),
                        g.key(#[trigger] out@[b] as int),
                    ),
            decreases n - i,
        {
            if self.status[i] == NodeStatus::Pending {
                let key = chars_of(g.nodes[i].key.as_str());
                let p = insertion_point(g, &out, &key);
                let ghost old_out = out@;
                proof {
                    if p < out@.len() {
                        lemma_lex_total(g.key(out@[p as int] as int), key@);
                        assert forall|q: int| p <= q < out@.len() implies lex_le(
                            key@,
                            g.key(#[trigger] out@[q] as int),
                        ) by {
                            if q > p {
                                lemma_lex_trans(key@, g.key(out@[p as int] as int), g.key(out@[q] as int));
                            }
                        }
                    }
                }
                out.insert(p, i);
                proof {
                    assert forall|a: int, b: int| 0 <= a < b < out@.len() implies lex_le(
                        g.key(#[trigger] out@[a] as int),
                        g.key(#[trigger] out@[b] as int),
                    ) by {
                        if b < p {
                            assert(out@[a] == old_out[a] && out@[b] == old_out[b]);
                        } else if b == p {
                            assert(out@[a] == old_out[a]);
                        } else if a == p {
                            assert(out@[b] == old_out[b - 1]);
                        } else if a < p {
                            assert(out@[a] == old_out[a] && out@[b] == old_out[b - 1]);
                            lemma_lex_trans(g.key(old_out[a] as int), key@, g.key(old_out[b - 1] as int));
                        } else {
                            assert(out@[a] == old_out[a - 1] && out@[b] == old_out[b - 1]);
                        }
                    }
                    assert forall|j: int| 0 <= j < i + 1 implies (out@.contains(j as usize)
                        <==> st0[j] == NodeStatus::Pending) by {
                        if j < i {
                            if old_out.contains(j as usize) {
                                let q = choose|q: int| 0 <= q < old_out.len() && old_out[q] == j as usize;
                                if q < p {
                                    assert(out@[q] == j);
                                } else {
                                    assert(out@[q + 1] == j);
                                }
                            }
                            if out@.contains(j as usize) {
                                let q = choose|q: int| 0 <= q < out@.len() && out@[q] == j as usize;
                                if q < p {
                                    assert(old_out[q] == j);
                                } else if q > p {
                                    assert(old_out[q - 1] == j);
                                }
                            }
                        } else {
                            assert(out@[p as int] == i);
                        }
                    }
                    assert forall|a: int, b: int| 0 <= a < out@.len() && 0 <= b < out@.len() && a != b implies out@[a] != out@[b] by {
                        if a != p && b != p {
                            let a0 = if a < p { a } else { a - 1 };
                            let b0 = if b < p { b } else { b - 1 };
                            assert(out@[a] == old_out[a0]);
                            assert(out@[b] == old_out[b0]);
                        } else if a == p {
                            let b0 = if b < p { b } else { b - 1 };
                            assert(out@[b] == old_out[b0]);
                        } else {
                            let a0 = if a < p { a } else { a - 1 };
                            assert(out@[a] == old_out[a0]);
                        }
                    }
                }
                self.status.set(i, NodeStatus::Skipped);
            } else {
                proof {
                    assert forall|j: int| 0 <= j < i + 1 implies (out@.contains(j as usize)
                        <==> st0[j] == NodeStatus::Pending) by {
                        if j == i && out@.contains(j as usize) {
                            let q = choose|q: int| 0 <= q < out@.len() && out@[q] == j as usize;
                        }
                    }
                }
            }
            i += 1;
        }
        out
    }
}

proof fn lemma_push_contains<A>(s: Seq<A>, x: A)
    ensures
        forall|y: A| #[trigger] s.push(x).contains(y) <==> (s.contains(y) || y == x),
{
    assert forall|y: A| #[trigger] s.push(x).contains(y) <==> (s.contains(y) || y == x) by {
        if s.push(x).contains(y) {
            let q = choose|q: int| 0 <= q < s.push(x).len() && s.push(x)[q] == y;
            if q < s.len() {
                assert(s[q] == y);
            }
        }
        if s.contains(y) {
            let q = choose|q: int| 0 <= q < s.len() && s[q] == y;
            assert(s.push(x)[q] == y);
        }
        if y == x {
            assert(s.push(x)[s.len() as int] == y);
        }
    }
}

/// The first position in `out` whose node key sorts after `key`.
fn insertion_point(g: &DagGraph, out: &Vec<usize>, key: &Vec<char>) -> (p: usize)
    requires
        forall|q: int| 0 <= q < out@.len() ==> (#[trigger] out@[q]) < g.nodes@.len(),
    ensures
        p <= out@.len(),
        forall|q: int| 0 <= q < p ==> lex_le(g.key(#[trigger] out@[q] as int), key@),
        p < out@.len() ==> !lex_le(g.key(out@[p as int] as int), key@),
{
    let mut p: usize = 0;
    while p < out.len()
        invariant
            p <= out@.len(),
            forall|q: int| 0 <= q < out@.len() ==> (#[trigger] out@[q]) < g.nodes@.len(),
            forall|q: int| 0 <= q < p ==> lex_le(g.key(#[trigger] out@[q] as int), key@),
        decreases out@.len() - p,
    {
        let other = chars_of(g.nodes[out[p]].key.as_str());
        if !lex_le_chars(other.as_slice(), key.as_slice()) {
            return p;
        }
        p += 1;
    }
    p
}

/// Node `i` failed under `fail_fast` and no `on_failure` edge leaves it.
pub open spec fn stops_run(g: DagGraph, status: Seq<NodeStatus>, i: int) -> bool {
    &&& status[i] == NodeStatus::Failed
    &&& g.nodes@[i].fail_fast
    &&& !exists|k: int| 0 <= k < g.edges@.len() && #[trigger] g.edges@[k].from == i && g.edges@[k].on_failure
}

/// Only a failure under `fail_fast` stops a run, and only when no failure
/// edge leaves the failed node: a node that failed without `fail_fast`
/// leaves what happens downstream to the edge conditions. Conversely such
/// a failure always stops it.
pub proof fn lemma_only_fail_fast_failures_stop(g: DagGraph, status: Seq<NodeStatus>, i: int)
    requires
        0 <= i < g.nodes@.len(),
    ensures
        stops_run(g, status, i) ==> status[i] == NodeStatus::Failed && g.nodes@[i].fail_fast,
        stops_run(g, status, i) ==> forall|k: int| 0 <= k < g.edges@.len() && g.edges@[k].from == i ==> !g.edges@[k].on_failure,
        (status[i] == NodeStatus::Failed && g.nodes@[i].fail_fast && forall|k: int|
            0 <= k < g.edges@.len() && g.edges@[k].from == i ==> !g.edges@[k].on_failure) ==> stops_run(g, status, i),
{
}

/// A run none of whose failed nodes is `fail_fast` is never stopped by a
/// failure: [`RunState::should_stop`] answers false there.
pub proof fn lemma_no_fail_fast_no_stop(g: DagGraph, status: Seq<NodeStatus>)
    requires
        forall|i: int| 0 <= i < g.nodes@.len() && status[i] == NodeStatus::Failed ==> !g.nodes@[i].fail_fast,
    ensures
        !exists|i: int| 0 <= i < g.nodes@.len() && #[trigger] stops_run(g, status, i),
{
    assert forall|i: int| 0 <= i < g.nodes@.len() implies !#[trigger] stops_run(g, status, i) by {
        lemma_only_fail_fast_failures_stop(g, status, i);
    }
}

/// Why the nodes that never started were skipped.
pub open spec fn cancel_reason_spec(cancelled: bool, budget_exceeded: bool) -> Seq<char> {
    if cancelled {
        "run 已被取消"@
    } else if budget_exceeded {
        "预算已用尽，未启动"@
    } else {
        "上游失败，按 fail_fast 停止"@
    }
}

/// The reason written on nodes that never started. It names the real
/// cause: blaming an upstream failure when the budget ran out sends people
/// looking for a failure that does not exist.
pub fn cancel_reason(cancelled: bool, budget_exceeded: bool) -> (s: &'static str)
    ensures
        s@ == cancel_reason_spec(cancelled, budget_exceeded),
{
    if cancelled {
        "run 已被取消"
    } else if budget_exceeded {
        "预算已用尽，未启动"
    } else {
        "上游失败，按 fail_fast 停止"
    }
}


// ------------------------------------------------------------------ results

/// What one node instance produced.
#[derive(Debug)]
pub struct NodeResult {
    pub status: NodeStatus,
    pub output: Option<serde_json::Value>,
    pub error: Option<String>,
    /// Cost in micro-dollars.
    pub cost: u64,
    pub cli_version: Option<String>,
}

impl NodeResult {
    /// A failure with a reason and nothing spent.
    pub fn failed(error: String) -> (r: NodeResult)
        ensures
            r.status == NodeStatus::Failed,
            r.output is None,
            r.error == Some(error),
            r.cost == 0,
            r.cli_version is None,
    {
        NodeResult { status: NodeStatus::Failed, output: None, error: Some(error), cost: 0, cli_version: None }
    }

    /// A success with an optional output and nothing spent.
    pub fn succeeded(output: Option<serde_json::Value>) -> (r: NodeResult)
        ensures
            r.status == NodeStatus::Succeeded,
            r.output == output,
            r.error is None,
            r.cost == 0,
            r.cli_version is None,
    {
        NodeResult { status: NodeStatus::Succeeded, output, error: None, cost: 0, cli_version: None }
    }
}

/// What a run has spent and seen so far.
#[derive(Debug)]
pub struct DagTally {
    /// Micro-dollars spent, saturating.
    pub total_cost: u64,
    /// The CLI version most recently reported by a node.
    pub cli_version: Option<String>,
    /// The error of the first node that failed.
    pub failure: Option<String>,
    pub cancelled: bool,
    /// The budget ran out; the remaining nodes were not started.
    pub budget_exceeded: bool,
}

pub open spec fn saturating_sum(a: u64, b: u64) -> u64 {
    if a + b > u64::MAX {
        u64::MAX
    } else {
        (a + b) as u64
    }
}

impl DagTally {
    pub fn new() -> (t: DagTally)
        ensures
            t.total_cost == 0,
            t.cli_version is None,
            t.failure is None,
            !t.cancelled,
            !t.budget_exceeded,
    {
        DagTally { total_cost: 0, cli_version: None, failure: None, cancelled: false, budget_exceeded: false }
    }

    /// Takes in one finished node: its cost adds up (saturating), a reported
    /// CLI version replaces the previous one, and the first failure is kept.
    pub fn record(&mut self, status: NodeStatus, error: Option<String>, cost: u64, cli_version: Option<String>)
        ensures
            final(self).total_cost == saturating_sum(old(self).total_cost, cost),
            final(self).cli_version == (if cli_version is Some {
                cli_version
            } else {
                old(self).cli_version
            }),
            final(self).failure == (if old(self).failure is None && status == NodeStatus::Failed {
                error
            } else {
                old(self).failure
            }),
            final(self).cancelled == old(self).cancelled,
            final(self).budget_exceeded == old(self).budget_exceeded,
    {
        self.total_cost = self.total_cost.saturating_add(cost);
        if cli_version.is_some() {
            self.cli_version = cli_version;
        }
        if status == NodeStatus::Failed && self.failure.is_none() {
            self.failure = error;
        }
    }

    /// The run-level budget is spent: nothing new may start. Money already
    /// spent cannot be stopped, but the next batch can.
    pub fn budget_spent(&self, budget: Option<u64>) -> (b: bool)
        ensures
            b == (budget matches Some(cap) && self.total_cost >= cap),
    {
        match budget {
            Some(cap) => self.total_cost >= cap,
            None => false,
        }
    }
}

// ------------------------------------------------------------------ rounds

/// Why a run stops starting nodes, and what it skipped.
#[derive(Debug)]
pub struct StopReport {
    /// The nodes that never started, now skipped, ordered by key.
    pub skipped: Vec<usize>,
    /// The reason recorded on each of them.
    pub reason: &'static str,
    /// The warning logged for the run, if any.
    pub log: Option<String>,
}

/// `after` is `before` with every pending node skipped, and `skipped`
/// names exactly those nodes.
pub open spec fn skips_pending(g: DagGraph, before: Seq<NodeStatus>, after: Seq<NodeStatus>, skipped: Seq<usize>) -> bool {
    &&& forall|j: int| 0 <= j < g.nodes@.len() ==> (skipped.contains(j as usize) <==> before[j] == NodeStatus::Pending)
    &&& forall|j: int| 0 <= j < g.nodes@.len() ==> #[trigger] after[j] == if before[j] == NodeStatus::Pending {
        NodeStatus::Skipped
    } else {
        before[j]
    }
}

/// The run-level budget is spent.
pub open spec fn budget_spent_spec(t: DagTally, budget: Option<u64>) -> bool {
    budget matches Some(cap) && t.total_cost >= cap
}

/// The warning logged when the budget is spent.
pub open spec fn budget_log(spent: Seq<char>, cap: Seq<char>) -> Seq<char> {
    "已花费 $"@ + spent + " 达到预算上限 $"@ + cap + "，不再启动新节点"@
}

/// The run's failure when the budget is spent and nothing failed before.
pub open spec fn budget_failure(spent: Seq<char>, cap: Seq<char>) -> Seq<char> {
    "预算 $"@ + cap + " 已用尽（实际花费 $"@ + spent + "），剩余节点未执行"@
}

/// The run was cancelled: nothing more starts, every pending node is
/// skipped with the cancellation as reason.
pub fn stop_on_cancel(state: &mut RunState, g: &DagGraph, tally: &mut DagTally) -> (r: StopReport)
    requires
        old(state).inv(*g),
    ensures
        final(state).inv(*g),
        final(state).started_set() == old(state).started_set(),
        skips_pending(*g, old(state).statuses(), final(state).statuses(), r.skipped@),
        r.reason@ == cancel_reason_spec(true, old(tally).budget_exceeded),
        r.log is None,
        final(tally).cancelled,
        final(tally).total_cost == old(tally).total_cost,
        final(tally).failure == old(tally).failure,
        final(tally).cli_version == old(tally).cli_version,
        final(tally).budget_exceeded == old(tally).budget_exceeded,
{
    tally.cancelled = true;
    let skipped = state.cancel_pending(g);
    StopReport { skipped, reason: cancel_reason(true, tally.budget_exceeded), log: None }
}

/// The checks between two batches, from state `s0` and tally `t0` to `s1`
/// and `t1`, answering `r`.
pub open spec fn batch_check_spec(
    g: DagGraph,
    s0: RunState,
    t0: DagTally,
    s1: RunState,
    t1: DagTally,
    budget: Option<u64>,
    spent: Seq<char>,
    cap: Seq<char>,
    r: Option<StopReport>,
) -> bool {
    &&& s1.started_set() == s0.started_set()
    &&& budget_spent_spec(t0, budget) ==> {
        &&& r matches Some(rep)
        &&& skips_pending(g, s0.statuses(), s1.statuses(), rep.skipped@)
        &&& rep.reason@ == cancel_reason_spec(t0.cancelled, true)
        &&& rep.log matches Some(l) && l@ == budget_log(spent, cap)
        &&& t1.budget_exceeded
    }
    &&& budget_spent_spec(t0, budget) ==> (t1.failure is Some && (t0.failure is Some ==> t1.failure == t0.failure) && (
        t0.failure is None ==> t1.failure->0@ == budget_failure(spent, cap)))
    &&& !budget_spent_spec(t0, budget) && (exists|i: int| 0 <= i < g.nodes@.len() && #[trigger] stops_run(g, s0.statuses(), i))
        ==> {
        &&& r matches Some(rep)
        &&& skips_pending(g, s0.statuses(), s1.statuses(), rep.skipped@)
        &&& rep.reason@ == cancel_reason_spec(t0.cancelled, t0.budget_exceeded)
        &&& rep.log is None
        &&& t1 == t0
    }
    &&& !budget_spent_spec(t0, budget) && !(exists|i: int| 0 <= i < g.nodes@.len() && #[trigger] stops_run(g, s0.statuses(), i))
        ==> {
        &&& r is None
        &&& s1.statuses() == s0.statuses()
        &&& t1 == t0
    }
    &&& t1.total_cost == t0.total_cost
    &&& t1.cli_version == t0.cli_version
    &&& t1.cancelled == t0.cancelled
}

/// The checks between two batches. Once the budget is spent no new node
/// starts: money already spent cannot be stopped, but the next batch can;
/// the run is marked as over budget and the budget becomes its failure
/// unless something failed first. Otherwise a `fail_fast` failure without
/// a failure edge stops the run. Either way every pending node is skipped
/// and nothing else starts; without either the run goes on unchanged.
/// `spent` and `cap` are the amounts as the messages show them.
pub fn after_batch(
    state: &mut RunState,
    g: &DagGraph,
    tally: &mut DagTally,
    budget: Option<u64>,
    spent: &str,
    cap: &str,
) -> (r: Option<StopReport>)
    requires
        old(state).inv(*g),
    ensures
        final(state).inv(*g),
        batch_check_spec(*g, *old(state), *old(tally), *final(state), *final(tally), budget, spent@, cap@, r),
{
    if tally.budget_spent(budget) {
        tally.budget_exceeded = true;
        if tally.failure.is_none() {
            let mut f = String::from_str("预算 $");
            f.append(cap);
            f.append(" 已用尽（实际花费 $");
            f.append(spent);
            f.append("），剩余节点未执行");
            tally.failure = Some(f);
        }
        let mut log = String::from_str("已花费 $");
        log.append(spent);
        log.append(" 达到预算上限 $");
        log.append(cap);
        log.append("，不再启动新节点");
        let skipped = state.cancel_pending(g);
        return Some(StopReport { skipped, reason: cancel_reason(tally.cancelled, true), log: Some(log) });
    }
    if state.should_stop(g) {
        let skipped = state.cancel_pending(g);
        return Some(
            StopReport { skipped, reason: cancel_reason(tally.cancelled, tally.budget_exceeded), log: None },
        );
    }
    None
}

/// What a run does at the head of a round.
pub enum DagAction {
    /// Cancelled: nothing more starts; the pending nodes were skipped.
    Stop(StopReport),
    /// Nothing is ready and nothing was skipped: the run is over.
    Done,
    /// Only skips happened; they may make the next round decidable.
    Continue(Vec<(usize, String)>),
    /// Start these nodes together (the skipped ones are recorded first).
    Run(Ready),
}

/// Node `j` starts in a round taken from state `s`.
pub open spec fn starts_in(g: DagGraph, s: RunState, passes: Seq<bool>, j: int) -> bool {
    runs_now(g, s.statuses(), s.started_set(), passes, j)
}

/// Node `j` is skipped in a round taken from state `s`.
pub open spec fn skipped_in(g: DagGraph, s: RunState, passes: Seq<bool>, j: int) -> bool {
    skipped_now(g, s.statuses(), s.started_set(), passes, j)
}

/// The keys of a list of skipped nodes.
pub open spec fn skipped_keys(sk: Seq<(usize, String)>) -> Seq<usize> {
    sk.map_values(|p: (usize, String)| p.0)
}

/// What a round's head does, from state `s0` and tally `t0` to `s1` and
/// `t1`, answering `a`.
pub open spec fn round_spec(
    g: DagGraph,
    s0: RunState,
    t0: DagTally,
    s1: RunState,
    t1: DagTally,
    cancelled: bool,
    passes: Seq<bool>,
    a: DagAction,
) -> bool {
    &&& cancelled ==> {
        &&& a matches DagAction::Stop(rep)
        &&& skips_pending(g, s0.statuses(), s1.statuses(), rep.skipped@)
        &&& rep.reason@ == cancel_reason_spec(true, t0.budget_exceeded)
        &&& s1.started_set() == s0.started_set()
        &&& t1.cancelled
        &&& t1.total_cost == t0.total_cost
        &&& t1.failure == t0.failure
        &&& t1.budget_exceeded == t0.budget_exceeded
    }
    &&& !cancelled ==> t1 == t0 && !(a is Stop)
    &&& a is Done <==> (!cancelled && forall|j: int| 0 <= j < g.nodes@.len() ==> !starts_in(g, s0, passes, j)
        && !skipped_in(g, s0, passes, j))
    &&& a matches DagAction::Run(r) ==> r.ready@.len() > 0 && (forall|j: int| 0 <= j < g.nodes@.len() ==> (
        r.ready@.contains(j as usize) <==> starts_in(g, s0, passes, j))) && (forall|j: int|
        0 <= j < g.nodes@.len() ==> (skipped_keys(r.skipped@).contains(j as usize) <==> skipped_in(g, s0, passes, j)))
    &&& a matches DagAction::Continue(sk) ==> (forall|j: int| 0 <= j < g.nodes@.len() ==> !starts_in(g, s0, passes, j))
        && (forall|j: int| 0 <= j < g.nodes@.len() ==> (skipped_keys(sk@).contains(j as usize) <==> skipped_in(g, s0, passes, j)))
    &&& !cancelled ==> forall|j: int| 0 <= j < g.nodes@.len() ==> #[trigger] s1.started_set()[j] == (
        s0.started_set()[j] || starts_in(g, s0, passes, j) || skipped_in(g, s0, passes, j))
    &&& !cancelled ==> forall|j: int| 0 <= j < g.nodes@.len() ==> #[trigger] s1.statuses()[j] == if skipped_in(
        g, s0, passes, j) {
        NodeStatus::Skipped
    } else {
        s0.statuses()[j]
    }
}

/// The head of a round: a cancelled run starts nothing and skips every
/// pending node; otherwise the decidable nodes are taken, and the run ends
/// when there are none.
pub fn dag_step(state: &mut RunState, g: &DagGraph, tally: &mut DagTally, cancelled: bool, passes: &Vec<bool>) -> (a:
    DagAction)
    requires
        old(state).inv(*g),
        g.well_formed(),
        passes@.len() == g.edges@.len(),
    ensures
        final(state).inv(*g),
        round_spec(*g, *old(state), *old(tally), *final(state), *final(tally), cancelled, passes@, a),
{
    if cancelled {
        return DagAction::Stop(stop_on_cancel(state, g, tally));
    }
    let ghost before = *old(state);
    let r = state.take_ready(g, passes);
    if r.ready.len() == 0 {
        assert forall|j: int| 0 <= j < g.nodes@.len() implies !runs_now(
            *g,
            before.statuses(),
            before.started_set(),
            passes@,
            j,
        ) by {
            if runs_now(*g, before.statuses(), before.started_set(), passes@, j) {
                assert(r.ready@.contains(j as usize));
            }
        }
        if r.skipped.len() == 0 {
            assert forall|j: int| 0 <= j < g.nodes@.len() implies !skipped_now(
                *g,
                before.statuses(),
                before.started_set(),
                passes@,
                j,
            ) by {
                if skipped_now(*g, before.statuses(), before.started_set(), passes@, j) {
                    assert(r.skipped@.map_values(|p: (usize, String)| p.0).contains(j as usize));
                }
            }
            return DagAction::Done;
        }
        proof {
            let k = r.skipped@[0].0 as int;
            assert(r.skipped@.map_values(|p: (usize, String)| p.0)[0] == r.skipped@[0].0);
            assert(r.skipped@.map_values(|p: (usize, String)| p.0).contains(k as usize));
            assert(skipped_now(*g, before.statuses(), before.started_set(), passes@, k));
            assert(skipped_in(*g, before, passes@, k));
        }
        return DagAction::Continue(r.skipped);
    }
    proof {
        let k = r.ready@[0] as int;
        assert(r.ready@.contains(k as usize));
        assert(runs_now(*g, before.statuses(), before.started_set(), passes@, k));
        assert(starts_in(*g, before, passes@, k));
    }
    DagAction::Run(r)
}

/// A DAG run as its driver sees it: the state of each node, what was spent
/// and seen, and whether the run has stopped starting nodes (cancelled,
/// over budget, or halted by a `fail_fast` failure).
pub struct DagRun {
    pub state: RunState,
    pub tally: DagTally,
    pub stopped: bool,
}

impl DagRun {
    pub open spec fn inv(&self, g: DagGraph) -> bool {
        self.state.inv(g)
    }

    /// Every node pending, nothing spent, not stopped.
    pub fn new(g: &DagGraph) -> (r: DagRun)
        ensures
            r.inv(*g),
            !r.stopped,
            forall|i: int| 0 <= i < g.nodes@.len() ==> #[trigger] r.state.statuses()[i] == NodeStatus::Pending,
            forall|i: int| 0 <= i < g.nodes@.len() ==> !#[trigger] r.state.started_set()[i],
            r.tally.total_cost == 0 && r.tally.failure is None && !r.tally.cancelled && !r.tally.budget_exceeded,
    {
        DagRun { state: RunState::new(g), tally: DagTally::new(), stopped: false }
    }

    /// The head of a round. Once the run has stopped, no node ever starts
    /// again: every later round answers `Done` and changes nothing. Before
    /// that, the round is [`dag_step`]'s, and a cancellation stops the run.
    pub fn round(&mut self, g: &DagGraph, cancelled: bool, passes: &Vec<bool>) -> (a: DagAction)
        requires
            old(self).inv(*g),
            g.well_formed(),
            passes@.len() == g.edges@.len(),
        ensures
            final(self).inv(*g),
            old(self).stopped ==> a is Done && *final(self) == *old(self),
            !old(self).stopped ==> round_spec(
                *g,
                old(self).state,
                old(self).tally,
                final(self).state,
                final(self).tally,
                cancelled,
                passes@,
                a,
            ),
            final(self).stopped == (old(self).stopped || cancelled),
    {
        if self.stopped {
            return DagAction::Done;
        }
        let a = dag_step(&mut self.state, g, &mut self.tally, cancelled, passes);
        if cancelled {
            self.stopped = true;
        }
        a
    }

    /// Takes in one finished node of the batch.
    pub fn finish(&mut self, g: &DagGraph, i: usize, status: NodeStatus, error: Option<String>, cost: u64, cli_version: Option<
        String,
    >)
        requires
            old(self).inv(*g),
            i < g.nodes@.len(),
        ensures
            final(self).inv(*g),
            final(self).state.statuses() == old(self).state.statuses().update(i as int, status),
            final(self).state.started_set() == old(self).state.started_set(),
            final(self).tally.total_cost == saturating_sum(old(self).tally.total_cost, cost),
            final(self).tally.failure == (if old(self).tally.failure is None && status == NodeStatus::Failed {
                error
            } else {
                old(self).tally.failure
            }),
            final(self).tally.cli_version == (if cli_version is Some {
                cli_version
            } else {
                old(self).tally.cli_version
            }),
            final(self).tally.cancelled == old(self).tally.cancelled,
            final(self).tally.budget_exceeded == old(self).tally.budget_exceeded,
            final(self).stopped == old(self).stopped,
    {
        self.tally.record(status, error, cost, cli_version);
        self.state.finish(i, status);
    }

    /// The checks after a batch, as [`after_batch`] makes them; a stop for
    /// the budget or for `fail_fast` stops the run for good. A run already
    /// stopped checks nothing more.
    pub fn after_batch(&mut self, g: &DagGraph, budget: Option<u64>, spent: &str, cap: &str) -> (r: Option<StopReport>)
        requires
            old(self).inv(*g),
        ensures
            final(self).inv(*g),
            old(self).stopped ==> r is None && *final(self) == *old(self),
            !old(self).stopped ==> batch_check_spec(
                *g,
                old(self).state,
                old(self).tally,
                final(self).state,
                final(self).tally,
                budget,
                spent@,
                cap@,
                r,
            ),
            final(self).stopped == (old(self).stopped || r is Some),
    {
        if self.stopped {
            return None;
        }
        let r = after_batch(&mut self.state, g, &mut self.tally, budget, spent, cap);
        if r.is_some() {
            self.stopped = true;
        }
        r
    }
}

/// Once the budget is spent, no node starts for the rest of the run: the
/// check after the batch stops the run, and no later round of the stopped
/// run starts a node.
pub proof fn lemma_budget_stop_is_final(
    g: DagGraph,
    r0: DagRun,
    r1: DagRun,
    rep: Option<StopReport>,
    budget: Option<u64>,
    spent: Seq<char>,
    cap: Seq<char>,
    r2: DagRun,
    cancelled: bool,
    passes: Seq<bool>,
    a: DagAction,
)
    requires
        !r0.stopped,
        budget_spent_spec(r0.tally, budget),
        batch_check_spec(g, r0.state, r0.tally, r1.state, r1.tally, budget, spent, cap, rep),
        r1.stopped == (r0.stopped || rep is Some),
        r1.stopped ==> a is Done && r2 == r1,
    ensures
        r1.stopped,
        r1.tally.budget_exceeded,
        !(a is Run),
        r2.state.started_set() == r0.state.started_set(),
{
}

// ------------------------------------------------------------------ retries

/// How many attempts a node gets: as configured, but at least one.
pub fn max_attempts(configured: u32) -> (n: u32)
    ensures
        n == (if configured == 0 {
            1
        } else {
            configured
        }),
{
    if configured == 0 {
        1
    } else {
        configured
    }
}

/// The error text of an output that breaks the node's contract.
pub open spec fn contract_error(errors: Seq<Seq<char>>) -> Seq<char> {
    "输出不符合契约："@ + join(errors, "；"@)
}

/// `parts` joined by `sep`.
pub fn join_strings(parts: &Vec<String>, sep: &str) -> (s: String)
    ensures
        s@ == join(parts@.map_values(|p: String| p@), sep@),
{
    let mut s = String::new();
    let n = parts.len();
    let mut i: usize = 0;
    let ghost views = parts@.map_values(|p: String| p@);
    while i < n
        invariant
            n == parts@.len(),
            i <= n,
            views == parts@.map_values(|p: String| p@),
            s@ == join(views.take(i as int), sep@),
        decreases n - i,
    {
        proof {
            assert(views.take(i + 1).drop_last() =~= views.take(i as int));
            assert(views.take(i + 1).last() == parts@[i as int]@);
        }
        if i > 0 {
            s.append(sep);
        } else {
            assert(join(views.take(1), sep@) == views.take(1)[0]);
            assert(s@ =~= Seq::<char>::empty());
        }
        s.append(parts[i].as_str());
        proof {
            if i == 0 {
                assert(s@ =~= views.take(1)[0]);
            }
        }
        i += 1;
    }
    assert(views.take(n as int) =~= views);
    s
}

/// A successful result whose output fails the node's schema becomes a
/// failure that names every violation. Only successes are checked: a
/// failed node has no output to check.
pub fn apply_output_contract(result: NodeResult, violations: Option<Vec<String>>) -> (r: NodeResult)
    ensures
        (result.status == NodeStatus::Succeeded && violations is Some) ==> {
            &&& r.status == NodeStatus::Failed
            &&& r.output == result.output
            &&& r.error matches Some(e) && e@ == contract_error(violations->0@.map_values(|p: String| p@))
            &&& r.cost == result.cost
            &&& r.cli_version == result.cli_version
        },
        !(result.status == NodeStatus::Succeeded && violations is Some) ==> r == result,
{
    if result.status == NodeStatus::Succeeded {
        match violations {
            Some(errors) => {
                let mut error = String::from_str("输出不符合契约：");
                let joined = join_strings(&errors, "；");
                error.append(joined.as_str());
                return NodeResult {
                    status: NodeStatus::Failed,
                    output: result.output,
                    error: Some(error),
                    cost: result.cost,
                    cli_version: result.cli_version,
                };
            },
            None => {},
        }
    }
    result
}

/// What follows one attempt.
pub enum AttemptStep {
    /// The attempt is final: it did not fail, or no attempt is left.
    Finish,
    /// Retry. `reason` is recorded; the model is told about it only when
    /// `feeds_model` holds.
    Retry { reason: String, feeds_model: bool },
}

/// Decides between finishing and retrying after attempt `attempt`.
///
/// Only AI nodes have a model to feed the error back to; claiming to feed
/// it for a shell or assert node would record something that never
/// happened.
pub fn after_attempt(
    attempt: u32,
    max_attempts: u32,
    status: NodeStatus,
    error: &Option<String>,
    feed_error_to_model: bool,
    is_ai: bool,
) -> (step: AttemptStep)
    ensures
        (status != NodeStatus::Failed || attempt >= max_attempts) ==> step is Finish,
        (status == NodeStatus::Failed && attempt < max_attempts) ==> (step matches AttemptStep::Retry {
            reason,
            feeds_model,
        } && feeds_model == (feed_error_to_model && is_ai) && reason@ == (match error {
            Some(e) => e@,
            None => "未给出原因"@,
        })),
{
    if status != NodeStatus::Failed || attempt >= max_attempts {
        return AttemptStep::Finish;
    }
    let reason = match error {
        Some(e) => e.clone(),
        None => String::from_str("未给出原因"),
    };
    AttemptStep::Retry { reason, feeds_model: feed_error_to_model && is_ai }
}

/// The attempts of one node instance.
pub struct RetryState {
    /// The attempt about to run (from 1).
    pub attempt: u32,
    pub max_attempts: u32,
    /// The previous failure, for the model, when it is fed back.
    pub feedback: Option<String>,
    /// What the last attempt cost and reported.
    pub last_cost: u64,
    pub last_cli_version: Option<String>,
}

impl RetryState {
    /// Before the first attempt: at least one attempt, nothing fed back.
    pub fn new(configured: u32) -> (s: RetryState)
        ensures
            s.attempt == 1,
            s.max_attempts == (if configured == 0 { 1 } else { configured }),
            s.feedback is None,
            s.last_cost == 0,
            s.last_cli_version is None,
    {
        RetryState { attempt: 1, max_attempts: max_attempts(configured), feedback: None, last_cost: 0, last_cli_version: None }
    }

    /// Before an attempt: once the run is cancelled no attempt starts, and
    /// the instance ends as cancelled, keeping what the last attempt cost.
    pub fn before_attempt(&self, cancelled: bool) -> (r: Option<NodeResult>)
        ensures
            !cancelled ==> r is None,
            cancelled ==> (r matches Some(res) && res.status == NodeStatus::Cancelled && res.output is None
                && res.error is None && res.cost == self.last_cost && res.cli_version == self.last_cli_version),
    {
        if cancelled {
            let cli = match &self.last_cli_version {
                Some(v) => Some(v.clone()),
                None => None,
            };
            Some(cancelled_attempt(self.last_cost, cli))
        } else {
            None
        }
    }

    /// After an attempt: a result that did not fail, or the last allowed
    /// attempt, is final; otherwise the next attempt follows, with the
    /// failure fed back to the model only for an AI node whose policy says
    /// so (claiming to feed a shell node would record what never happened).
    pub fn after_attempt(
        &mut self,
        status: NodeStatus,
        error: &Option<String>,
        cost: u64,
        cli_version: Option<String>,
        feed_error_to_model: bool,
        is_ai: bool,
    ) -> (step: AttemptStep)
        requires
            old(self).attempt < u32::MAX,
        ensures
            final(self).last_cost == cost,
            final(self).last_cli_version == cli_version,
            final(self).max_attempts == old(self).max_attempts,
            (status != NodeStatus::Failed || old(self).attempt >= old(self).max_attempts) ==> (step is Finish
                && final(self).attempt == old(self).attempt && final(self).feedback == old(self).feedback),
            (status == NodeStatus::Failed && old(self).attempt < old(self).max_attempts) ==> (
            step matches AttemptStep::Retry { reason, feeds_model } && feeds_model == (feed_error_to_model
                && is_ai) && reason@ == (match *error {
                Some(e) => e@,
                None => "未给出原因"@,
            }) && final(self).attempt == old(self).attempt + 1 && final(self).feedback == (if feeds_model {
                Some(reason)
            } else {
                None
            })),
    {
        self.last_cost = cost;
        self.last_cli_version = cli_version;
        let step = after_attempt(self.attempt, self.max_attempts, status, error, feed_error_to_model, is_ai);
        match &step {
            AttemptStep::Retry { reason, feeds_model } => {
                self.feedback = if *feeds_model {
                    Some(reason.clone())
                } else {
                    None
                };
                self.attempt = self.attempt + 1;
            },
            AttemptStep::Finish => {},
        }
        step
    }
}

/// The result recorded when a run is cancelled before an attempt starts:
/// cancelled, keeping what the previous attempt cost.
pub fn cancelled_attempt(last_cost: u64, last_cli_version: Option<String>) -> (r: NodeResult)
    ensures
        r.status == NodeStatus::Cancelled,
        r.output is None,
        r.error is None,
        r.cost == last_cost,
        r.cli_version == last_cli_version,
{
    NodeResult { status: NodeStatus::Cancelled, output: None, error: None, cost: last_cost, cli_version: last_cli_version }
}

// ------------------------------------------------------------------ map

/// How a `map` node is cut up.
#[derive(Debug, Clone, Copy)]
pub struct MapPlan {
    /// How many items upstream gave, capped at `u32::MAX`.
    pub available: u32,
    /// How many are processed: at most `max_items`.
    pub taken: usize,
    /// Instances run at once.
    pub parallel: usize,
    /// More items than `max_items` arrived; the caller logs a warning.
    pub over_limit: bool,
}

/// Plans a `map` over `item_count` items. The cap is required: the items
/// come from AI output, and a runaway array could become thousands of
/// nodes.
pub fn plan_map(item_count: usize, max_items: u32, max_parallel: u32) -> (p: MapPlan)
    ensures
        p.available == (if item_count > u32::MAX {
            u32::MAX as int
        } else {
            item_count as int
        }),
        p.taken == (if item_count < max_items {
            item_count as int
        } else {
            max_items as int
        }),
        p.over_limit == (p.available > max_items),
        p.parallel == (if (if max_parallel == 0 { 1 } else { max_parallel as int }) < (if p.taken == 0 { 1 } else { p.taken as int }) {
            if max_parallel == 0 { 1 } else { max_parallel as int }
        } else {
            if p.taken == 0 { 1 } else { p.taken as int }
        }),
        1 <= p.parallel,
{
    let available: u32 = if item_count > u32::MAX as usize {
        u32::MAX
    } else {
        item_count as u32
    };
    let taken: usize = if item_count < max_items as usize {
        item_count
    } else {
        max_items as usize
    };
    let wanted: usize = if max_parallel == 0 {
        1
    } else {
        max_parallel as usize
    };
    let at_least_one: usize = if taken == 0 {
        1
    } else {
        taken
    };
    let parallel = if wanted < at_least_one {
        wanted
    } else {
        at_least_one
    };
    MapPlan { available, taken, parallel, over_limit: available > max_items }
}

/// The end of the batch that starts at `start`.
pub fn batch_end(start: usize, parallel: usize, taken: usize) -> (e: usize)
    requires
        start < taken,
        parallel >= 1,
    ensures
        start < e <= taken,
        e == (if start + parallel < taken {
            start + parallel
        } else {
            taken as int
        }),
{
    if parallel < taken - start {
        start + parallel
    } else {
        taken
    }
}

/// How the `map` node as a whole finished: cancelled when the run was
/// cancelled, failed when any instance failed, else succeeded.
pub fn map_status(cancelled: bool, first_error: &Option<String>) -> (s: NodeStatus)
    ensures
        s == (if cancelled {
            NodeStatus::Cancelled
        } else if first_error is Some {
            NodeStatus::Failed
        } else {
            NodeStatus::Succeeded
        }),
{
    if cancelled {
        NodeStatus::Cancelled
    } else if first_error.is_some() {
        NodeStatus::Failed
    } else {
        NodeStatus::Succeeded
    }
}

/// What one slot of a `map` node's output array holds. Slots keep their
/// input order so downstream nodes can match them up by index; a failed or
/// skipped instance still occupies its slot.
pub enum MapSlot {
    /// The instance's output (`null` if it had none).
    Output,
    /// `{"__failed": true, "error": ..}`.
    Failed(String),
}

/// The slot for an instance result, or for an instance that never ran.
pub fn map_slot(result: Option<&NodeResult>) -> (s: MapSlot)
    ensures
        match result {
            Some(r) => if r.status == NodeStatus::Succeeded {
                s is Output
            } else {
                s matches MapSlot::Failed(e) && e@ == (match r.error {
                    Some(x) => x@,
                    None => Seq::empty(),
                })
            },
            None => s matches MapSlot::Failed(e) && e@ == "未执行（run 已取消）"@,
        },
{
    match result {
        Some(r) => if r.status == NodeStatus::Succeeded {
            MapSlot::Output
        } else {
            MapSlot::Failed(match &r.error {
                Some(x) => x.clone(),
                None => String::new(),
            })
        },
        None => MapSlot::Failed(String::from_str("未执行（run 已取消）")),
    }
}

/// `{"__failed": true, "error": e}`: the slot of an instance that did not
/// succeed.
pub open spec fn failed_marker_spec(e: Seq<char>) -> serde_json::Value {
    json_object_of(seq![("__failed"@, json_bool_of(true)), ("error"@, json_string_of(e))])
}

/// `v` is the slot of the output array for an instance result (`None`: the
/// instance never ran).
pub open spec fn map_entry_json(r: Option<NodeResult>, v: serde_json::Value) -> bool {
    match r {
        Some(x) => if x.status == NodeStatus::Succeeded {
            match x.output {
                Some(o) => v == o,
                None => json_kind_of(v) == JsonKind::Null,
            }
        } else {
            v == failed_marker_spec(
                match x.error {
                    Some(e) => e@,
                    None => Seq::empty(),
                },
            )
        },
        None => v == failed_marker_spec("未执行（run 已取消）"@),
    }
}

fn failed_marker(e: &str) -> (v: serde_json::Value)
    ensures
        v == failed_marker_spec(e@),
{
    let mut entries: Vec<(String, serde_json::Value)> = Vec::new();
    entries.push(entry("__failed", json_bool(true)));
    entries.push(entry("error", json_string(e)));
    proof {
        reveal_strlit("__failed");
        reveal_strlit("error");
        assert(entry_views(entries@) =~= seq![("__failed"@, json_bool_of(true)), ("error"@, json_string_of(e@))]);
    }
    json_object(entries)
}

/// The slot of the output array for one instance: its output (`null` if
/// it had none) when it succeeded, else a failure marker with its error.
pub fn map_entry(result: Option<NodeResult>) -> (v: serde_json::Value)
    ensures
        map_entry_json(result, v),
{
    match result {
        Some(x) => if x.status == NodeStatus::Succeeded {
            match x.output {
                Some(o) => o,
                None => json_null(),
            }
        } else {
            match &x.error {
                Some(e) => failed_marker(e.as_str()),
                None => {
                    proof {
                        reveal_strlit("");
                        assert(""@ =~= Seq::<char>::empty());
                    }
                    failed_marker("")
                },
            }
        },
        None => {
            proof {
                reveal_strlit("未执行（run 已取消）");
            }
            failed_marker("未执行（run 已取消）")
        },
    }
}

/// The output of a `map` node: one slot per instance, in item order, so
/// downstream nodes can match results to items by index; a failed or
/// never-run instance keeps its slot with a failure marker.
pub fn map_output(results: Vec<Option<NodeResult>>) -> (v: serde_json::Value)
    ensures
        exists|items: Seq<serde_json::Value>|
            items.len() == results@.len() && (forall|i: int| 0 <= i < items.len() ==> map_entry_json(
                #[trigger] results@[i],
                items[i],
            )) && v == json_array_of(items),
{
    let ghost all = results@;
    let n = results.len();
    let mut rest = results;
    let mut items: Vec<serde_json::Value> = Vec::new();
    while rest.len() > 0
        invariant
            n == all.len(),
            items@.len() + rest@.len() == n,
            rest@ == all.subrange(items@.len() as int, n as int),
            forall|i: int| 0 <= i < items@.len() ==> map_entry_json(#[trigger] all[i], items@[i]),
        decreases rest@.len(),
    {
        let r = rest.remove(0);
        let ghost k = items@.len();
        assert(r == all[k as int]);
        let v = map_entry(r);
        items.push(v);
        assert(rest@ =~= all.subrange(items@.len() as int, n as int));
    }
    let ghost out = items@;
    let v = json_array(items);
    assert(out.len() == all.len() && (forall|i: int| 0 <= i < out.len() ==> map_entry_json(#[trigger] all[i], out[i])) && v == json_array_of(out));
    v
}

/// A `map` node while its instances run: batches of at most `parallel`
/// instances, in item order, and what they have spent and reported.
pub struct MapRun {
    /// Where the next batch starts.
    pub next: usize,
    /// How many items are processed.
    pub taken: usize,
    /// The largest batch.
    pub parallel: usize,
    /// Cost, CLI version and first failure of the instances so far.
    pub tally: DagTally,
}

impl MapRun {
    pub open spec fn next_start(&self) -> usize {
        self.next
    }

    pub open spec fn taken_count(&self) -> usize {
        self.taken
    }

    pub open spec fn batch_size(&self) -> usize {
        self.parallel
    }

    pub open spec fn wf(&self) -> bool {
        &&& self.next_start() <= self.taken_count()
        &&& self.batch_size() >= 1
    }

    /// Nothing has run yet.
    pub fn new(plan: &MapPlan) -> (m: MapRun)
        requires
            plan.parallel >= 1,
        ensures
            m.wf(),
            m.next_start() == 0,
            m.taken_count() == plan.taken,
            m.batch_size() == plan.parallel,
            m.tally.total_cost == 0,
            m.tally.failure is None,
            m.tally.cli_version is None,
            !m.tally.cancelled,
            !m.tally.budget_exceeded,
    {
        MapRun { next: 0, taken: plan.taken, parallel: plan.parallel, tally: DagTally::new() }
    }

    /// The next batch `[start, end)` of item indices, or `None` once every
    /// item has been handed out or the run was cancelled (no new batch
    /// starts after a cancellation). Batches follow one another without gap
    /// or overlap, so every item runs at most once, in order.
    pub fn next_batch(&mut self, cancelled: bool) -> (r: Option<(usize, usize)>)
        requires
            old(self).wf(),
        ensures
            final(self).wf(),
            final(self).taken_count() == old(self).taken_count(),
            final(self).batch_size() == old(self).batch_size(),
            final(self).tally == old(self).tally,
            (cancelled || old(self).next_start() >= old(self).taken_count()) ==> (r is None
                && final(self).next_start() == old(self).next_start()),
            !(cancelled || old(self).next_start() >= old(self).taken_count()) ==> (r matches Some(b) && b.0
                == old(self).next_start() && b.1 == (if old(self).next_start() + old(self).batch_size()
                < old(self).taken_count() {
                old(self).next_start() + old(self).batch_size()
            } else {
                old(self).taken_count() as int
            }) && final(self).next_start() == b.1 && b.0 < b.1),
    {
        if cancelled || self.next >= self.taken {
            return None;
        }
        let start = self.next;
        let end = batch_end(start, self.parallel, self.taken);
        self.next = end;
        Some((start, end))
    }

    /// Takes one finished instance into account.
    pub fn record(&mut self, status: NodeStatus, error: Option<String>, cost: u64, cli_version: Option<String>)
        ensures
            final(self).next_start() == old(self).next_start(),
            final(self).taken_count() == old(self).taken_count(),
            final(self).batch_size() == old(self).batch_size(),
            final(self).tally.total_cost == saturating_sum(old(self).tally.total_cost, cost),
            final(self).tally.cli_version == (if cli_version is Some {
                cli_version
            } else {
                old(self).tally.cli_version
            }),
            final(self).tally.failure == (if old(self).tally.failure is None && status == NodeStatus::Failed {
                error
            } else {
                old(self).tally.failure
            }),
    {
        self.tally.record(status, error, cost, cli_version);
    }

    /// How the `map` node as a whole ends.
    pub fn status(&self, cancelled: bool) -> (s: NodeStatus)
        ensures
            s == (if cancelled {
                NodeStatus::Cancelled
            } else if self.tally.failure is Some {
                NodeStatus::Failed
            } else {
                NodeStatus::Succeeded
            }),
    {
        map_status(cancelled, &self.tally.failure)
    }
}

/// The warning logged when upstream gave more items than `max_items`.
pub fn map_over_limit_message(plan: &MapPlan, max_items: u32) -> (s: String)
    ensures
        s@ == "上游给了 "@ + decimal(plan.available as nat) + " 项，超过 max_items="@ + decimal(
            max_items as nat,
        ) + "，只处理前 "@ + decimal(plan.taken as nat) + " 项"@,
{
    let mut s = String::from_str("上游给了 ");
    push_decimal(&mut s, plan.available as u64);
    s.append(" 项，超过 max_items=");
    push_decimal(&mut s, max_items as u64);
    s.append("，只处理前 ");
    push_decimal(&mut s, plan.taken as u64);
    s.append(" 项");
    s
}

// ------------------------------------------------------------------ values

/// The kinds of JSON value.
#[derive(Debug, Clone, Copy, PartialEq, Eq, Structural)]
pub enum JsonKind {
    Null,
    Bool,
    Number,
    String,
    Array,
    Object,
}

/// The variant of a JSON value.
pub uninterp spec fn json_kind_of(v: serde_json::Value) -> JsonKind;

/// Tells the variants of `serde_json::Value` apart: the result is the
/// variant `v` is, one arm per variant.
#[verifier::external_body]
fn json_kind(v: &serde_json::Value) -> (k: JsonKind)
    ensures
        k == json_kind_of(*v),
{
    match v {
        serde_json::Value::Null => JsonKind::Null,
        serde_json::Value::Bool(_) => JsonKind::Bool,
        serde_json::Value::Number(_) => JsonKind::Number,
        serde_json::Value::String(_) => JsonKind::String,
        serde_json::Value::Array(_) => JsonKind::Array,
        serde_json::Value::Object(_) => JsonKind::Object,
    }
}

pub open spec fn kind_name(k: JsonKind) -> Seq<char> {
    match k {
        JsonKind::Null => "null"@,
        JsonKind::Bool => "布尔"@,
        JsonKind::Number => "数字"@,
        JsonKind::String => "字符串"@,
        JsonKind::Array => "数组"@,
        JsonKind::Object => "对象"@,
    }
}

/// The name of a JSON kind, as error messages use it.
pub fn json_kind_name(k: JsonKind) -> (s: &'static str)
    ensures
        s@ == kind_name(k),
{
    match k {
        JsonKind::Null => "null",
        JsonKind::Bool => "布尔",
        JsonKind::Number => "数字",
        JsonKind::String => "字符串",
        JsonKind::Array => "数组",
        JsonKind::Object => "对象",
    }
}

/// The failure of a `map` whose `over` is not an array.
pub fn map_not_array_message(k: JsonKind) -> (s: String)
    ensures
        s@ == "map 的 over 必须求值成数组，实际得到 "@ + kind_name(k),
{
    let mut s = String::from_str("map 的 over 必须求值成数组，实际得到 ");
    s.append(json_kind_name(k));
    s
}

/// The check on the value a `map` fans out over: `None` for an array, else
/// the failure that names what came instead.
pub fn map_over_error(over: &serde_json::Value) -> (r: Option<String>)
    ensures
        json_kind_of(*over) == JsonKind::Array <==> r is None,
        r matches Some(m) ==> m@ == "map 的 over 必须求值成数组，实际得到 "@ + kind_name(
            json_kind_of(*over),
        ),
{
    let k = json_kind(over);
    match k {
        JsonKind::Array => None,
        _ => Some(map_not_array_message(k)),
    }
}

/// The failure of a node input that did not resolve.
pub fn input_error_message(name: &str, error: &str) -> (s: String)
    ensures
        s@ == "输入 `"@ + name@ + "` 求值失败："@ + error@,
{
    let mut s = String::from_str("输入 `");
    s.append(name);
    s.append("` 求值失败：");
    s.append(error);
    s
}

/// Comparison operators of assert nodes.
#[derive(Debug, Clone, Copy, PartialEq, Eq, Structural)]
pub enum Cmp {
    Eq,
    Ne,
    Lt,
    Lte,
    Gt,
    Gte,
    Contains,
    Exists,
    NotExists,
}

pub open spec fn cmp_symbol_spec(c: Cmp) -> Seq<char> {
    match c {
        Cmp::Eq => "=="@,
        Cmp::Ne => "!="@,
        Cmp::Lt => "<"@,
        Cmp::Lte => "<="@,
        Cmp::Gt => ">"@,
        Cmp::Gte => ">="@,
        Cmp::Contains => "contains"@,
        Cmp::Exists => "exists"@,
        Cmp::NotExists => "not exists"@,
    }
}

/// How an operator is written in a failed assertion's message.
pub fn cmp_symbol(c: Cmp) -> (s: &'static str)
    ensures
        s@ == cmp_symbol_spec(c),
{
    match c {
        Cmp::Eq => "==",
        Cmp::Ne => "!=",
        Cmp::Lt => "<",
        Cmp::Lte => "<=",
        Cmp::Gt => ">",
        Cmp::Gte => ">=",
        Cmp::Contains => "contains",
        Cmp::Exists => "exists",
        Cmp::NotExists => "not exists",
    }
}


// ------------------------------------------------------------------ assertions

/// An assert node reads the input named `value`; without it the spec is
/// wrong, which no retry fixes.
pub fn assert_missing_input() -> (s: String)
    ensures
        s@ == "assert 节点需要一个名为 `value` 的输入"@,
{
    String::from_str("assert 节点需要一个名为 `value` 的输入")
}

/// `judge` assertions need a model and are not supported here.
pub fn judge_unsupported() -> (s: String)
    ensures
        s@ == "judge 模式的断言尚未实现（需要 ApiExecutor）"@,
{
    String::from_str("judge 模式的断言尚未实现（需要 ApiExecutor）")
}

/// The compact JSON text of a value (`Display`).
pub uninterp spec fn json_text(v: serde_json::Value) -> Seq<char>;

/// `serde_json::Value`'s `Display`: its compact JSON text.
#[verifier::external_body]
fn render_json(v: &serde_json::Value) -> (s: String)
    ensures
        s@ == json_text(*v),
{
    v.to_string()
}

/// Why an expression assertion does not hold: both sides and the operator.
pub fn assertion_failed(actual: &serde_json::Value, cmp: Cmp, right: &serde_json::Value) -> (s: String)
    ensures
        s@ == "断言不成立："@ + json_text(*actual) + " "@ + cmp_symbol_spec(cmp) + " "@ + json_text(*right),
{
    let mut s = String::from_str("断言不成立：");
    let a = render_json(actual);
    s.append(a.as_str());
    s.append(" ");
    s.append(cmp_symbol(cmp));
    s.append(" ");
    let b = render_json(right);
    s.append(b.as_str());
    s
}

/// A schema assertion's violations in one message.
pub fn schema_violations(errors: &Vec<String>) -> (s: String)
    ensures
        s@ == join(errors@.map_values(|e: String| e@), "；"@),
{
    join_strings(errors, "；")
}

/// The output of a passing assert node.
pub open spec fn passed_output_spec() -> serde_json::Value {
    json_object_of(seq![("passed"@, json_bool_of(true))])
}

/// How an assert node ends: a spec error or a failed assertion fails it
/// with the reason; a passing one succeeds with `{"passed": true}`.
pub fn assert_node_result(outcome: Result<Result<(), String>, String>) -> (r: NodeResult)
    ensures
        match outcome {
            Err(spec_error) => r.status == NodeStatus::Failed && r.error == Some(spec_error) && r.output is None,
            Ok(Err(reason)) => r.status == NodeStatus::Failed && r.error == Some(reason) && r.output is None,
            Ok(Ok(())) => r.status == NodeStatus::Succeeded && r.output == Some(passed_output_spec())
                && r.error is None,
        },
        r.cost == 0,
        r.cli_version is None,
{
    match outcome {
        Err(spec_error) => NodeResult::failed(spec_error),
        Ok(Err(reason)) => NodeResult::failed(reason),
        Ok(Ok(())) => {
            let mut entries: Vec<(String, serde_json::Value)> = Vec::new();
            entries.push(entry("passed", json_bool(true)));
            proof {
                reveal_strlit("passed");
                assert(entry_views(entries@) =~= seq![("passed"@, json_bool_of(true))]);
            }
            NodeResult::succeeded(Some(json_object(entries)))
        },
    }
}

} // verus!
