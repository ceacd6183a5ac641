use vstd::prelude::*;

use crate::board::{Board, BoardView};
use crate::search::{Outcome, solve_from_children, solver_verdict};

verus! {

/// Sum of `s[lo..hi]`.
pub open spec fn slice_sum(s: Seq<u64>, lo: int, hi: int) -> int
    decreases hi - lo,
{
    if hi <= lo {
        0
    } else {
        slice_sum(s, lo, hi - 1) + s[hi - 1]
    }
}

/// The structure and statistics of a search tree; node 0 is the root.
pub struct TreeView {
    pub parents: Seq<Option<usize>>,
    pub oldest: Seq<usize>,
    pub counts: Seq<usize>,
    pub outcomes: Seq<Option<Outcome>>,
    pub visits: Seq<u64>,
    pub actions: Seq<usize>,
    pub states: Seq<BoardView>,
}

impl TreeView {
    /// Number of nodes.
    pub open spec fn len(self) -> int {
        self.parents.len() as int
    }

    /// Total visits of the children of node `v`.
    pub open spec fn child_visits(self, v: int) -> int {
        slice_sum(self.visits, self.oldest[v] as int, self.oldest[v] + self.counts[v])
    }

    /// The outcomes of the children of node `v`.
    pub open spec fn child_outcomes(self, v: int) -> Seq<Option<Outcome>> {
        if self.counts[v] == 0 {
            Seq::empty()
        } else {
            self.outcomes.subrange(self.oldest[v] as int, self.oldest[v] + self.counts[v])
        }
    }

    /// Arena shape: every non-root node has an earlier parent whose contiguous
    /// child slice holds it, and every child slice lies after its parent.
    pub open spec fn shape_ok(self) -> bool {
        &&& self.len() >= 1
        &&& self.oldest.len() == self.len()
        &&& self.counts.len() == self.len()
        &&& self.outcomes.len() == self.len()
        &&& self.visits.len() == self.len()
        &&& self.actions.len() == self.len()
        &&& self.states.len() == self.len()
        &&& self.parents[0] is None
        &&& forall|i: int|
            #![trigger self.parents[i]]
            1 <= i < self.len() ==> {
                &&& self.parents[i] is Some
                &&& (self.parents[i]->0) < i
                &&& self.counts[self.parents[i]->0 as int] > 0
                &&& self.oldest[self.parents[i]->0 as int] <= i < self.oldest[self.parents[i]->0 as int]
                    + self.counts[self.parents[i]->0 as int]
            }
        &&& forall|v: int|
            #![trigger self.counts[v]]
            0 <= v < self.len() && self.counts[v] > 0 ==> {
                &&& v < self.oldest[v]
                &&& self.oldest[v] + self.counts[v] <= self.len()
                &&& forall|i: int|
                    self.oldest[v] <= i < self.oldest[v] + self.counts[v] ==> #[trigger] self.parents[i] == Some(
                        v as usize,
                    )
            }
    }

    /// Visit accounting at node `v`, with `extra` visits still to be added to
    /// it: an expanded node was visited once more than its children together;
    /// a solved node other than the root may have been visited more.
    pub open spec fn visits_ok_at(self, v: int, extra: int) -> bool {
        self.counts[v] > 0 ==> if self.outcomes[v] is None || v == 0 {
            self.visits[v] + extra == 1 + self.child_visits(v)
        } else {
            self.visits[v] + extra >= 1 + self.child_visits(v)
        }
    }

    /// The tree invariants.
    pub open spec fn wf(self) -> bool {
        &&& self.shape_ok()
        &&& forall|v: int| 0 <= v < self.len() ==> #[trigger] self.visits_ok_at(v, 0)
    }

    /// The tree invariants, but for node `u`, which is owed one visit.
    pub open spec fn pending(self, u: int) -> bool {
        &&& self.shape_ok()
        &&& 0 <= u < self.len()
        &&& forall|v: int| 0 <= v < self.len() && v != u ==> #[trigger] self.visits_ok_at(v, 0)
        &&& self.visits_ok_at(u, 1)
    }

    /// Every node from `u` up to the root can take one more visit.
    pub open spec fn chain_ok(self, u: int) -> bool
        decreases u,
    {
        0 <= u < self.len() && self.visits[u] < u64::MAX && match self.parents[u] {
            None => true,
            Some(p) => p < u && self.chain_ok(p as int),
        }
    }
}

/// Bumping one entry by one changes a slice sum by one exactly when the
/// entry is in the slice.
proof fn lemma_sum_bump(s: Seq<u64>, lo: int, hi: int, u: int)
    requires
        0 <= u < s.len(),
        s[u] < u64::MAX,
        0 <= lo,
        hi <= s.len(),
    ensures
        slice_sum(s.update(u, (s[u] + 1) as u64), lo, hi) == slice_sum(s, lo, hi) + if lo <= u < hi {
            1int
        } else {
            0int
        },
    decreases hi - lo,
{
    if hi > lo {
        lemma_sum_bump(s, lo, hi - 1, u);
    }
}

/// `chain_ok` at `p` reads only entries up to `p`.
proof fn lemma_chain_frame(a: TreeView, b: TreeView, p: int)
    requires
        a.len() <= b.len(),
        a.visits.len() == a.len(),
        b.visits.len() == b.len(),
        forall|i: int| 0 <= i <= p && i < a.len() ==> a.visits[i] == b.visits[i] && a.parents[i] == b.parents[i],
        a.chain_ok(p),
    ensures
        b.chain_ok(p),
    decreases p,
{
    match a.parents[p] {
        None => {},
        Some(q) => {
            lemma_chain_frame(a, b, q as int);
        },
    }
}

/// The solver's decision at node `u` during a backup: the outcome `u` is
/// solved to, if any, and whether solving goes on above it. Only an unsolved
/// node is examined, and only while solving goes on; a node the children's
/// verdict cannot decide stops it.
pub open spec fn solve_at(t: TreeView, u: int, has_solution: bool) -> (Option<Outcome>, bool) {
    if has_solution && t.outcomes[u] is None {
        match solver_verdict(t.child_outcomes(u)) {
            Some(o) => (Some(o), true),
            None => (None, false),
        }
    } else {
        (None, has_solution)
    }
}

/// The tree after the backup passes node `u`: solved as decided, and visited once more.
pub open spec fn visit_node(t: TreeView, u: int, solved: Option<Outcome>) -> TreeView {
    TreeView {
        outcomes: if solved is Some {
            t.outcomes.update(u, solved)
        } else {
            t.outcomes
        },
        visits: t.visits.update(u, (t.visits[u] + 1) as u64),
        ..t
    }
}

/// A backup from node `u` up to the root: the tree afterwards and the steps,
/// one per node on the path, leaf first.
pub open spec fn backup_spec(t: TreeView, u: int, has_solution: bool) -> (TreeView, Seq<BackupStep>)
    decreases u,
{
    let (solved, go_on) = solve_at(t, u, has_solution);
    let t1 = visit_node(t, u, solved);
    let step = BackupStep { node: u as usize, solved };
    match t.parents[u] {
        Some(p) => if 0 <= p < u {
            let r = backup_spec(t1, p as int, go_on);
            (r.0, seq![step] + r.1)
        } else {
            (t1, seq![step])
        },
        None => (t1, seq![step]),
    }
}

/// The nodes from `u` up to the root, `u` first.
pub open spec fn ancestors(t: TreeView, u: int) -> Seq<int>
    decreases u,
{
    match t.parents[u] {
        Some(p) => if 0 <= p < u {
            seq![u] + ancestors(t, p as int)
        } else {
            seq![u]
        },
        None => seq![u],
    }
}

/// What a backup from `u` does: its steps name the nodes from `u` up to the
/// root in order; each of them gains one visit and every other node keeps its
/// visits; the shape, moves and states stay; an outcome changes only at a
/// step that reports it, on a node that was unsolved; and without a solution
/// no outcome changes.
pub proof fn lemma_backup(t: TreeView, u: int, has_solution: bool)
    requires
        t.shape_ok(),
        t.chain_ok(u),
        t.len() <= usize::MAX,
    ensures
        ({
            let (f, steps) = backup_spec(t, u, has_solution);
            let path = ancestors(t, u);
            &&& steps.len() == path.len()
            &&& forall|k: int| 0 <= k < steps.len() ==> steps[k].node == path[k]
            &&& path[0] == u
            &&& path.last() == 0
            &&& f.parents == t.parents && f.oldest == t.oldest && f.counts == t.counts
            &&& f.actions == t.actions && f.states == t.states
            &&& f.visits.len() == t.visits.len() && f.outcomes.len() == t.outcomes.len()
            &&& forall|v: int| 0 <= v < t.len() ==> #[trigger] f.visits[v] == t.visits[v] + if path.contains(v) { 1int } else { 0int }
            &&& forall|v: int| 0 <= v < t.len() && f.outcomes[v] != t.outcomes[v] ==> t.outcomes[v] is None
                && exists|k: int| 0 <= k < steps.len() && steps[k].node == v && #[trigger] steps[k].solved == f.outcomes[v]
            &&& !has_solution ==> f.outcomes == t.outcomes
        }),
    decreases u,
{
    let (solved, go_on) = solve_at(t, u, has_solution);
    let t1 = visit_node(t, u, solved);
    let step = BackupStep { node: u as usize, solved };
    assert(t1.shape_ok());
    match t.parents[u] {
        Some(p) => {
            assert(u != 0);
            assert(0 <= p < u);
            lemma_chain_frame(t, t1, p as int);
            lemma_backup(t1, p as int, go_on);
            lemma_ancestors_below(t1, p as int);
            lemma_backup_frame(t1, p as int, go_on);
            let (f, rest) = backup_spec(t1, p as int, go_on);
            let steps = seq![step] + rest;
            let path = ancestors(t, u);
            assert(ancestors(t1, p as int) == ancestors(t, p as int)) by {
                lemma_ancestors_frame(t, t1, p as int);
            }
            assert(path == seq![u] + ancestors(t, p as int));
            assert forall|k: int| 0 <= k < steps.len() implies steps[k].node == path[k] by {
                if k > 0 {
                    assert(steps[k] == rest[k - 1]);
                }
            }
            assert forall|v: int| 0 <= v < t.len() implies #[trigger] f.visits[v] == t.visits[v] + if path.contains(v) { 1int } else { 0int } by {
                let tail = ancestors(t, p as int);
                if v == u {
                    assert(path[0] == u);
                    assert(!tail.contains(u));
                } else {
                    assert(path.contains(v) == tail.contains(v)) by {
                        if path.contains(v) {
                            let k = choose|k: int| 0 <= k < path.len() && path[k] == v;
                            assert(tail[k - 1] == v);
                        }
                        if tail.contains(v) {
                            let k = choose|k: int| 0 <= k < tail.len() && tail[k] == v;
                            assert(path[k + 1] == v);
                        }
                    }
                }
            }
            assert forall|v: int| 0 <= v < t.len() && f.outcomes[v] != t.outcomes[v] implies t.outcomes[v] is None
                && exists|k: int| 0 <= k < steps.len() && steps[k].node == v && #[trigger] steps[k].solved == f.outcomes[v] by {
                if f.outcomes[v] != t1.outcomes[v] {
                    let k = choose|k: int| 0 <= k < rest.len() && rest[k].node == v && #[trigger] rest[k].solved == f.outcomes[v];
                    assert(steps[k + 1] == rest[k]);
                } else {
                    assert(v == u);
                    assert(f.outcomes[u] == t1.outcomes[u]);
                    assert(steps[0] == step);
                    assert(steps[0].node == v && steps[0].solved == f.outcomes[v]);
                }
            }
        },
        None => {
            assert(u == 0) by {
                if u != 0 {
                    assert(t.parents[u] is Some);
                }
            }
            let steps = seq![step];
            assert forall|v: int| 0 <= v < t.len() implies #[trigger] t1.visits[v] == t.visits[v] + if ancestors(t, u).contains(v) { 1int } else { 0int } by {
                if v == u {
                    assert(ancestors(t, u)[0] == u);
                }
            }
            assert forall|v: int| 0 <= v < t.len() && t1.outcomes[v] != t.outcomes[v] implies t.outcomes[v] is None
                && exists|k: int| 0 <= k < steps.len() && steps[k].node == v && #[trigger] steps[k].solved == t1.outcomes[v] by {
                assert(v == u);
                assert(steps[0] == step);
                assert(steps[0].node == v && steps[0].solved == t1.outcomes[v]);
            }
        },
    }
}

/// The nodes above `u` are below `u`, and a backup from `u` leaves every node
/// above index `u` untouched.
proof fn lemma_ancestors_below(t: TreeView, u: int)
    requires
        t.shape_ok(),
        0 <= u < t.len(),
    ensures
        forall|k: int| 0 <= k < ancestors(t, u).len() ==> 0 <= #[trigger] ancestors(t, u)[k] <= u,
        forall|v: int| u < v < t.len() ==> !ancestors(t, u).contains(v),
    decreases u,
{
    match t.parents[u] {
        Some(p) => {
            if 0 <= p < u {
                lemma_ancestors_below(t, p as int);
                let a = ancestors(t, u);
                assert forall|k: int| 0 <= k < a.len() implies 0 <= #[trigger] a[k] <= u by {
                    if k > 0 {
                        assert(a[k] == ancestors(t, p as int)[k - 1]);
                    }
                }
            }
        },
        None => {},
    }
    assert forall|v: int| u < v < t.len() implies !ancestors(t, u).contains(v) by {
        if ancestors(t, u).contains(v) {
            let k = choose|k: int| 0 <= k < ancestors(t, u).len() && ancestors(t, u)[k] == v;
        }
    }
}

/// A backup from `u` changes no outcome at an index above `u`.
proof fn lemma_backup_frame(t: TreeView, u: int, has_solution: bool)
    requires
        0 <= u < t.len(),
        t.outcomes.len() == t.len(),
        t.visits.len() == t.len(),
    ensures
        forall|v: int| u < v < t.len() ==> #[trigger] backup_spec(t, u, has_solution).0.outcomes[v] == t.outcomes[v],
        backup_spec(t, u, has_solution).0.outcomes.len() == t.outcomes.len(),
    decreases u,
{
    let (solved, go_on) = solve_at(t, u, has_solution);
    let t1 = visit_node(t, u, solved);
    match t.parents[u] {
        Some(p) => {
            if 0 <= p < u {
                lemma_backup_frame(t1, p as int, go_on);
            }
        },
        None => {},
    }
}

/// `ancestors` reads only the parents.
proof fn lemma_ancestors_frame(a: TreeView, b: TreeView, u: int)
    requires
        a.parents == b.parents,
    ensures
        ancestors(a, u) == ancestors(b, u),
    decreases u,
{
    match a.parents[u] {
        Some(p) => {
            if 0 <= p < u {
                lemma_ancestors_frame(a, b, p as int);
            }
        },
        None => {},
    }
}

/// The tree with `actions.len()` new nodes appended as the children of node
/// `id`, in order: parent `id`, the given move, outcome and state, no visits
/// and no children.
pub open spec fn with_children(
    t: TreeView,
    id: int,
    actions: Seq<usize>,
    outcomes: Seq<Option<Outcome>>,
    states: Seq<BoardView>,
) -> TreeView {
    let k = actions.len();
    let oldest = t.oldest + Seq::new(k, |i: int| 0usize);
    let counts = t.counts + Seq::new(k, |i: int| 0usize);
    TreeView {
        parents: t.parents + Seq::new(k, |i: int| Some(id as usize)),
        oldest: if k > 0 { oldest.update(id, t.len() as usize) } else { oldest },
        counts: if k > 0 { counts.update(id, k as usize) } else { counts },
        outcomes: t.outcomes + outcomes,
        visits: t.visits + Seq::new(k, |i: int| 0u64),
        actions: t.actions + actions,
        states: t.states + states,
    }
}

/// The nodes from `base` on are the children of `id`, one per move in order,
/// with the move, outcome and state given, unvisited and childless.
pub open spec fn children_appended(
    f: TreeView,
    base: int,
    id: usize,
    actions: Seq<usize>,
    outcomes: Seq<Option<Outcome>>,
    states: Seq<BoardView>,
) -> bool {
    forall|i: int|
        #![trigger f.parents[base + i]]
        0 <= i < actions.len() ==> {
            &&& f.parents[base + i] == Some(id)
            &&& f.actions[base + i] == actions[i]
            &&& f.outcomes[base + i] == outcomes[i]
            &&& f.states[base + i] == states[i]
            &&& f.visits[base + i] == 0
            &&& f.counts[base + i] == 0
        }
}

/// One step of a backup: the node visited and the outcome it was solved to
/// at this step, if any.
#[derive(Clone, Copy, Debug, PartialEq, Eq, Structural)]
pub struct BackupStep {
    pub node: usize,
    pub solved: Option<Outcome>,
}

/// A search tree as a flat arena: node 0 is the root, and the children of a
/// node occupy a contiguous slice that was appended after it. Each node
/// keeps its state, the move that led to it, its proven outcome and its
/// visit count.
pub struct SearchTree {
    parents: Vec<Option<usize>>,
    oldest: Vec<usize>,
    counts: Vec<usize>,
    outcomes: Vec<Option<Outcome>>,
    visits: Vec<u64>,
    actions: Vec<usize>,
    states: Vec<Board>,
}

/// The views of a sequence of boards.
pub open spec fn board_views(s: Seq<Board>) -> Seq<BoardView> {
    s.map_values(|b: Board| b@)
}

impl View for SearchTree {
    type V = TreeView;

    closed spec fn view(&self) -> TreeView {
        TreeView {
            parents: self.parents@,
            oldest: self.oldest@,
            counts: self.counts@,
            outcomes: self.outcomes@,
            visits: self.visits@,
            actions: self.actions@,
            states: board_views(self.states@),
        }
    }
}

/// At the root, the visits of the children add up to one less than the
/// root's own: every search iteration adds one visit to the root and to one
/// child, and the root's first visit expanded it.
pub proof fn lemma_root_visits(t: TreeView)
    requires
        t.wf(),
        t.counts[0] > 0,
    ensures
        t.visits[0] == 1 + t.child_visits(0),
{
    assert(t.visits_ok_at(0, 0));
}

impl SearchTree {
    /// Returns a tree holding only the root with the given state.
    pub fn new(state: Board, action: usize) -> (r: SearchTree)
        ensures
            r@.wf(),
            r@.len() == 1,
            r@.states[0] == state@,
            r@.visits[0] == 0,
            r@.outcomes[0] is None,
            r@.counts[0] == 0,
            r@.actions[0] == action,
    {
        let r = SearchTree {
            parents: vec![None],
            oldest: vec![0],
            counts: vec![0],
            outcomes: vec![None],
            visits: vec![0],
            actions: vec![action],
            states: vec![state],
        };
        proof {
            assert(r@.visits_ok_at(0, 0));
        }
        r
    }

    /// Number of nodes.
    pub fn len(&self) -> (r: usize)
        requires
            self@.wf(),
        ensures
            r == self@.len(),
    {
        self.parents.len()
    }

    /// The parent of a node.
    pub fn parent(&self, id: usize) -> (r: Option<usize>)
        requires
            self@.wf(),
            id < self@.len(),
        ensures
            r == self@.parents[id as int],
    {
        self.parents[id]
    }

    /// The first child and the number of children of a node.
    pub fn children(&self, id: usize) -> (r: (usize, usize))
        requires
            self@.wf(),
            id < self@.len(),
        ensures
            r == (self@.oldest[id as int], self@.counts[id as int]),
    {
        (self.oldest[id], self.counts[id])
    }

    /// The proven outcome of a node, if any.
    pub fn outcome(&self, id: usize) -> (r: Option<Outcome>)
        requires
            self@.wf(),
            id < self@.len(),
        ensures
            r == self@.outcomes[id as int],
    {
        self.outcomes[id]
    }

    /// The visit count of a node.
    pub fn visits(&self, id: usize) -> (r: u64)
        requires
            self@.wf(),
            id < self@.len(),
        ensures
            r == self@.visits[id as int],
    {
        self.visits[id]
    }

    /// The move that led to a node.
    pub fn action(&self, id: usize) -> (r: usize)
        requires
            self@.wf(),
            id < self@.len(),
        ensures
            r == self@.actions[id as int],
    {
        self.actions[id]
    }

    /// The state of a node.
    pub fn state(&self, id: usize) -> (r: &Board)
        requires
            self@.wf(),
            id < self@.len(),
        ensures
            r@ == self@.states[id as int],
    {
        &self.states[id]
    }

    /// Whether a node is neither solved nor expanded.
    pub fn is_unvisited(&self, id: usize) -> (r: bool)
        requires
            self@.wf(),
            id < self@.len(),
        ensures
            r == (self@.outcomes[id as int] is None && self@.counts[id as int] == 0),
    {
        self.outcomes[id].is_none() && self.counts[id] == 0
    }

    /// Whether every node from `id` up to the root can take one more visit.
    fn chain_fits(&self, id: usize) -> (r: bool)
        requires
            self@.shape_ok(),
            id < self@.len(),
        ensures
            r == self@.chain_ok(id as int),
    {
        let ghost t = self@;
        let mut cur = id;
        loop
            invariant
                t == self@,
                t.shape_ok(),
                cur < t.len(),
                t.chain_ok(id as int) == t.chain_ok(cur as int),
            decreases cur,
        {
            if self.visits[cur] == u64::MAX {
                return false;
            }
            match self.parents[cur] {
                None => {
                    return true;
                },
                Some(p) => {
                    proof {
                        if cur == 0 {
                            assert(t.parents[0] is None);
                        }
                        assert(t.parents[cur as int] is Some);
                    }
                    cur = p;
                },
            }
        }
    }

    /// The outcomes of a node's children.
    fn child_outcomes(&self, id: usize) -> (r: Vec<Option<Outcome>>)
        requires
            self@.shape_ok(),
            id < self@.len(),
        ensures
            r@ == self@.child_outcomes(id as int),
    {
        let ghost t = self@;
        let start = self.oldest[id];
        let n = self.counts[id];
        let mut r: Vec<Option<Outcome>> = Vec::new();
        if n == 0 {
            assert(r@ =~= t.child_outcomes(id as int));
            return r;
        }
        assert(self.counts@[id as int] > 0);
        assert(t.len() == self.outcomes.len());
        let mut k: usize = 0;
        while k < n
            invariant
                t == self@,
                t.shape_ok(),
                id < t.len(),
                n == t.counts[id as int],
                start == t.oldest[id as int],
                n > 0,
                start + n <= t.len(),
                t.len() <= usize::MAX,
                k <= n,
                r@ == t.outcomes.subrange(start as int, start + k),
            decreases n - k,
        {
            r.push(self.outcomes[start + k]);
            k = k + 1;
            proof {
                assert(r@ =~= t.outcomes.subrange(start as int, start + k));
            }
        }
        r
    }

    /// Walks from node `leaf` up to the root, adding one visit to each node;
    /// while `has_solution` holds it first applies the solver to each unsolved
    /// node, and stops applying it at the first node the solver cannot decide.
    #[verifier::rlimit(80)]
    fn backup(&mut self, leaf: usize, has_solution: bool) -> (r: Vec<BackupStep>)
        requires
            old(self)@.pending(leaf as int),
            old(self)@.chain_ok(leaf as int),
        ensures
            final(self)@.wf(),
            final(self)@.len() == old(self)@.len(),
            final(self)@.visits[0] == old(self)@.visits[0] + 1,
            final(self)@.states == old(self)@.states,
            final(self)@.counts == old(self)@.counts,
            (final(self)@, r@) == backup_spec(old(self)@, leaf as int, has_solution),
            r@.len() > 0,
            r@[0].node == leaf,
            r@.last().node == 0,
    {
        let ghost t0 = self@;
        let mut steps: Vec<BackupStep> = Vec::new();
        let mut id = leaf;
        let mut has_sol = has_solution;
        loop
            invariant
                self@.pending(id as int),
                self@.chain_ok(id as int),
                self@.len() == t0.len(),
                self@.states == t0.states,
                self@.counts == t0.counts,
                self@.parents == t0.parents,
                t0.len() >= 1,
                t0 == old(self)@,
                self@.visits[0] == t0.visits[0],
                steps@.len() == 0 ==> id == leaf,
                steps@.len() > 0 ==> steps@[0].node == leaf,
                backup_spec(t0, leaf as int, has_solution) == (backup_spec(self@, id as int, has_sol).0, steps@
                    + backup_spec(self@, id as int, has_sol).1),
            decreases id,
        {
            let ghost before = self@;
            let ghost has_old = has_sol;
            let ghost steps_old = steps@;
            let mut solved: Option<Outcome> = None;
            if has_sol && self.outcomes[id].is_none() {
                let kids = self.child_outcomes(id);
                match solve_from_children(&kids) {
                    Some(o) => {
                        self.outcomes.set(id, Some(o));
                        solved = Some(o);
                        proof {
                            let t = self@;
                            assert forall|v: int| 0 <= v < t.len() && v != id implies #[trigger] t.visits_ok_at(v, 0) by {
                                assert(before.visits_ok_at(v, 0));
                                assert(t.child_visits(v) == before.child_visits(v));
                            }
                            assert(t.child_visits(id as int) == before.child_visits(id as int));
                            assert(t.shape_ok());
                            lemma_chain_frame(before, t, id as int);
                        }
                    },
                    None => {
                        has_sol = false;
                    },
                }
            }
            let ghost mid = self@;
            let n = self.visits[id];
            proof {
                assert(mid.chain_ok(id as int));
            }
            self.visits.set(id, n + 1);
            steps.push(BackupStep { node: id, solved });
            let ghost after = self@;
            proof {
                assert((solved, has_sol) == solve_at(before, id as int, has_old));
                assert(after == visit_node(before, id as int, solved));
                assert(after.visits == mid.visits.update(id as int, (mid.visits[id as int] + 1) as u64));
                assert forall|v: int| 0 <= v < after.len() && mid.counts[v] > 0 implies #[trigger] after.child_visits(v)
                    == mid.child_visits(v) + if mid.oldest[v] <= id < mid.oldest[v] + mid.counts[v] {
                    1int
                } else {
                    0int
                } by {
                    lemma_sum_bump(mid.visits, mid.oldest[v] as int, mid.oldest[v] + mid.counts[v], id as int);
                }
                assert(after.shape_ok());
            }
            match self.parents[id] {
                None => {
                    proof {
                        assert(id == 0) by {
                            if id != 0 {
                                assert(mid.parents[id as int] is Some);
                            }
                        }
                        assert forall|v: int| 0 <= v < after.len() implies #[trigger] after.visits_ok_at(v, 0) by {
                            if mid.counts[v] > 0 {
                                if mid.oldest[v] <= 0 < mid.oldest[v] + mid.counts[v] {
                                    assert(v < mid.oldest[v]);
                                }
                                assert(mid.visits_ok_at(v, if v == 0 { 1int } else { 0int }));
                            }
                        }
                        assert(backup_spec(before, id as int, has_old) == (after, seq![BackupStep { node: id, solved }]));
                        assert(steps@ =~= steps_old + seq![BackupStep { node: id, solved }]);
                    }
                    return steps;
                },
                Some(p) => {
                    proof {
                        assert(id != 0);
                        assert(mid.parents[id as int] is Some);
                        assert(p < id);
                        assert forall|v: int| 0 <= v < after.len() && v != p implies #[trigger] after.visits_ok_at(v, 0) by {
                            if mid.counts[v] > 0 {
                                if mid.oldest[v] <= id < mid.oldest[v] + mid.counts[v] {
                                    assert(mid.parents[id as int] == Some(v as usize));
                                }
                                assert(mid.visits_ok_at(v, if v == id { 1int } else { 0int }));
                            }
                        }
                        assert(mid.visits_ok_at(p as int, 0));
                        assert(after.visits_ok_at(p as int, 1));
                        assert(mid.chain_ok(p as int));
                        lemma_chain_frame(mid, after, p as int);
                        let r = backup_spec(after, p as int, has_sol);
                        assert(backup_spec(before, id as int, has_old) == (r.0, seq![BackupStep { node: id, solved }] + r.1));
                        assert(steps@ + r.1 =~= steps_old + (seq![BackupStep { node: id, solved }] + r.1));
                    }
                    id = p;
                },
            }
        }
    }

    /// Expands an unvisited node with one child per move, then backs up from
    /// it. Refused (`None`, nothing changed) unless the node is unsolved,
    /// childless and, when children are given, never visited; unless the
    /// three child lists have one length; and unless the visit counts up to
    /// the root have room.
    #[verifier::rlimit(60)]
    pub fn expand(
        &mut self,
        id: usize,
        actions: Vec<usize>,
        outcomes: Vec<Option<Outcome>>,
        states: Vec<Board>,
        has_solution: bool,
    ) -> (r: Option<Vec<BackupStep>>)
        requires
            old(self)@.wf(),
        ensures
            final(self)@.wf(),
            r is None ==> final(self)@ == old(self)@,
            r is Some <== (id < old(self)@.len() && actions@.len() == outcomes@.len() && actions@.len()
                == states@.len() && old(self)@.outcomes[id as int] is None && old(self)@.counts[id as int] == 0 && (
            actions@.len() > 0 ==> old(self)@.visits[id as int] == 0) && old(self)@.chain_ok(id as int)
                && old(self)@.len() + actions@.len() < usize::MAX),
            r matches Some(steps) ==> (final(self)@, steps@) == backup_spec(
                with_children(old(self)@, id as int, actions@, outcomes@, board_views(states@)),
                id as int,
                has_solution,
            ),
            r is Some ==> {
                &&& final(self)@.len() == old(self)@.len() + actions@.len()
                &&& final(self)@.visits[0] == old(self)@.visits[0] + 1
                &&& actions@.len() > 0 ==> final(self)@.counts[id as int] == actions@.len()
                    && final(self)@.oldest[id as int] == old(self)@.len()
                &&& children_appended(final(self)@, old(self)@.len(), id, actions@, outcomes@, board_views(states@))
            },
    {
        if id >= self.parents.len() || actions.len() != outcomes.len() || actions.len() != states.len() {
            return None;
        }
        if self.outcomes[id].is_some() || self.counts[id] != 0 || (actions.len() > 0 && self.visits[id] != 0) {
            return None;
        }
        if !self.chain_fits(id) {
            return None;
        }
        let k = actions.len();
        if self.parents.len() >= usize::MAX - k {
            return None;
        }
        let ghost t0 = self@;
        let base = self.parents.len();
        let mut j: usize = 0;
        while j < k
            invariant
                base == t0.len(),
                k == actions@.len(),
                k == outcomes@.len(),
                k == states@.len(),
                id < base,
                base + k < usize::MAX,
                j <= k,
                t0.wf(),
                t0.counts[id as int] == 0,
                t0.outcomes[id as int] is None,
                k > 0 ==> t0.visits[id as int] == 0,
                t0.chain_ok(id as int),
                self@.len() == base + j,
                self@.parents == t0.parents + Seq::new(j as nat, |i: int| Some(id)),
                self@.oldest == t0.oldest + Seq::new(j as nat, |i: int| 0usize),
                self@.counts == t0.counts + Seq::new(j as nat, |i: int| 0usize),
                self@.outcomes == t0.outcomes + outcomes@.take(j as int),
                self@.visits == t0.visits + Seq::new(j as nat, |i: int| 0u64),
                self@.actions == t0.actions + actions@.take(j as int),
                self@.states == t0.states + board_views(states@).take(j as int),
            decreases k - j,
        {
            self.parents.push(Some(id));
            self.oldest.push(0);
            self.counts.push(0);
            self.outcomes.push(outcomes[j]);
            self.visits.push(0);
            self.actions.push(actions[j]);
            let s = states[j].clone();
            let ghost old_states = self.states@;
            self.states.push(s);
            proof {
                assert(board_views(states@).take(j as int + 1) =~= board_views(states@).take(j as int).push(s@));
                assert(board_views(self.states@) =~= board_views(old_states).push(s@));
            }
            j = j + 1;
            proof {
                assert(self@.parents =~= t0.parents + Seq::new(j as nat, |i: int| Some(id)));
                assert(self@.oldest =~= t0.oldest + Seq::new(j as nat, |i: int| 0usize));
                assert(self@.counts =~= t0.counts + Seq::new(j as nat, |i: int| 0usize));
                assert(self@.outcomes =~= t0.outcomes + outcomes@.take(j as int));
                assert(self@.visits =~= t0.visits + Seq::new(j as nat, |i: int| 0u64));
                assert(self@.actions =~= t0.actions + actions@.take(j as int));
                assert(self@.states =~= t0.states + board_views(states@).take(j as int));
            }
        }
        if k > 0 {
            self.oldest.set(id, base);
            self.counts.set(id, k);
        }
        let ghost t1 = self@;
        proof {
            assert(t1.len() == base + k);
            assert forall|i: int| base <= i < base + k implies t1.visits[i] == 0 by {}
            assert forall|v: int| #![trigger t1.counts[v]] 0 <= v < t1.len() && t1.counts[v] > 0 implies {
                &&& v < t1.oldest[v]
                &&& t1.oldest[v] + t1.counts[v] <= t1.len()
                &&& forall|i: int| t1.oldest[v] <= i < t1.oldest[v] + t1.counts[v] ==> #[trigger] t1.parents[i] == Some(v as usize)
            } by {
                if v != id {
                    assert(v < base);
                    assert(t0.counts[v] > 0);
                    assert forall|i: int| t1.oldest[v] <= i < t1.oldest[v] + t1.counts[v] implies #[trigger] t1.parents[i] == Some(v as usize) by {
                        assert(t0.parents[i] == Some(v as usize));
                    }
                }
            }
            assert forall|i: int| #![trigger t1.parents[i]] 1 <= i < t1.len() implies {
                &&& t1.parents[i] is Some
                &&& (t1.parents[i]->0) < i
                &&& t1.counts[t1.parents[i]->0 as int] > 0
                &&& t1.oldest[t1.parents[i]->0 as int] <= i < t1.oldest[t1.parents[i]->0 as int] + t1.counts[t1.parents[i]->0 as int]
            } by {
                if i < base {
                    assert(t0.parents[i] is Some);
                    let p = t0.parents[i]->0;
                    assert(t0.counts[p as int] > 0);
                    assert(p != id);
                }
            }
            assert(t1.shape_ok());
            assert forall|v: int| 0 <= v < t1.len() && v != id implies #[trigger] t1.visits_ok_at(v, 0) by {
                if v < base {
                    assert(t0.visits_ok_at(v, 0));
                    if t0.counts[v] > 0 {
                        assert forall|i: int| t0.oldest[v] <= i < t0.oldest[v] + t0.counts[v] implies t1.visits[i] == t0.visits[i] by {}
                        lemma_sum_frame(t0.visits, t1.visits, t0.oldest[v] as int, t0.oldest[v] + t0.counts[v]);
                    }
                }
            }
            if k > 0 {
                lemma_sum_zero(t1.visits, base as int, base + k);
            }
            assert(t1.visits_ok_at(id as int, 1));
            assert forall|i: int| 0 <= i <= id && i < t0.len() implies t0.visits[i] == t1.visits[i] && t0.parents[i] == t1.parents[i] by {}
            lemma_chain_frame(t0, t1, id as int);
            assert(t1 == with_children(t0, id as int, actions@, outcomes@, board_views(states@))) by {
                let w = with_children(t0, id as int, actions@, outcomes@, board_views(states@));
                assert(outcomes@.take(k as int) =~= outcomes@);
                assert(actions@.take(k as int) =~= actions@);
                assert(board_views(states@).take(k as int) =~= board_views(states@));
                assert(t1.parents =~= w.parents);
                assert(t1.oldest =~= w.oldest);
                assert(t1.counts =~= w.counts);
                assert(t1.outcomes =~= w.outcomes);
                assert(t1.visits =~= w.visits);
                assert(t1.actions =~= w.actions);
                assert(t1.states =~= w.states);
            }
        }
        let steps = self.backup(id, has_solution);
        proof {
            let t1 = with_children(t0, id as int, actions@, outcomes@, board_views(states@));
            lemma_backup(t1, id as int, has_solution);
            lemma_ancestors_below(t1, id as int);
            let f = self@;
            let path = ancestors(t1, id as int);
            assert(f.oldest == t1.oldest && f.counts == t1.counts && f.parents == t1.parents);
            assert(f.len() == t0.len() + k);
            assert(f.visits[0] == t0.visits[0] + 1);
            assert forall|i: int|
                #![trigger f.parents[t0.len() + i]]
                0 <= i < k implies {
                    &&& f.parents[t0.len() + i] == Some(id)
                    &&& f.actions[t0.len() + i] == actions@[i]
                    &&& f.outcomes[t0.len() + i] == outcomes@[i]
                    &&& f.states[t0.len() + i] == states@[i]@
                    &&& f.visits[t0.len() + i] == 0
                    &&& f.counts[t0.len() + i] == 0
                } by {
                let v = t0.len() + i;
                assert(!path.contains(v));
                assert(f.visits[v] == t1.visits[v]);
                if f.outcomes[v] != t1.outcomes[v] {
                    let j = choose|j: int| 0 <= j < steps@.len() && steps@[j].node == v && #[trigger] steps@[j].solved == f.outcomes[v];
                    assert(steps@[j].node == path[j]);
                    assert(path[j] <= id);
                }
                assert(board_views(states@)[i] == states@[i]@);
            }
            assert(children_appended(f, t0.len(), id, actions@, outcomes@, board_views(states@)));
        }
        Some(steps)
    }

    /// Backs up once more from a solved node other than the root that a
    /// descent reached. Refused (`None`, nothing changed) unless the node
    /// exists, is not the root, is solved, and the visit counts up to the
    /// root have room.
    pub fn revisit(&mut self, id: usize, has_solution: bool) -> (r: Option<Vec<BackupStep>>)
        requires
            old(self)@.wf(),
        ensures
            final(self)@.wf(),
            r is None ==> final(self)@ == old(self)@,
            r is Some <== (0 < id < old(self)@.len() && old(self)@.outcomes[id as int] is Some && old(self)@.chain_ok(
                id as int,
            )),
            r matches Some(steps) ==> (final(self)@, steps@) == backup_spec(old(self)@, id as int, has_solution),
            r is Some ==> {
                &&& final(self)@.len() == old(self)@.len()
                &&& final(self)@.visits[0] == old(self)@.visits[0] + 1
            },
    {
        if id >= self.parents.len() || id == 0 || self.outcomes[id].is_none() {
            return None;
        }
        if !self.chain_fits(id) {
            return None;
        }
        proof {
            assert(self@.visits_ok_at(id as int, 0));
        }
        let steps = self.backup(id, has_solution);
        Some(steps)
    }
}

/// A slice sum reads only the entries in the slice.
proof fn lemma_sum_frame(a: Seq<u64>, b: Seq<u64>, lo: int, hi: int)
    requires
        forall|i: int| lo <= i < hi ==> a[i] == b[i],
    ensures
        slice_sum(a, lo, hi) == slice_sum(b, lo, hi),
    decreases hi - lo,
{
    if hi > lo {
        lemma_sum_frame(a, b, lo, hi - 1);
    }
}

/// A slice of zeros sums to zero.
proof fn lemma_sum_zero(a: Seq<u64>, lo: int, hi: int)
    requires
        forall|i: int| lo <= i < hi ==> a[i] == 0,
    ensures
        slice_sum(a, lo, hi) == 0,
    decreases hi - lo,
{
    if hi > lo {
        lemma_sum_zero(a, lo, hi - 1);
    }
}

} // verus!
