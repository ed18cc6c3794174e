//! Bounded impact cones over a program-dependence graph.
//!
//! A graph is held as plain values: its key, the keys of its nodes and its
//! directed edges. The cone of a root is every node within the requested
//! number of dependence steps, in the direction the query follows.

use vstd::prelude::*;
use crate::evidence::{entity_key, lemma_pair_key, GraphEntityRef, ImpactCone, ImpactConeQuery, ImpactDirection};
use crate::contract::labeled_message;
use crate::model::GraphEvidenceLayer;
use crate::order::{compare_str, insert_sorted_str, key_lt_at, keys_strictly_increasing, str_key, view_set};

verus! {

/// A directed program-dependence edge between two node keys.
#[derive(Clone, Debug)]
pub struct DependenceEdge {
    pub key: String,
    pub from: String,
    pub to: String,
    /// The edge is a data-flow dependence rather than a control one.
    pub flow: bool,
}

/// One program-dependence graph: its key, node keys and edges.
#[derive(Clone, Debug)]
pub struct DependenceGraph {
    pub key: String,
    pub nodes: Vec<String>,
    pub edges: Vec<DependenceEdge>,
}

/// Why an impact query could not be answered.
#[derive(Clone, Debug, PartialEq, Eq)]
pub enum ImpactQueryError {
    ZeroDepth,
    MissingGraph(String),
    MissingNode(String),
}

/// The message of an impact query error.
pub open spec fn impact_error_message(e: ImpactQueryError) -> Seq<char> {
    match e {
        ImpactQueryError::ZeroDepth => "impact query maximum depth must be positive"@,
        ImpactQueryError::MissingGraph(k) => "impact query references missing program-dependence graph "@ + k@,
        ImpactQueryError::MissingNode(k) => "impact query references missing program-dependence node "@ + k@,
    }
}

impl ImpactQueryError {
    /// The message of the error.
    pub fn message(&self) -> (m: String)
        ensures
            m@ == impact_error_message(*self),
    {
        match self {
            ImpactQueryError::ZeroDepth => {
                let m = "impact query maximum depth must be positive".to_owned();
                m
            },
            ImpactQueryError::MissingGraph(key) => labeled_message(
                "impact query references missing program-dependence graph ",
                key.as_str(),
            ),
            ImpactQueryError::MissingNode(key) => labeled_message(
                "impact query references missing program-dependence node ",
                key.as_str(),
            ),
        }
    }
}

/// One step along an edge from `a` reaches `b` in the given direction.
pub open spec fn edge_step(e: DependenceEdge, direction: ImpactDirection, a: Seq<char>, b: Seq<char>) -> bool {
    match direction {
        ImpactDirection::Incoming => e.to@ == a && e.from@ == b,
        ImpactDirection::Outgoing => e.from@ == a && e.to@ == b,
        ImpactDirection::Bidirectional => (e.to@ == a && e.from@ == b) || (e.from@ == a && e.to@ == b),
    }
}

/// Some edge of the graph leads from `a` to `b`.
pub open spec fn step(edges: Seq<DependenceEdge>, direction: ImpactDirection, a: Seq<char>, b: Seq<char>) -> bool {
    exists|k: int| 0 <= k < edges.len() && edge_step(#[trigger] edges[k], direction, a, b)
}

/// The nodes one step away from some node of `s`.
pub open spec fn successors(edges: Seq<DependenceEdge>, direction: ImpactDirection, s: Set<Seq<char>>) -> Set<
    Seq<char>,
> {
    Set::new(|b: Seq<char>| exists|a: Seq<char>| s.contains(a) && #[trigger] step(edges, direction, a, b))
}

/// The nodes at most `k` steps away from `root`.
pub open spec fn within(edges: Seq<DependenceEdge>, direction: ImpactDirection, root: Seq<char>, k: nat) -> Set<
    Seq<char>,
>
    decreases k,
{
    if k == 0 {
        set![root]
    } else {
        let prev = within(edges, direction, root, (k - 1) as nat);
        prev.union(successors(edges, direction, prev))
    }
}

/// The first graph with the given key.
pub open spec fn find_graph(graphs: Seq<DependenceGraph>, key: Seq<char>) -> Option<DependenceGraph>
    decreases graphs.len(),
{
    if graphs.len() == 0 {
        None
    } else if graphs[0].key@ == key {
        Some(graphs[0])
    } else {
        find_graph(graphs.drop_first(), key)
    }
}

/// The node keys of a graph include `node`.
pub open spec fn has_node(g: DependenceGraph, node: Seq<char>) -> bool {
    exists|i: int| 0 <= i < g.nodes@.len() && (#[trigger] g.nodes@[i])@ == node
}

/// An impact query can be answered: its depth is positive and the first
/// graph with its key holds its root.
pub open spec fn impact_found(graphs: Seq<DependenceGraph>, graph_key: Seq<char>, root: Seq<char>, maximum_depth: u32) -> bool {
    &&& maximum_depth > 0
    &&& find_graph(graphs, graph_key) matches Some(g) && has_node(g, root)
}

/// The reference to a node of the program-dependence layer.
pub open spec fn pdg_entity(graph: Seq<char>, node: Seq<char>) -> crate::evidence::GraphEntityView {
    crate::evidence::GraphEntityView { layer: GraphEvidenceLayer::ProgramDependence, graph, entity: node }
}

/// The cone a successful query answers: the root as the one root, the
/// program-dependence layer as the one layer, every node within the depth
/// once and in key order, and truncation exactly when some node lies one
/// step beyond the depth.
pub open spec fn cone_of(
    g: DependenceGraph,
    root: Seq<char>,
    direction: ImpactDirection,
    maximum_depth: u32,
    c: ImpactCone,
) -> bool {
    let reach = within(g.edges@, direction, root, maximum_depth as nat);
    let beyond = within(g.edges@, direction, root, (maximum_depth + 1) as nat);
    &&& c.query.roots@.len() == 1
    &&& c.query.roots@[0]@ == pdg_entity(g.key@, root)
    &&& c.query.direction == direction
    &&& c.query.layers@ == seq![GraphEvidenceLayer::ProgramDependence]
    &&& c.query.maximum_depth == maximum_depth
    &&& keys_strictly_increasing(c.entities@)
    &&& forall|i: int| 0 <= i < c.entities@.len() ==> (#[trigger] c.entities@[i]).layer
        == GraphEvidenceLayer::ProgramDependence && c.entities@[i].graph@ == g.key@
    &&& forall|n: Seq<char>| reach.contains(n) <==> exists|i: int|
        0 <= i < c.entities@.len() && (#[trigger] c.entities@[i]).entity@ == n
    &&& c.truncated == exists|n: Seq<char>| beyond.contains(n) && !reach.contains(n)
}

/// A node within `i` steps is within any larger number of steps.
pub proof fn lemma_within_monotone(
    edges: Seq<DependenceEdge>,
    direction: ImpactDirection,
    root: Seq<char>,
    i: nat,
    j: nat,
)
    requires
        i <= j,
    ensures
        within(edges, direction, root, i).subset_of(within(edges, direction, root, j)),
    decreases j - i,
{
    if i < j {
        lemma_within_monotone(edges, direction, root, i, (j - 1) as nat);
    }
}

/// Once one more step adds nothing, no number of further steps adds anything.
pub proof fn lemma_within_stable(
    edges: Seq<DependenceEdge>,
    direction: ImpactDirection,
    root: Seq<char>,
    d: nat,
    k: nat,
)
    requires
        within(edges, direction, root, d + 1) == within(edges, direction, root, d),
        d <= k,
    ensures
        within(edges, direction, root, k) == within(edges, direction, root, d),
    decreases k - d,
{
    if d < k {
        lemma_within_stable(edges, direction, root, d, (k - 1) as nat);
        assert(within(edges, direction, root, k) =~= within(edges, direction, root, d));
    }
}

/// The node that an edge leads to from `current`, if it leads anywhere else.
fn adjacent(e: &DependenceEdge, direction: ImpactDirection, current: &str) -> (r: Option<String>)
    ensures
        r matches Some(b) ==> edge_step(*e, direction, current@, b@),
        forall|b: Seq<char>| edge_step(*e, direction, current@, b) ==> (r matches Some(x) && x@ == b)
            || b == current@,
{
    match direction {
        ImpactDirection::Incoming => {
            if compare_str(e.to.as_str(), current) == 0 {
                Some(e.from.clone())
            } else {
                None
            }
        },
        ImpactDirection::Outgoing => {
            if compare_str(e.from.as_str(), current) == 0 {
                Some(e.to.clone())
            } else {
                None
            }
        },
        ImpactDirection::Bidirectional => {
            if compare_str(e.to.as_str(), current) == 0 {
                Some(e.from.clone())
            } else if compare_str(e.from.as_str(), current) == 0 {
                Some(e.to.clone())
            } else {
                None
            }
        },
    }
}

fn find_graph_index(graphs: &Vec<DependenceGraph>, key: &str) -> (r: Option<usize>)
    ensures
        r is None ==> find_graph(graphs@, key@) is None,
        r matches Some(i) ==> i < graphs@.len() && find_graph(graphs@, key@) == Some(graphs@[i as int]),
{
    let n = graphs.len();
    let mut i: usize = 0;
    assert(graphs@.subrange(0, n as int) =~= graphs@);
    while i < n
        invariant
            n == graphs@.len(),
            i <= n,
            find_graph(graphs@, key@) == find_graph(graphs@.subrange(i as int, n as int), key@),
        decreases n - i,
    {
        let ghost rest = graphs@.subrange(i as int, n as int);
        assert(rest.drop_first() =~= graphs@.subrange(i + 1, n as int));
        if compare_str(graphs[i].key.as_str(), key) == 0 {
            return Some(i);
        }
        i = i + 1;
    }
    None
}

fn graph_has_node(g: &DependenceGraph, node: &str) -> (r: bool)
    ensures
        r == has_node(*g, node@),
{
    let n = g.nodes.len();
    let mut i: usize = 0;
    while i < n
        invariant
            n == g.nodes@.len(),
            i <= n,
            forall|k: int| 0 <= k < i ==> (#[trigger] g.nodes@[k])@ != node@,
        decreases n - i,
    {
        if compare_str(g.nodes[i].as_str(), node) == 0 {
            return true;
        }
        i = i + 1;
    }
    false
}

pub fn contains_key(v: &Vec<String>, x: &str) -> (r: bool)
    ensures
        r == view_set(v@).contains(x@),
{
    let n = v.len();
    let mut i: usize = 0;
    while i < n
        invariant
            n == v@.len(),
            i <= n,
            forall|k: int| 0 <= k < i ==> (#[trigger] v@[k])@ != x@,
        decreases n - i,
    {
        if compare_str(v[i].as_str(), x) == 0 {
            return true;
        }
        i = i + 1;
    }
    false
}

/// The nodes of `visited` other than the frontier have all their
/// successors in `visited`.
pub open spec fn closed_outside(
    edges: Seq<DependenceEdge>,
    direction: ImpactDirection,
    visited: Set<Seq<char>>,
    frontier: Set<Seq<char>>,
) -> bool {
    forall|a: Seq<char>, b: Seq<char>|
        visited.contains(a) && !frontier.contains(a) && #[trigger] step(edges, direction, a, b)
            ==> visited.contains(b)
}

/// Expands the frontier by one step: every new successor of a frontier node
/// joins `visited` and the next frontier.
fn expand(
    g: &DependenceGraph,
    direction: ImpactDirection,
    root: Ghost<Seq<char>>,
    d: Ghost<nat>,
    visited: &mut Vec<String>,
    frontier: &Vec<String>,
) -> (next: Vec<String>)
    requires
        view_set(old(visited)@) == within(g.edges@, direction, root@, d@),
        view_set(frontier@).subset_of(view_set(old(visited)@)),
        closed_outside(g.edges@, direction, view_set(old(visited)@), view_set(frontier@)),
        keys_strictly_increasing(old(visited)@),
    ensures
        view_set(final(visited)@) == within(g.edges@, direction, root@, d@ + 1),
        view_set(next@).subset_of(view_set(final(visited)@)),
        closed_outside(g.edges@, direction, view_set(final(visited)@), view_set(next@)),
        keys_strictly_increasing(final(visited)@),
        view_set(final(visited)@) == view_set(old(visited)@).union(view_set(next@)),
{
    let ghost edges = g.edges@;
    let ghost w = view_set(visited@);
    let ghost fs = view_set(frontier@);
    let mut next: Vec<String> = Vec::new();
    let nf = frontier.len();
    let ne = g.edges.len();
    let mut i: usize = 0;
    while i < nf
        invariant
            nf == frontier@.len(),
            ne == g.edges@.len(),
            edges == g.edges@,
            fs == view_set(frontier@),
            w == within(edges, direction, root@, d@),
            fs.subset_of(w),
            closed_outside(edges, direction, w, fs),
            i <= nf,
            keys_strictly_increasing(visited@),
            view_set(visited@) == w.union(view_set(next@)),
            forall|b: Seq<char>| #[trigger] view_set(next@).contains(b) ==> exists|a: Seq<char>|
                fs.contains(a) && #[trigger] step(edges, direction, a, b),
            forall|k: int, b: Seq<char>| 0 <= k < i && #[trigger] step(edges, direction, frontier@[k]@, b)
                ==> view_set(visited@).contains(b),
        decreases nf - i,
    {
        let current = frontier[i].as_str();
        proof {
            assert(fs.contains(frontier@[i as int]@));
        }
        let mut j: usize = 0;
        while j < ne
            invariant
                nf == frontier@.len(),
                ne == g.edges@.len(),
                edges == g.edges@,
                i < nf,
                current@ == frontier@[i as int]@,
                fs == view_set(frontier@),
                fs.contains(current@),
                w == within(edges, direction, root@, d@),
                fs.subset_of(w),
                j <= ne,
                keys_strictly_increasing(visited@),
                view_set(visited@) == w.union(view_set(next@)),
                forall|b: Seq<char>| #[trigger] view_set(next@).contains(b) ==> exists|a: Seq<char>|
                    fs.contains(a) && #[trigger] step(edges, direction, a, b),
                forall|k: int, b: Seq<char>| 0 <= k < i && #[trigger] step(edges, direction, frontier@[k]@, b)
                    ==> view_set(visited@).contains(b),
                forall|k: int, b: Seq<char>| 0 <= k < j && #[trigger] edge_step(edges[k], direction, current@, b)
                    ==> view_set(visited@).contains(b),
            decreases ne - j,
        {
            let ghost before_visited = view_set(visited@);
            let ghost before_next = view_set(next@);
            if let Some(b) = adjacent(&g.edges[j], direction, current) {
                proof {
                    assert(step(edges, direction, current@, b@));
                }
                let copy = b.clone();
                let inserted = insert_sorted_str(visited, b);
                if inserted {
                    let ghost prev_next = next@;
                    next.push(copy);
                    proof {
                        assert(view_set(next@) =~= view_set(prev_next).insert(copy@)) by {
                            assert forall|s: Seq<char>| view_set(next@).contains(s) implies view_set(
                                prev_next,
                            ).insert(copy@).contains(s) by {
                                let t = choose|t: int| 0 <= t < next@.len() && (#[trigger] next@[t])@ == s;
                                if t < prev_next.len() {
                                    assert(next@[t] == prev_next[t]);
                                }
                            }
                            assert forall|s: Seq<char>| view_set(prev_next).insert(copy@).contains(s) implies view_set(
                                next@,
                            ).contains(s) by {
                                if s == copy@ {
                                    assert(next@[prev_next.len() as int] == copy);
                                } else {
                                    let t = choose|t: int| 0 <= t < prev_next.len() && (#[trigger] prev_next[t])@ == s;
                                    assert(next@[t] == prev_next[t]);
                                }
                            }
                        }
                    }
                }
            }
            proof {
                assert(before_visited.subset_of(view_set(visited@)));
                assert(view_set(visited@) =~= w.union(view_set(next@)));
                assert forall|b: Seq<char>| #[trigger] view_set(next@).contains(b) implies exists|a: Seq<char>|
                    fs.contains(a) && #[trigger] step(edges, direction, a, b) by {
                    if !before_next.contains(b) {
                        assert(step(edges, direction, current@, b));
                    }
                }
                assert forall|k: int, b: Seq<char>| 0 <= k < j + 1 && #[trigger] edge_step(
                    edges[k],
                    direction,
                    current@,
                    b,
                ) implies view_set(visited@).contains(b) by {
                    if k == j && b == current@ {
                        assert(w.contains(current@));
                    }
                }
            }
            j = j + 1;
        }
        proof {
            assert forall|k: int, b: Seq<char>| 0 <= k < i + 1 && #[trigger] step(
                edges,
                direction,
                frontier@[k]@,
                b,
            ) implies view_set(visited@).contains(b) by {
                if k == i {
                    let e = choose|e: int| 0 <= e < edges.len() && edge_step(#[trigger] edges[e], direction, current@, b);
                }
            }
        }
        i = i + 1;
    }
    proof {
        let w1 = within(edges, direction, root@, d@ + 1);
        assert(w1 == w.union(successors(edges, direction, w)));
        assert forall|b: Seq<char>| view_set(visited@).contains(b) <==> w1.contains(b) by {
            if view_set(visited@).contains(b) && !w.contains(b) {
                assert(view_set(next@).contains(b));
                let a = choose|a: Seq<char>| fs.contains(a) && #[trigger] step(edges, direction, a, b);
                assert(successors(edges, direction, w).contains(b));
            }
            if w1.contains(b) && !w.contains(b) {
                assert(successors(edges, direction, w).contains(b));
                let a = choose|a: Seq<char>| w.contains(a) && #[trigger] step(edges, direction, a, b);
                if fs.contains(a) {
                    let k = choose|k: int| 0 <= k < frontier@.len() && (#[trigger] frontier@[k])@ == a;
                    assert(step(edges, direction, frontier@[k]@, b));
                }
            }
        }
        assert(view_set(visited@) =~= w1);
        assert forall|a: Seq<char>, b: Seq<char>|
            view_set(visited@).contains(a) && !view_set(next@).contains(a) && #[trigger] step(
                edges,
                direction,
                a,
                b,
            ) implies view_set(visited@).contains(b) by {
            assert(w.contains(a));
            if fs.contains(a) {
                let k = choose|k: int| 0 <= k < frontier@.len() && (#[trigger] frontier@[k])@ == a;
                assert(step(edges, direction, frontier@[k]@, b));
            }
        }
    }
    next
}

/// Whether some frontier node has a successor outside `visited`.
fn escapes(
    g: &DependenceGraph,
    direction: ImpactDirection,
    visited: &Vec<String>,
    frontier: &Vec<String>,
) -> (r: bool)
    requires
        view_set(frontier@).subset_of(view_set(visited@)),
    ensures
        r == exists|a: Seq<char>, b: Seq<char>|
            view_set(frontier@).contains(a) && #[trigger] step(g.edges@, direction, a, b) && !view_set(
                visited@,
            ).contains(b),
{
    let nf = frontier.len();
    let ne = g.edges.len();
    let mut i: usize = 0;
    while i < nf
        invariant
            nf == frontier@.len(),
            ne == g.edges@.len(),
            i <= nf,
            view_set(frontier@).subset_of(view_set(visited@)),
            forall|k: int, b: Seq<char>| 0 <= k < i && #[trigger] step(g.edges@, direction, frontier@[k]@, b)
                ==> view_set(visited@).contains(b),
        decreases nf - i,
    {
        let current = frontier[i].as_str();
        proof {
            assert(view_set(frontier@).contains(current@));
        }
        let mut j: usize = 0;
        while j < ne
            invariant
                nf == frontier@.len(),
                ne == g.edges@.len(),
                i < nf,
                current@ == frontier@[i as int]@,
                view_set(visited@).contains(current@),
                view_set(frontier@).contains(current@),
                j <= ne,
                forall|k: int, b: Seq<char>| 0 <= k < j && #[trigger] edge_step(g.edges@[k], direction, current@, b)
                    ==> view_set(visited@).contains(b),
            decreases ne - j,
        {
            if let Some(b) = adjacent(&g.edges[j], direction, current) {
                if !contains_key(visited, b.as_str()) {
                    proof {
                        assert(step(g.edges@, direction, current@, b@));
                    }
                    return true;
                }
            }
            j = j + 1;
        }
        proof {
            assert forall|k: int, b: Seq<char>| 0 <= k < i + 1 && #[trigger] step(
                g.edges@,
                direction,
                frontier@[k]@,
                b,
            ) implies view_set(visited@).contains(b) by {
                if k == i {
                    let e = choose|e: int| 0 <= e < g.edges@.len() && edge_step(#[trigger] g.edges@[e], direction, current@, b);
                }
            }
        }
        i = i + 1;
    }
    proof {
        assert forall|a: Seq<char>, b: Seq<char>|
            view_set(frontier@).contains(a) && #[trigger] step(g.edges@, direction, a, b)
                implies view_set(visited@).contains(b) by {
            let k = choose|k: int| 0 <= k < frontier@.len() && (#[trigger] frontier@[k])@ == a;
            assert(step(g.edges@, direction, frontier@[k]@, b));
        }
    }
    false
}


/// What an impact query answers: the depth must be positive, the graph
/// must exist and hold the root; then the cone of the root.
pub open spec fn impact_answer(
    graphs: Seq<DependenceGraph>,
    graph_key: Seq<char>,
    root: Seq<char>,
    direction: ImpactDirection,
    maximum_depth: u32,
    r: Result<ImpactCone, ImpactQueryError>,
) -> bool {
    if maximum_depth == 0 {
        r matches Err(ImpactQueryError::ZeroDepth)
    } else {
        match find_graph(graphs, graph_key) {
            None => (r matches Err(ImpactQueryError::MissingGraph(k)) && k@ == graph_key),
            Some(g) => if has_node(g, root) {
                (r matches Ok(c) && cone_of(g, root, direction, maximum_depth, c))
            } else {
                (r matches Err(ImpactQueryError::MissingNode(k)) && k@ == root)
            },
        }
    }
}

/// The impact cone of `root` in the graph keyed `graph_key`: every node
/// within `maximum_depth` dependence steps in the given direction.
pub fn program_dependence_impact_cone(
    graphs: &Vec<DependenceGraph>,
    graph_key: &str,
    root: &str,
    direction: ImpactDirection,
    maximum_depth: u32,
) -> (r: Result<ImpactCone, ImpactQueryError>)
    ensures
        impact_answer(graphs@, graph_key@, root@, direction, maximum_depth, r),
{
    if maximum_depth == 0 {
        return Err(ImpactQueryError::ZeroDepth);
    }
    let index = match find_graph_index(graphs, graph_key) {
        None => {
            return Err(ImpactQueryError::MissingGraph(graph_key.to_owned()));
        },
        Some(i) => i,
    };
    let g = &graphs[index];
    if !graph_has_node(g, root) {
        return Err(ImpactQueryError::MissingNode(root.to_owned()));
    }
    let ghost edges = g.edges@;
    let mut visited: Vec<String> = vec![root.to_owned()];
    let mut frontier: Vec<String> = vec![root.to_owned()];
    let mut d: u32 = 0;
    proof {
        assert(view_set(visited@) =~= set![root@]) by {
            assert(visited@[0]@ == root@);
        }
        assert(view_set(frontier@) =~= set![root@]) by {
            assert(frontier@[0]@ == root@);
        }
        assert(within(edges, direction, root@, 0) == set![root@]);
    }
    while d < maximum_depth && frontier.len() > 0
        invariant
            edges == g.edges@,
            d <= maximum_depth,
            view_set(visited@) == within(edges, direction, root@, d as nat),
            view_set(frontier@).subset_of(view_set(visited@)),
            closed_outside(edges, direction, view_set(visited@), view_set(frontier@)),
            keys_strictly_increasing(visited@),
        decreases maximum_depth - d,
    {
        let next = expand(g, direction, Ghost(root@), Ghost(d as nat), &mut visited, &frontier);
        frontier = next;
        d = d + 1;
    }
    let truncated = escapes(g, direction, &visited, &frontier);
    proof {
        let w = within(edges, direction, root@, d as nat);
        let w1 = within(edges, direction, root@, (d + 1) as nat);
        assert(w1 == w.union(successors(edges, direction, w)));
        let grows = exists|n: Seq<char>| w1.contains(n) && !w.contains(n);
        assert(truncated == grows) by {
            if truncated {
                let (a, b) = choose|a: Seq<char>, b: Seq<char>|
                    view_set(frontier@).contains(a) && #[trigger] step(edges, direction, a, b) && !view_set(
                        visited@,
                    ).contains(b);
                assert(successors(edges, direction, w).contains(b));
                assert(w1.contains(b));
            }
            if grows {
                let n = choose|n: Seq<char>| w1.contains(n) && !w.contains(n);
                assert(successors(edges, direction, w).contains(n));
                let a = choose|a: Seq<char>| w.contains(a) && #[trigger] step(edges, direction, a, n);
                assert(view_set(frontier@).contains(a));
            }
        }
        if d < maximum_depth {
            assert(frontier@.len() == 0);
            assert(!view_set(frontier@).contains(root@));
            assert(!truncated);
            lemma_within_monotone(edges, direction, root@, d as nat, (d + 1) as nat);
            assert(w1 =~= w);
            lemma_within_stable(edges, direction, root@, d as nat, maximum_depth as nat);
            lemma_within_stable(edges, direction, root@, d as nat, (maximum_depth + 1) as nat);
        }
    }
    let n = visited.len();
    let mut entities: Vec<GraphEntityRef> = Vec::new();
    let mut k: usize = 0;
    while k < n
        invariant
            n == visited@.len(),
            k <= n,
            entities@.len() == k,
            forall|t: int| 0 <= t < k ==> (#[trigger] entities@[t])@ == pdg_entity(g.key@, visited@[t]@),
        decreases n - k,
    {
        entities.push(
            GraphEntityRef {
                layer: GraphEvidenceLayer::ProgramDependence,
                graph: g.key.clone(),
                entity: visited[k].clone(),
            },
        );
        k = k + 1;
    }
    let root_entity = GraphEntityRef {
        layer: GraphEvidenceLayer::ProgramDependence,
        graph: g.key.clone(),
        entity: root.to_owned(),
    };
    let cone = ImpactCone {
        query: ImpactConeQuery {
            roots: vec![root_entity],
            direction,
            layers: vec![GraphEvidenceLayer::ProgramDependence],
            maximum_depth,
        },
        entities,
        truncated,
    };
    proof {
        let prefix = seq![GraphEvidenceLayer::ProgramDependence.spec_rank() as int] + str_key(g.key@);
        assert forall|t: int| 0 <= t < cone.entities@.len() - 1 implies #[trigger] key_lt_at(
            cone.entities@,
            t,
        ) by {
            assert(key_lt_at(visited@, t));
            assert(entity_key(cone.entities@[t]@) =~= prefix + str_key(visited@[t]@));
            assert(entity_key(cone.entities@[t + 1]@) =~= prefix + str_key(visited@[t + 1]@));
            lemma_pair_key(prefix, str_key(visited@[t]@), prefix, str_key(visited@[t + 1]@));
        }
        assert forall|m: Seq<char>| view_set(visited@).contains(m) <==> exists|i: int|
            0 <= i < cone.entities@.len() && (#[trigger] cone.entities@[i]).entity@ == m by {
            if view_set(visited@).contains(m) {
                let i = choose|i: int| 0 <= i < visited@.len() && (#[trigger] visited@[i])@ == m;
                assert(cone.entities@[i].entity@ == m);
            }
            if exists|i: int| 0 <= i < cone.entities@.len() && (#[trigger] cone.entities@[i]).entity@ == m {
                let i = choose|i: int| 0 <= i < cone.entities@.len() && (#[trigger] cone.entities@[i]).entity@ == m;
                assert(visited@[i]@ == m);
            }
        }
        let reach = within(edges, direction, root@, maximum_depth as nat);
        let beyond = within(edges, direction, root@, (maximum_depth + 1) as nat);
        assert(view_set(visited@) == reach);
        assert(cone.truncated == exists|m: Seq<char>| beyond.contains(m) && !reach.contains(m));
        assert(cone.query.roots@[0]@ == pdg_entity(g.key@, root@));
        assert(cone.query.layers@ == seq![GraphEvidenceLayer::ProgramDependence]);
        assert(keys_strictly_increasing(cone.entities@));
        assert(cone_of(*g, root@, direction, maximum_depth, cone));
    }
    Ok(cone)
}


/// The root of an answered query is always in its cone.
pub proof fn lemma_cone_holds_root(
    g: DependenceGraph,
    root: Seq<char>,
    direction: ImpactDirection,
    maximum_depth: u32,
    c: ImpactCone,
)
    requires
        cone_of(g, root, direction, maximum_depth, c),
    ensures
        exists|i: int| 0 <= i < c.entities@.len() && (#[trigger] c.entities@[i]).entity@ == root,
{
    lemma_within_monotone(g.edges@, direction, root, 0, maximum_depth as nat);
    assert(within(g.edges@, direction, root, 0).contains(root));
}

/// A deeper query over the same graph, root and direction reaches every
/// node that a shallower one reaches.
pub proof fn lemma_cone_grows_with_depth(
    g: DependenceGraph,
    root: Seq<char>,
    direction: ImpactDirection,
    shallow_depth: u32,
    shallow: ImpactCone,
    deep_depth: u32,
    deep: ImpactCone,
    node: Seq<char>,
)
    requires
        cone_of(g, root, direction, shallow_depth, shallow),
        cone_of(g, root, direction, deep_depth, deep),
        shallow_depth <= deep_depth,
        exists|i: int| 0 <= i < shallow.entities@.len() && (#[trigger] shallow.entities@[i]).entity@ == node,
    ensures
        exists|i: int| 0 <= i < deep.entities@.len() && (#[trigger] deep.entities@[i]).entity@ == node,
{
    lemma_within_monotone(g.edges@, direction, root, shallow_depth as nat, deep_depth as nat);
    assert(within(g.edges@, direction, root, shallow_depth as nat).contains(node));
}

proof fn lemma_within_one_way_in_both(
    edges: Seq<DependenceEdge>,
    one_way: ImpactDirection,
    root: Seq<char>,
    k: nat,
)
    requires
        one_way != ImpactDirection::Bidirectional,
    ensures
        within(edges, one_way, root, k).subset_of(within(edges, ImpactDirection::Bidirectional, root, k)),
    decreases k,
{
    if k > 0 {
        lemma_within_one_way_in_both(edges, one_way, root, (k - 1) as nat);
        let prev = within(edges, one_way, root, (k - 1) as nat);
        let both = within(edges, ImpactDirection::Bidirectional, root, (k - 1) as nat);
        assert forall|b: Seq<char>| successors(edges, one_way, prev).contains(b) implies successors(
            edges,
            ImpactDirection::Bidirectional,
            both,
        ).contains(b) by {
            let a = choose|a: Seq<char>| prev.contains(a) && #[trigger] step(edges, one_way, a, b);
            let e = choose|e: int| 0 <= e < edges.len() && edge_step(#[trigger] edges[e], one_way, a, b);
            assert(edge_step(edges[e], ImpactDirection::Bidirectional, a, b));
            assert(step(edges, ImpactDirection::Bidirectional, a, b));
        }
    }
}

/// A bidirectional query reaches every node that an incoming or an
/// outgoing query of the same depth reaches.
pub proof fn lemma_bidirectional_cone_covers(
    g: DependenceGraph,
    root: Seq<char>,
    one_way: ImpactDirection,
    maximum_depth: u32,
    one: ImpactCone,
    both: ImpactCone,
    node: Seq<char>,
)
    requires
        one_way != ImpactDirection::Bidirectional,
        cone_of(g, root, one_way, maximum_depth, one),
        cone_of(g, root, ImpactDirection::Bidirectional, maximum_depth, both),
        exists|i: int| 0 <= i < one.entities@.len() && (#[trigger] one.entities@[i]).entity@ == node,
    ensures
        exists|i: int| 0 <= i < both.entities@.len() && (#[trigger] both.entities@[i]).entity@ == node,
{
    lemma_within_one_way_in_both(g.edges@, one_way, root, maximum_depth as nat);
    assert(within(g.edges@, one_way, root, maximum_depth as nat).contains(node));
}

} // verus!
