//! The retained analysis that detectors read, held as plain values: the
//! syntax tree, and the control-flow, control-region, non-structured-control
//! and program-dependence graphs of each callable.

use vstd::prelude::*;
use crate::candidate::GraphEligibilityDecision;
use crate::evidence::CapabilitySupport;
use crate::impact::{DependenceEdge, DependenceGraph};
use crate::order::compare_str;
use crate::target::{NodeKey, NodeKeyView};

verus! {

/// The first position of `s` whose element satisfies `p`.
pub open spec fn first_match<T>(s: Seq<T>, p: spec_fn(T) -> bool) -> Option<int>
    decreases s.len(),
{
    if s.len() == 0 {
        None
    } else if p(s[0]) {
        Some(0)
    } else {
        match first_match(s.drop_first(), p) {
            Some(i) => Some(i + 1),
            None => None,
        }
    }
}

/// A position whose element satisfies `p`, after none that does, is the
/// first match.
pub proof fn lemma_first_match_at<T>(s: Seq<T>, p: spec_fn(T) -> bool, i: int)
    requires
        0 <= i < s.len(),
        p(s[i]),
        forall|j: int| 0 <= j < i ==> !p(#[trigger] s[j]),
    ensures
        first_match(s, p) == Some(i),
    decreases i,
{
    if i > 0 {
        assert(!p(s[0]));
        assert forall|j: int| 0 <= j < i - 1 implies !p(#[trigger] s.drop_first()[j]) by {
            assert(s.drop_first()[j] == s[j + 1]);
        }
        lemma_first_match_at(s.drop_first(), p, i - 1);
    }
}

/// Without an element that satisfies `p` there is no first match.
pub proof fn lemma_first_match_none<T>(s: Seq<T>, p: spec_fn(T) -> bool)
    requires
        forall|j: int| 0 <= j < s.len() ==> !p(#[trigger] s[j]),
    ensures
        first_match(s, p) is None,
    decreases s.len(),
{
    if s.len() > 0 {
        assert forall|j: int| 0 <= j < s.len() - 1 implies !p(#[trigger] s.drop_first()[j]) by {
            assert(s.drop_first()[j] == s[j + 1]);
        }
        lemma_first_match_none(s.drop_first(), p);
    }
}

/// The first match lies in range and satisfies `p`.
pub proof fn lemma_first_match_found<T>(s: Seq<T>, p: spec_fn(T) -> bool)
    requires
        first_match(s, p) is Some,
    ensures
        0 <= first_match(s, p)->0 < s.len(),
        p(s[first_match(s, p)->0]),
        forall|j: int| 0 <= j < first_match(s, p)->0 ==> !p(#[trigger] s[j]),
    decreases s.len(),
{
    if !p(s[0]) {
        lemma_first_match_found(s.drop_first(), p);
        let i = first_match(s.drop_first(), p)->0;
        assert(s.drop_first()[i] == s[i + 1]);
        assert forall|j: int| 0 <= j < i + 1 implies !p(#[trigger] s[j]) by {
            if j > 0 {
                assert(s.drop_first()[j - 1] == s[j]);
            }
        }
    }
}

/// A node of the retained syntax tree.
#[derive(Clone, Debug)]
pub struct SyntaxNode {
    pub key: NodeKey,
    /// The raw grammar kind.
    pub kind: String,
    /// The node belongs to the Rust grammar.
    pub rust: bool,
    pub has_error: bool,
    pub named: bool,
    /// The field of its parent the node fills, if any.
    pub field: Option<String>,
    /// The node is an extra of the grammar, such as a comment.
    pub extra: bool,
    /// The position of the parent in the tree's node list.
    pub parent: Option<usize>,
    /// The positions of the children in the tree's node list.
    pub children: Vec<usize>,
    /// The exact source text of the node.
    pub text: String,
}

/// What a control point stands for.
#[derive(Clone, Copy, Debug, PartialEq, Eq, Structural)]
pub enum FlowPointKind {
    /// A point of syntax.
    Syntax,
    /// The synthetic dispatch of a branch.
    BranchDispatch,
    /// The synthetic merge after a branch.
    Merge,
    /// The synthetic dispatch of a callable's abrupt exits.
    ExitDispatch,
    /// Another synthetic point, such as the entry or the exit.
    OtherSynthetic,
}

/// A control point of a control-flow graph.
#[derive(Clone, Debug)]
pub struct FlowPoint {
    pub key: String,
    pub source: Option<NodeKey>,
    pub kind: FlowPointKind,
    /// The syntax was recovered from a parse error.
    pub recovered: bool,
}

/// What an edge of a control-flow graph stands for.
#[derive(Clone, Copy, Debug, PartialEq, Eq, Structural)]
pub enum FlowEdgeKind {
    /// The branch taken when the predicate holds.
    BranchTrue,
    /// The branch taken when the predicate fails.
    BranchFalse,
    /// Another branch, such as a match arm.
    BranchOther,
    /// An abrupt `return`.
    Return,
    /// An abrupt termination, such as a panic.
    Terminate,
    /// Another abrupt edge, such as `break` or `continue`.
    OtherAbrupt,
    /// The edge into the exit on an abrupt outcome.
    AbruptExit,
    /// Any other edge.
    Other,
}

pub open spec fn is_branch_kind(k: FlowEdgeKind) -> bool {
    k == FlowEdgeKind::BranchTrue || k == FlowEdgeKind::BranchFalse || k == FlowEdgeKind::BranchOther
}

/// An edge of a control-flow graph.
#[derive(Clone, Debug)]
pub struct FlowEdge {
    pub from: String,
    pub to: String,
    /// The edge's precision is exact.
    pub exact: bool,
    pub recovered_source: bool,
    pub recovered_predicate: bool,
    pub kind: FlowEdgeKind,
}

/// A control-flow graph.
#[derive(Clone, Debug)]
pub struct FlowGraph {
    pub key: String,
    pub points: Vec<FlowPoint>,
    pub edges: Vec<FlowEdge>,
    /// The key of the synthetic exit point.
    pub exit: String,
}

/// A data-flow graph with the support and authority it has for def/use
/// facts and for effects.
#[derive(Clone, Debug)]
pub struct DataFlowGraph {
    pub key: String,
    pub def_use_support: CapabilitySupport,
    pub def_use_authority: Option<String>,
    pub effects_support: CapabilitySupport,
    pub effects_authority: Option<String>,
}

/// The reachability relation of one control point.
#[derive(Clone, Debug)]
pub struct RegionRelation {
    pub key: String,
    pub point: String,
    pub reachable: bool,
    /// The point has some dominator or an immediate dominator.
    pub dominated: bool,
    /// The exit is reachable from the point.
    pub exit_reachable: bool,
    /// The exit is among the point's post-dominators.
    pub exit_post_dominates: bool,
}

/// A control-region graph.
#[derive(Clone, Debug)]
pub struct RegionGraph {
    pub key: String,
    /// The key of the control-flow graph the regions describe.
    pub flow_graph: String,
    pub relations: Vec<RegionRelation>,
    /// Some structured-control residual remains.
    pub has_residuals: bool,
    /// The region facts cover the whole graph.
    pub complete: bool,
}

/// A non-structured-control graph.
#[derive(Clone, Debug)]
pub struct NonStructuredGraph {
    pub key: String,
    /// Some non-structured-control fact was found.
    pub has_facts: bool,
}

/// A node of a program-dependence graph.
#[derive(Clone, Debug)]
pub struct PdgNode {
    pub key: String,
    pub reachable: bool,
    pub source: Option<NodeKey>,
    pub point: String,
    pub region_point: String,
    pub data_flow_point: String,
}

/// A program-dependence graph with the keys of the graphs it derives from
/// and the eligibility decision it received.
#[derive(Clone, Debug)]
pub struct PdgGraph {
    pub key: String,
    pub nodes: Vec<PdgNode>,
    pub edges: Vec<DependenceEdge>,
    pub flow_graph: String,
    pub region_graph: String,
    pub non_structured_graph: String,
    pub data_flow_graph: String,
    pub eligibility: GraphEligibilityDecision,
    /// The support and authority the graph has for local dependence facts.
    pub local_pdg_support: CapabilitySupport,
    pub local_pdg_authority: Option<String>,
}

/// A retained program-dependence projection with everything it derives
/// from.
#[derive(Clone, Debug)]
pub struct RetainedProjection {
    pub id: String,
    pub snapshot: String,
    pub analysis: String,
    pub syntax: Vec<SyntaxNode>,
    pub flow_graphs: Vec<FlowGraph>,
    pub region_graphs: Vec<RegionGraph>,
    pub non_structured_graphs: Vec<NonStructuredGraph>,
    pub data_flow_graphs: Vec<DataFlowGraph>,
    pub dependence_graphs: Vec<PdgGraph>,
}

pub open spec fn syntax_key_is(key: NodeKeyView) -> spec_fn(SyntaxNode) -> bool {
    |n: SyntaxNode| n.key@ == key
}

pub open spec fn flow_key_is(key: Seq<char>) -> spec_fn(FlowGraph) -> bool {
    |g: FlowGraph| g.key@ == key
}

pub open spec fn region_key_is(key: Seq<char>) -> spec_fn(RegionGraph) -> bool {
    |g: RegionGraph| g.key@ == key
}

pub open spec fn non_structured_key_is(key: Seq<char>) -> spec_fn(NonStructuredGraph) -> bool {
    |g: NonStructuredGraph| g.key@ == key
}

pub open spec fn data_flow_key_is(key: Seq<char>) -> spec_fn(DataFlowGraph) -> bool {
    |g: DataFlowGraph| g.key@ == key
}

pub open spec fn point_key_is(key: Seq<char>) -> spec_fn(FlowPoint) -> bool {
    |p: FlowPoint| p.key@ == key
}

pub open spec fn relation_key_is(key: Seq<char>) -> spec_fn(RegionRelation) -> bool {
    |r: RegionRelation| r.key@ == key
}

pub fn find_syntax(nodes: &Vec<SyntaxNode>, key: &NodeKey) -> (r: Option<usize>)
    ensures
        r is None ==> first_match(nodes@, syntax_key_is(key@)) is None,
        r matches Some(i) ==> first_match(nodes@, syntax_key_is(key@)) == Some(i as int),
{
    let n = nodes.len();
    let mut i: usize = 0;
    while i < n
        invariant
            n == nodes@.len(),
            i <= n,
            forall|j: int| 0 <= j < i ==> !syntax_key_is(key@)(#[trigger] nodes@[j]),
        decreases n - i,
    {
        if nodes[i].key.same_node(key) {
            proof {
                lemma_first_match_at(nodes@, syntax_key_is(key@), i as int);
            }
            return Some(i);
        }
        i = i + 1;
    }
    proof {
        lemma_first_match_none(nodes@, syntax_key_is(key@));
    }
    None
}

pub fn find_flow(graphs: &Vec<FlowGraph>, key: &str) -> (r: Option<usize>)
    ensures
        r is None ==> first_match(graphs@, flow_key_is(key@)) is None,
        r matches Some(i) ==> first_match(graphs@, flow_key_is(key@)) == Some(i as int),
{
    let n = graphs.len();
    let mut i: usize = 0;
    while i < n
        invariant
            n == graphs@.len(),
            i <= n,
            forall|j: int| 0 <= j < i ==> !flow_key_is(key@)(#[trigger] graphs@[j]),
        decreases n - i,
    {
        if compare_str(graphs[i].key.as_str(), key) == 0 {
            proof {
                lemma_first_match_at(graphs@, flow_key_is(key@), i as int);
            }
            return Some(i);
        }
        i = i + 1;
    }
    proof {
        lemma_first_match_none(graphs@, flow_key_is(key@));
    }
    None
}

pub fn find_region(graphs: &Vec<RegionGraph>, key: &str) -> (r: Option<usize>)
    ensures
        r is None ==> first_match(graphs@, region_key_is(key@)) is None,
        r matches Some(i) ==> first_match(graphs@, region_key_is(key@)) == Some(i as int),
{
    let n = graphs.len();
    let mut i: usize = 0;
    while i < n
        invariant
            n == graphs@.len(),
            i <= n,
            forall|j: int| 0 <= j < i ==> !region_key_is(key@)(#[trigger] graphs@[j]),
        decreases n - i,
    {
        if compare_str(graphs[i].key.as_str(), key) == 0 {
            proof {
                lemma_first_match_at(graphs@, region_key_is(key@), i as int);
            }
            return Some(i);
        }
        i = i + 1;
    }
    proof {
        lemma_first_match_none(graphs@, region_key_is(key@));
    }
    None
}

pub fn find_non_structured(graphs: &Vec<NonStructuredGraph>, key: &str) -> (r: Option<usize>)
    ensures
        r is None ==> first_match(graphs@, non_structured_key_is(key@)) is None,
        r matches Some(i) ==> first_match(graphs@, non_structured_key_is(key@)) == Some(i as int),
{
    let n = graphs.len();
    let mut i: usize = 0;
    while i < n
        invariant
            n == graphs@.len(),
            i <= n,
            forall|j: int| 0 <= j < i ==> !non_structured_key_is(key@)(#[trigger] graphs@[j]),
        decreases n - i,
    {
        if compare_str(graphs[i].key.as_str(), key) == 0 {
            proof {
                lemma_first_match_at(graphs@, non_structured_key_is(key@), i as int);
            }
            return Some(i);
        }
        i = i + 1;
    }
    proof {
        lemma_first_match_none(graphs@, non_structured_key_is(key@));
    }
    None
}

pub fn find_data_flow(graphs: &Vec<DataFlowGraph>, key: &str) -> (r: Option<usize>)
    ensures
        r is None ==> first_match(graphs@, data_flow_key_is(key@)) is None,
        r matches Some(i) ==> first_match(graphs@, data_flow_key_is(key@)) == Some(i as int),
{
    let n = graphs.len();
    let mut i: usize = 0;
    while i < n
        invariant
            n == graphs@.len(),
            i <= n,
            forall|j: int| 0 <= j < i ==> !data_flow_key_is(key@)(#[trigger] graphs@[j]),
        decreases n - i,
    {
        if compare_str(graphs[i].key.as_str(), key) == 0 {
            proof {
                lemma_first_match_at(graphs@, data_flow_key_is(key@), i as int);
            }
            return Some(i);
        }
        i = i + 1;
    }
    proof {
        lemma_first_match_none(graphs@, data_flow_key_is(key@));
    }
    None
}

pub fn find_point(points: &Vec<FlowPoint>, key: &str) -> (r: Option<usize>)
    ensures
        r is None ==> first_match(points@, point_key_is(key@)) is None,
        r matches Some(i) ==> first_match(points@, point_key_is(key@)) == Some(i as int),
{
    let n = points.len();
    let mut i: usize = 0;
    while i < n
        invariant
            n == points@.len(),
            i <= n,
            forall|j: int| 0 <= j < i ==> !point_key_is(key@)(#[trigger] points@[j]),
        decreases n - i,
    {
        if compare_str(points[i].key.as_str(), key) == 0 {
            proof {
                lemma_first_match_at(points@, point_key_is(key@), i as int);
            }
            return Some(i);
        }
        i = i + 1;
    }
    proof {
        lemma_first_match_none(points@, point_key_is(key@));
    }
    None
}

pub fn find_relation(relations: &Vec<RegionRelation>, key: &str) -> (r: Option<usize>)
    ensures
        r is None ==> first_match(relations@, relation_key_is(key@)) is None,
        r matches Some(i) ==> first_match(relations@, relation_key_is(key@)) == Some(i as int),
{
    let n = relations.len();
    let mut i: usize = 0;
    while i < n
        invariant
            n == relations@.len(),
            i <= n,
            forall|j: int| 0 <= j < i ==> !relation_key_is(key@)(#[trigger] relations@[j]),
        decreases n - i,
    {
        if compare_str(relations[i].key.as_str(), key) == 0 {
            proof {
                lemma_first_match_at(relations@, relation_key_is(key@), i as int);
            }
            return Some(i);
        }
        i = i + 1;
    }
    proof {
        lemma_first_match_none(relations@, relation_key_is(key@));
    }
    None
}


/// Grammar kinds of literals that carry no name, type, call or effect.
pub open spec fn is_literal_kind(kind: Seq<char>) -> bool {
    kind == "integer_literal"@ || kind == "float_literal"@ || kind == "boolean_literal"@ || kind
        == "char_literal"@ || kind == "string_literal"@ || kind == "raw_string_literal"@
}

/// The named children among the given child positions, in order.
pub open spec fn named_positions(nodes: Seq<SyntaxNode>, children: Seq<usize>) -> Seq<usize>
    decreases children.len(),
{
    if children.len() == 0 {
        Seq::empty()
    } else {
        let rest = named_positions(nodes, children.drop_last());
        if nodes[children.last() as int].named {
            rest.push(children.last())
        } else {
            rest
        }
    }
}

/// Every child position of the node lies in the tree.
pub open spec fn children_in_tree(nodes: Seq<SyntaxNode>, s: int) -> bool {
    forall|k: int| 0 <= k < nodes[s].children@.len() ==> (#[trigger] nodes[s].children@[k]) < nodes.len()
}

/// An exact Rust expression statement without errors.
pub open spec fn clean_expression_statement(n: SyntaxNode) -> bool {
    n.rust && n.kind@ == "expression_statement"@ && !n.has_error
}

/// The statement holds exactly one named child, an error-free inert literal.
pub open spec fn holds_one_inert_literal(nodes: Seq<SyntaxNode>, s: int) -> bool {
    let named = named_positions(nodes, nodes[s].children@);
    named.len() == 1 && is_literal_kind(nodes[named[0] as int].kind@) && !nodes[named[0] as int].has_error
}

/// The verdict on a clean expression statement: `Err` when a child lies
/// outside the tree, else whether it holds one inert literal.
pub open spec fn inert_children_verdict(nodes: Seq<SyntaxNode>, s: int) -> Result<Option<int>, ()> {
    if !children_in_tree(nodes, s) {
        Err(())
    } else if holds_one_inert_literal(nodes, s) {
        Ok(Some(s))
    } else {
        Ok(None)
    }
}

/// What the source node of a dependence node stands for: `Err` when the
/// tree lacks a node it refers to; `Ok(Some(s))` when the statement at
/// position `s` is an exact inert literal statement; `Ok(None)` otherwise.
/// The statement is the node itself when it is an expression statement,
/// and its parent otherwise.
pub open spec fn inert_statement_of(nodes: Seq<SyntaxNode>, source: NodeKeyView) -> Result<Option<int>, ()> {
    match first_match(nodes, syntax_key_is(source)) {
        None => Err(()),
        Some(i) => {
            let s = if nodes[i].kind@ == "expression_statement"@ {
                Some(i)
            } else {
                match nodes[i].parent {
                    Some(p) => Some(p as int),
                    None => None,
                }
            };
            match s {
                None => Ok(None),
                Some(s) => if s >= nodes.len() {
                    Err(())
                } else if !clean_expression_statement(nodes[s]) {
                    Ok(None)
                } else {
                    inert_children_verdict(nodes, s)
                },
            }
        },
    }
}

fn is_literal_kind_exec(kind: &str) -> (r: bool)
    ensures
        r == is_literal_kind(kind@),
{
    compare_str(kind, "integer_literal") == 0 || compare_str(kind, "float_literal") == 0 || compare_str(
        kind,
        "boolean_literal",
    ) == 0 || compare_str(kind, "char_literal") == 0 || compare_str(kind, "string_literal") == 0
        || compare_str(kind, "raw_string_literal") == 0
}

/// Finds the inert literal statement that a source node stands for.
pub fn inert_literal_statement(nodes: &Vec<SyntaxNode>, source: &NodeKey) -> (r: Result<Option<usize>, ()>)
    ensures
        r matches Ok(Some(s)) ==> inert_statement_of(nodes@, source@) == Ok::<Option<int>, ()>(Some(s as int)),
        r matches Ok(None) ==> inert_statement_of(nodes@, source@) == Ok::<Option<int>, ()>(None),
        r is Err ==> inert_statement_of(nodes@, source@) is Err,
{
    let i = match find_syntax(nodes, source) {
        None => {
            return Err(());
        },
        Some(i) => i,
    };
    proof {
        lemma_first_match_found(nodes@, syntax_key_is(source@));
    }
    let s = if compare_str(nodes[i].kind.as_str(), "expression_statement") == 0 {
        i
    } else {
        match nodes[i].parent {
            None => {
                return Ok(None);
            },
            Some(p) => p,
        }
    };
    if s >= nodes.len() {
        return Err(());
    }
    let statement = &nodes[s];
    if !statement.rust || compare_str(statement.kind.as_str(), "expression_statement") != 0 || statement.has_error {
        return Ok(None);
    }
    assert(inert_statement_of(nodes@, source@) == inert_children_verdict(nodes@, s as int));
    let children = &statement.children;
    let m = children.len();
    let mut named: Vec<usize> = Vec::new();
    let mut k: usize = 0;
    while k < m
        invariant
            m == children@.len(),
            children@ == nodes@[s as int].children@,
            s < nodes@.len(),
            k <= m,
            forall|x: int| 0 <= x < k ==> (#[trigger] children@[x]) < nodes@.len(),
            named@ == named_positions(nodes@, children@.subrange(0, k as int)),
            forall|x: int| 0 <= x < named@.len() ==> (#[trigger] named@[x]) < nodes@.len(),
            inert_statement_of(nodes@, source@) == inert_children_verdict(nodes@, s as int),
        decreases m - k,
    {
        let c = children[k];
        if c >= nodes.len() {
            proof {
                assert(nodes@[s as int].children@[k as int] == c);
                assert(!children_in_tree(nodes@, s as int));
            }
            return Err(());
        }
        if nodes[c].named {
            named.push(c);
        }
        proof {
            let t = children@.subrange(0, k + 1);
            assert(t.drop_last() =~= children@.subrange(0, k as int));
            assert(t.last() == c);
        }
        k = k + 1;
    }
    assert(children@.subrange(0, m as int) =~= children@);
    if named.len() != 1 || !is_literal_kind_exec(nodes[named[0]].kind.as_str()) || nodes[named[0]].has_error {
        return Ok(None);
    }
    Ok(Some(s))
}


/// A site where a detector found an unreachable inert literal statement:
/// the positions of the dependence graph and node, the statement in the
/// syntax tree, the control point and its relation, and the graphs the
/// dependence graph derives from.
#[derive(Clone, Copy, Debug, PartialEq, Eq, Structural)]
pub struct UnreachableSite {
    pub graph: usize,
    pub node: usize,
    pub statement: usize,
    pub flow: usize,
    pub point: usize,
    pub region: usize,
    pub relation: usize,
    pub non_structured: usize,
    pub data_flow: usize,
}

/// The positions of the graphs a dependence graph derives from: control
/// flow, control regions, non-structured control and data flow. `Err` when
/// one of them is missing.
pub open spec fn graph_lookups(p: RetainedProjection, gi: int) -> Result<(int, int, int, int), ()> {
    let g = p.dependence_graphs@[gi];
    match (
        first_match(p.flow_graphs@, flow_key_is(g.flow_graph@)),
        first_match(p.region_graphs@, region_key_is(g.region_graph@)),
        first_match(p.non_structured_graphs@, non_structured_key_is(g.non_structured_graph@)),
        first_match(p.data_flow_graphs@, data_flow_key_is(g.data_flow_graph@)),
    ) {
        (Some(f), Some(r), Some(n), Some(d)) => Ok((f, r, n, d)),
        _ => Err(()),
    }
}

/// One node of an eligible dependence graph, given the statements already
/// claimed: the site it yields, if any, and the claimed statements after
/// it. A node yields nothing when it is reachable, has no source, or its
/// source is no inert literal statement; a statement claimed before yields
/// nothing again. Otherwise the node claims its statement, and yields a
/// site when its control point is exact syntax and its relation is
/// unreachable, undominated and free of residuals and non-structured facts.
/// `Err` when the tree, the control point or the relation is missing.
pub open spec fn node_step(
    p: RetainedProjection,
    gi: int,
    ni: int,
    l: (int, int, int, int),
    claimed: Set<NodeKeyView>,
) -> Result<(Option<UnreachableSite>, Set<NodeKeyView>), ()> {
    let n = p.dependence_graphs@[gi].nodes@[ni];
    let flow = p.flow_graphs@[l.0];
    let region = p.region_graphs@[l.1];
    let nsc = p.non_structured_graphs@[l.2];
    if n.reachable || n.source is None {
        Ok((None, claimed))
    } else {
        match inert_statement_of(p.syntax@, n.source->0@) {
            Err(_) => Err(()),
            Ok(None) => Ok((None, claimed)),
            Ok(Some(s)) => {
                let key = p.syntax@[s].key@;
                if claimed.contains(key) {
                    Ok((None, claimed))
                } else {
                    let now = claimed.insert(key);
                    match first_match(flow.points@, point_key_is(n.point@)) {
                        None => Err(()),
                        Some(pi) => {
                            let point = flow.points@[pi];
                            if point.kind != FlowPointKind::Syntax || point.recovered {
                                Ok((None, now))
                            } else {
                                match first_match(region.relations@, relation_key_is(n.region_point@)) {
                                    None => Err(()),
                                    Some(ri) => {
                                        let rel = region.relations@[ri];
                                        if rel.reachable || rel.dominated || region.has_residuals || nsc.has_facts {
                                            Ok((None, now))
                                        } else {
                                            Ok(
                                                (
                                                    Some(
                                                        UnreachableSite {
                                                            graph: gi as usize,
                                                            node: ni as usize,
                                                            statement: s as usize,
                                                            flow: l.0 as usize,
                                                            point: pi as usize,
                                                            region: l.1 as usize,
                                                            relation: ri as usize,
                                                            non_structured: l.2 as usize,
                                                            data_flow: l.3 as usize,
                                                        },
                                                    ),
                                                    now,
                                                ),
                                            )
                                        }
                                    },
                                }
                            }
                        },
                    }
                }
            },
        }
    }
}

pub open spec fn opt_seq(o: Option<UnreachableSite>) -> Seq<UnreachableSite> {
    match o {
        Some(x) => seq![x],
        None => Seq::empty(),
    }
}

/// The sites of the first `k` nodes of an eligible graph, and the claimed
/// statements after them.
pub open spec fn scan_nodes(
    p: RetainedProjection,
    gi: int,
    l: (int, int, int, int),
    claimed: Set<NodeKeyView>,
    k: nat,
) -> Result<(Seq<UnreachableSite>, Set<NodeKeyView>), ()>
    decreases k,
{
    if k == 0 {
        Ok((Seq::empty(), claimed))
    } else {
        match scan_nodes(p, gi, l, claimed, (k - 1) as nat) {
            Err(_) => Err(()),
            Ok((sites, c)) => match node_step(p, gi, k - 1, l, c) {
                Err(_) => Err(()),
                Ok((o, c2)) => Ok((sites + opt_seq(o), c2)),
            },
        }
    }
}

/// The sites of the first `j` dependence graphs, in order, and the claimed
/// statements after them. Ineligible graphs are passed over.
pub open spec fn scan_graphs(p: RetainedProjection, j: nat) -> Result<(Seq<UnreachableSite>, Set<NodeKeyView>), ()>
    decreases j,
{
    if j == 0 {
        Ok((Seq::empty(), Set::empty()))
    } else {
        match scan_graphs(p, (j - 1) as nat) {
            Err(_) => Err(()),
            Ok((sites, c)) => {
                let g = p.dependence_graphs@[j - 1];
                if !g.eligibility.eligible {
                    Ok((sites, c))
                } else {
                    match graph_lookups(p, j - 1) {
                        Err(_) => Err(()),
                        Ok(l) => match scan_nodes(p, j - 1, l, c, g.nodes@.len()) {
                            Err(_) => Err(()),
                            Ok((s2, c2)) => Ok((sites + s2, c2)),
                        },
                    }
                }
            },
        }
    }
}

/// The sites of a whole projection.
pub open spec fn unreachable_sites_of(p: RetainedProjection) -> Result<Seq<UnreachableSite>, ()> {
    match scan_graphs(p, p.dependence_graphs@.len()) {
        Err(_) => Err(()),
        Ok((sites, _)) => Ok(sites),
    }
}

/// The node keys a vector holds.
pub open spec fn key_set(v: Seq<NodeKey>) -> Set<NodeKeyView> {
    Set::new(|k: NodeKeyView| exists|i: int| 0 <= i < v.len() && (#[trigger] v[i])@ == k)
}

pub fn claimed_contains(v: &Vec<NodeKey>, key: &NodeKey) -> (r: bool)
    ensures
        r == key_set(v@).contains(key@),
{
    let n = v.len();
    let mut i: usize = 0;
    while i < n
        invariant
            n == v@.len(),
            i <= n,
            forall|j: int| 0 <= j < i ==> (#[trigger] v@[j])@ != key@,
        decreases n - i,
    {
        if v[i].same_node(key) {
            return true;
        }
        i = i + 1;
    }
    false
}

fn step_node(
    p: &RetainedProjection,
    gi: usize,
    ni: usize,
    l: (usize, usize, usize, usize),
    claimed: &mut Vec<NodeKey>,
) -> (r: Result<Option<UnreachableSite>, ()>)
    requires
        gi < p.dependence_graphs@.len(),
        ni < p.dependence_graphs@[gi as int].nodes@.len(),
        graph_lookups(*p, gi as int) == Ok::<(int, int, int, int), ()>((l.0 as int, l.1 as int, l.2 as int, l.3 as int)),
    ensures
        node_step(*p, gi as int, ni as int, (l.0 as int, l.1 as int, l.2 as int, l.3 as int), key_set(old(claimed)@))
            matches Ok((o, c)) ==> r == Ok::<Option<UnreachableSite>, ()>(o) && key_set(final(claimed)@) == c,
        node_step(*p, gi as int, ni as int, (l.0 as int, l.1 as int, l.2 as int, l.3 as int), key_set(old(claimed)@))
            is Err ==> r is Err,
{
    let ghost lk = (l.0 as int, l.1 as int, l.2 as int, l.3 as int);
    proof {
        let g = p.dependence_graphs@[gi as int];
        lemma_first_match_found(p.flow_graphs@, flow_key_is(g.flow_graph@));
        lemma_first_match_found(p.region_graphs@, region_key_is(g.region_graph@));
        lemma_first_match_found(p.non_structured_graphs@, non_structured_key_is(g.non_structured_graph@));
    }
    let node = &p.dependence_graphs[gi].nodes[ni];
    if node.reachable {
        return Ok(None);
    }
    let source = match &node.source {
        None => {
            return Ok(None);
        },
        Some(s) => s,
    };
    let statement = match inert_literal_statement(&p.syntax, source) {
        Err(()) => {
            return Err(());
        },
        Ok(None) => {
            return Ok(None);
        },
        Ok(Some(s)) => s,
    };
    proof {
        assert(inert_statement_of(p.syntax@, source@) == Ok::<Option<int>, ()>(Some(statement as int)));
        assert(statement < p.syntax@.len());
    }
    let key = &p.syntax[statement].key;
    if claimed_contains(claimed, key) {
        return Ok(None);
    }
    let ghost before = key_set(claimed@);
    claimed.push(key.duplicate());
    proof {
        let v = claimed@;
        assert forall|k: NodeKeyView| key_set(v).contains(k) <==> before.insert(key@).contains(k) by {
            if key_set(v).contains(k) {
                let i = choose|i: int| 0 <= i < v.len() && (#[trigger] v[i])@ == k;
                if i < v.len() - 1 {
                    assert(old(claimed)@[i] == v[i]);
                }
            }
            if before.contains(k) {
                let i = choose|i: int| 0 <= i < old(claimed)@.len() && (#[trigger] old(claimed)@[i])@ == k;
                assert(v[i] == old(claimed)@[i]);
            }
            if k == key@ {
                assert(v[v.len() - 1]@ == key@);
            }
        }
        assert(key_set(v) =~= before.insert(key@));
    }
    let flow = &p.flow_graphs[l.0];
    let pi = match find_point(&flow.points, node.point.as_str()) {
        None => {
            return Err(());
        },
        Some(pi) => pi,
    };
    proof {
        lemma_first_match_found(flow.points@, point_key_is(node.point@));
    }
    let point = &flow.points[pi];
    if point.kind != FlowPointKind::Syntax || point.recovered {
        return Ok(None);
    }
    let region = &p.region_graphs[l.1];
    let ri = match find_relation(&region.relations, node.region_point.as_str()) {
        None => {
            return Err(());
        },
        Some(ri) => ri,
    };
    proof {
        lemma_first_match_found(region.relations@, relation_key_is(node.region_point@));
    }
    let relation = &region.relations[ri];
    let nsc = &p.non_structured_graphs[l.2];
    if relation.reachable || relation.dominated || region.has_residuals || nsc.has_facts {
        return Ok(None);
    }
    Ok(
        Some(
            UnreachableSite {
                graph: gi,
                node: ni,
                statement,
                flow: l.0,
                point: pi,
                region: l.1,
                relation: ri,
                non_structured: l.2,
                data_flow: l.3,
            },
        ),
    )
}


proof fn lemma_scan_nodes_err_stays(
    p: RetainedProjection,
    gi: int,
    l: (int, int, int, int),
    claimed: Set<NodeKeyView>,
    k: nat,
    m: nat,
)
    requires
        k <= m,
        scan_nodes(p, gi, l, claimed, k) is Err,
    ensures
        scan_nodes(p, gi, l, claimed, m) is Err,
    decreases m - k,
{
    if k < m {
        lemma_scan_nodes_err_stays(p, gi, l, claimed, k, (m - 1) as nat);
    }
}

proof fn lemma_scan_graphs_err_stays(p: RetainedProjection, k: nat, m: nat)
    requires
        k <= m,
        scan_graphs(p, k) is Err,
    ensures
        scan_graphs(p, m) is Err,
    decreases m - k,
{
    if k < m {
        lemma_scan_graphs_err_stays(p, k, (m - 1) as nat);
    }
}

fn lookups(p: &RetainedProjection, gi: usize) -> (r: Option<(usize, usize, usize, usize)>)
    requires
        gi < p.dependence_graphs@.len(),
    ensures
        r matches Some(l) ==> graph_lookups(*p, gi as int) == Ok::<(int, int, int, int), ()>(
            (l.0 as int, l.1 as int, l.2 as int, l.3 as int),
        ),
        r is None ==> graph_lookups(*p, gi as int) is Err,
{
    let g = &p.dependence_graphs[gi];
    let f = find_flow(&p.flow_graphs, g.flow_graph.as_str());
    let r = find_region(&p.region_graphs, g.region_graph.as_str());
    let n = find_non_structured(&p.non_structured_graphs, g.non_structured_graph.as_str());
    let d = find_data_flow(&p.data_flow_graphs, g.data_flow_graph.as_str());
    match (f, r, n, d) {
        (Some(f), Some(r), Some(n), Some(d)) => Some((f, r, n, d)),
        _ => None,
    }
}

/// The sites of a projection where an unreachable inert literal statement
/// stands, in graph and node order, each statement once.
pub fn unreachable_sites(p: &RetainedProjection) -> (r: Result<Vec<UnreachableSite>, ()>)
    ensures
        r matches Ok(v) ==> unreachable_sites_of(*p) == Ok::<Seq<UnreachableSite>, ()>(v@),
        r is Err ==> unreachable_sites_of(*p) is Err,
{
    let mut sites: Vec<UnreachableSite> = Vec::new();
    let mut claimed: Vec<NodeKey> = Vec::new();
    let ng = p.dependence_graphs.len();
    let mut j: usize = 0;
    assert(key_set(claimed@) =~= Set::<NodeKeyView>::empty());
    while j < ng
        invariant
            ng == p.dependence_graphs@.len(),
            j <= ng,
            scan_graphs(*p, j as nat) == Ok::<(Seq<UnreachableSite>, Set<NodeKeyView>), ()>(
                (sites@, key_set(claimed@)),
            ),
        decreases ng - j,
    {
        let g = &p.dependence_graphs[j];
        if g.eligibility.eligible {
            let l = match lookups(p, j) {
                None => {
                    proof {
                        lemma_scan_graphs_err_stays(*p, (j + 1) as nat, ng as nat);
                    }
                    return Err(());
                },
                Some(l) => l,
            };
            let ghost lk = (l.0 as int, l.1 as int, l.2 as int, l.3 as int);
            let ghost start_sites = sites@;
            let ghost start_claimed = key_set(claimed@);
            let mut found: Vec<UnreachableSite> = Vec::new();
            let nn = g.nodes.len();
            let mut k: usize = 0;
            while k < nn
                invariant
                    ng == p.dependence_graphs@.len(),
                    j < ng,
                    nn == p.dependence_graphs@[j as int].nodes@.len(),
                    k <= nn,
                    graph_lookups(*p, j as int) == Ok::<(int, int, int, int), ()>(lk),
                    lk == (l.0 as int, l.1 as int, l.2 as int, l.3 as int),
                    p.dependence_graphs@[j as int].eligibility.eligible,
                    scan_graphs(*p, j as nat) == Ok::<(Seq<UnreachableSite>, Set<NodeKeyView>), ()>(
                        (start_sites, start_claimed),
                    ),
                    scan_nodes(*p, j as int, lk, start_claimed, k as nat) == Ok::<
                        (Seq<UnreachableSite>, Set<NodeKeyView>),
                        (),
                    >((found@, key_set(claimed@))),
                decreases nn - k,
            {
                match step_node(p, j, k, l, &mut claimed) {
                    Err(()) => {
                        proof {
                            lemma_scan_nodes_err_stays(*p, j as int, lk, start_claimed, (k + 1) as nat, nn as nat);
                            assert(scan_graphs(*p, (j + 1) as nat) is Err);
                            lemma_scan_graphs_err_stays(*p, (j + 1) as nat, ng as nat);
                        }
                        return Err(());
                    },
                    Ok(Some(site)) => {
                        found.push(site);
                        proof {
                            assert(found@ =~= scan_nodes(*p, j as int, lk, start_claimed, (k + 1) as nat)->Ok_0.0);
                        }
                    },
                    Ok(None) => {
                        proof {
                            assert(found@ =~= scan_nodes(*p, j as int, lk, start_claimed, (k + 1) as nat)->Ok_0.0);
                        }
                    },
                }
                k = k + 1;
            }
            let ghost before = sites@;
            let mut x: usize = 0;
            while x < found.len()
                invariant
                    sites@ == before + found@.subrange(0, x as int),
                    x <= found@.len(),
                decreases found@.len() - x,
            {
                sites.push(found[x]);
                assert(sites@ =~= before + found@.subrange(0, x + 1));
                x = x + 1;
            }
            assert(sites@ =~= before + found@);
        }
        j = j + 1;
    }
    Ok(sites)
}


/// The dependence graphs, as impact queries read them, of a projection's
/// program-dependence graphs: same keys, same node keys, same edges.
pub open spec fn dependence_views(deps: Seq<DependenceGraph>, pdgs: Seq<PdgGraph>) -> bool {
    &&& deps.len() == pdgs.len()
    &&& forall|i: int| 0 <= i < deps.len() ==> (#[trigger] deps[i]).key@ == pdgs[i].key@ && deps[i].edges@
        == pdgs[i].edges@ && deps[i].nodes@.len() == pdgs[i].nodes@.len() && forall|k: int|
        0 <= k < deps[i].nodes@.len() ==> (#[trigger] deps[i].nodes@[k])@ == pdgs[i].nodes@[k].key@
}

/// The dependence graphs of a projection as impact queries read them.
pub fn dependence_graphs_of(p: &RetainedProjection) -> (r: Vec<DependenceGraph>)
    ensures
        dependence_views(r@, p.dependence_graphs@),
{
    let n = p.dependence_graphs.len();
    let mut out: Vec<DependenceGraph> = Vec::new();
    let mut i: usize = 0;
    while i < n
        invariant
            n == p.dependence_graphs@.len(),
            i <= n,
            out@.len() == i,
            forall|x: int| 0 <= x < i ==> (#[trigger] out@[x]).key@ == p.dependence_graphs@[x].key@ && out@[x].edges@
                == p.dependence_graphs@[x].edges@ && out@[x].nodes@.len() == p.dependence_graphs@[x].nodes@.len()
                && forall|k: int| 0 <= k < out@[x].nodes@.len() ==> (#[trigger] out@[x].nodes@[k])@
                == p.dependence_graphs@[x].nodes@[k].key@,
        decreases n - i,
    {
        let g = &p.dependence_graphs[i];
        let mut nodes: Vec<String> = Vec::new();
        let nn = g.nodes.len();
        let mut k: usize = 0;
        while k < nn
            invariant
                nn == g.nodes@.len(),
                k <= nn,
                nodes@.len() == k,
                forall|y: int| 0 <= y < k ==> (#[trigger] nodes@[y])@ == g.nodes@[y].key@,
            decreases nn - k,
        {
            nodes.push(g.nodes[k].key.clone());
            k = k + 1;
        }
        let mut edges: Vec<DependenceEdge> = Vec::new();
        let ne = g.edges.len();
        let mut e: usize = 0;
        while e < ne
            invariant
                ne == g.edges@.len(),
                e <= ne,
                edges@ == g.edges@.subrange(0, e as int),
            decreases ne - e,
        {
            edges.push(
                    DependenceEdge {
                        key: g.edges[e].key.clone(),
                        from: g.edges[e].from.clone(),
                        to: g.edges[e].to.clone(),
                        flow: g.edges[e].flow,
                    },
                );
            assert(edges@ =~= g.edges@.subrange(0, e + 1));
            e = e + 1;
        }
        assert(edges@ =~= g.edges@);
        out.push(DependenceGraph { key: g.key.clone(), nodes, edges });
        i = i + 1;
    }
    out
}

/// Every position a site names lies in the projection.
pub open spec fn site_in_range(p: RetainedProjection, site: UnreachableSite) -> bool {
    &&& site.graph < p.dependence_graphs@.len()
    &&& site.node < p.dependence_graphs@[site.graph as int].nodes@.len()
    &&& site.statement < p.syntax@.len()
    &&& site.flow < p.flow_graphs@.len()
    &&& site.point < p.flow_graphs@[site.flow as int].points@.len()
    &&& site.region < p.region_graphs@.len()
    &&& site.relation < p.region_graphs@[site.region as int].relations@.len()
    &&& site.non_structured < p.non_structured_graphs@.len()
    &&& site.data_flow < p.data_flow_graphs@.len()
}

proof fn lemma_node_step_in_range(
    p: RetainedProjection,
    gi: int,
    ni: int,
    l: (int, int, int, int),
    claimed: Set<NodeKeyView>,
)
    requires
        0 <= gi < p.dependence_graphs@.len(),
        0 <= ni < p.dependence_graphs@[gi].nodes@.len(),
        graph_lookups(p, gi) == Ok::<(int, int, int, int), ()>(l),
        node_step(p, gi, ni, l, claimed) matches Ok((Some(_), _)),
    ensures
        site_in_range(p, node_step(p, gi, ni, l, claimed)->Ok_0.0->Some_0),
{
    let g = p.dependence_graphs@[gi];
    let n = g.nodes@[ni];
    lemma_first_match_found(p.flow_graphs@, flow_key_is(g.flow_graph@));
    lemma_first_match_found(p.region_graphs@, region_key_is(g.region_graph@));
    lemma_first_match_found(p.non_structured_graphs@, non_structured_key_is(g.non_structured_graph@));
    lemma_first_match_found(p.data_flow_graphs@, data_flow_key_is(g.data_flow_graph@));
    let flow = p.flow_graphs@[l.0];
    let region = p.region_graphs@[l.1];
    lemma_first_match_found(flow.points@, point_key_is(n.point@));
    lemma_first_match_found(region.relations@, relation_key_is(n.region_point@));
    vstd::std_specs::vec::axiom_spec_len(&p.dependence_graphs);
    vstd::std_specs::vec::axiom_spec_len(&g.nodes);
    vstd::std_specs::vec::axiom_spec_len(&p.syntax);
    vstd::std_specs::vec::axiom_spec_len(&p.flow_graphs);
    vstd::std_specs::vec::axiom_spec_len(&flow.points);
    vstd::std_specs::vec::axiom_spec_len(&p.region_graphs);
    vstd::std_specs::vec::axiom_spec_len(&region.relations);
    vstd::std_specs::vec::axiom_spec_len(&p.non_structured_graphs);
    vstd::std_specs::vec::axiom_spec_len(&p.data_flow_graphs);
    assert(!n.reachable && n.source is Some);
    let s = inert_statement_of(p.syntax@, n.source->0@);
    assert(s matches Ok(Some(_)));
    lemma_first_match_found(p.syntax@, syntax_key_is(n.source->0@));
    let x = s->Ok_0->Some_0;
    assert(x < p.syntax@.len());
    assert(p.syntax@.len() <= usize::MAX);
    assert(0 <= x <= usize::MAX);
    assert((x as usize) as int == x);
    let site = node_step(p, gi, ni, l, claimed)->Ok_0.0->Some_0;
    assert(site.statement == x as usize);
    assert(site.graph < p.dependence_graphs@.len());
    assert(site.node < p.dependence_graphs@[site.graph as int].nodes@.len());
    assert(site.statement < p.syntax@.len());
    assert(site.flow < p.flow_graphs@.len());
    assert(site.point < p.flow_graphs@[site.flow as int].points@.len());
    assert(site.region < p.region_graphs@.len());
    assert(site.relation < p.region_graphs@[site.region as int].relations@.len());
    assert(site.non_structured < p.non_structured_graphs@.len());
    assert(site.data_flow < p.data_flow_graphs@.len());
}

proof fn lemma_scan_nodes_in_range(
    p: RetainedProjection,
    gi: int,
    l: (int, int, int, int),
    claimed: Set<NodeKeyView>,
    k: nat,
)
    requires
        0 <= gi < p.dependence_graphs@.len(),
        k <= p.dependence_graphs@[gi].nodes@.len(),
        graph_lookups(p, gi) == Ok::<(int, int, int, int), ()>(l),
        scan_nodes(p, gi, l, claimed, k) is Ok,
    ensures
        forall|i: int| 0 <= i < scan_nodes(p, gi, l, claimed, k)->Ok_0.0.len() ==> site_in_range(
            p,
            #[trigger] scan_nodes(p, gi, l, claimed, k)->Ok_0.0[i],
        ),
    decreases k,
{
    if k > 0 {
        lemma_scan_nodes_in_range(p, gi, l, claimed, (k - 1) as nat);
        let prev = scan_nodes(p, gi, l, claimed, (k - 1) as nat)->Ok_0;
        let step = node_step(p, gi, k - 1, l, prev.1);
        if step matches Ok((Some(_), _)) {
            lemma_node_step_in_range(p, gi, k - 1, l, prev.1);
        }
        let all = scan_nodes(p, gi, l, claimed, k)->Ok_0.0;
        assert forall|i: int| 0 <= i < all.len() implies site_in_range(p, #[trigger] all[i]) by {
            if i < prev.0.len() {
                assert(all[i] == prev.0[i]);
            }
        }
    }
}

/// Every site of a projection names positions that lie in it.
pub proof fn lemma_sites_in_range(p: RetainedProjection, j: nat)
    requires
        j <= p.dependence_graphs@.len(),
        scan_graphs(p, j) is Ok,
    ensures
        forall|i: int| 0 <= i < scan_graphs(p, j)->Ok_0.0.len() ==> site_in_range(
            p,
            #[trigger] scan_graphs(p, j)->Ok_0.0[i],
        ),
    decreases j,
{
    if j > 0 {
        lemma_sites_in_range(p, (j - 1) as nat);
        let prev = scan_graphs(p, (j - 1) as nat)->Ok_0;
        let g = p.dependence_graphs@[j - 1];
        if g.eligibility.eligible {
            let l = graph_lookups(p, j - 1)->Ok_0;
            lemma_scan_nodes_in_range(p, j - 1, l, prev.1, g.nodes@.len());
            let more = scan_nodes(p, j - 1, l, prev.1, g.nodes@.len())->Ok_0.0;
            let all = scan_graphs(p, j)->Ok_0.0;
            assert forall|i: int| 0 <= i < all.len() implies site_in_range(p, #[trigger] all[i]) by {
                if i < prev.0.len() {
                    assert(all[i] == prev.0[i]);
                } else {
                    assert(all[i] == more[i - prev.0.len()]);
                }
            }
        }
    }
}

} // verus!
