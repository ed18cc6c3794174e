//! The guard-clause candidates of a retained projection: two-armed branches
//! of which one arm is a direct `return` and the other plain statements,
//! rewritten as an early exit followed by the flattened statements.

use vstd::prelude::*;
use crate::order::compare_str;
use crate::text::{trim_end, trimmed_end_ends_with};
use super::retained::{
    claimed_contains, data_flow_key_is, find_data_flow, find_flow, find_non_structured, find_syntax, first_match,
    flow_key_is, key_set, lemma_first_match_at, lemma_first_match_found, lemma_first_match_none,
    non_structured_key_is, syntax_key_is, FlowEdge, FlowEdgeKind, FlowGraph, FlowPoint, FlowPointKind, RegionGraph,
    RegionRelation, RetainedProjection, SyntaxNode,
};
use super::branch_detect::{
    block_body, block_body_of, capability_result, capability_result_exec, edges_from, entity, find_node_by_point,
    node_point_is, plain_result, DEF_USE, EFFECTS, FACTS_DETAIL, NO_FACTS_DETAIL,
};
use super::merge_detect::{two_plain, two_results};
use super::guard_clause::{
    guard_clause_inversion_recipe, GuardClauseRecipeError, FORBIDDEN_BINDING, FORBIDDEN_CONTROL, FORBIDDEN_EFFECT,
    FORBIDDEN_NON_STRUCTURED, REQUIRED_EXIT, REQUIRED_PREDICATE, REQUIRED_PST, REQUIRED_SCOPE,
};
use super::recipe_header;
use super::retained::{dependence_graphs_of, dependence_views};
use super::unreachable::{copy_layers, node_span, rows_fit, single_result};
use crate::target::{revision_guard_id, CandidateTarget, NodeKey, NodeKeyView, TransformationEdit};
use crate::candidate::{
    candidate_arrangement, candidate_fields_valid, keys_agree, steps_agree, CandidateDisposition, CandidateSource, GraphEligibilityDecision,
    TransformationCandidate, TransformationCandidateDraft,
};
use crate::contract::{ProofState, TransformationFamily};
use crate::evidence::{
    ConditionEvidence, ConditionEvidenceView, ConditionResult, ExpectedGraphChange, ExpectedGraphDelta,
    GraphChangeKind, GraphEntityRef, GraphEntityView, ImpactCone, ImpactDirection,
};
use crate::impact::{impact_found, pdg_entity, program_dependence_impact_cone, DependenceGraph};
use crate::json::{string_append, text_view};
use crate::model::{GraphEvidenceLayer, SafetyClass, Span};
use crate::order::{keys_sorted, sort_by_key};
use crate::recipe::TransformationRecipe;
use super::branch_detect::{
    else_block_exec, else_block_of, field_child, field_child_exec, lemma_field_child_in_tree, named_children_exec,
    named_children_of, plain_branch,
};
use super::merge_detect::{condition_binds, condition_binds_exec, plain_branch_exec};

verus! {

/// Which arm of a guard exits.
#[derive(Clone, Copy, Debug, PartialEq, Eq, Structural)]
pub enum GuardKind {
    ThenTerminates,
    ElseTerminates,
}

pub open spec fn guard_name(k: GuardKind) -> Seq<char> {
    match k {
        GuardKind::ThenTerminates => "then-guard"@,
        GuardKind::ElseTerminates => "inverted-else-guard"@,
    }
}

impl GuardKind {
    pub fn name(self) -> (r: &'static str)
        ensures
            r@ == guard_name(self),
    {
        match self {
            GuardKind::ThenTerminates => "then-guard",
            GuardKind::ElseTerminates => "inverted-else-guard",
        }
    }
}

/// A guard: its kind, the predicate, the arm that exits, the arm that
/// continues, and the `return` of the exiting arm, by position in the tree.
#[derive(Clone, Copy, Debug)]
pub struct GuardShape {
    pub kind: GuardKind,
    pub predicate: usize,
    pub guard_block: usize,
    pub continuation_block: usize,
    pub abrupt: usize,
}

/// An error-free `return` expression at position `n`.
pub open spec fn return_at(nodes: Seq<SyntaxNode>, n: int) -> Option<int> {
    if nodes[n].kind@ == "return_expression"@ && !nodes[n].has_error {
        Some(n)
    } else {
        None
    }
}

/// The direct `return` of a block: its one named child, or the one named
/// child of that child when it is an expression statement, if that is an
/// error-free `return` expression. `Err` when a child lies outside the
/// tree.
pub open spec fn direct_abrupt_of(nodes: Seq<SyntaxNode>, blk: int) -> Result<Option<int>, ()> {
    match named_children_of(nodes, blk) {
        Err(_) => Err(()),
        Ok(ch) => if ch.len() != 1 {
            Ok(None)
        } else if nodes[ch[0] as int].kind@ == "expression_statement"@ {
            match named_children_of(nodes, ch[0] as int) {
                Err(_) => Err(()),
                Ok(nested) => if nested.len() != 1 {
                    Ok(None)
                } else {
                    Ok(return_at(nodes, nested[0] as int))
                },
            }
        } else {
            Ok(return_at(nodes, ch[0] as int))
        },
    }
}

/// A statement of a continuation: error-free, its text ending in `;` once
/// trailing white space is dropped.
pub open spec fn plain_statement(n: SyntaxNode) -> bool {
    let t = trim_end(n.text@);
    !n.has_error && t.len() > 0 && t.last() == ';'
}

/// Whether a block holds one to eight named children, all plain
/// statements.
pub open spec fn statement_only_of(nodes: Seq<SyntaxNode>, blk: int) -> Result<bool, ()> {
    match named_children_of(nodes, blk) {
        Err(_) => Err(()),
        Ok(ch) => Ok(
            0 < ch.len() <= 8 && forall|k: int| 0 <= k < ch.len() ==> #[trigger] plain_statement(nodes[ch[k] as int]),
        ),
    }
}

pub open spec fn guard(kind: GuardKind, predicate: int, guard_block: int, continuation_block: int, abrupt: int) -> GuardShape {
    GuardShape {
        kind,
        predicate: predicate as usize,
        guard_block: guard_block as usize,
        continuation_block: continuation_block as usize,
        abrupt: abrupt as usize,
    }
}

/// The guard of the two blocks of a branch, once both are known to be
/// error-free: the arm whose block is a direct `return` exits, when the
/// other arm is plain statements and has no direct `return`.
pub open spec fn guard_of_arms(nodes: Seq<SyntaxNode>, predicate: int, t: int, e: int) -> Result<Option<GuardShape>, ()> {
    match direct_abrupt_of(nodes, t) {
        Err(_) => Err(()),
        Ok(ta) => match direct_abrupt_of(nodes, e) {
            Err(_) => Err(()),
            Ok(ea) => match (ta, ea) {
                (Some(a), None) => match statement_only_of(nodes, e) {
                    Err(_) => Err(()),
                    Ok(true) => Ok(Some(guard(GuardKind::ThenTerminates, predicate, t, e, a))),
                    Ok(false) => Ok(None),
                },
                (None, Some(a)) => match statement_only_of(nodes, t) {
                    Err(_) => Err(()),
                    Ok(true) => Ok(Some(guard(GuardKind::ElseTerminates, predicate, e, t, a))),
                    Ok(false) => Ok(None),
                },
                _ => Ok(None),
            },
        },
    }
}

/// The guard of the branch at position `b`, if it is one: a plain branch
/// that stands as an expression statement, whose condition binds nothing,
/// whose consequence is an error-free block and whose alternative has an
/// error-free block. `Err` when the tree lacks a node it refers to.
pub open spec fn guard_shape_of(nodes: Seq<SyntaxNode>, b: int) -> Result<Option<GuardShape>, ()> {
    if !plain_branch(nodes[b]) {
        Ok(None)
    } else {
        match nodes[b].parent {
            None => Ok(None),
            Some(pa) => if pa >= nodes.len() {
                Err(())
            } else if nodes[pa as int].kind@ != "expression_statement"@ {
                Ok(None)
            } else {
                match field_child(nodes, b, "condition"@) {
                    Err(_) => Err(()),
                    Ok(None) => Ok(None),
                    Ok(Some(pred)) => match condition_binds(nodes, pred) {
                        Err(_) => Err(()),
                        Ok(true) => Ok(None),
                        Ok(false) => match field_child(nodes, b, "consequence"@) {
                            Err(_) => Err(()),
                            Ok(None) => Ok(None),
                            Ok(Some(t)) => match field_child(nodes, b, "alternative"@) {
                                Err(_) => Err(()),
                                Ok(None) => Ok(None),
                                Ok(Some(alt)) => match else_block_of(nodes, alt) {
                                    Err(_) => Err(()),
                                    Ok(None) => Ok(None),
                                    Ok(Some(e)) => if nodes[t].kind@ != "block"@ || nodes[t].has_error
                                        || nodes[e].has_error {
                                        Ok(None)
                                    } else {
                                        guard_of_arms(nodes, pred, t, e)
                                    },
                                },
                            },
                        },
                    },
                }
            },
        }
    }
}

/// All positions of a guard lie in the tree.
pub open spec fn guard_in_tree(nodes: Seq<SyntaxNode>, g: GuardShape) -> bool {
    &&& g.predicate < nodes.len()
    &&& g.guard_block < nodes.len()
    &&& g.continuation_block < nodes.len()
    &&& g.abrupt < nodes.len()
}

fn return_at_exec(nodes: &Vec<SyntaxNode>, n: usize) -> (r: Option<usize>)
    requires
        n < nodes@.len(),
    ensures
        r matches Some(a) ==> return_at(nodes@, n as int) == Some(a as int),
        r is None ==> return_at(nodes@, n as int) is None,
{
    if compare_str(nodes[n].kind.as_str(), "return_expression") == 0 && !nodes[n].has_error {
        Some(n)
    } else {
        None
    }
}

fn direct_abrupt(nodes: &Vec<SyntaxNode>, blk: usize) -> (r: Result<Option<usize>, ()>)
    requires
        blk < nodes@.len(),
    ensures
        match r {
            Err(_) => direct_abrupt_of(nodes@, blk as int) is Err,
            Ok(None) => direct_abrupt_of(nodes@, blk as int) == Ok::<Option<int>, ()>(None),
            Ok(Some(a)) => direct_abrupt_of(nodes@, blk as int) == Ok::<Option<int>, ()>(Some(a as int)) && a
                < nodes@.len(),
        },
{
    let ch = named_children_exec(nodes, blk)?;
    if ch.len() != 1 {
        return Ok(None);
    }
    let c = ch[0];
    if compare_str(nodes[c].kind.as_str(), "expression_statement") == 0 {
        let nested = named_children_exec(nodes, c)?;
        if nested.len() != 1 {
            return Ok(None);
        }
        Ok(return_at_exec(nodes, nested[0]))
    } else {
        Ok(return_at_exec(nodes, c))
    }
}

fn statement_only(nodes: &Vec<SyntaxNode>, blk: usize) -> (r: Result<bool, ()>)
    requires
        blk < nodes@.len(),
    ensures
        match r {
            Err(_) => statement_only_of(nodes@, blk as int) is Err,
            Ok(b) => statement_only_of(nodes@, blk as int) == Ok::<bool, ()>(b),
        },
{
    let ch = named_children_exec(nodes, blk)?;
    if ch.len() == 0 || ch.len() > 8 {
        return Ok(false);
    }
    let mut k: usize = 0;
    while k < ch.len()
        invariant
            k <= ch@.len(),
            blk < nodes@.len(),
            named_children_of(nodes@, blk as int) == Ok::<Seq<usize>, ()>(ch@),
            forall|x: int| 0 <= x < ch@.len() ==> (#[trigger] ch@[x]) < nodes@.len(),
            forall|j: int| 0 <= j < k ==> #[trigger] plain_statement(nodes@[ch@[j] as int]),
        decreases ch@.len() - k,
    {
        let n = &nodes[ch[k]];
        if n.has_error || !trimmed_end_ends_with(n.text.as_str(), ';') {
            assert(!plain_statement(nodes@[ch@[k as int] as int]));
            return Ok(false);
        }
        k = k + 1;
    }
    Ok(true)
}

fn guard_of_arms_exec(nodes: &Vec<SyntaxNode>, predicate: usize, t: usize, e: usize) -> (r: Result<Option<GuardShape>, ()>)
    requires
        predicate < nodes@.len(),
        t < nodes@.len(),
        e < nodes@.len(),
    ensures
        match r {
            Err(_) => guard_of_arms(nodes@, predicate as int, t as int, e as int) is Err,
            Ok(g) => guard_of_arms(nodes@, predicate as int, t as int, e as int) == Ok::<Option<GuardShape>, ()>(g)
                && (g matches Some(s) ==> guard_in_tree(nodes@, s)),
        },
{
    let ta = direct_abrupt(nodes, t)?;
    let ea = direct_abrupt(nodes, e)?;
    match (ta, ea) {
        (Some(a), None) => {
            if statement_only(nodes, e)? {
                Ok(
                    Some(
                        GuardShape {
                            kind: GuardKind::ThenTerminates,
                            predicate,
                            guard_block: t,
                            continuation_block: e,
                            abrupt: a,
                        },
                    ),
                )
            } else {
                Ok(None)
            }
        },
        (None, Some(a)) => {
            if statement_only(nodes, t)? {
                Ok(
                    Some(
                        GuardShape {
                            kind: GuardKind::ElseTerminates,
                            predicate,
                            guard_block: e,
                            continuation_block: t,
                            abrupt: a,
                        },
                    ),
                )
            } else {
                Ok(None)
            }
        },
        _ => Ok(None),
    }
}

/// The guard of the branch at position `b`, as `guard_shape_of` gives it.
pub fn guard_shape(nodes: &Vec<SyntaxNode>, b: usize) -> (r: Result<Option<GuardShape>, ()>)
    requires
        b < nodes@.len(),
    ensures
        match r {
            Err(_) => guard_shape_of(nodes@, b as int) is Err,
            Ok(g) => guard_shape_of(nodes@, b as int) == Ok::<Option<GuardShape>, ()>(g) && (g matches Some(s)
                ==> guard_in_tree(nodes@, s)),
        },
{
    if !plain_branch_exec(&nodes[b]) {
        return Ok(None);
    }
    let pa = match nodes[b].parent {
        None => {
            return Ok(None);
        },
        Some(pa) => pa,
    };
    if pa >= nodes.len() {
        return Err(());
    }
    if compare_str(nodes[pa].kind.as_str(), "expression_statement") != 0 {
        return Ok(None);
    }
    let pred = match field_child_exec(nodes, b, "condition")? {
        None => {
            return Ok(None);
        },
        Some(c) => c,
    };
    proof {
        lemma_field_child_in_tree(nodes@, b as int, "condition"@);
    }
    if condition_binds_exec(nodes, pred)? {
        return Ok(None);
    }
    let t = match field_child_exec(nodes, b, "consequence")? {
        None => {
            return Ok(None);
        },
        Some(t) => t,
    };
    proof {
        lemma_field_child_in_tree(nodes@, b as int, "consequence"@);
    }
    let alt = match field_child_exec(nodes, b, "alternative")? {
        None => {
            return Ok(None);
        },
        Some(a) => a,
    };
    proof {
        lemma_field_child_in_tree(nodes@, b as int, "alternative"@);
    }
    let e = match else_block_exec(nodes, alt)? {
        None => {
            return Ok(None);
        },
        Some(e) => e,
    };
    if compare_str(nodes[t].kind.as_str(), "block") != 0 || nodes[t].has_error || nodes[e].has_error {
        return Ok(None);
    }
    guard_of_arms_exec(nodes, pred, t, e)
}

/// An exact edge with neither a recovered source nor a recovered predicate.
pub open spec fn exact_edge(e: FlowEdge) -> bool {
    e.exact && !e.recovered_source && !e.recovered_predicate
}

pub open spec fn all_exact(es: Seq<FlowEdge>) -> bool {
    forall|k: int| 0 <= k < es.len() ==> #[trigger] exact_edge(es[k])
}

pub open spec fn edge_kind_is(kind: FlowEdgeKind) -> spec_fn(FlowEdge) -> bool {
    |e: FlowEdge| e.kind == kind
}

/// The targets of the terminating and the continuing edge of a dispatch:
/// exactly two edges leave it, both exact, the first of kind `term` and
/// the first of kind `cont`.
pub open spec fn branch_pair_of(flow: FlowGraph, d: Seq<char>, term: FlowEdgeKind, cont: FlowEdgeKind) -> Option<
    (Seq<char>, Seq<char>),
> {
    let es = edges_from(flow.edges@, d);
    if es.len() != 2 || !all_exact(es) {
        None
    } else {
        match (first_match(es, edge_kind_is(term)), first_match(es, edge_kind_is(cont))) {
            (Some(t), Some(c)) => Some((es[t].to@, es[c].to@)),
            _ => None,
        }
    }
}

pub open spec fn exit_dispatch_is(key: Seq<char>) -> spec_fn(FlowPoint) -> bool {
    |q: FlowPoint| q.key@ == key && q.kind == FlowPointKind::ExitDispatch && !q.recovered
}

/// The exit dispatch the abrupt point `a` reaches: one exact `return` or
/// terminate edge leaves `a` into an unrecovered exit dispatch, which one
/// exact abrupt edge leaves into the exit.
pub open spec fn abrupt_exit_of(flow: FlowGraph, a: Seq<char>) -> Option<int> {
    let out = edges_from(flow.edges@, a);
    if out.len() != 1 || !exact_edge(out[0]) || !(out[0].kind == FlowEdgeKind::Return || out[0].kind
        == FlowEdgeKind::Terminate) {
        None
    } else {
        match first_match(flow.points@, exit_dispatch_is(out[0].to@)) {
            None => None,
            Some(x) => {
                let ex = edges_from(flow.edges@, flow.points@[x].key@);
                if ex.len() == 1 && ex[0].to@ == flow.exit@ && ex[0].kind == FlowEdgeKind::AbruptExit && exact_edge(
                    ex[0],
                ) {
                    Some(x)
                } else {
                    None
                }
            },
        }
    }
}

pub open spec fn successors(es: Seq<FlowEdge>) -> Seq<Seq<char>> {
    es.map_values(|e: FlowEdge| e.to@)
}

/// A breadth-first search for `target` from the points of `queue`, taking
/// at most `fuel` points from the queue: it succeeds on taking `target`,
/// passes over a point taken before, fails on a point that an inexact
/// edge leaves, and queues the targets of every other point's edges.
pub open spec fn search(edges: Seq<FlowEdge>, target: Seq<char>, queue: Seq<Seq<char>>, seen: Set<Seq<char>>, fuel: nat) -> bool
    decreases fuel,
{
    if fuel == 0 || queue.len() == 0 {
        false
    } else if queue[0] == target {
        true
    } else if seen.contains(queue[0]) {
        search(edges, target, queue.drop_first(), seen, (fuel - 1) as nat)
    } else {
        let out = edges_from(edges, queue[0]);
        if !all_exact(out) {
            false
        } else {
            search(edges, target, queue.drop_first() + successors(out), seen.insert(queue[0]), (fuel - 1) as nat)
        }
    }
}

/// Whether the search from `start` reaches `target` along exact edges.
/// The search takes at most one point more than the graph has edges.
pub open spec fn exact_path_reaches(flow: FlowGraph, start: Seq<char>, target: Seq<char>) -> bool {
    search(flow.edges@, target, seq![start], Set::empty(), (flow.edges@.len() + 1) as nat)
}

pub open spec fn source_point_is(kind: FlowPointKind, key: NodeKeyView) -> spec_fn(FlowPoint) -> bool {
    |q: FlowPoint| q.kind == kind && (q.source matches Some(s) && s@ == key) && !q.recovered
}

pub open spec fn relation_point_is(key: Seq<char>) -> spec_fn(RegionRelation) -> bool {
    |r: RegionRelation| r.point@ == key
}

pub open spec fn texts(v: Seq<String>) -> Seq<Seq<char>> {
    v.map_values(|s: String| s@)
}

pub open spec fn text_set(v: Seq<String>) -> Set<Seq<char>> {
    Set::new(|k: Seq<char>| exists|i: int| 0 <= i < v.len() && (#[trigger] v[i])@ == k)
}

/// The positions of the edges that leave a point, in order.
fn outgoing(edges: &Vec<FlowEdge>, key: &str) -> (r: Vec<usize>)
    ensures
        r@.len() == edges_from(edges@, key@).len(),
        forall|k: int| 0 <= k < r@.len() ==> (#[trigger] r@[k]) < edges@.len() && edges@[r@[k] as int]
            == edges_from(edges@, key@)[k],
{
    let n = edges.len();
    let mut out: Vec<usize> = Vec::new();
    let mut i: usize = 0;
    assert(edges@.subrange(0, 0) =~= Seq::<FlowEdge>::empty());
    while i < n
        invariant
            n == edges@.len(),
            i <= n,
            out@.len() == edges_from(edges@.subrange(0, i as int), key@).len(),
            forall|k: int| 0 <= k < out@.len() ==> (#[trigger] out@[k]) < i && edges@[out@[k] as int] == edges_from(
                edges@.subrange(0, i as int),
                key@,
            )[k],
        decreases n - i,
    {
        let ghost before = edges_from(edges@.subrange(0, i as int), key@);
        proof {
            let sub = edges@.subrange(0, i + 1);
            assert(sub.drop_last() =~= edges@.subrange(0, i as int));
            assert(sub.last() == edges@[i as int]);
        }
        if compare_str(edges[i].from.as_str(), key) == 0 {
            out.push(i);
            proof {
                let after = edges_from(edges@.subrange(0, i + 1), key@);
                assert(after == before.push(edges@[i as int]));
                assert forall|k: int| 0 <= k < out@.len() implies (#[trigger] out@[k]) < i + 1 && edges@[out@[k] as int]
                    == after[k] by {
                    if k < out@.len() - 1 {
                        assert(after[k] == before[k]);
                    }
                }
            }
        }
        i = i + 1;
    }
    assert(edges@.subrange(0, n as int) =~= edges@);
    out
}

fn first_of_kind(edges: &Vec<FlowEdge>, out: &Vec<usize>, kind: FlowEdgeKind) -> (r: Option<usize>)
    requires
        forall|k: int| 0 <= k < out@.len() ==> (#[trigger] out@[k]) < edges@.len(),
    ensures
        r is None ==> first_match(out@.map_values(|i: usize| edges@[i as int]), edge_kind_is(kind)) is None,
        r matches Some(k) ==> first_match(out@.map_values(|i: usize| edges@[i as int]), edge_kind_is(kind)) == Some(
            k as int,
        ) && k < out@.len(),
{
    let ghost es = out@.map_values(|i: usize| edges@[i as int]);
    let mut k: usize = 0;
    while k < out.len()
        invariant
            k <= out@.len(),
            es == out@.map_values(|i: usize| edges@[i as int]),
            forall|x: int| 0 <= x < out@.len() ==> (#[trigger] out@[x]) < edges@.len(),
            forall|j: int| 0 <= j < k ==> !edge_kind_is(kind)(#[trigger] es[j]),
        decreases out@.len() - k,
    {
        if edges[out[k]].kind == kind {
            proof {
                lemma_first_match_at(es, edge_kind_is(kind), k as int);
            }
            return Some(k);
        }
        k = k + 1;
    }
    proof {
        lemma_first_match_none(es, edge_kind_is(kind));
    }
    None
}

fn all_exact_at(edges: &Vec<FlowEdge>, out: &Vec<usize>) -> (r: bool)
    requires
        forall|k: int| 0 <= k < out@.len() ==> (#[trigger] out@[k]) < edges@.len(),
    ensures
        r == all_exact(out@.map_values(|i: usize| edges@[i as int])),
{
    let ghost es = out@.map_values(|i: usize| edges@[i as int]);
    let mut k: usize = 0;
    while k < out.len()
        invariant
            k <= out@.len(),
            es == out@.map_values(|i: usize| edges@[i as int]),
            forall|x: int| 0 <= x < out@.len() ==> (#[trigger] out@[x]) < edges@.len(),
            forall|j: int| 0 <= j < k ==> #[trigger] exact_edge(es[j]),
        decreases out@.len() - k,
    {
        let e = &edges[out[k]];
        if !(e.exact && !e.recovered_source && !e.recovered_predicate) {
            assert(!exact_edge(es[k as int]));
            return false;
        }
        k = k + 1;
    }
    true
}

/// The targets of a dispatch's terminating and continuing edges, as
/// `branch_pair_of` gives them.
fn branch_pair(flow: &FlowGraph, d: &str, term: FlowEdgeKind, cont: FlowEdgeKind) -> (r: Option<(String, String)>)
    ensures
        r is None ==> branch_pair_of(*flow, d@, term, cont) is None,
        r matches Some(x) ==> branch_pair_of(*flow, d@, term, cont) == Some((x.0@, x.1@)),
{
    let out = outgoing(&flow.edges, d);
    let ghost es = edges_from(flow.edges@, d@);
    assert(out@.map_values(|i: usize| flow.edges@[i as int]) =~= es);
    if out.len() != 2 || !all_exact_at(&flow.edges, &out) {
        return None;
    }
    let t = first_of_kind(&flow.edges, &out, term);
    let c = first_of_kind(&flow.edges, &out, cont);
    match (t, c) {
        (Some(t), Some(c)) => Some((flow.edges[out[t]].to.clone(), flow.edges[out[c]].to.clone())),
        _ => None,
    }
}

fn find_exit_dispatch(points: &Vec<FlowPoint>, key: &str) -> (r: Option<usize>)
    ensures
        r is None ==> first_match(points@, exit_dispatch_is(key@)) is None,
        r matches Some(i) ==> first_match(points@, exit_dispatch_is(key@)) == Some(i as int) && i < points@.len(),
{
    let n = points.len();
    let mut i: usize = 0;
    while i < n
        invariant
            n == points@.len(),
            i <= n,
            forall|j: int| 0 <= j < i ==> !exit_dispatch_is(key@)(#[trigger] points@[j]),
        decreases n - i,
    {
        let q = &points[i];
        if compare_str(q.key.as_str(), key) == 0 && q.kind == FlowPointKind::ExitDispatch && !q.recovered {
            proof {
                lemma_first_match_at(points@, exit_dispatch_is(key@), i as int);
            }
            return Some(i);
        }
        i = i + 1;
    }
    proof {
        lemma_first_match_none(points@, exit_dispatch_is(key@));
    }
    None
}

/// The exit dispatch an abrupt point reaches, as `abrupt_exit_of` gives it.
fn abrupt_exit(flow: &FlowGraph, a: &str) -> (r: Option<usize>)
    ensures
        r is None ==> abrupt_exit_of(*flow, a@) is None,
        r matches Some(x) ==> abrupt_exit_of(*flow, a@) == Some(x as int) && x < flow.points@.len(),
{
    let out = outgoing(&flow.edges, a);
    if out.len() != 1 {
        return None;
    }
    let e = &flow.edges[out[0]];
    if !(e.exact && !e.recovered_source && !e.recovered_predicate) || !(e.kind == FlowEdgeKind::Return || e.kind
        == FlowEdgeKind::Terminate) {
        return None;
    }
    let x = match find_exit_dispatch(&flow.points, e.to.as_str()) {
        None => {
            return None;
        },
        Some(x) => x,
    };
    let ex = outgoing(&flow.edges, flow.points[x].key.as_str());
    if ex.len() != 1 {
        return None;
    }
    let f = &flow.edges[ex[0]];
    if compare_str(f.to.as_str(), flow.exit.as_str()) == 0 && f.kind == FlowEdgeKind::AbruptExit && f.exact
        && !f.recovered_source && !f.recovered_predicate {
        Some(x)
    } else {
        None
    }
}

fn seen_contains(v: &Vec<String>, key: &str) -> (r: bool)
    ensures
        r == text_set(v@).contains(key@),
{
    let n = v.len();
    let mut i: usize = 0;
    while i < n
        invariant
            n == v@.len(),
            i <= n,
            forall|j: int| 0 <= j < i ==> (#[trigger] v@[j])@ != key@,
        decreases n - i,
    {
        if compare_str(v[i].as_str(), key) == 0 {
            return true;
        }
        i = i + 1;
    }
    false
}

/// Whether the search from `start` reaches `target`, as
/// `exact_path_reaches` gives it.
fn path_reaches(flow: &FlowGraph, start: &str, target: &str) -> (r: bool)
    ensures
        r == exact_path_reaches(*flow, start@, target@),
{
    let edges = &flow.edges;
    let mut queue: Vec<String> = Vec::new();
    queue.push(start.to_owned());
    let mut head: usize = 0;
    let mut seen: Vec<String> = Vec::new();
    let mut fuel: u128 = edges.len() as u128 + 1;
    assert(texts(queue@).skip(0) =~= seq![start@]);
    assert(text_set(seen@) =~= Set::<Seq<char>>::empty());
    while fuel > 0 && head < queue.len()
        invariant
            head <= queue@.len(),
            *edges == flow.edges,
            exact_path_reaches(*flow, start@, target@) == search(
                edges@,
                target@,
                texts(queue@).skip(head as int),
                text_set(seen@),
                fuel as nat,
            ),
        decreases fuel,
    {
        let ghost q0 = texts(queue@).skip(head as int);
        let q = queue[head].clone();
        assert(q0[0] == q@);
        if compare_str(q.as_str(), target) == 0 {
            return true;
        }
        head = head + 1;
        fuel = fuel - 1;
        assert(texts(queue@).skip(head as int) =~= q0.drop_first());
        if seen_contains(&seen, q.as_str()) {
            continue;
        }
        let out = outgoing(edges, q.as_str());
        assert(out@.map_values(|i: usize| edges@[i as int]) =~= edges_from(edges@, q@));
        if !all_exact_at(edges, &out) {
            return false;
        }
        let ghost base = queue@;
        let mut k: usize = 0;
        while k < out.len()
            invariant
                k <= out@.len(),
                head <= base.len(),
                *edges == flow.edges,
                forall|x: int| 0 <= x < out@.len() ==> (#[trigger] out@[x]) < edges@.len(),
                out@.len() == edges_from(edges@, q@).len(),
                forall|x: int| 0 <= x < out@.len() ==> edges@[(#[trigger] out@[x]) as int] == edges_from(edges@, q@)[x],
                texts(queue@) == texts(base) + successors(edges_from(edges@, q@)).take(k as int),
            decreases out@.len() - k,
        {
            let ghost prev = queue@;
            let t = edges[out[k]].to.clone();
            queue.push(t);
            proof {
                assert(texts(queue@) =~= texts(prev).push(t@));
                assert(successors(edges_from(edges@, q@)).take(k + 1) =~= successors(edges_from(edges@, q@)).take(
                    k as int,
                ).push(edges@[out@[k as int] as int].to@));
                assert(texts(queue@) =~= texts(base) + successors(edges_from(edges@, q@)).take(k + 1));
            }
            k = k + 1;
        }
        let ghost old_vec = seen@;
        let ghost old_seen = text_set(seen@);
        seen.push(q);
        proof {
            assert(successors(edges_from(edges@, q@)).take(out@.len() as int) =~= successors(edges_from(edges@, q@)));
            assert(texts(queue@).skip(head as int) =~= q0.drop_first() + successors(edges_from(edges@, q@)));
            assert(text_set(seen@) =~= old_seen.insert(q@)) by {
                assert forall|t: Seq<char>| text_set(seen@).contains(t) implies old_seen.insert(q@).contains(t) by {
                    let i = choose|i: int| 0 <= i < seen@.len() && (#[trigger] seen@[i])@ == t;
                    if i < seen@.len() - 1 {
                        assert(seen@[i] == old_vec[i]);
                    }
                }
                assert forall|t: Seq<char>| old_seen.insert(q@).contains(t) implies text_set(seen@).contains(t) by {
                    if t == q@ {
                        assert(seen@[seen@.len() - 1]@ == t);
                    } else {
                        let i = choose|i: int| 0 <= i < old_vec.len() && (#[trigger] old_vec[i])@ == t;
                        assert(seen@[i] == old_vec[i]);
                    }
                }
            }
        }
    }
    false
}

/// The kind of a guard's exiting branch edge.
pub open spec fn terminating_kind(k: GuardKind) -> FlowEdgeKind {
    match k {
        GuardKind::ThenTerminates => FlowEdgeKind::BranchTrue,
        GuardKind::ElseTerminates => FlowEdgeKind::BranchFalse,
    }
}

/// The kind of a guard's continuing branch edge.
pub open spec fn continuing_kind(k: GuardKind) -> FlowEdgeKind {
    match k {
        GuardKind::ThenTerminates => FlowEdgeKind::BranchFalse,
        GuardKind::ElseTerminates => FlowEdgeKind::BranchTrue,
    }
}

/// A region fact that keeps a continuation boundary: its point is
/// reachable, reaches the exit, and has the exit among its
/// post-dominators.
pub open spec fn fact_ok(r: RegionRelation) -> bool {
    r.reachable && r.exit_reachable && r.exit_post_dominates
}

/// The region facts of the dispatch, merge, abrupt and exit-dispatch
/// points, each the first fact of its point, when all four exist and keep
/// the boundary.
pub open spec fn pst_facts_of(region: RegionGraph, d: Seq<char>, m: Seq<char>, a: Seq<char>, x: Seq<char>) -> Option<
    (int, int, int, int),
> {
    let rs = region.relations@;
    match (
        first_match(rs, relation_point_is(d)),
        first_match(rs, relation_point_is(m)),
        first_match(rs, relation_point_is(a)),
        first_match(rs, relation_point_is(x)),
    ) {
        (Some(fd), Some(fm), Some(fa), Some(fx)) => if fact_ok(rs[fd]) && fact_ok(rs[fm]) && fact_ok(rs[fa]) && fact_ok(
            rs[fx],
        ) {
            Some((fd, fm, fa, fx))
        } else {
            None
        },
        _ => None,
    }
}

/// A guard the recipe reads: the dependence graph and the positions of
/// the graphs it derives from, the dispatch point, the branch and its
/// guard, the merge, abrupt and exit-dispatch points, the region facts of
/// those four points, and the dependence node at the dispatch.
#[derive(Clone, Copy, Debug)]
pub struct GuardSite {
    pub graph: usize,
    pub flow: usize,
    pub region: usize,
    pub data_flow: usize,
    pub non_structured: usize,
    pub point: usize,
    pub branch: usize,
    pub shape: GuardShape,
    pub merge: usize,
    pub abrupt: usize,
    pub exit_dispatch: usize,
    pub dispatch_fact: usize,
    pub merge_fact: usize,
    pub abrupt_fact: usize,
    pub exit_fact: usize,
    pub node: usize,
}

pub open spec fn region_flow_is(key: Seq<char>) -> spec_fn(RegionGraph) -> bool {
    |g: RegionGraph| g.flow_graph@ == key
}

/// The control-flow graph of a dependence graph, the region graph of that
/// flow graph, and the data-flow and non-structured-control graphs of the
/// dependence graph; `Err` when one is missing.
pub open spec fn guard_lookups(p: RetainedProjection, gi: int) -> Result<(int, int, int, int), ()> {
    let g = p.dependence_graphs@[gi];
    match first_match(p.flow_graphs@, flow_key_is(g.flow_graph@)) {
        None => Err(()),
        Some(f) => match (
            first_match(p.region_graphs@, region_flow_is(p.flow_graphs@[f].key@)),
            first_match(p.data_flow_graphs@, data_flow_key_is(g.data_flow_graph@)),
            first_match(p.non_structured_graphs@, non_structured_key_is(g.non_structured_graph@)),
        ) {
            (Some(r), Some(d), Some(n)) => Ok((f, r, d, n)),
            _ => Err(()),
        },
    }
}

/// The site of a guard at dispatch point `pi`, once its branch `b` has the
/// guard `sh`: the dispatch has an unrecovered merge of the same source;
/// the guard's `return` has an unrecovered syntax point; exactly two exact
/// edges leave the dispatch, the terminating one into the `return`'s
/// point, the continuing one into a point from which the search reaches
/// the merge; the `return` reaches an exit dispatch; the region facts of
/// the four points keep the boundary; and the dispatch has a dependence
/// node.
pub open spec fn guard_site_at(
    p: RetainedProjection,
    gi: int,
    pi: int,
    l: (int, int, int, int),
    b: int,
    sh: GuardShape,
) -> Option<GuardSite> {
    let g = p.dependence_graphs@[gi];
    let flow = p.flow_graphs@[l.0];
    let point = flow.points@[pi];
    let src = point.source->0@;
    match first_match(flow.points@, source_point_is(FlowPointKind::Merge, src)) {
        None => None,
        Some(m) => match first_match(flow.points@, source_point_is(FlowPointKind::Syntax, p.syntax@[sh.abrupt as int].key@)) {
            None => None,
            Some(a) => match branch_pair_of(flow, point.key@, terminating_kind(sh.kind), continuing_kind(sh.kind)) {
                None => None,
                Some(pair) => if pair.0 != flow.points@[a].key@ || !exact_path_reaches(flow, pair.1, flow.points@[m].key@) {
                    None
                } else {
                    match abrupt_exit_of(flow, flow.points@[a].key@) {
                        None => None,
                        Some(x) => match pst_facts_of(
                            p.region_graphs@[l.1],
                            point.key@,
                            flow.points@[m].key@,
                            flow.points@[a].key@,
                            flow.points@[x].key@,
                        ) {
                            None => None,
                            Some(fs) => match first_match(g.nodes@, node_point_is(point.key@)) {
                                None => None,
                                Some(ni) => Some(
                                    GuardSite {
                                        graph: gi as usize,
                                        flow: l.0 as usize,
                                        region: l.1 as usize,
                                        data_flow: l.2 as usize,
                                        non_structured: l.3 as usize,
                                        point: pi as usize,
                                        branch: b as usize,
                                        shape: sh,
                                        merge: m as usize,
                                        abrupt: a as usize,
                                        exit_dispatch: x as usize,
                                        dispatch_fact: fs.0 as usize,
                                        merge_fact: fs.1 as usize,
                                        abrupt_fact: fs.2 as usize,
                                        exit_fact: fs.3 as usize,
                                        node: ni as usize,
                                    },
                                ),
                            },
                        },
                    }
                },
            },
        },
    }
}

/// One control point of a dependence graph's flow graph, given the
/// branch sources already claimed: the site it yields, if any, and the
/// claimed sources after it. An unrecovered dispatch with a source claims
/// that source, unless claimed before, in which case it yields nothing;
/// its branch yields a site when it is a guard and `guard_site_at` finds
/// one. `Err` when the tree lacks the source's node or a node the branch
/// refers to.
pub open spec fn guard_step(
    p: RetainedProjection,
    gi: int,
    pi: int,
    l: (int, int, int, int),
    claimed: Set<NodeKeyView>,
) -> Result<(Option<GuardSite>, Set<NodeKeyView>), ()> {
    let point = p.flow_graphs@[l.0].points@[pi];
    if point.kind != FlowPointKind::BranchDispatch || point.recovered || point.source is None {
        Ok((None, claimed))
    } else {
        let src = point.source->0@;
        if claimed.contains(src) {
            Ok((None, claimed))
        } else {
            let now = claimed.insert(src);
            match first_match(p.syntax@, syntax_key_is(src)) {
                None => Err(()),
                Some(b) => match guard_shape_of(p.syntax@, b) {
                    Err(_) => Err(()),
                    Ok(None) => Ok((None, now)),
                    Ok(Some(sh)) => Ok((guard_site_at(p, gi, pi, l, b, sh), now)),
                },
            }
        }
    }
}

pub open spec fn opt_guard(o: Option<GuardSite>) -> Seq<GuardSite> {
    match o {
        Some(x) => seq![x],
        None => Seq::empty(),
    }
}

/// The sites of the first `k` points of a dependence graph's flow graph.
pub open spec fn scan_guards(
    p: RetainedProjection,
    gi: int,
    l: (int, int, int, int),
    claimed: Set<NodeKeyView>,
    k: nat,
) -> Result<(Seq<GuardSite>, Set<NodeKeyView>), ()>
    decreases k,
{
    if k == 0 {
        Ok((Seq::empty(), claimed))
    } else {
        match scan_guards(p, gi, l, claimed, (k - 1) as nat) {
            Err(_) => Err(()),
            Ok((sites, c)) => match guard_step(p, gi, k - 1, l, c) {
                Err(_) => Err(()),
                Ok((o, c2)) => Ok((sites + opt_guard(o), c2)),
            },
        }
    }
}

/// The sites of the first `j` dependence graphs, in order.
pub open spec fn scan_guard_graphs(p: RetainedProjection, j: nat) -> Result<(Seq<GuardSite>, Set<NodeKeyView>), ()>
    decreases j,
{
    if j == 0 {
        Ok((Seq::empty(), Set::empty()))
    } else {
        match scan_guard_graphs(p, (j - 1) as nat) {
            Err(_) => Err(()),
            Ok((sites, c)) => match guard_lookups(p, j - 1) {
                Err(_) => Err(()),
                Ok(l) => match scan_guards(p, j - 1, l, c, p.flow_graphs@[l.0].points@.len()) {
                    Err(_) => Err(()),
                    Ok((s2, c2)) => Ok((sites + s2, c2)),
                },
            },
        }
    }
}

/// The guard sites of a whole projection.
pub open spec fn guard_sites_of(p: RetainedProjection) -> Result<Seq<GuardSite>, ()> {
    match scan_guard_graphs(p, p.dependence_graphs@.len()) {
        Err(_) => Err(()),
        Ok((sites, _)) => Ok(sites),
    }
}

pub proof fn lemma_guard_lookups_in_range(p: RetainedProjection, gi: int)
    requires
        0 <= gi < p.dependence_graphs@.len(),
        guard_lookups(p, gi) is Ok,
    ensures
        0 <= guard_lookups(p, gi)->Ok_0.0 < p.flow_graphs@.len(),
        0 <= guard_lookups(p, gi)->Ok_0.1 < p.region_graphs@.len(),
        0 <= guard_lookups(p, gi)->Ok_0.2 < p.data_flow_graphs@.len(),
        0 <= guard_lookups(p, gi)->Ok_0.3 < p.non_structured_graphs@.len(),
{
    let g = p.dependence_graphs@[gi];
    lemma_first_match_found(p.flow_graphs@, flow_key_is(g.flow_graph@));
    let f = first_match(p.flow_graphs@, flow_key_is(g.flow_graph@))->Some_0;
    lemma_first_match_found(p.region_graphs@, region_flow_is(p.flow_graphs@[f].key@));
    lemma_first_match_found(p.data_flow_graphs@, data_flow_key_is(g.data_flow_graph@));
    lemma_first_match_found(p.non_structured_graphs@, non_structured_key_is(g.non_structured_graph@));
}

fn find_region_for_flow(graphs: &Vec<RegionGraph>, key: &str) -> (r: Option<usize>)
    ensures
        r is None ==> first_match(graphs@, region_flow_is(key@)) is None,
        r matches Some(i) ==> first_match(graphs@, region_flow_is(key@)) == Some(i as int),
{
    let n = graphs.len();
    let mut i: usize = 0;
    while i < n
        invariant
            n == graphs@.len(),
            i <= n,
            forall|j: int| 0 <= j < i ==> !region_flow_is(key@)(#[trigger] graphs@[j]),
        decreases n - i,
    {
        if compare_str(graphs[i].flow_graph.as_str(), key) == 0 {
            proof {
                lemma_first_match_at(graphs@, region_flow_is(key@), i as int);
            }
            return Some(i);
        }
        i = i + 1;
    }
    proof {
        lemma_first_match_none(graphs@, region_flow_is(key@));
    }
    None
}

pub fn guard_lookups_exec(p: &RetainedProjection, gi: usize) -> (r: Option<(usize, usize, usize, usize)>)
    requires
        gi < p.dependence_graphs@.len(),
    ensures
        r matches Some(l) ==> guard_lookups(*p, gi as int) == Ok::<(int, int, int, int), ()>(
            (l.0 as int, l.1 as int, l.2 as int, l.3 as int),
        ),
        r is None ==> guard_lookups(*p, gi as int) is Err,
{
    let g = &p.dependence_graphs[gi];
    let f = match find_flow(&p.flow_graphs, g.flow_graph.as_str()) {
        None => {
            return None;
        },
        Some(f) => f,
    };
    proof {
        lemma_first_match_found(p.flow_graphs@, flow_key_is(g.flow_graph@));
    }
    let r = find_region_for_flow(&p.region_graphs, p.flow_graphs[f].key.as_str());
    let d = find_data_flow(&p.data_flow_graphs, g.data_flow_graph.as_str());
    let n = find_non_structured(&p.non_structured_graphs, g.non_structured_graph.as_str());
    match (r, d, n) {
        (Some(r), Some(d), Some(n)) => Some((f, r, d, n)),
        _ => None,
    }
}

fn find_source_point(points: &Vec<FlowPoint>, kind: FlowPointKind, key: &NodeKey) -> (r: Option<usize>)
    ensures
        r is None ==> first_match(points@, source_point_is(kind, key@)) is None,
        r matches Some(i) ==> first_match(points@, source_point_is(kind, key@)) == Some(i as int) && i
            < points@.len(),
{
    let n = points.len();
    let mut i: usize = 0;
    while i < n
        invariant
            n == points@.len(),
            i <= n,
            forall|j: int| 0 <= j < i ==> !source_point_is(kind, key@)(#[trigger] points@[j]),
        decreases n - i,
    {
        let q = &points[i];
        let hit = q.kind == kind && !q.recovered && match &q.source {
            Some(s) => s.same_node(key),
            None => false,
        };
        if hit {
            proof {
                lemma_first_match_at(points@, source_point_is(kind, key@), i as int);
            }
            return Some(i);
        }
        i = i + 1;
    }
    proof {
        lemma_first_match_none(points@, source_point_is(kind, key@));
    }
    None
}

pub fn find_relation_by_point(relations: &Vec<RegionRelation>, key: &str) -> (r: Option<usize>)
    ensures
        r is None ==> first_match(relations@, relation_point_is(key@)) is None,
        r matches Some(i) ==> first_match(relations@, relation_point_is(key@)) == Some(i as int) && i
            < relations@.len(),
{
    let n = relations.len();
    let mut i: usize = 0;
    while i < n
        invariant
            n == relations@.len(),
            i <= n,
            forall|j: int| 0 <= j < i ==> !relation_point_is(key@)(#[trigger] relations@[j]),
        decreases n - i,
    {
        if compare_str(relations[i].point.as_str(), key) == 0 {
            proof {
                lemma_first_match_at(relations@, relation_point_is(key@), i as int);
            }
            return Some(i);
        }
        i = i + 1;
    }
    proof {
        lemma_first_match_none(relations@, relation_point_is(key@));
    }
    None
}

fn fact_ok_exec(r: &RegionRelation) -> (b: bool)
    ensures
        b == fact_ok(*r),
{
    r.reachable && r.exit_reachable && r.exit_post_dominates
}

fn pst_facts(region: &RegionGraph, d: &str, m: &str, a: &str, x: &str) -> (r: Option<(usize, usize, usize, usize)>)
    ensures
        r is None ==> pst_facts_of(*region, d@, m@, a@, x@) is None,
        r matches Some(fs) ==> pst_facts_of(*region, d@, m@, a@, x@) == Some(
            (fs.0 as int, fs.1 as int, fs.2 as int, fs.3 as int),
        ) && fs.0 < region.relations@.len() && fs.1 < region.relations@.len() && fs.2 < region.relations@.len()
            && fs.3 < region.relations@.len(),
{
    let rs = &region.relations;
    match (
        find_relation_by_point(rs, d),
        find_relation_by_point(rs, m),
        find_relation_by_point(rs, a),
        find_relation_by_point(rs, x),
    ) {
        (Some(fd), Some(fm), Some(fa), Some(fx)) => {
            if fact_ok_exec(&rs[fd]) && fact_ok_exec(&rs[fm]) && fact_ok_exec(&rs[fa]) && fact_ok_exec(&rs[fx]) {
                Some((fd, fm, fa, fx))
            } else {
                None
            }
        },
        _ => None,
    }
}

fn terminating_kind_exec(k: GuardKind) -> (r: FlowEdgeKind)
    ensures
        r == terminating_kind(k),
{
    match k {
        GuardKind::ThenTerminates => FlowEdgeKind::BranchTrue,
        GuardKind::ElseTerminates => FlowEdgeKind::BranchFalse,
    }
}

fn continuing_kind_exec(k: GuardKind) -> (r: FlowEdgeKind)
    ensures
        r == continuing_kind(k),
{
    match k {
        GuardKind::ThenTerminates => FlowEdgeKind::BranchFalse,
        GuardKind::ElseTerminates => FlowEdgeKind::BranchTrue,
    }
}

/// The site `guard_site_at` finds.
fn site_at(p: &RetainedProjection, gi: usize, pi: usize, l: (usize, usize, usize, usize), b: usize, sh: GuardShape) -> (r: Option<
    GuardSite,
>)
    requires
        gi < p.dependence_graphs@.len(),
        l.0 < p.flow_graphs@.len(),
        l.1 < p.region_graphs@.len(),
        pi < p.flow_graphs@[l.0 as int].points@.len(),
        p.flow_graphs@[l.0 as int].points@[pi as int].source is Some,
        guard_in_tree(p.syntax@, sh),
    ensures
        r == guard_site_at(*p, gi as int, pi as int, (l.0 as int, l.1 as int, l.2 as int, l.3 as int), b as int, sh),
{
    let g = &p.dependence_graphs[gi];
    let flow = &p.flow_graphs[l.0];
    let point = &flow.points[pi];
    let src = match &point.source {
        Some(s) => s,
        None => {
            return None;
        },
    };
    let m = match find_source_point(&flow.points, FlowPointKind::Merge, src) {
        None => {
            return None;
        },
        Some(m) => m,
    };
    let a = match find_source_point(&flow.points, FlowPointKind::Syntax, &p.syntax[sh.abrupt].key) {
        None => {
            return None;
        },
        Some(a) => a,
    };
    let pair = match branch_pair(flow, point.key.as_str(), terminating_kind_exec(sh.kind), continuing_kind_exec(sh.kind)) {
        None => {
            return None;
        },
        Some(pair) => pair,
    };
    if compare_str(pair.0.as_str(), flow.points[a].key.as_str()) != 0 || !path_reaches(
        flow,
        pair.1.as_str(),
        flow.points[m].key.as_str(),
    ) {
        return None;
    }
    let x = match abrupt_exit(flow, flow.points[a].key.as_str()) {
        None => {
            return None;
        },
        Some(x) => x,
    };
    let fs = match pst_facts(
        &p.region_graphs[l.1],
        point.key.as_str(),
        flow.points[m].key.as_str(),
        flow.points[a].key.as_str(),
        flow.points[x].key.as_str(),
    ) {
        None => {
            return None;
        },
        Some(fs) => fs,
    };
    match find_node_by_point(&g.nodes, point.key.as_str()) {
        None => None,
        Some(ni) => Some(
            GuardSite {
                graph: gi,
                flow: l.0,
                region: l.1,
                data_flow: l.2,
                non_structured: l.3,
                point: pi,
                branch: b,
                shape: sh,
                merge: m,
                abrupt: a,
                exit_dispatch: x,
                dispatch_fact: fs.0,
                merge_fact: fs.1,
                abrupt_fact: fs.2,
                exit_fact: fs.3,
                node: ni,
            },
        ),
    }
}

fn step_guard(
    p: &RetainedProjection,
    gi: usize,
    pi: usize,
    l: (usize, usize, usize, usize),
    claimed: &mut Vec<NodeKey>,
) -> (r: Result<Option<GuardSite>, ()>)
    requires
        gi < p.dependence_graphs@.len(),
        guard_lookups(*p, gi as int) == Ok::<(int, int, int, int), ()>((l.0 as int, l.1 as int, l.2 as int, l.3 as int)),
        pi < p.flow_graphs@[l.0 as int].points@.len(),
    ensures
        guard_step(*p, gi as int, pi as int, (l.0 as int, l.1 as int, l.2 as int, l.3 as int), key_set(old(claimed)@))
            matches Ok((o, c)) ==> r == Ok::<Option<GuardSite>, ()>(o) && key_set(final(claimed)@) == c,
        guard_step(*p, gi as int, pi as int, (l.0 as int, l.1 as int, l.2 as int, l.3 as int), key_set(old(claimed)@))
            is Err ==> r is Err,
{
    proof {
        lemma_guard_lookups_in_range(*p, gi as int);
    }
    let flow = &p.flow_graphs[l.0];
    let point = &flow.points[pi];
    if point.kind != FlowPointKind::BranchDispatch || point.recovered {
        return Ok(None);
    }
    let source = match &point.source {
        None => {
            return Ok(None);
        },
        Some(s) => s,
    };
    if claimed_contains(claimed, source) {
        return Ok(None);
    }
    let ghost before = key_set(claimed@);
    claimed.push(source.duplicate());
    proof {
        let v = claimed@;
        assert forall|k: NodeKeyView| key_set(v).contains(k) <==> before.insert(source@).contains(k) by {
            if key_set(v).contains(k) {
                let i = choose|i: int| 0 <= i < v.len() && (#[trigger] v[i])@ == k;
                if i < v.len() - 1 {
                    assert(old(claimed)@[i] == v[i]);
                }
            }
            if before.contains(k) {
                let i = choose|i: int| 0 <= i < old(claimed)@.len() && (#[trigger] old(claimed)@[i])@ == k;
                assert(v[i] == old(claimed)@[i]);
            }
            if k == source@ {
                assert(v[v.len() - 1]@ == source@);
            }
        }
        assert(key_set(v) =~= before.insert(source@));
    }
    let b = match find_syntax(&p.syntax, source) {
        None => {
            return Err(());
        },
        Some(b) => b,
    };
    proof {
        lemma_first_match_found(p.syntax@, syntax_key_is(source@));
    }
    let sh = match guard_shape(&p.syntax, b) {
        Err(()) => {
            return Err(());
        },
        Ok(None) => {
            return Ok(None);
        },
        Ok(Some(sh)) => sh,
    };
    Ok(site_at(p, gi, pi, l, b, sh))
}

proof fn lemma_scan_guards_err_stays(
    p: RetainedProjection,
    gi: int,
    l: (int, int, int, int),
    claimed: Set<NodeKeyView>,
    k: nat,
    m: nat,
)
    requires
        k <= m,
        scan_guards(p, gi, l, claimed, k) is Err,
    ensures
        scan_guards(p, gi, l, claimed, m) is Err,
    decreases m - k,
{
    if k < m {
        lemma_scan_guards_err_stays(p, gi, l, claimed, k, (m - 1) as nat);
    }
}

proof fn lemma_scan_guard_graphs_err_stays(p: RetainedProjection, k: nat, m: nat)
    requires
        k <= m,
        scan_guard_graphs(p, k) is Err,
    ensures
        scan_guard_graphs(p, m) is Err,
    decreases m - k,
{
    if k < m {
        lemma_scan_guard_graphs_err_stays(p, k, (m - 1) as nat);
    }
}

/// The guard sites of a projection, in graph and point order, each branch
/// source once.
pub fn guard_sites(p: &RetainedProjection) -> (r: Result<Vec<GuardSite>, ()>)
    ensures
        r matches Ok(v) ==> guard_sites_of(*p) == Ok::<Seq<GuardSite>, ()>(v@),
        r is Err ==> guard_sites_of(*p) is Err,
{
    let mut sites: Vec<GuardSite> = Vec::new();
    let mut claimed: Vec<NodeKey> = Vec::new();
    let ng = p.dependence_graphs.len();
    let mut j: usize = 0;
    assert(key_set(claimed@) =~= Set::<NodeKeyView>::empty());
    while j < ng
        invariant
            ng == p.dependence_graphs@.len(),
            j <= ng,
            scan_guard_graphs(*p, j as nat) == Ok::<(Seq<GuardSite>, Set<NodeKeyView>), ()>((sites@, key_set(claimed@))),
        decreases ng - j,
    {
        let l = match guard_lookups_exec(p, j) {
            None => {
                proof {
                    lemma_scan_guard_graphs_err_stays(*p, (j + 1) as nat, ng as nat);
                }
                return Err(());
            },
            Some(l) => l,
        };
        proof {
            lemma_guard_lookups_in_range(*p, j as int);
        }
        let ghost lk = (l.0 as int, l.1 as int, l.2 as int, l.3 as int);
        let ghost start_sites = sites@;
        let ghost start_claimed = key_set(claimed@);
        let np = p.flow_graphs[l.0].points.len();
        let mut k: usize = 0;
        assert(sites@.subrange(start_sites.len() as int, sites@.len() as int) =~= Seq::<GuardSite>::empty());
        assert(sites@.subrange(0, start_sites.len() as int) =~= start_sites);
        while k < np
            invariant
                ng == p.dependence_graphs@.len(),
                j < ng,
                l.0 < p.flow_graphs@.len(),
                np == p.flow_graphs@[l.0 as int].points@.len(),
                k <= np,
                guard_lookups(*p, j as int) == Ok::<(int, int, int, int), ()>(lk),
                lk == (l.0 as int, l.1 as int, l.2 as int, l.3 as int),
                scan_guard_graphs(*p, j as nat) == Ok::<(Seq<GuardSite>, Set<NodeKeyView>), ()>((start_sites, start_claimed)),
                scan_guards(*p, j as int, lk, start_claimed, k as nat) == Ok::<(Seq<GuardSite>, Set<NodeKeyView>), ()>(
                    (sites@.subrange(start_sites.len() as int, sites@.len() as int), key_set(claimed@)),
                ),
                sites@.subrange(0, start_sites.len() as int) == start_sites,
                start_sites.len() <= sites@.len(),
            decreases np - k,
        {
            let ghost before = sites@;
            match step_guard(p, j, k, l, &mut claimed) {
                Err(()) => {
                    proof {
                        lemma_scan_guards_err_stays(*p, j as int, lk, start_claimed, (k + 1) as nat, np as nat);
                        assert(scan_guard_graphs(*p, (j + 1) as nat) is Err);
                        lemma_scan_guard_graphs_err_stays(*p, (j + 1) as nat, ng as nat);
                    }
                    return Err(());
                },
                Ok(Some(site)) => {
                    sites.push(site);
                    proof {
                        assert(sites@.subrange(start_sites.len() as int, sites@.len() as int) =~= before.subrange(
                            start_sites.len() as int,
                            before.len() as int,
                        ) + seq![site]);
                        assert(sites@.subrange(0, start_sites.len() as int) =~= before.subrange(0, start_sites.len() as int));
                    }
                },
                Ok(None) => {
                    proof {
                        assert(before.subrange(start_sites.len() as int, before.len() as int) + Seq::<GuardSite>::empty()
                            =~= before.subrange(start_sites.len() as int, before.len() as int));
                    }
                },
            }
            k = k + 1;
        }
        proof {
            assert(sites@ =~= start_sites + sites@.subrange(start_sites.len() as int, sites@.len() as int));
        }
        j = j + 1;
    }
    Ok(sites)
}

/// A site names positions of the projection: its graphs, points, region
/// facts and dependence node lie in range, its dispatch's source is its
/// branch's node, and its branch has its guard.
pub open spec fn guard_site_ok(p: RetainedProjection, site: GuardSite) -> bool {
    let flow = p.flow_graphs@[site.flow as int];
    let region = p.region_graphs@[site.region as int];
    let g = p.dependence_graphs@[site.graph as int];
    &&& site.graph < p.dependence_graphs@.len()
    &&& site.flow < p.flow_graphs@.len()
    &&& site.region < p.region_graphs@.len()
    &&& site.data_flow < p.data_flow_graphs@.len()
    &&& site.non_structured < p.non_structured_graphs@.len()
    &&& site.point < flow.points@.len()
    &&& site.merge < flow.points@.len()
    &&& site.abrupt < flow.points@.len()
    &&& site.exit_dispatch < flow.points@.len()
    &&& site.dispatch_fact < region.relations@.len()
    &&& site.merge_fact < region.relations@.len()
    &&& site.abrupt_fact < region.relations@.len()
    &&& site.exit_fact < region.relations@.len()
    &&& site.node < g.nodes@.len()
    &&& site.branch < p.syntax@.len()
    &&& guard_shape_of(p.syntax@, site.branch as int) == Ok::<Option<GuardShape>, ()>(Some(site.shape))
    &&& flow.points@[site.point as int].source matches Some(src) && src@ == p.syntax@[site.branch as int].key@
    &&& g.nodes@[site.node as int].point@ == flow.points@[site.point as int].key@
}

proof fn lemma_guard_step_ok(p: RetainedProjection, gi: int, pi: int, l: (int, int, int, int), claimed: Set<NodeKeyView>)
    requires
        0 <= gi < p.dependence_graphs@.len(),
        guard_lookups(p, gi) == Ok::<(int, int, int, int), ()>(l),
        0 <= pi < p.flow_graphs@[l.0].points@.len(),
        guard_step(p, gi, pi, l, claimed) matches Ok((Some(_), _)),
    ensures
        guard_site_ok(p, guard_step(p, gi, pi, l, claimed)->Ok_0.0->Some_0),
{
    lemma_guard_lookups_in_range(p, gi);
    let g = p.dependence_graphs@[gi];
    let flow = p.flow_graphs@[l.0];
    let region = p.region_graphs@[l.1];
    let point = flow.points@[pi];
    let src = point.source->0@;
    lemma_first_match_found(p.syntax@, syntax_key_is(src));
    let b = first_match(p.syntax@, syntax_key_is(src))->Some_0;
    let sh = guard_shape_of(p.syntax@, b)->Ok_0->Some_0;
    lemma_first_match_found(flow.points@, source_point_is(FlowPointKind::Merge, src));
    lemma_first_match_found(flow.points@, source_point_is(FlowPointKind::Syntax, p.syntax@[sh.abrupt as int].key@));
    let m = first_match(flow.points@, source_point_is(FlowPointKind::Merge, src))->Some_0;
    let a = first_match(flow.points@, source_point_is(FlowPointKind::Syntax, p.syntax@[sh.abrupt as int].key@))->Some_0;
    let out = edges_from(flow.edges@, flow.points@[a].key@);
    lemma_first_match_found(flow.points@, exit_dispatch_is(out[0].to@));
    let x = abrupt_exit_of(flow, flow.points@[a].key@)->Some_0;
    let rs = region.relations@;
    lemma_first_match_found(rs, relation_point_is(point.key@));
    lemma_first_match_found(rs, relation_point_is(flow.points@[m].key@));
    lemma_first_match_found(rs, relation_point_is(flow.points@[a].key@));
    lemma_first_match_found(rs, relation_point_is(flow.points@[x].key@));
    lemma_first_match_found(g.nodes@, node_point_is(point.key@));
    vstd::std_specs::vec::axiom_spec_len(&p.dependence_graphs);
    vstd::std_specs::vec::axiom_spec_len(&g.nodes);
    vstd::std_specs::vec::axiom_spec_len(&p.syntax);
    vstd::std_specs::vec::axiom_spec_len(&p.flow_graphs);
    vstd::std_specs::vec::axiom_spec_len(&flow.points);
    vstd::std_specs::vec::axiom_spec_len(&p.region_graphs);
    vstd::std_specs::vec::axiom_spec_len(&region.relations);
    vstd::std_specs::vec::axiom_spec_len(&p.non_structured_graphs);
    vstd::std_specs::vec::axiom_spec_len(&p.data_flow_graphs);
}

proof fn lemma_scan_guards_ok(p: RetainedProjection, gi: int, l: (int, int, int, int), claimed: Set<NodeKeyView>, k: nat)
    requires
        0 <= gi < p.dependence_graphs@.len(),
        guard_lookups(p, gi) == Ok::<(int, int, int, int), ()>(l),
        k <= p.flow_graphs@[l.0].points@.len(),
        scan_guards(p, gi, l, claimed, k) is Ok,
    ensures
        forall|i: int| 0 <= i < scan_guards(p, gi, l, claimed, k)->Ok_0.0.len() ==> guard_site_ok(
            p,
            #[trigger] scan_guards(p, gi, l, claimed, k)->Ok_0.0[i],
        ),
    decreases k,
{
    lemma_guard_lookups_in_range(p, gi);
    if k > 0 {
        lemma_scan_guards_ok(p, gi, l, claimed, (k - 1) as nat);
        let prev = scan_guards(p, gi, l, claimed, (k - 1) as nat)->Ok_0;
        if guard_step(p, gi, k - 1, l, prev.1) matches Ok((Some(_), _)) {
            lemma_guard_step_ok(p, gi, k - 1, l, prev.1);
        }
        let all = scan_guards(p, gi, l, claimed, k)->Ok_0.0;
        assert forall|i: int| 0 <= i < all.len() implies guard_site_ok(p, #[trigger] all[i]) by {
            if i < prev.0.len() {
                assert(all[i] == prev.0[i]);
            }
        }
    }
}

/// Every guard site of a projection names positions that lie in it.
pub proof fn lemma_guard_sites_ok(p: RetainedProjection, j: nat)
    requires
        j <= p.dependence_graphs@.len(),
        scan_guard_graphs(p, j) is Ok,
    ensures
        forall|i: int| 0 <= i < scan_guard_graphs(p, j)->Ok_0.0.len() ==> guard_site_ok(
            p,
            #[trigger] scan_guard_graphs(p, j)->Ok_0.0[i],
        ),
    decreases j,
{
    if j > 0 {
        lemma_guard_sites_ok(p, (j - 1) as nat);
        let prev = scan_guard_graphs(p, (j - 1) as nat)->Ok_0;
        let l = guard_lookups(p, j - 1)->Ok_0;
        lemma_guard_lookups_in_range(p, j - 1);
        lemma_scan_guards_ok(p, j - 1, l, prev.1, p.flow_graphs@[l.0].points@.len());
        let more = scan_guards(p, j - 1, l, prev.1, p.flow_graphs@[l.0].points@.len())->Ok_0.0;
        let all = scan_guard_graphs(p, j)->Ok_0.0;
        assert forall|i: int| 0 <= i < all.len() implies guard_site_ok(p, #[trigger] all[i]) by {
            if i < prev.0.len() {
                assert(all[i] == prev.0[i]);
            } else {
                assert(all[i] == more[i - prev.0.len()]);
            }
        }
    }
}

pub const EXIT_ARM_DETAIL: &'static str = "The selected arm is one direct exact return/terminate point.";
pub const EXIT_DISPATCH_DETAIL: &'static str = "The abrupt edge reaches the callable abrupt-exit dispatch and virtual exit.";
pub const PST_DETAIL: &'static str = "Complete PST reachability and post-dominance retain the continuation boundary.";
pub const THEN_PREDICATE_DETAIL: &'static str =
    "The original predicate is evaluated once with unchanged polarity for the terminating then arm.";
pub const ELSE_PREDICATE_DETAIL: &'static str =
    "The original predicate is evaluated once and boolean-negated to select the same terminating else arm.";
pub const SCOPE_DETAIL: &'static str =
    "Production DefUse/Effects authority cannot prove flattened binding, borrow, temporary, or drop semantics.";
pub const CONTROL_DETAIL: &'static str = "Both dispatch edges and the selected paths are exact and unrecovered.";
pub const MERGE_DETAIL: &'static str = "The continuation reaches the exact branch merge.";
pub const BINDING_DETAIL: &'static str = "Missing DefUse authority cannot disprove binding, lifetime, borrow, or drop changes.";
pub const EFFECT_DETAIL: &'static str =
    "Missing Effects authority cannot disprove a hidden effect, panic, exception, or suspension change.";
pub const BOUNDARY_RATIONALE: &'static str =
    "The continuation boundary moves before the flattened statements after rebuilding.";
pub const ABRUPT_RATIONALE: &'static str = "The direct abrupt exit must remain attached to the same guard outcome.";
pub const EXIT_RATIONALE: &'static str = "The callable abrupt-exit outcome must remain.";

pub open spec fn predicate_detail(k: GuardKind) -> Seq<char> {
    match k {
        GuardKind::ThenTerminates => THEN_PREDICATE_DETAIL@,
        GuardKind::ElseTerminates => ELSE_PREDICATE_DETAIL@,
    }
}

pub open spec fn guard_rationale(k: GuardKind) -> Seq<char> {
    "The dispatch becomes the exact "@ + guard_name(k) + " with one retained abrupt arm."@
}

/// The predicate of the early exit: the branch's condition, negated for an
/// exiting `else` arm.
pub open spec fn guard_predicate(nodes: Seq<SyntaxNode>, sh: GuardShape) -> Seq<char> {
    match sh.kind {
        GuardKind::ThenTerminates => nodes[sh.predicate as int].text@,
        GuardKind::ElseTerminates => "!("@ + nodes[sh.predicate as int].text@ + ")"@,
    }
}

/// The guard clause that replaces a branch: `if`, the predicate, the
/// exiting block, then the continuing block's body; nothing when the
/// continuing block lacks its braces.
pub open spec fn guard_text(nodes: Seq<SyntaxNode>, sh: GuardShape) -> Option<Seq<char>> {
    match block_body_of(nodes[sh.continuation_block as int].text@) {
        None => None,
        Some(body) => Some("if "@ + guard_predicate(nodes, sh) + " "@ + nodes[sh.guard_block as int].text@ + " "@ + body),
    }
}

/// A result whose evidence is the four region facts of a guard, in the
/// order dispatch, merge, abrupt point, exit dispatch.
pub open spec fn pst_result(r: ConditionResult, state: ProofState, facts: Seq<GraphEntityView>) -> bool {
    &&& r.condition@ == REQUIRED_PST@
    &&& r.state == state
    &&& r.evidence@.len() == 4
    &&& forall|k: int| 0 <= k < 4 ==> (#[trigger] r.evidence@[k])@ == ConditionEvidenceView {
        entity: facts[k],
        detail: PST_DETAIL@,
        capability: None,
        support: None,
        authority: None,
    }
}

/// The impact cone of a site: the answer of a bidirectional query of depth
/// eight around its dependence node.
pub open spec fn guard_impact(p: RetainedProjection, site: GuardSite, impact: ImpactCone) -> bool {
    let g = p.dependence_graphs@[site.graph as int];
    exists|deps: Seq<DependenceGraph>|
        dependence_views(deps, p.dependence_graphs@) && #[trigger] crate::impact::impact_answer(
            deps,
            g.key@,
            g.nodes@[site.node as int].key@,
            ImpactDirection::Bidirectional,
            8,
            Ok(impact),
        )
}

/// The draft of a guard: bound to the recipe and the projection's
/// identities; targeting the branch through the dependence node at its
/// dispatch; the exit proven on the abrupt point and the exit dispatch,
/// the region boundary proven or unknown as the region facts are complete
/// or not, the predicate proven on the dispatch, scope and effects unknown
/// with the data-flow graph's effect capability; uncertain control
/// disproven on the dispatch and the merge, binding and effect changes
/// unknown with the def/use and effect capabilities, non-structured
/// control disproven exactly when the callable has no such fact; the
/// dispatch and merge modified, the abrupt point and exit dispatch kept;
/// one exact replacement of the branch by its guard clause; the recipe's
/// plans; review required at safe-with-precondition.
pub open spec fn is_guard_draft(
    d: TransformationCandidateDraft,
    p: RetainedProjection,
    site: GuardSite,
    recipe: TransformationRecipe,
) -> bool {
    let g = p.dependence_graphs@[site.graph as int];
    let flow = p.flow_graphs@[site.flow as int];
    let region = p.region_graphs@[site.region as int];
    let nsc = p.non_structured_graphs@[site.non_structured as int];
    let data = p.data_flow_graphs@[site.data_flow as int];
    let branch = p.syntax@[site.branch as int];
    let kind = site.shape.kind;
    let pt = |i: usize| GraphEntityView { layer: GraphEvidenceLayer::ControlFlow, graph: flow.key@, entity: flow.points@[i as int].key@ };
    let fact = |i: usize| GraphEntityView { layer: GraphEvidenceLayer::ControlRegions, graph: region.key@, entity: region.relations@[i as int].key@ };
    let de = GraphEntityView { layer: GraphEvidenceLayer::DataFlow, graph: data.key@, entity: data.key@ };
    let ne = GraphEntityView { layer: GraphEvidenceLayer::NonStructuredControl, graph: nsc.key@, entity: nsc.key@ };
    let root = pdg_entity(g.key@, g.nodes@[site.node as int].key@);
    let span = node_span(branch.key@);
    &&& d.recipe.spec_id() == recipe.spec_id()
    &&& (recipe.wf() ==> d.recipe.wf())
    &&& d.source.project_snapshot@ == p.snapshot@
    &&& d.source.analysis@ == p.analysis@
    &&& d.source.program_dependence_projection@ == p.id@
    &&& d.target.entity@ == root
    &&& d.target.node@ == branch.key@
    &&& d.target.span == span
    &&& d.target.subtree_fingerprint is None
    &&& d.eligibility.consumer@ == g.eligibility.consumer@
    &&& d.eligibility.required_layers@ == g.eligibility.required_layers@
    &&& d.eligibility.eligible == g.eligibility.eligible
    &&& d.required_results@.len() == 4
    &&& two_results(d.required_results@[0], REQUIRED_EXIT@, ProofState::Proven, pt(site.abrupt), EXIT_ARM_DETAIL@,
        pt(site.exit_dispatch), EXIT_DISPATCH_DETAIL@)
    &&& pst_result(d.required_results@[1], if region.complete { ProofState::Proven } else { ProofState::Unknown },
        seq![fact(site.dispatch_fact), fact(site.merge_fact), fact(site.abrupt_fact), fact(site.exit_fact)])
    &&& single_result(d.required_results@[2], REQUIRED_PREDICATE@, ProofState::Proven, pt(site.point), predicate_detail(kind))
    &&& capability_result(d.required_results@[3], REQUIRED_SCOPE@, ProofState::Unknown, de, SCOPE_DETAIL@, EFFECTS@,
        data.effects_support, text_view(data.effects_authority))
    &&& d.forbidden_results@.len() == 4
    &&& two_results(d.forbidden_results@[0], FORBIDDEN_CONTROL@, ProofState::Disproven, pt(site.point), CONTROL_DETAIL@,
        pt(site.merge), MERGE_DETAIL@)
    &&& capability_result(d.forbidden_results@[1], FORBIDDEN_BINDING@, ProofState::Unknown, de, BINDING_DETAIL@, DEF_USE@,
        data.def_use_support, text_view(data.def_use_authority))
    &&& capability_result(d.forbidden_results@[2], FORBIDDEN_EFFECT@, ProofState::Unknown, de, EFFECT_DETAIL@, EFFECTS@,
        data.effects_support, text_view(data.effects_authority))
    &&& (if nsc.has_facts {
        single_result(d.forbidden_results@[3], FORBIDDEN_NON_STRUCTURED@, ProofState::Unknown, ne, FACTS_DETAIL@)
    } else {
        single_result(d.forbidden_results@[3], FORBIDDEN_NON_STRUCTURED@, ProofState::Disproven, ne, NO_FACTS_DETAIL@)
    })
    &&& d.expected_delta.changes@.len() == 4
    &&& d.expected_delta.changes@[0].kind == GraphChangeKind::Modify
    &&& d.expected_delta.changes@[0].entity@ == root
    &&& d.expected_delta.changes@[0].rationale@ == guard_rationale(kind)
    &&& d.expected_delta.changes@[1].kind == GraphChangeKind::Modify
    &&& d.expected_delta.changes@[1].entity@ == pt(site.merge)
    &&& d.expected_delta.changes@[1].rationale@ == BOUNDARY_RATIONALE@
    &&& d.expected_delta.changes@[2].kind == GraphChangeKind::Preserve
    &&& d.expected_delta.changes@[2].entity@ == pt(site.abrupt)
    &&& d.expected_delta.changes@[2].rationale@ == ABRUPT_RATIONALE@
    &&& d.expected_delta.changes@[3].kind == GraphChangeKind::Preserve
    &&& d.expected_delta.changes@[3].entity@ == pt(site.exit_dispatch)
    &&& d.expected_delta.changes@[3].rationale@ == EXIT_RATIONALE@
    &&& d.edits@.len() == 1
    &&& d.edits@[0].target@ == branch.key@
    &&& d.edits@[0].span == span
    &&& d.edits@[0].before@ == branch.text@
    &&& guard_text(p.syntax@, site.shape) == Some(d.edits@[0].after@)
    &&& d.edits@[0].revision_guard@ == revision_guard_id(branch.key@.path, span, branch.text@)
    &&& d.safety == SafetyClass::SafeWithPrecondition
    &&& d.disposition == CandidateDisposition::ReviewRequired
    &&& steps_agree(d.validation_plan.steps@, recipe.spec_draft().validation_plan.steps@)
    &&& d.rollback_plan.strategy == recipe.spec_draft().rollback_plan.strategy
    &&& d.rollback_plan.require_revision_guards == recipe.spec_draft().rollback_plan.require_revision_guards
    &&& keys_agree(d.rollback_plan.validation_steps@, recipe.spec_draft().rollback_plan.validation_steps@)
}

/// A candidate for a guard site: well formed, and its draft is, up to the
/// canonical order of its lists, the site's guard draft with its impact
/// cone.
#[verifier::opaque]
pub open spec fn guard_candidate_for(c: TransformationCandidate, p: RetainedProjection, site: GuardSite, recipe: TransformationRecipe) -> bool {
    &&& c.wf()
    &&& exists|d: TransformationCandidateDraft|
        #[trigger] is_guard_draft(d, p, site, recipe) && candidate_arrangement(c.spec_draft(), d) && guard_impact(p, site, d.impact)
}

/// When a guard site's candidate is owed: the branch's rows fit, the
/// impact query around its dependence node can be answered, the guard
/// clause can be written, and every draft of the site is valid.
pub open spec fn guard_owed(p: RetainedProjection, deps: Seq<DependenceGraph>, site: GuardSite, recipe: TransformationRecipe) -> bool {
    let g = p.dependence_graphs@[site.graph as int];
    &&& rows_fit(p.syntax@[site.branch as int].key@)
    &&& impact_found(deps, g.key@, g.nodes@[site.node as int].key@, 8)
    &&& guard_text(p.syntax@, site.shape) is Some
    &&& forall|d: TransformationCandidateDraft|
        #[trigger] is_guard_draft(d, p, site, recipe) && guard_impact(p, site, d.impact) ==> candidate_fields_valid(d)
}

/// The guard clause of a guard, as `guard_text` gives it.
fn render_guard(nodes: &Vec<SyntaxNode>, sh: GuardShape) -> (r: Option<String>)
    requires
        guard_in_tree(nodes@, sh),
    ensures
        r is None ==> guard_text(nodes@, sh) is None,
        r matches Some(t) ==> guard_text(nodes@, sh) == Some(t@),
{
    let body = match block_body(nodes[sh.continuation_block].text.as_str()) {
        None => {
            return None;
        },
        Some(b) => b,
    };
    let mut out = String::new();
    string_append(&mut out, "if ");
    match sh.kind {
        GuardKind::ThenTerminates => {
            string_append(&mut out, nodes[sh.predicate].text.as_str());
        },
        GuardKind::ElseTerminates => {
            string_append(&mut out, "!(");
            string_append(&mut out, nodes[sh.predicate].text.as_str());
            string_append(&mut out, ")");
        },
    }
    string_append(&mut out, " ");
    string_append(&mut out, nodes[sh.guard_block].text.as_str());
    string_append(&mut out, " ");
    string_append(&mut out, body.as_str());
    assert(out@ =~= guard_text(nodes@, sh)->Some_0);
    Some(out)
}

fn pst_evidence(e: GraphEntityRef) -> (r: ConditionEvidence)
    ensures
        r@ == (ConditionEvidenceView { entity: e@, detail: PST_DETAIL@, capability: None, support: None, authority: None }),
{
    ConditionEvidence { entity: e, detail: PST_DETAIL.to_owned(), capability: None, support: None, authority: None }
}

/// The candidate of one guard site.
fn guard_candidate(
    p: &RetainedProjection,
    recipe: &TransformationRecipe,
    deps: &Vec<DependenceGraph>,
    site: GuardSite,
) -> (r: Result<TransformationCandidate, GuardClauseRecipeError>)
    requires
        guard_site_ok(*p, site),
        dependence_views(deps@, p.dependence_graphs@),
    ensures
        r matches Ok(c) ==> guard_candidate_for(c, *p, site, *recipe),
        guard_owed(*p, deps@, site, *recipe) ==> r is Ok,
{
    let sh = match guard_shape(&p.syntax, site.branch) {
        Ok(Some(sh)) => sh,
        _ => {
            proof {
                assert(false);
            }
            return Err(GuardClauseRecipeError::Projection("guard lost its shape".to_owned()));
        },
    };
    let g = &p.dependence_graphs[site.graph];
    let node = &g.nodes[site.node];
    let flow = &p.flow_graphs[site.flow];
    let region = &p.region_graphs[site.region];
    let nsc = &p.non_structured_graphs[site.non_structured];
    let data = &p.data_flow_graphs[site.data_flow];
    let branch = &p.syntax[site.branch];
    let key = &branch.key;
    if key.start_row >= usize::MAX || key.end_row >= usize::MAX {
        return Err(GuardClauseRecipeError::Projection("retained node rows are out of range".to_owned()));
    }
    let span = Span { start_line: key.start_row + 1, end_line: key.end_row + 1, start_byte: key.start_byte, end_byte: key.end_byte };
    let impact = match program_dependence_impact_cone(deps, g.key.as_str(), node.key.as_str(), ImpactDirection::Bidirectional, 8) {
        Ok(c) => c,
        Err(e) => {
            return Err(GuardClauseRecipeError::Impact(e));
        },
    };
    let after = match render_guard(&p.syntax, sh) {
        None => {
            return Err(GuardClauseRecipeError::Projection("Rust block lacks exact braces".to_owned()));
        },
        Some(t) => t,
    };
    let fk = flow.key.as_str();
    let pd = flow.points[site.point].key.as_str();
    let pm = flow.points[site.merge].key.as_str();
    let pa = flow.points[site.abrupt].key.as_str();
    let px = flow.points[site.exit_dispatch].key.as_str();
    let rk = region.key.as_str();
    let dk = data.key.as_str();
    let rs = &region.relations;
    let pst_state = if region.complete {
        ProofState::Proven
    } else {
        ProofState::Unknown
    };
    let pst = ConditionResult {
        condition: REQUIRED_PST.to_owned(),
        state: pst_state,
        evidence: vec![
            pst_evidence(entity(GraphEvidenceLayer::ControlRegions, rk, rs[site.dispatch_fact].key.as_str())),
            pst_evidence(entity(GraphEvidenceLayer::ControlRegions, rk, rs[site.merge_fact].key.as_str())),
            pst_evidence(entity(GraphEvidenceLayer::ControlRegions, rk, rs[site.abrupt_fact].key.as_str())),
            pst_evidence(entity(GraphEvidenceLayer::ControlRegions, rk, rs[site.exit_fact].key.as_str())),
        ],
    };
    let predicate = match sh.kind {
        GuardKind::ThenTerminates => THEN_PREDICATE_DETAIL,
        GuardKind::ElseTerminates => ELSE_PREDICATE_DETAIL,
    };
    let required_results = vec![
        two_plain(
            REQUIRED_EXIT,
            ProofState::Proven,
            entity(GraphEvidenceLayer::ControlFlow, fk, pa),
            EXIT_ARM_DETAIL,
            entity(GraphEvidenceLayer::ControlFlow, fk, px),
            EXIT_DISPATCH_DETAIL,
        ),
        pst,
        plain_result(REQUIRED_PREDICATE, ProofState::Proven, entity(GraphEvidenceLayer::ControlFlow, fk, pd), predicate),
        capability_result_exec(
            REQUIRED_SCOPE,
            ProofState::Unknown,
            entity(GraphEvidenceLayer::DataFlow, dk, dk),
            SCOPE_DETAIL,
            EFFECTS,
            data.effects_support,
            &data.effects_authority,
        ),
    ];
    let non_structured = if nsc.has_facts {
        plain_result(
            FORBIDDEN_NON_STRUCTURED,
            ProofState::Unknown,
            entity(GraphEvidenceLayer::NonStructuredControl, nsc.key.as_str(), nsc.key.as_str()),
            FACTS_DETAIL,
        )
    } else {
        plain_result(
            FORBIDDEN_NON_STRUCTURED,
            ProofState::Disproven,
            entity(GraphEvidenceLayer::NonStructuredControl, nsc.key.as_str(), nsc.key.as_str()),
            NO_FACTS_DETAIL,
        )
    };
    let forbidden_results = vec![
        two_plain(
            FORBIDDEN_CONTROL,
            ProofState::Disproven,
            entity(GraphEvidenceLayer::ControlFlow, fk, pd),
            CONTROL_DETAIL,
            entity(GraphEvidenceLayer::ControlFlow, fk, pm),
            MERGE_DETAIL,
        ),
        capability_result_exec(
            FORBIDDEN_BINDING,
            ProofState::Unknown,
            entity(GraphEvidenceLayer::DataFlow, dk, dk),
            BINDING_DETAIL,
            DEF_USE,
            data.def_use_support,
            &data.def_use_authority,
        ),
        capability_result_exec(
            FORBIDDEN_EFFECT,
            ProofState::Unknown,
            entity(GraphEvidenceLayer::DataFlow, dk, dk),
            EFFECT_DETAIL,
            EFFECTS,
            data.effects_support,
            &data.effects_authority,
        ),
        non_structured,
    ];
    let mut rationale = String::new();
    string_append(&mut rationale, "The dispatch becomes the exact ");
    string_append(&mut rationale, sh.kind.name());
    string_append(&mut rationale, " with one retained abrupt arm.");
    let root = entity(GraphEvidenceLayer::ProgramDependence, g.key.as_str(), node.key.as_str());
    let draft = TransformationCandidateDraft {
        recipe: recipe.duplicate(),
        source: CandidateSource {
            project_snapshot: p.snapshot.clone(),
            analysis: p.analysis.clone(),
            program_dependence_projection: p.id.clone(),
        },
        target: CandidateTarget { entity: root.duplicate(), node: key.duplicate(), span, subtree_fingerprint: None },
        eligibility: GraphEligibilityDecision {
            consumer: g.eligibility.consumer.clone(),
            required_layers: copy_layers(g.eligibility.required_layers.as_slice()),
            eligible: g.eligibility.eligible,
        },
        required_results,
        forbidden_results,
        impact,
        expected_delta: ExpectedGraphDelta {
            changes: vec![
                ExpectedGraphChange { kind: GraphChangeKind::Modify, entity: root, rationale },
                ExpectedGraphChange {
                    kind: GraphChangeKind::Modify,
                    entity: entity(GraphEvidenceLayer::ControlFlow, fk, pm),
                    rationale: BOUNDARY_RATIONALE.to_owned(),
                },
                ExpectedGraphChange {
                    kind: GraphChangeKind::Preserve,
                    entity: entity(GraphEvidenceLayer::ControlFlow, fk, pa),
                    rationale: ABRUPT_RATIONALE.to_owned(),
                },
                ExpectedGraphChange {
                    kind: GraphChangeKind::Preserve,
                    entity: entity(GraphEvidenceLayer::ControlFlow, fk, px),
                    rationale: EXIT_RATIONALE.to_owned(),
                },
            ],
        },
        edits: vec![TransformationEdit::exact_node_replacement(key.duplicate(), span, branch.text.clone(), after)],
        safety: SafetyClass::SafeWithPrecondition,
        disposition: CandidateDisposition::ReviewRequired,
        validation_plan: crate::recipe::duplicate_validation_plan(recipe.validation_plan()),
        rollback_plan: crate::recipe::duplicate_rollback_plan(recipe.rollback_plan()),
    };
    let ghost original = draft;
    proof {
        assert(crate::impact::impact_answer(deps@, g.key@, node.key@, ImpactDirection::Bidirectional, 8, Ok(original.impact)));
        assert(guard_impact(*p, site, original.impact));
        assert(is_guard_draft(original, *p, site, *recipe));
    }
    match TransformationCandidate::new(draft) {
        Ok(c) => {
            proof {
                reveal(guard_candidate_for);
            }
            Ok(c)
        },
        Err(e) => Err(GuardClauseRecipeError::Contract(e)),
    }
}

/// The candidates of a sequence of guard sites, one for one.
pub open spec fn candidates_for_guards(cs: Seq<TransformationCandidate>, p: RetainedProjection, sites: Seq<GuardSite>, recipe: TransformationRecipe) -> bool {
    cs.len() == sites.len() && forall|k: int| 0 <= k < cs.len() ==> #[trigger] guard_candidate_for(cs[k], p, sites[k], recipe)
}

/// When the candidates of a projection are owed: its guard sites can be
/// found and, under the guard recipe and the projection's dependence
/// graphs, the candidate of every site is owed.
pub open spec fn guard_all_owed(p: RetainedProjection) -> bool {
    &&& guard_sites_of(p) is Ok
    &&& forall|recipe: TransformationRecipe, deps: Seq<DependenceGraph>, k: int|
        recipe_header(
            Ok(recipe),
            "rust-invert-guard-clause"@,
            "1.0.0"@,
            TransformationFamily::BranchControl,
            SafetyClass::SafeWithPrecondition,
            seq![
                GraphEvidenceLayer::ControlFlow,
                GraphEvidenceLayer::ControlRegions,
                GraphEvidenceLayer::NonStructuredControl,
                GraphEvidenceLayer::DataFlow,
                GraphEvidenceLayer::ProgramDependence,
            ],
        ) && dependence_views(deps, p.dependence_graphs@) && 0 <= k < guard_sites_of(p)->Ok_0.len()
            ==> #[trigger] guard_owed(p, deps, guard_sites_of(p)->Ok_0[k], recipe)
}

/// Finds every two-armed branch of a retained projection that one direct
/// `return` arm and one arm of plain statements make a guard, and proposes
/// its inversion into an early exit for review: one candidate per site,
/// ordered by candidate identity. A projection that lacks a graph or a
/// syntax node a site refers to is refused.
pub fn detect_guard_clause_inversions(p: &RetainedProjection) -> (r: Result<Vec<TransformationCandidate>, GuardClauseRecipeError>)
    ensures
        guard_sites_of(*p) is Err ==> r matches Err(GuardClauseRecipeError::Projection(_)),
        guard_all_owed(*p) ==> r is Ok,
        r matches Ok(cs) ==> guard_sites_of(*p) is Ok && keys_sorted(cs@) && exists|
            recipe: TransformationRecipe,
            unsorted: Seq<TransformationCandidate>,
        |
            #![trigger candidates_for_guards(unsorted, *p, guard_sites_of(*p)->Ok_0, recipe)]
            recipe_header(
                Ok(recipe),
                "rust-invert-guard-clause"@,
                "1.0.0"@,
                TransformationFamily::BranchControl,
                SafetyClass::SafeWithPrecondition,
                seq![
                    GraphEvidenceLayer::ControlFlow,
                    GraphEvidenceLayer::ControlRegions,
                    GraphEvidenceLayer::NonStructuredControl,
                    GraphEvidenceLayer::DataFlow,
                    GraphEvidenceLayer::ProgramDependence,
                ],
            ) && candidates_for_guards(unsorted, *p, guard_sites_of(*p)->Ok_0, recipe) && cs@.to_multiset()
                == unsorted.to_multiset(),
{
    let recipe = match guard_clause_inversion_recipe() {
        Ok(recipe) => recipe,
        Err(e) => {
            if guard_sites(p).is_err() {
                return Err(GuardClauseRecipeError::Projection(
                    "retained projection lacks a graph or syntax node a guard refers to".to_owned(),
                ));
            }
            return Err(GuardClauseRecipeError::Contract(e));
        },
    };
    let sites = match guard_sites(p) {
        Ok(v) => v,
        Err(()) => {
            return Err(GuardClauseRecipeError::Projection(
                "retained projection lacks a graph or syntax node a guard refers to".to_owned(),
            ));
        },
    };
    proof {
        lemma_guard_sites_ok(*p, p.dependence_graphs@.len() as nat);
    }
    let deps = dependence_graphs_of(p);
    let mut candidates: Vec<TransformationCandidate> = Vec::new();
    let n = sites.len();
    proof {
        if guard_all_owed(*p) {
            assert forall|k: int| 0 <= k < n implies #[trigger] guard_owed(*p, deps@, sites@[k], recipe) by {
                assert(guard_owed(*p, deps@, guard_sites_of(*p)->Ok_0[k], recipe));
            }
        }
    }
    let mut i: usize = 0;
    while i < n
        invariant
            n == sites@.len(),
            i <= n,
            guard_sites_of(*p) == Ok::<Seq<GuardSite>, ()>(sites@),
            forall|k: int| 0 <= k < sites@.len() ==> guard_site_ok(*p, #[trigger] sites@[k]),
            dependence_views(deps@, p.dependence_graphs@),
            candidates_for_guards(candidates@, *p, sites@.subrange(0, i as int), recipe),
            guard_all_owed(*p) ==> forall|k: int| 0 <= k < n ==> #[trigger] guard_owed(*p, deps@, sites@[k], recipe),
        decreases n - i,
    {
        let c = guard_candidate(p, &recipe, &deps, sites[i])?;
        let ghost before = candidates@;
        candidates.push(c);
        proof {
            let prefix = sites@.subrange(0, i + 1);
            assert forall|k: int| 0 <= k < candidates@.len() implies #[trigger] guard_candidate_for(candidates@[k], *p, prefix[k], recipe) by {
                if k < i {
                    assert(candidates@[k] == before[k]);
                    assert(prefix[k] == sites@.subrange(0, i as int)[k]);
                }
            }
        }
        i = i + 1;
    }
    let ghost unsorted = candidates@;
    assert(sites@.subrange(0, n as int) =~= sites@);
    let sorted = sort_by_key(candidates);
    proof {
        assert(candidates_for_guards(unsorted, *p, guard_sites_of(*p)->Ok_0, recipe));
        assert(sorted@.to_multiset() == unsorted.to_multiset());
    }
    Ok(sorted)
}
} // verus!
