//! The independent-branch-split candidates of a retained projection: a
//! branch without `else` whose block is two to eight direct calls with
//! disjoint flow slices, rewritten as one stored predicate and one branch
//! per call.

use vstd::prelude::*;
use crate::order::{compare_str, insert_sorted_str, keys_strictly_increasing, view_set};
use crate::text::{contains_substring, contains_text};
use crate::impact::DependenceEdge;
use crate::target::{NodeKey, NodeKeyView};
use super::retained::{
    find_syntax, first_match, lemma_first_match_found, syntax_key_is, FlowPointKind, PdgNode, RetainedProjection,
    SyntaxNode,
};
use super::branch_detect::{
    branch_lookups, branch_lookups_exec, exact_branch_edges, exact_branch_edges_exec, field_child, field_child_exec,
    find_node_by_point, lemma_branch_lookups_in_range, lemma_field_child_in_tree, named_children_exec,
    named_children_of, node_point_is, plain_branch,
};
use super::merge_detect::{condition_binds, condition_binds_exec, plain_branch_exec};
use super::branch_split::{
    independent_branch_split_recipe, BranchSplitRecipeError, FORBIDDEN_CONTROL, FORBIDDEN_CROSSING,
    FORBIDDEN_NON_STRUCTURED, FORBIDDEN_SCOPE, REQUIRED_ACTIONS, REQUIRED_EFFECTS, REQUIRED_ORDER, REQUIRED_SLICES,
    TEMP_NAME,
};
use super::slice::{flow_closure, flow_slice, texts};
use super::chain_detect::list_result;
use crate::evidence::GraphEntityRef;
use super::branch_detect::{capability_result, capability_result_exec, entity, plain_result, DEF_USE, EFFECTS};
use super::recipe_header;
use super::retained::{dependence_graphs_of, dependence_views};
use super::unreachable::{rows_fit, copy_layers, node_span, single_result};
use crate::order::{lex_lt, str_key};
use crate::target::{revision_guard_id, CandidateTarget, TransformationEdit};
use crate::candidate::{candidate_fields_valid, 
    candidate_arrangement, keys_agree, steps_agree, CandidateDisposition, CandidateSource, GraphEligibilityDecision,
    TransformationCandidate, TransformationCandidateDraft,
};
use crate::contract::{ProofState, TransformationFamily};
use crate::evidence::{
    CapabilitySupport, ConditionEvidence, ConditionEvidenceView, ConditionResult, ExpectedGraphChange,
    ExpectedGraphDelta, GraphChangeKind, GraphEntityView, ImpactCone, ImpactDirection,
};
use crate::impact::{impact_found, pdg_entity, program_dependence_impact_cone, DependenceGraph};
use crate::json::text_view;
use crate::model::{GraphEvidenceLayer, SafetyClass, Span};
use crate::order::{keys_sorted, sort_by_key};
use crate::recipe::TransformationRecipe;

verus! {

/// An error-free expression statement whose one named child is a call.
pub open spec fn direct_call_of(nodes: Seq<SyntaxNode>, n: int) -> Result<bool, ()> {
    if nodes[n].kind@ != "expression_statement"@ || nodes[n].has_error {
        Ok(false)
    } else {
        match named_children_of(nodes, n) {
            Err(_) => Err(()),
            Ok(ch) => Ok(ch.len() == 1 && nodes[ch[0] as int].kind@ == "call_expression"@),
        }
    }
}

/// Whether the statements from the `k`-th on are all direct calls,
/// checked in order.
pub open spec fn calls_from(nodes: Seq<SyntaxNode>, all: Seq<usize>, k: int) -> Result<bool, ()>
    decreases all.len() - k,
{
    if k < 0 || k >= all.len() {
        Ok(true)
    } else {
        match direct_call_of(nodes, all[k] as int) {
            Err(_) => Err(()),
            Ok(false) => Ok(false),
            Ok(true) => calls_from(nodes, all, k + 1),
        }
    }
}

/// The split of the branch at position `b`, if it has one: its predicate
/// and its actions. The branch is plain, does not hold the temporary's
/// name, has no alternative, and binds nothing in its condition; its
/// consequence holds two to eight named children, all direct calls.
/// `Err` when the tree lacks a node it refers to.
pub open spec fn split_shape_of(nodes: Seq<SyntaxNode>, b: int) -> Result<Option<(int, Seq<usize>)>, ()> {
    if !plain_branch(nodes[b]) || contains_text(nodes[b].text@, TEMP_NAME@) {
        Ok(None)
    } else {
        match field_child(nodes, b, "alternative"@) {
            Err(_) => Err(()),
            Ok(Some(_)) => Ok(None),
            Ok(None) => match field_child(nodes, b, "condition"@) {
                Err(_) => Err(()),
                Ok(None) => Ok(None),
                Ok(Some(pred)) => match condition_binds(nodes, pred) {
                    Err(_) => Err(()),
                    Ok(true) => Ok(None),
                    Ok(false) => match field_child(nodes, b, "consequence"@) {
                        Err(_) => Err(()),
                        Ok(None) => Ok(None),
                        Ok(Some(blk)) => match named_children_of(nodes, blk) {
                            Err(_) => Err(()),
                            Ok(all) => if all.len() < 2 || all.len() > 8 {
                                Ok(None)
                            } else {
                                match calls_from(nodes, all, 0) {
                                    Err(_) => Err(()),
                                    Ok(false) => Ok(None),
                                    Ok(true) => Ok(Some((pred, all))),
                                }
                            },
                        },
                    },
                },
            },
        }
    }
}

pub open spec fn positions_in_tree(nodes: Seq<SyntaxNode>, all: Seq<usize>) -> bool {
    forall|k: int| 0 <= k < all.len() ==> (#[trigger] all[k]) < nodes.len()
}

fn direct_call(nodes: &Vec<SyntaxNode>, n: usize) -> (r: Result<bool, ()>)
    requires
        n < nodes@.len(),
    ensures
        match r {
            Err(_) => direct_call_of(nodes@, n as int) is Err,
            Ok(x) => direct_call_of(nodes@, n as int) == Ok::<bool, ()>(x),
        },
{
    if compare_str(nodes[n].kind.as_str(), "expression_statement") != 0 || nodes[n].has_error {
        return Ok(false);
    }
    let ch = named_children_exec(nodes, n)?;
    Ok(ch.len() == 1 && compare_str(nodes[ch[0]].kind.as_str(), "call_expression") == 0)
}

/// The split of the branch at position `b`, as `split_shape_of` gives it.
pub fn split_shape(nodes: &Vec<SyntaxNode>, b: usize) -> (r: Result<Option<(usize, Vec<usize>)>, ()>)
    requires
        b < nodes@.len(),
    ensures
        match r {
            Err(_) => split_shape_of(nodes@, b as int) is Err,
            Ok(None) => split_shape_of(nodes@, b as int) == Ok::<Option<(int, Seq<usize>)>, ()>(None),
            Ok(Some(s)) => split_shape_of(nodes@, b as int) == Ok::<Option<(int, Seq<usize>)>, ()>(Some((s.0 as int, s.1@)))
                && s.0 < nodes@.len() && positions_in_tree(nodes@, s.1@),
        },
{
    proof {
        reveal_strlit("__deslop_m57_condition");
    }
    if !plain_branch_exec(&nodes[b]) || contains_substring(nodes[b].text.as_str(), TEMP_NAME) {
        return Ok(None);
    }
    if field_child_exec(nodes, b, "alternative")?.is_some() {
        return Ok(None);
    }
    let pred = match field_child_exec(nodes, b, "condition")? {
        None => {
            return Ok(None);
        },
        Some(c) => c,
    };
    proof {
        lemma_field_child_in_tree(nodes@, b as int, "condition"@);
    }
    if condition_binds_exec(nodes, pred)? {
        return Ok(None);
    }
    let blk = match field_child_exec(nodes, b, "consequence")? {
        None => {
            return Ok(None);
        },
        Some(t) => t,
    };
    proof {
        lemma_field_child_in_tree(nodes@, b as int, "consequence"@);
    }
    let all = named_children_exec(nodes, blk)?;
    if all.len() < 2 || all.len() > 8 {
        return Ok(None);
    }
    let ghost outcome = match calls_from(nodes@, all@, 0) {
        Err(_) => Err(()),
        Ok(false) => Ok(None),
        Ok(true) => Ok(Some((pred as int, all@))),
    };
    assert(split_shape_of(nodes@, b as int) == outcome);
    let mut k: usize = 0;
    while k < all.len()
        invariant
            k <= all@.len(),
            positions_in_tree(nodes@, all@),
            calls_from(nodes@, all@, 0) == calls_from(nodes@, all@, k as int),
            split_shape_of(nodes@, b as int) == outcome,
            outcome == match calls_from(nodes@, all@, 0) {
                Err(_) => Err(()),
                Ok(false) => Ok(None),
                Ok(true) => Ok(Some((pred as int, all@))),
            },
        decreases all@.len() - k,
    {
        if !direct_call(nodes, all[k])? {
            return Ok(None);
        }
        k = k + 1;
    }
    Ok(Some((pred, all)))
}

/// The statement that replaces a split branch's actions, one per action.
pub open spec fn action_branch(nodes: Seq<SyntaxNode>, a: usize) -> Seq<char> {
    "if "@ + TEMP_NAME@ + " { "@ + nodes[a as int].text@ + " }"@
}

/// The branches of the actions, separated by single spaces.
pub open spec fn action_branches(nodes: Seq<SyntaxNode>, acts: Seq<usize>) -> Seq<char>
    decreases acts.len(),
{
    if acts.len() == 0 {
        Seq::empty()
    } else if acts.len() == 1 {
        action_branch(nodes, acts[0])
    } else {
        action_branches(nodes, acts.drop_last()) + " "@ + action_branch(nodes, acts.last())
    }
}

/// The block that replaces a split branch: the predicate stored once in
/// the temporary, then one branch on it per action, in order.
pub open spec fn split_text(nodes: Seq<SyntaxNode>, pred: int, acts: Seq<usize>) -> Seq<char> {
    "{ let "@ + TEMP_NAME@ + " = "@ + nodes[pred].text@ + "; "@ + action_branches(nodes, acts) + " }"@
}

/// The block that replaces a split branch, as `split_text` gives it.
pub fn render_split(nodes: &Vec<SyntaxNode>, pred: usize, acts: &Vec<usize>) -> (r: String)
    requires
        pred < nodes@.len(),
        positions_in_tree(nodes@, acts@),
    ensures
        r@ == split_text(nodes@, pred as int, acts@),
{
    let mut branches = String::new();
    let mut i: usize = 0;
    assert(acts@.subrange(0, 0) =~= Seq::<usize>::empty());
    while i < acts.len()
        invariant
            i <= acts@.len(),
            positions_in_tree(nodes@, acts@),
            branches@ == action_branches(nodes@, acts@.subrange(0, i as int)),
        decreases acts@.len() - i,
    {
        if i > 0 {
            crate::json::string_append(&mut branches, " ");
        }
        crate::json::string_append(&mut branches, "if ");
        crate::json::string_append(&mut branches, TEMP_NAME);
        crate::json::string_append(&mut branches, " { ");
        crate::json::string_append(&mut branches, nodes[acts[i]].text.as_str());
        crate::json::string_append(&mut branches, " }");
        proof {
            let sub = acts@.subrange(0, i + 1);
            assert(sub.drop_last() =~= acts@.subrange(0, i as int));
            assert(sub.last() == acts@[i as int]);
            if i == 0 {
                assert(sub =~= seq![acts@[0]]);
            }
            assert(branches@ =~= action_branches(nodes@, sub));
        }
        i = i + 1;
    }
    assert(acts@.subrange(0, acts@.len() as int) =~= acts@);
    let mut out = String::new();
    crate::json::string_append(&mut out, "{ let ");
    crate::json::string_append(&mut out, TEMP_NAME);
    crate::json::string_append(&mut out, " = ");
    crate::json::string_append(&mut out, nodes[pred].text.as_str());
    crate::json::string_append(&mut out, "; ");
    crate::json::string_append(&mut out, branches.as_str());
    crate::json::string_append(&mut out, " }");
    assert(out@ =~= split_text(nodes@, pred as int, acts@));
    out
}

/// A dependence node whose source lies within the bytes of an action.
pub open spec fn within_action(n: PdgNode, action: NodeKeyView) -> bool {
    n.source matches Some(s) && s.start_byte >= action.start_byte && s.end_byte <= action.end_byte
}

/// The roots of an action: the keys of the dependence nodes whose source
/// lies within it.
pub open spec fn action_roots(nodes: Seq<PdgNode>, action: NodeKeyView) -> Set<Seq<char>> {
    Set::new(|k: Seq<char>| exists|i: int| 0 <= i < nodes.len() && #[trigger] within_action(nodes[i], action) && nodes[i].key@ == k)
}

/// The flow slice of every action, in action order.
pub open spec fn action_slices(g_nodes: Seq<PdgNode>, edges: Seq<DependenceEdge>, syntax: Seq<SyntaxNode>, acts: Seq<usize>) -> Seq<
    Set<Seq<char>>,
> {
    acts.map_values(|a: usize| flow_closure(edges, action_roots(g_nodes, syntax[a as int].key@)))
}

/// No node lies in two slices, and no data-flow edge joins two slices.
pub open spec fn crossing_free(edges: Seq<DependenceEdge>, slices: Seq<Set<Seq<char>>>) -> bool {
    &&& forall|i: int, j: int, k: Seq<char>|
        0 <= i < j < slices.len() && #[trigger] slices[i].contains(k) ==> !#[trigger] slices[j].contains(k)
    &&& forall|e: int, i: int, j: int|
        0 <= e < edges.len() && 0 <= i < slices.len() && 0 <= j < slices.len() && i != j && edges[e].flow ==> !(
        #[trigger] slices[i].contains(edges[e].from@) && #[trigger] slices[j].contains(edges[e].to@))
}

/// The sorted, distinct roots of an action.
fn roots_of(nodes: &Vec<PdgNode>, action: &NodeKey) -> (r: Vec<String>)
    ensures
        keys_strictly_increasing(r@),
        view_set(r@) == action_roots(nodes@, action@),
{
    let mut out: Vec<String> = Vec::new();
    let mut i: usize = 0;
    assert(view_set(out@) =~= Set::<Seq<char>>::empty());
    while i < nodes.len()
        invariant
            i <= nodes@.len(),
            keys_strictly_increasing(out@),
            view_set(out@) == Set::new(
                |k: Seq<char>| exists|x: int| 0 <= x < i && #[trigger] within_action(nodes@[x], action@) && nodes@[x].key@ == k,
            ),
        decreases nodes@.len() - i,
    {
        let n = &nodes[i];
        let hit = match &n.source {
            Some(s) => s.start_byte >= action.start_byte && s.end_byte <= action.end_byte,
            None => false,
        };
        let ghost before = view_set(out@);
        if hit {
            insert_sorted_str(&mut out, n.key.clone());
            assert(within_action(nodes@[i as int], action@));
            assert(view_set(out@) == before.insert(nodes@[i as int].key@));
        } else {
            assert(!within_action(nodes@[i as int], action@));
        }
        proof {
            let now = Set::new(
                |k: Seq<char>| exists|x: int| 0 <= x < i + 1 && #[trigger] within_action(nodes@[x], action@) && nodes@[x].key@ == k,
            );
            assert forall|k: Seq<char>| view_set(out@).contains(k) <==> now.contains(k) by {
                if now.contains(k) {
                    let x = choose|x: int| 0 <= x < i + 1 && #[trigger] within_action(nodes@[x], action@) && nodes@[x].key@ == k;
                    if x < i {
                        assert(before.contains(k));
                    }
                }
                if before.contains(k) {
                    let x = choose|x: int| 0 <= x < i && #[trigger] within_action(nodes@[x], action@) && nodes@[x].key@ == k;
                    assert(now.contains(k));
                }
                if hit && k == nodes@[i as int].key@ {
                    assert(within_action(nodes@[i as int], action@) && nodes@[i as int].key@ == k);
                    assert(now.contains(k));
                }
            }
            assert(view_set(out@) =~= now);
        }
        i = i + 1;
    }
    assert(view_set(out@) =~= action_roots(nodes@, action@));
    out
}

/// Whether a sorted vector holds a string.
pub fn holds_text(v: &Vec<String>, s: &str) -> (r: bool)
    ensures
        r == view_set(v@).contains(s@),
{
    let mut i: usize = 0;
    while i < v.len()
        invariant
            i <= v@.len(),
            forall|j: int| 0 <= j < i ==> (#[trigger] v@[j])@ != s@,
        decreases v@.len() - i,
    {
        if compare_str(v[i].as_str(), s) == 0 {
            return true;
        }
        i = i + 1;
    }
    false
}

/// Whether slices cross, as `crossing_free` gives it, over slices held as
/// vectors.
fn slices_cross_free(edges: &Vec<DependenceEdge>, slices: &Vec<Vec<String>>) -> (r: bool)
    ensures
        r == crossing_free(edges@, slices@.map_values(|v: Vec<String>| view_set(v@))),
{
    let ghost ss = slices@.map_values(|v: Vec<String>| view_set(v@));
    let n = slices.len();
    let mut i: usize = 0;
    while i < n
        invariant
            n == slices@.len(),
            ss == slices@.map_values(|v: Vec<String>| view_set(v@)),
            i <= n,
            forall|x: int, y: int, k: Seq<char>| 0 <= x < i && x < y < n && #[trigger] ss[x].contains(k) ==> !#[trigger] ss[y].contains(k),
        decreases n - i,
    {
        let mut j: usize = i + 1;
        while j < n
            invariant
                n == slices@.len(),
                ss == slices@.map_values(|v: Vec<String>| view_set(v@)),
                i < n,
                i + 1 <= j <= n,
                forall|x: int, y: int, k: Seq<char>| 0 <= x < i && x < y < n && #[trigger] ss[x].contains(k) ==> !#[trigger] ss[y].contains(k),
                forall|y: int, k: Seq<char>| i < y < j && #[trigger] ss[i as int].contains(k) ==> !#[trigger] ss[y].contains(k),
            decreases n - j,
        {
            let a = &slices[i];
            let mut t: usize = 0;
            while t < a.len()
                invariant
                    n == slices@.len(),
                    ss == slices@.map_values(|v: Vec<String>| view_set(v@)),
                    i < j < n,
                    *a == slices@[i as int],
                    t <= a@.len(),
                    forall|x: int| 0 <= x < t ==> !ss[j as int].contains(#[trigger] a@[x]@),
                decreases a@.len() - t,
            {
                if holds_text(&slices[j], a[t].as_str()) {
                    proof {
                        assert(ss[i as int].contains(a@[t as int]@));
                        assert(ss[j as int].contains(a@[t as int]@));
                    }
                    return false;
                }
                t = t + 1;
            }
            proof {
                assert forall|k: Seq<char>| #[trigger] ss[i as int].contains(k) implies !ss[j as int].contains(k) by {
                    let x = choose|x: int| 0 <= x < a@.len() && (#[trigger] a@[x])@ == k;
                }
            }
            j = j + 1;
        }
        i = i + 1;
    }
    let m = edges.len();
    let mut e: usize = 0;
    while e < m
        invariant
            m == edges@.len(),
            n == slices@.len(),
            ss == slices@.map_values(|v: Vec<String>| view_set(v@)),
            e <= m,
            forall|x: int, y: int, k: Seq<char>| 0 <= x < y < n && #[trigger] ss[x].contains(k) ==> !#[trigger] ss[y].contains(k),
            forall|f: int, x: int, y: int|
                0 <= f < e && 0 <= x < n && 0 <= y < n && x != y && edges@[f].flow ==> !(#[trigger] ss[x].contains(edges@[f].from@)
                    && #[trigger] ss[y].contains(edges@[f].to@)),
        decreases m - e,
    {
        let edge = &edges[e];
        if edge.flow {
            let mut x: usize = 0;
            while x < n
                invariant
                    m == edges@.len(),
                    n == slices@.len(),
                    ss == slices@.map_values(|v: Vec<String>| view_set(v@)),
                    e < m,
                    *edge == edges@[e as int],
                    edge.flow,
                    x <= n,
                    forall|f: int, a: int, b: int|
                        0 <= f < e && 0 <= a < n && 0 <= b < n && a != b && edges@[f].flow ==> !(#[trigger] ss[a].contains(edges@[f].from@)
                            && #[trigger] ss[b].contains(edges@[f].to@)),
                    forall|a: int, b: int| 0 <= a < x && 0 <= b < n && a != b ==> !(#[trigger] ss[a].contains(edge.from@)
                        && #[trigger] ss[b].contains(edge.to@)),
                decreases n - x,
            {
                if holds_text(&slices[x], edge.from.as_str()) {
                    let mut y: usize = 0;
                    while y < n
                        invariant
                            n == slices@.len(),
                            ss == slices@.map_values(|v: Vec<String>| view_set(v@)),
                            x < n,
                            y <= n,
                            e < m,
                            m == edges@.len(),
                            *edge == edges@[e as int],
                            edge.flow,
                            ss[x as int].contains(edge.from@),
                            forall|b: int| 0 <= b < y && b != x ==> !(#[trigger] ss[b]).contains(edge.to@),
                        decreases n - y,
                    {
                        if y != x && holds_text(&slices[y], edge.to.as_str()) {
                            proof {
                                assert(edges@[e as int].from@ == edge.from@ && edges@[e as int].to@ == edge.to@);
                                assert(ss[x as int].contains(edges@[e as int].from@));
                                assert(ss[y as int].contains(edges@[e as int].to@));
                            }
                            return false;
                        }
                        y = y + 1;
                    }
                }
                x = x + 1;
            }
        }
        e = e + 1;
    }
    true
}

/// Every action has at least one root.
pub open spec fn all_rooted(g_nodes: Seq<PdgNode>, syntax: Seq<SyntaxNode>, acts: Seq<usize>) -> bool {
    forall|k: int| 0 <= k < acts.len() ==> #[trigger] action_roots(g_nodes, syntax[acts[k] as int].key@) != Set::<
        Seq<char>,
    >::empty()
}

/// The flow slices of the actions, each sorted, when every action has a
/// root; nothing otherwise.
fn slices_for(g: &super::retained::PdgGraph, syntax: &Vec<SyntaxNode>, acts: &Vec<usize>) -> (r: Option<Vec<Vec<String>>>)
    requires
        positions_in_tree(syntax@, acts@),
    ensures
        r is None <==> !all_rooted(g.nodes@, syntax@, acts@),
        r matches Some(v) ==> v@.len() == acts@.len() && v@.map_values(|x: Vec<String>| view_set(x@)) == action_slices(
            g.nodes@,
            g.edges@,
            syntax@,
            acts@,
        ) && forall|k: int| 0 <= k < v@.len() ==> keys_strictly_increasing(#[trigger] v@[k]@),
{
    let mut out: Vec<Vec<String>> = Vec::new();
    let mut k: usize = 0;
    while k < acts.len()
        invariant
            k <= acts@.len(),
            positions_in_tree(syntax@, acts@),
            out@.len() == k,
            forall|x: int| 0 <= x < k ==> #[trigger] action_roots(g.nodes@, syntax@[acts@[x] as int].key@) != Set::<
                Seq<char>,
            >::empty(),
            forall|x: int| 0 <= x < k ==> view_set((#[trigger] out@[x])@) == flow_closure(
                g.edges@,
                action_roots(g.nodes@, syntax@[acts@[x] as int].key@),
            ) && keys_strictly_increasing(out@[x]@),
        decreases acts@.len() - k,
    {
        let roots = roots_of(&g.nodes, &syntax[acts[k]].key);
        if roots.len() == 0 {
            proof {
                assert(view_set(roots@) =~= Set::<Seq<char>>::empty());
                assert(!all_rooted(g.nodes@, syntax@, acts@)) by {
                    assert(action_roots(g.nodes@, syntax@[acts@[k as int] as int].key@) == Set::<Seq<char>>::empty());
                }
            }
            return None;
        }
        proof {
            assert(view_set(roots@).contains(roots@[0]@));
        }
        let slice = flow_slice(&g.edges, &roots);
        out.push(slice);
        k = k + 1;
    }
    proof {
        assert(out@.map_values(|x: Vec<String>| view_set(x@)) =~= action_slices(g.nodes@, g.edges@, syntax@, acts@));
    }
    Some(out)
}

/// A split the recipe reads: the dependence graph and the positions of the
/// graphs it derives from, the dispatch point, the branch, and the
/// dependence node at the dispatch.
#[derive(Clone, Copy, Debug)]
pub struct SplitSite {
    pub graph: usize,
    pub flow: usize,
    pub non_structured: usize,
    pub data_flow: usize,
    pub point: usize,
    pub branch: usize,
    pub node: usize,
}

/// One control point of a dependence graph's flow graph: the site it
/// yields, if any. A point yields nothing unless it is an unrecovered
/// dispatch with a source whose two edges are exact branch edges, whose
/// branch splits, whose dependence node exists, whose every action has a
/// root, and whose action slices do not cross. `Err` when the tree lacks
/// the source's node or a node the branch refers to.
pub open spec fn split_step(p: RetainedProjection, gi: int, pi: int, l: (int, int, int)) -> Result<Option<SplitSite>, ()> {
    let g = p.dependence_graphs@[gi];
    let flow = p.flow_graphs@[l.0];
    let point = flow.points@[pi];
    if point.kind != FlowPointKind::BranchDispatch || point.recovered || point.source is None {
        Ok(None)
    } else if !exact_branch_edges(flow, point.key@) {
        Ok(None)
    } else {
        match first_match(p.syntax@, syntax_key_is(point.source->0@)) {
            None => Err(()),
            Some(b) => match split_shape_of(p.syntax@, b) {
                Err(_) => Err(()),
                Ok(None) => Ok(None),
                Ok(Some(sh)) => match first_match(g.nodes@, node_point_is(point.key@)) {
                    None => Ok(None),
                    Some(ni) => if !all_rooted(g.nodes@, p.syntax@, sh.1) || !crossing_free(
                        g.edges@,
                        action_slices(g.nodes@, g.edges@, p.syntax@, sh.1),
                    ) {
                        Ok(None)
                    } else {
                        Ok(
                            Some(
                                SplitSite {
                                    graph: gi as usize,
                                    flow: l.0 as usize,
                                    non_structured: l.1 as usize,
                                    data_flow: l.2 as usize,
                                    point: pi as usize,
                                    branch: b as usize,
                                    node: ni as usize,
                                },
                            ),
                        )
                    },
                },
            },
        }
    }
}

pub open spec fn opt_split(o: Option<SplitSite>) -> Seq<SplitSite> {
    match o {
        Some(x) => seq![x],
        None => Seq::empty(),
    }
}

/// The sites of the first `k` points of a dependence graph's flow graph.
pub open spec fn scan_splits(p: RetainedProjection, gi: int, l: (int, int, int), k: nat) -> Result<Seq<SplitSite>, ()>
    decreases k,
{
    if k == 0 {
        Ok(Seq::empty())
    } else {
        match scan_splits(p, gi, l, (k - 1) as nat) {
            Err(_) => Err(()),
            Ok(sites) => match split_step(p, gi, k - 1, l) {
                Err(_) => Err(()),
                Ok(o) => Ok(sites + opt_split(o)),
            },
        }
    }
}

/// The sites of the first `j` dependence graphs, in order.
pub open spec fn scan_split_graphs(p: RetainedProjection, j: nat) -> Result<Seq<SplitSite>, ()>
    decreases j,
{
    if j == 0 {
        Ok(Seq::empty())
    } else {
        match scan_split_graphs(p, (j - 1) as nat) {
            Err(_) => Err(()),
            Ok(sites) => match branch_lookups(p, j - 1) {
                Err(_) => Err(()),
                Ok(l) => match scan_splits(p, j - 1, l, p.flow_graphs@[l.0].points@.len()) {
                    Err(_) => Err(()),
                    Ok(s2) => Ok(sites + s2),
                },
            },
        }
    }
}

/// The split sites of a whole projection.
pub open spec fn split_sites_of(p: RetainedProjection) -> Result<Seq<SplitSite>, ()> {
    scan_split_graphs(p, p.dependence_graphs@.len())
}

fn step_split(p: &RetainedProjection, gi: usize, pi: usize, l: (usize, usize, usize)) -> (r: Result<Option<SplitSite>, ()>)
    requires
        gi < p.dependence_graphs@.len(),
        branch_lookups(*p, gi as int) == Ok::<(int, int, int), ()>((l.0 as int, l.1 as int, l.2 as int)),
        pi < p.flow_graphs@[l.0 as int].points@.len(),
    ensures
        r == split_step(*p, gi as int, pi as int, (l.0 as int, l.1 as int, l.2 as int)),
{
    proof {
        lemma_branch_lookups_in_range(*p, gi as int);
    }
    let g = &p.dependence_graphs[gi];
    let flow = &p.flow_graphs[l.0];
    let point = &flow.points[pi];
    if point.kind != FlowPointKind::BranchDispatch || point.recovered {
        return Ok(None);
    }
    let source = match &point.source {
        None => {
            return Ok(None);
        },
        Some(s) => s,
    };
    if !exact_branch_edges_exec(flow, point.key.as_str()) {
        return Ok(None);
    }
    let b = match find_syntax(&p.syntax, source) {
        None => {
            return Err(());
        },
        Some(b) => b,
    };
    proof {
        lemma_first_match_found(p.syntax@, syntax_key_is(source@));
    }
    let sh = match split_shape(&p.syntax, b) {
        Err(()) => {
            return Err(());
        },
        Ok(None) => {
            return Ok(None);
        },
        Ok(Some(sh)) => sh,
    };
    let ni = match find_node_by_point(&g.nodes, point.key.as_str()) {
        None => {
            return Ok(None);
        },
        Some(ni) => ni,
    };
    let slices = match slices_for(g, &p.syntax, &sh.1) {
        None => {
            return Ok(None);
        },
        Some(v) => v,
    };
    if !slices_cross_free(&g.edges, &slices) {
        return Ok(None);
    }
    Ok(Some(SplitSite { graph: gi, flow: l.0, non_structured: l.1, data_flow: l.2, point: pi, branch: b, node: ni }))
}

proof fn lemma_scan_splits_err_stays(p: RetainedProjection, gi: int, l: (int, int, int), k: nat, m: nat)
    requires
        k <= m,
        scan_splits(p, gi, l, k) is Err,
    ensures
        scan_splits(p, gi, l, m) is Err,
    decreases m - k,
{
    if k < m {
        lemma_scan_splits_err_stays(p, gi, l, k, (m - 1) as nat);
    }
}

proof fn lemma_scan_split_graphs_err_stays(p: RetainedProjection, k: nat, m: nat)
    requires
        k <= m,
        scan_split_graphs(p, k) is Err,
    ensures
        scan_split_graphs(p, m) is Err,
    decreases m - k,
{
    if k < m {
        lemma_scan_split_graphs_err_stays(p, k, (m - 1) as nat);
    }
}

/// The split sites of a projection, in graph and point order.
pub fn split_sites(p: &RetainedProjection) -> (r: Result<Vec<SplitSite>, ()>)
    ensures
        r matches Ok(v) ==> split_sites_of(*p) == Ok::<Seq<SplitSite>, ()>(v@),
        r is Err ==> split_sites_of(*p) is Err,
{
    let mut sites: Vec<SplitSite> = Vec::new();
    let ng = p.dependence_graphs.len();
    let mut j: usize = 0;
    while j < ng
        invariant
            ng == p.dependence_graphs@.len(),
            j <= ng,
            scan_split_graphs(*p, j as nat) == Ok::<Seq<SplitSite>, ()>(sites@),
        decreases ng - j,
    {
        let l = match branch_lookups_exec(p, j) {
            None => {
                proof {
                    lemma_scan_split_graphs_err_stays(*p, (j + 1) as nat, ng as nat);
                }
                return Err(());
            },
            Some(l) => l,
        };
        proof {
            lemma_branch_lookups_in_range(*p, j as int);
        }
        let ghost lk = (l.0 as int, l.1 as int, l.2 as int);
        let ghost start_sites = sites@;
        let np = p.flow_graphs[l.0].points.len();
        let mut k: usize = 0;
        assert(sites@.subrange(start_sites.len() as int, sites@.len() as int) =~= Seq::<SplitSite>::empty());
        while k < np
            invariant
                ng == p.dependence_graphs@.len(),
                j < ng,
                l.0 < p.flow_graphs@.len(),
                np == p.flow_graphs@[l.0 as int].points@.len(),
                k <= np,
                branch_lookups(*p, j as int) == Ok::<(int, int, int), ()>(lk),
                lk == (l.0 as int, l.1 as int, l.2 as int),
                scan_split_graphs(*p, j as nat) == Ok::<Seq<SplitSite>, ()>(start_sites),
                scan_splits(*p, j as int, lk, k as nat) == Ok::<Seq<SplitSite>, ()>(
                    sites@.subrange(start_sites.len() as int, sites@.len() as int),
                ),
                sites@.subrange(0, start_sites.len() as int) == start_sites,
                start_sites.len() <= sites@.len(),
            decreases np - k,
        {
            let ghost before = sites@;
            match step_split(p, j, k, l) {
                Err(()) => {
                    proof {
                        lemma_scan_splits_err_stays(*p, j as int, lk, (k + 1) as nat, np as nat);
                        assert(scan_split_graphs(*p, (j + 1) as nat) is Err);
                        lemma_scan_split_graphs_err_stays(*p, (j + 1) as nat, ng as nat);
                    }
                    return Err(());
                },
                Ok(Some(site)) => {
                    sites.push(site);
                    proof {
                        assert(sites@.subrange(start_sites.len() as int, sites@.len() as int) =~= before.subrange(
                            start_sites.len() as int,
                            before.len() as int,
                        ) + seq![site]);
                        assert(sites@.subrange(0, start_sites.len() as int) =~= before.subrange(0, start_sites.len() as int));
                    }
                },
                Ok(None) => {
                    proof {
                        assert(before.subrange(start_sites.len() as int, before.len() as int) + Seq::<SplitSite>::empty()
                            =~= before.subrange(start_sites.len() as int, before.len() as int));
                    }
                },
            }
            k = k + 1;
        }
        proof {
            assert(sites@ =~= start_sites + sites@.subrange(start_sites.len() as int, sites@.len() as int));
        }
        j = j + 1;
    }
    Ok(sites)
}

/// A site names positions of the projection: its graphs, dispatch point
/// and dependence node lie in range, its dispatch's source is its
/// branch's node, its branch splits, every action has a root, and the
/// action slices do not cross.
pub open spec fn split_site_ok(p: RetainedProjection, site: SplitSite) -> bool {
    let flow = p.flow_graphs@[site.flow as int];
    let g = p.dependence_graphs@[site.graph as int];
    &&& site.graph < p.dependence_graphs@.len()
    &&& site.flow < p.flow_graphs@.len()
    &&& site.non_structured < p.non_structured_graphs@.len()
    &&& site.data_flow < p.data_flow_graphs@.len()
    &&& site.point < flow.points@.len()
    &&& site.node < g.nodes@.len()
    &&& site.branch < p.syntax@.len()
    &&& split_shape_of(p.syntax@, site.branch as int) matches Ok(Some(sh)) && all_rooted(g.nodes@, p.syntax@, sh.1)
        && crossing_free(g.edges@, action_slices(g.nodes@, g.edges@, p.syntax@, sh.1))
    &&& flow.points@[site.point as int].source matches Some(src) && src@ == p.syntax@[site.branch as int].key@
    &&& g.nodes@[site.node as int].point@ == flow.points@[site.point as int].key@
}

proof fn lemma_split_step_ok(p: RetainedProjection, gi: int, pi: int, l: (int, int, int))
    requires
        0 <= gi < p.dependence_graphs@.len(),
        branch_lookups(p, gi) == Ok::<(int, int, int), ()>(l),
        0 <= pi < p.flow_graphs@[l.0].points@.len(),
        split_step(p, gi, pi, l) matches Ok(Some(_)),
    ensures
        split_site_ok(p, split_step(p, gi, pi, l)->Ok_0->Some_0),
{
    lemma_branch_lookups_in_range(p, gi);
    let g = p.dependence_graphs@[gi];
    let flow = p.flow_graphs@[l.0];
    let point = flow.points@[pi];
    lemma_first_match_found(p.syntax@, syntax_key_is(point.source->0@));
    lemma_first_match_found(g.nodes@, node_point_is(point.key@));
    vstd::std_specs::vec::axiom_spec_len(&p.dependence_graphs);
    vstd::std_specs::vec::axiom_spec_len(&g.nodes);
    vstd::std_specs::vec::axiom_spec_len(&p.syntax);
    vstd::std_specs::vec::axiom_spec_len(&p.flow_graphs);
    vstd::std_specs::vec::axiom_spec_len(&flow.points);
    vstd::std_specs::vec::axiom_spec_len(&p.non_structured_graphs);
    vstd::std_specs::vec::axiom_spec_len(&p.data_flow_graphs);
}

proof fn lemma_scan_splits_ok(p: RetainedProjection, gi: int, l: (int, int, int), k: nat)
    requires
        0 <= gi < p.dependence_graphs@.len(),
        branch_lookups(p, gi) == Ok::<(int, int, int), ()>(l),
        k <= p.flow_graphs@[l.0].points@.len(),
        scan_splits(p, gi, l, k) is Ok,
    ensures
        forall|i: int| 0 <= i < scan_splits(p, gi, l, k)->Ok_0.len() ==> split_site_ok(
            p,
            #[trigger] scan_splits(p, gi, l, k)->Ok_0[i],
        ),
    decreases k,
{
    lemma_branch_lookups_in_range(p, gi);
    if k > 0 {
        lemma_scan_splits_ok(p, gi, l, (k - 1) as nat);
        let prev = scan_splits(p, gi, l, (k - 1) as nat)->Ok_0;
        if split_step(p, gi, k - 1, l) matches Ok(Some(_)) {
            lemma_split_step_ok(p, gi, k - 1, l);
        }
        let all = scan_splits(p, gi, l, k)->Ok_0;
        assert forall|i: int| 0 <= i < all.len() implies split_site_ok(p, #[trigger] all[i]) by {
            if i < prev.len() {
                assert(all[i] == prev[i]);
            }
        }
    }
}

/// Every split site of a projection names positions that lie in it.
pub proof fn lemma_split_sites_ok(p: RetainedProjection, j: nat)
    requires
        j <= p.dependence_graphs@.len(),
        scan_split_graphs(p, j) is Ok,
    ensures
        forall|i: int| 0 <= i < scan_split_graphs(p, j)->Ok_0.len() ==> split_site_ok(
            p,
            #[trigger] scan_split_graphs(p, j)->Ok_0[i],
        ),
    decreases j,
{
    if j > 0 {
        lemma_split_sites_ok(p, (j - 1) as nat);
        let prev = scan_split_graphs(p, (j - 1) as nat)->Ok_0;
        let l = branch_lookups(p, j - 1)->Ok_0;
        lemma_branch_lookups_in_range(p, j - 1);
        lemma_scan_splits_ok(p, j - 1, l, p.flow_graphs@[l.0].points@.len());
        let more = scan_splits(p, j - 1, l, p.flow_graphs@[l.0].points@.len())->Ok_0;
        let all = scan_split_graphs(p, j)->Ok_0;
        assert forall|i: int| 0 <= i < all.len() implies split_site_ok(p, #[trigger] all[i]) by {
            if i < prev.len() {
                assert(all[i] == prev[i]);
            } else {
                assert(all[i] == more[i - prev.len()]);
            }
        }
    }
}

pub const ACTIONS_DETAIL: &'static str = "Exact Rust CST contains only direct call statements.";
pub const SLICE_DETAIL: &'static str = "Retained action flow-slice entity.";
pub const PROVEN_SLICES_DETAIL: &'static str = "Complete DefUse and LocalPdg authority prove disjoint action slices.";
pub const UNKNOWN_SLICES_DETAIL: &'static str =
    "No crossing is retained, but unavailable DefUse/LocalPdg authority makes absence Unknown.";
pub const ORDER_DETAIL: &'static str = "The predicate is stored once and action source order is retained.";
pub const EFFECTS_DETAIL: &'static str = "Production Effects cannot prove scope, temporary, or drop independence.";
pub const CROSSING_DETAIL: &'static str = "No retained crossing reaches another action slice.";
pub const SCOPE_DETAIL: &'static str = "Missing DefUse/Effects cannot disprove a hidden scope or drop change.";
pub const CONTROL_DETAIL: &'static str = "Dispatch and outgoing edges are exact and unrecovered.";
pub const NO_FACTS_DETAIL: &'static str = "No non-structured fact participates.";
pub const FACTS_DETAIL: &'static str = "Non-structured facts require review.";
pub const ROOT_RATIONALE: &'static str = "The compound dispatch becomes ordered per-action dispatches.";
pub const ENTITY_RATIONALE: &'static str = "The action dependence entity must remain after splitting.";

/// A listing of a set in strictly increasing key order.
pub open spec fn ordered_listing(t: Seq<Seq<char>>, s: Set<Seq<char>>) -> bool {
    &&& t.to_set() == s
    &&& forall|i: int, j: int| 0 <= i < j < t.len() ==> lex_lt(str_key(#[trigger] t[i]), str_key(#[trigger] t[j]))
}

/// Each slice listed in order.
pub open spec fn slices_listed(lists: Seq<Seq<Seq<char>>>, slices: Seq<Set<Seq<char>>>) -> bool {
    &&& lists.len() == slices.len()
    &&& forall|k: int| 0 <= k < lists.len() ==> ordered_listing(#[trigger] lists[k], slices[k])
}

/// The independence the graphs' authority gives: proven when the data-flow
/// graph provides def/use facts and the dependence graph local facts, each
/// with an authority.
pub open spec fn split_independence(p: RetainedProjection, site: SplitSite) -> ProofState {
    let g = p.dependence_graphs@[site.graph as int];
    let data = p.data_flow_graphs@[site.data_flow as int];
    if data.def_use_support == CapabilitySupport::Provided && g.local_pdg_support == CapabilitySupport::Provided
        && data.def_use_authority is Some && g.local_pdg_authority is Some {
        ProofState::Proven
    } else {
        ProofState::Unknown
    }
}

pub open spec fn slices_detail(state: ProofState) -> Seq<char> {
    if state == ProofState::Proven {
        PROVEN_SLICES_DETAIL@
    } else {
        UNKNOWN_SLICES_DETAIL@
    }
}

/// The slices result: the independence state, one piece of evidence per
/// slice entity, the first naming how the independence is known.
pub open spec fn slices_result(r: ConditionResult, state: ProofState, ents: Seq<GraphEntityView>) -> bool {
    &&& r.condition@ == REQUIRED_SLICES@
    &&& r.state == state
    &&& r.evidence@.len() == ents.len()
    &&& ents.len() > 0
    &&& r.evidence@[0]@ == ConditionEvidenceView {
        entity: ents[0],
        detail: slices_detail(state),
        capability: None,
        support: None,
        authority: None,
    }
    &&& forall|k: int| 1 <= k < ents.len() ==> (#[trigger] r.evidence@[k])@ == ConditionEvidenceView {
        entity: ents[k],
        detail: SLICE_DETAIL@,
        capability: None,
        support: None,
        authority: None,
    }
}

/// The impact cone of a site: the answer of a bidirectional query of depth
/// eight around its dependence node.
pub open spec fn split_impact(p: RetainedProjection, site: SplitSite, impact: ImpactCone) -> bool {
    let g = p.dependence_graphs@[site.graph as int];
    exists|deps: Seq<DependenceGraph>|
        dependence_views(deps, p.dependence_graphs@) && #[trigger] crate::impact::impact_answer(
            deps,
            g.key@,
            g.nodes@[site.node as int].key@,
            ImpactDirection::Bidirectional,
            8,
            Ok(impact),
        )
}

/// The draft of a split, given the listings of its action slices: bound
/// to the recipe and the projection's identities; targeting the branch
/// through the dependence node at its dispatch; the direct actions and
/// their order proven on the dispatch, the slices in the independence
/// state on every slice entity, effects unknown with the data-flow graph's
/// effect capability; crossing disproven or unknown with the independence
/// on every slice entity, scope changes unknown with the def/use
/// capability, uncertain control disproven on the dispatch, non-structured
/// control disproven exactly when the callable has no such fact; the
/// dispatch removed and every slice entity kept; one exact replacement of
/// the branch by the stored predicate and one branch per action; the
/// recipe's plans; review required at safe-with-precondition.
pub open spec fn is_split_draft(
    d: TransformationCandidateDraft,
    p: RetainedProjection,
    site: SplitSite,
    recipe: TransformationRecipe,
    lists: Seq<Seq<Seq<char>>>,
) -> bool {
    let g = p.dependence_graphs@[site.graph as int];
    let flow = p.flow_graphs@[site.flow as int];
    let nsc = p.non_structured_graphs@[site.non_structured as int];
    let data = p.data_flow_graphs@[site.data_flow as int];
    let branch = p.syntax@[site.branch as int];
    let sh = split_shape_of(p.syntax@, site.branch as int)->Ok_0->Some_0;
    let fd = GraphEntityView { layer: GraphEvidenceLayer::ControlFlow, graph: flow.key@, entity: flow.points@[site.point as int].key@ };
    let de = GraphEntityView { layer: GraphEvidenceLayer::DataFlow, graph: data.key@, entity: data.key@ };
    let ne = GraphEntityView { layer: GraphEvidenceLayer::NonStructuredControl, graph: nsc.key@, entity: nsc.key@ };
    let ents = lists.flatten_alt().map_values(|k: Seq<char>| pdg_entity(g.key@, k));
    let state = split_independence(p, site);
    let root = pdg_entity(g.key@, g.nodes@[site.node as int].key@);
    let span = node_span(branch.key@);
    &&& slices_listed(lists, action_slices(g.nodes@, g.edges@, p.syntax@, sh.1))
    &&& d.recipe.spec_id() == recipe.spec_id()
    &&& (recipe.wf() ==> d.recipe.wf())
    &&& d.source.project_snapshot@ == p.snapshot@
    &&& d.source.analysis@ == p.analysis@
    &&& d.source.program_dependence_projection@ == p.id@
    &&& d.target.entity@ == root
    &&& d.target.node@ == branch.key@
    &&& d.target.span == span
    &&& d.target.subtree_fingerprint is None
    &&& d.eligibility.consumer@ == g.eligibility.consumer@
    &&& d.eligibility.required_layers@ == g.eligibility.required_layers@
    &&& d.eligibility.eligible == g.eligibility.eligible
    &&& d.required_results@.len() == 4
    &&& single_result(d.required_results@[0], REQUIRED_ACTIONS@, ProofState::Proven, fd, ACTIONS_DETAIL@)
    &&& slices_result(d.required_results@[1], state, ents)
    &&& single_result(d.required_results@[2], REQUIRED_ORDER@, ProofState::Proven, fd, ORDER_DETAIL@)
    &&& capability_result(d.required_results@[3], REQUIRED_EFFECTS@, ProofState::Unknown, de, EFFECTS_DETAIL@, EFFECTS@,
        data.effects_support, text_view(data.effects_authority))
    &&& d.forbidden_results@.len() == 4
    &&& list_result(d.forbidden_results@[0], FORBIDDEN_CROSSING@, if state == ProofState::Proven {
        ProofState::Disproven
    } else {
        ProofState::Unknown
    }, ents, CROSSING_DETAIL@)
    &&& capability_result(d.forbidden_results@[1], FORBIDDEN_SCOPE@, ProofState::Unknown, de, SCOPE_DETAIL@, DEF_USE@,
        data.def_use_support, text_view(data.def_use_authority))
    &&& single_result(d.forbidden_results@[2], FORBIDDEN_CONTROL@, ProofState::Disproven, fd, CONTROL_DETAIL@)
    &&& (if nsc.has_facts {
        single_result(d.forbidden_results@[3], FORBIDDEN_NON_STRUCTURED@, ProofState::Unknown, ne, FACTS_DETAIL@)
    } else {
        single_result(d.forbidden_results@[3], FORBIDDEN_NON_STRUCTURED@, ProofState::Disproven, ne, NO_FACTS_DETAIL@)
    })
    &&& d.expected_delta.changes@.len() == 1 + ents.len()
    &&& d.expected_delta.changes@[0].kind == GraphChangeKind::Remove
    &&& d.expected_delta.changes@[0].entity@ == root
    &&& d.expected_delta.changes@[0].rationale@ == ROOT_RATIONALE@
    &&& forall|k: int| 0 <= k < ents.len() ==> {
        let c = #[trigger] d.expected_delta.changes@[1 + k];
        c.kind == GraphChangeKind::Preserve && c.entity@ == ents[k] && c.rationale@ == ENTITY_RATIONALE@
    }
    &&& d.edits@.len() == 1
    &&& d.edits@[0].target@ == branch.key@
    &&& d.edits@[0].span == span
    &&& d.edits@[0].before@ == branch.text@
    &&& d.edits@[0].after@ == split_text(p.syntax@, sh.0, sh.1)
    &&& d.edits@[0].revision_guard@ == revision_guard_id(branch.key@.path, span, branch.text@)
    &&& d.safety == SafetyClass::SafeWithPrecondition
    &&& d.disposition == CandidateDisposition::ReviewRequired
    &&& steps_agree(d.validation_plan.steps@, recipe.spec_draft().validation_plan.steps@)
    &&& d.rollback_plan.strategy == recipe.spec_draft().rollback_plan.strategy
    &&& d.rollback_plan.require_revision_guards == recipe.spec_draft().rollback_plan.require_revision_guards
    &&& keys_agree(d.rollback_plan.validation_steps@, recipe.spec_draft().rollback_plan.validation_steps@)
}

/// A candidate for a split site: well formed, and its draft is, up to the
/// canonical order of its lists, the site's split draft with its impact
/// cone.
#[verifier::opaque]
pub open spec fn split_candidate_for(c: TransformationCandidate, p: RetainedProjection, site: SplitSite, recipe: TransformationRecipe) -> bool {
    &&& c.wf()
    &&& exists|d: TransformationCandidateDraft, lists: Seq<Seq<Seq<char>>>|
        #[trigger] is_split_draft(d, p, site, recipe, lists) && candidate_arrangement(c.spec_draft(), d) && split_impact(
            p,
            site,
            d.impact,
        )
}

proof fn lemma_ordered_listing(v: Seq<String>)
    requires
        keys_strictly_increasing(v),
    ensures
        ordered_listing(texts(v), view_set(v)),
{
    let t = texts(v);
    assert forall|i: int, j: int| 0 <= i < j < t.len() implies lex_lt(str_key(#[trigger] t[i]), str_key(#[trigger] t[j])) by {
        crate::order::lemma_strictly_increasing_all(v, i, j);
    }
    assert forall|k: Seq<char>| t.to_set().contains(k) <==> view_set(v).contains(k) by {
        if view_set(v).contains(k) {
            let i = choose|i: int| 0 <= i < v.len() && (#[trigger] v[i])@ == k;
            assert(t[i] == k);
        }
    }
    assert(t.to_set() =~= view_set(v));
}

/// When a split site's candidate is owed: the branch's rows fit, the
/// impact query around its dependence node can be answered, and every
/// draft of the site is valid.
pub open spec fn split_owed(p: RetainedProjection, deps: Seq<DependenceGraph>, site: SplitSite, recipe: TransformationRecipe) -> bool {
    let g = p.dependence_graphs@[site.graph as int];
    &&& rows_fit(p.syntax@[site.branch as int].key@)
    &&& impact_found(deps, g.key@, g.nodes@[site.node as int].key@, 8)
    &&& forall|d: TransformationCandidateDraft, lists: Seq<Seq<Seq<char>>>|
        #[trigger] is_split_draft(d, p, site, recipe, lists) && split_impact(p, site, d.impact) ==> candidate_fields_valid(d)
}

/// The candidate of one split site.
#[verifier::rlimit(40)]
fn split_candidate(
    p: &RetainedProjection,
    recipe: &TransformationRecipe,
    deps: &Vec<DependenceGraph>,
    site: SplitSite,
) -> (r: Result<TransformationCandidate, BranchSplitRecipeError>)
    requires
        split_site_ok(*p, site),
        dependence_views(deps@, p.dependence_graphs@),
    ensures
        r matches Ok(c) ==> split_candidate_for(c, *p, site, *recipe),
        split_owed(*p, deps@, site, *recipe) ==> r is Ok,
{
    let sh = match split_shape(&p.syntax, site.branch) {
        Ok(Some(sh)) => sh,
        _ => {
            proof {
                assert(false);
            }
            return Err(BranchSplitRecipeError::Projection("split lost its shape".to_owned()));
        },
    };
    let g = &p.dependence_graphs[site.graph];
    let slices = match slices_for(g, &p.syntax, &sh.1) {
        Some(v) => v,
        None => {
            proof {
                assert(false);
            }
            return Err(BranchSplitRecipeError::Projection("split lost its slices".to_owned()));
        },
    };
    let node = &g.nodes[site.node];
    let flow = &p.flow_graphs[site.flow];
    let nsc = &p.non_structured_graphs[site.non_structured];
    let data = &p.data_flow_graphs[site.data_flow];
    let branch = &p.syntax[site.branch];
    let key = &branch.key;
    if key.start_row >= usize::MAX || key.end_row >= usize::MAX {
        return Err(BranchSplitRecipeError::Projection("retained node rows are out of range".to_owned()));
    }
    let span = Span { start_line: key.start_row + 1, end_line: key.end_row + 1, start_byte: key.start_byte, end_byte: key.end_byte };
    let impact = match program_dependence_impact_cone(deps, g.key.as_str(), node.key.as_str(), ImpactDirection::Bidirectional, 8) {
        Ok(c) => c,
        Err(e) => {
            return Err(BranchSplitRecipeError::Impact(e));
        },
    };
    let ghost lists = slices@.map_values(|v: Vec<String>| texts(v@));
    let gk = g.key.as_str();
    let mut ents: Vec<GraphEntityRef> = Vec::new();
    let mut i: usize = 0;
    assert(lists.subrange(0, 0).flatten_alt() =~= Seq::<Seq<char>>::empty());
    while i < slices.len()
        invariant
            i <= slices@.len(),
            lists == slices@.map_values(|v: Vec<String>| texts(v@)),
            gk@ == g.key@,
            ents@.map_values(|e: GraphEntityRef| e@) == lists.subrange(0, i as int).flatten_alt().map_values(
                |k: Seq<char>| pdg_entity(g.key@, k),
            ),
        decreases slices@.len() - i,
    {
        let v = &slices[i];
        let ghost base = ents@.map_values(|e: GraphEntityRef| e@);
        let mut t: usize = 0;
        while t < v.len()
            invariant
                t <= v@.len(),
                gk@ == g.key@,
                ents@.map_values(|e: GraphEntityRef| e@) == base + texts(v@).subrange(0, t as int).map_values(
                    |k: Seq<char>| pdg_entity(g.key@, k),
                ),
            decreases v@.len() - t,
        {
            let ghost prev = ents@;
            let e = entity(GraphEvidenceLayer::ProgramDependence, gk, v[t].as_str());
            ents.push(e);
            proof {
                assert(ents@.map_values(|e: GraphEntityRef| e@) =~= prev.map_values(|e: GraphEntityRef| e@).push(e@));
                assert(texts(v@).subrange(0, t + 1) =~= texts(v@).subrange(0, t as int).push(v@[t as int]@));
                assert(texts(v@).subrange(0, t + 1).map_values(|k: Seq<char>| pdg_entity(g.key@, k)) =~= texts(v@).subrange(
                    0,
                    t as int,
                ).map_values(|k: Seq<char>| pdg_entity(g.key@, k)).push(pdg_entity(g.key@, v@[t as int]@)));
                assert(ents@.map_values(|e: GraphEntityRef| e@) =~= base + texts(v@).subrange(0, t + 1).map_values(
                    |k: Seq<char>| pdg_entity(g.key@, k),
                ));
            }
            t = t + 1;
        }
        proof {
            let sub = lists.subrange(0, i + 1);
            assert(sub.drop_last() =~= lists.subrange(0, i as int));
            assert(sub.last() == texts(v@));
            assert(texts(v@).subrange(0, v@.len() as int) =~= texts(v@));
            assert(sub.flatten_alt() == lists.subrange(0, i as int).flatten_alt() + texts(v@));
            assert(ents@.map_values(|e: GraphEntityRef| e@) =~= sub.flatten_alt().map_values(|k: Seq<char>| pdg_entity(g.key@, k)));
        }
        i = i + 1;
    }
    assert(lists.subrange(0, slices@.len() as int) =~= lists);
    let ghost ent_views = lists.flatten_alt().map_values(|k: Seq<char>| pdg_entity(g.key@, k));
    proof {
        assert forall|k: int| 0 <= k < lists.len() implies ordered_listing(#[trigger] lists[k], action_slices(
            g.nodes@,
            g.edges@,
            p.syntax@,
            sh.1@,
        )[k]) by {
            lemma_ordered_listing(slices@[k]@);
            assert(slices@.map_values(|x: Vec<String>| view_set(x@))[k] == view_set(slices@[k]@));
        }
        assert(slices@.len() >= 2);
        assert(lists[0].len() > 0) by {
            lemma_ordered_listing(slices@[0]@);
            assert(slices@.map_values(|x: Vec<String>| view_set(x@))[0] == view_set(slices@[0]@));
            let r = crate::recipes::split_detect::action_roots(g.nodes@, p.syntax@[sh.1@[0] as int].key@);
            assert(r != Set::<Seq<char>>::empty());
            assert(exists|x: Seq<char>| r.contains(x)) by {
                if !(exists|x: Seq<char>| r.contains(x)) {
                    assert(r =~= Set::<Seq<char>>::empty());
                }
            }
            let x = choose|x: Seq<char>| r.contains(x);
            super::slice::lemma_roots_in_closure(g.edges@, r, x);
            assert(lists[0].to_set().contains(x));
        }
        lemma_flatten_alt_nonempty(lists);
    }
    let independent = data.def_use_support == CapabilitySupport::Provided && g.local_pdg_support == CapabilitySupport::Provided
        && data.def_use_authority.is_some() && g.local_pdg_authority.is_some();
    let state = if independent {
        ProofState::Proven
    } else {
        ProofState::Unknown
    };
    let crossing_state = if independent {
        ProofState::Disproven
    } else {
        ProofState::Unknown
    };
    let mut slice_evidence: Vec<ConditionEvidence> = Vec::new();
    let mut crossing_evidence: Vec<ConditionEvidence> = Vec::new();
    let mut changes: Vec<ExpectedGraphChange> = Vec::new();
    changes.push(ExpectedGraphChange {
        kind: GraphChangeKind::Remove,
        entity: entity(GraphEvidenceLayer::ProgramDependence, gk, node.key.as_str()),
        rationale: ROOT_RATIONALE.to_owned(),
    });
    let first_detail = if independent {
        PROVEN_SLICES_DETAIL
    } else {
        UNKNOWN_SLICES_DETAIL
    };
    let mut k: usize = 0;
    while k < ents.len()
        invariant
            k <= ents@.len(),
            ents@.map_values(|e: GraphEntityRef| e@) == ent_views,
            first_detail@ == slices_detail(state),
            slice_evidence@.len() == k,
            crossing_evidence@.len() == k,
            changes@.len() == 1 + k,
            changes@[0].kind == GraphChangeKind::Remove,
            changes@[0].entity@ == pdg_entity(g.key@, g.nodes@[site.node as int].key@),
            changes@[0].rationale@ == ROOT_RATIONALE@,
            k > 0 ==> slice_evidence@[0]@ == (ConditionEvidenceView {
                entity: ent_views[0],
                detail: slices_detail(state),
                capability: None,
                support: None,
                authority: None,
            }),
            forall|x: int| 1 <= x < k ==> (#[trigger] slice_evidence@[x])@ == (ConditionEvidenceView {
                entity: ent_views[x],
                detail: SLICE_DETAIL@,
                capability: None,
                support: None,
                authority: None,
            }),
            forall|x: int| 0 <= x < k ==> (#[trigger] crossing_evidence@[x])@ == (ConditionEvidenceView {
                entity: ent_views[x],
                detail: CROSSING_DETAIL@,
                capability: None,
                support: None,
                authority: None,
            }),
            forall|x: int| 0 <= x < k ==> {
                let c = #[trigger] changes@[1 + x];
                c.kind == GraphChangeKind::Preserve && c.entity@ == ent_views[x] && c.rationale@ == ENTITY_RATIONALE@
            },
        decreases ents@.len() - k,
    {
        assert(ents@[k as int]@ == ent_views[k as int]);
        let detail = if k == 0 {
            first_detail
        } else {
            SLICE_DETAIL
        };
        slice_evidence.push(ConditionEvidence {
            entity: ents[k].duplicate(),
            detail: detail.to_owned(),
            capability: None,
            support: None,
            authority: None,
        });
        crossing_evidence.push(ConditionEvidence {
            entity: ents[k].duplicate(),
            detail: CROSSING_DETAIL.to_owned(),
            capability: None,
            support: None,
            authority: None,
        });
        let ghost before = changes@;
        changes.push(ExpectedGraphChange {
            kind: GraphChangeKind::Preserve,
            entity: ents[k].duplicate(),
            rationale: ENTITY_RATIONALE.to_owned(),
        });
        proof {
            assert forall|x: int| 0 <= x < k implies #[trigger] changes@[1 + x] == before[1 + x] by {}
        }
        k = k + 1;
    }
    let fk = flow.key.as_str();
    let pd = flow.points[site.point].key.as_str();
    let dk = data.key.as_str();
    let required_results = vec![
        plain_result(REQUIRED_ACTIONS, ProofState::Proven, entity(GraphEvidenceLayer::ControlFlow, fk, pd), ACTIONS_DETAIL),
        ConditionResult { condition: REQUIRED_SLICES.to_owned(), state, evidence: slice_evidence },
        plain_result(REQUIRED_ORDER, ProofState::Proven, entity(GraphEvidenceLayer::ControlFlow, fk, pd), ORDER_DETAIL),
        capability_result_exec(
            REQUIRED_EFFECTS,
            ProofState::Unknown,
            entity(GraphEvidenceLayer::DataFlow, dk, dk),
            EFFECTS_DETAIL,
            EFFECTS,
            data.effects_support,
            &data.effects_authority,
        ),
    ];
    let non_structured = if nsc.has_facts {
        plain_result(
            FORBIDDEN_NON_STRUCTURED,
            ProofState::Unknown,
            entity(GraphEvidenceLayer::NonStructuredControl, nsc.key.as_str(), nsc.key.as_str()),
            FACTS_DETAIL,
        )
    } else {
        plain_result(
            FORBIDDEN_NON_STRUCTURED,
            ProofState::Disproven,
            entity(GraphEvidenceLayer::NonStructuredControl, nsc.key.as_str(), nsc.key.as_str()),
            NO_FACTS_DETAIL,
        )
    };
    let forbidden_results = vec![
        ConditionResult { condition: FORBIDDEN_CROSSING.to_owned(), state: crossing_state, evidence: crossing_evidence },
        capability_result_exec(
            FORBIDDEN_SCOPE,
            ProofState::Unknown,
            entity(GraphEvidenceLayer::DataFlow, dk, dk),
            SCOPE_DETAIL,
            DEF_USE,
            data.def_use_support,
            &data.def_use_authority,
        ),
        plain_result(FORBIDDEN_CONTROL, ProofState::Disproven, entity(GraphEvidenceLayer::ControlFlow, fk, pd), CONTROL_DETAIL),
        non_structured,
    ];
    let after = render_split(&p.syntax, sh.0, &sh.1);
    let root = entity(GraphEvidenceLayer::ProgramDependence, gk, node.key.as_str());
    let draft = TransformationCandidateDraft {
        recipe: recipe.duplicate(),
        source: CandidateSource {
            project_snapshot: p.snapshot.clone(),
            analysis: p.analysis.clone(),
            program_dependence_projection: p.id.clone(),
        },
        target: CandidateTarget { entity: root, node: key.duplicate(), span, subtree_fingerprint: None },
        eligibility: GraphEligibilityDecision {
            consumer: g.eligibility.consumer.clone(),
            required_layers: copy_layers(g.eligibility.required_layers.as_slice()),
            eligible: g.eligibility.eligible,
        },
        required_results,
        forbidden_results,
        impact,
        expected_delta: ExpectedGraphDelta { changes },
        edits: vec![TransformationEdit::exact_node_replacement(key.duplicate(), span, branch.text.clone(), after)],
        safety: SafetyClass::SafeWithPrecondition,
        disposition: CandidateDisposition::ReviewRequired,
        validation_plan: crate::recipe::duplicate_validation_plan(recipe.validation_plan()),
        rollback_plan: crate::recipe::duplicate_rollback_plan(recipe.rollback_plan()),
    };
    let ghost original = draft;
    proof {
        assert(state == split_independence(*p, site));
        assert(crate::impact::impact_answer(deps@, g.key@, node.key@, ImpactDirection::Bidirectional, 8, Ok(original.impact)));
        assert(split_impact(*p, site, original.impact));
        assert(slices_result(original.required_results@[1], state, ent_views));
        assert(is_split_draft(original, *p, site, *recipe, lists));
    }
    match TransformationCandidate::new(draft) {
        Ok(c) => {
            proof {
                reveal(split_candidate_for);
            }
            Ok(c)
        },
        Err(e) => Err(BranchSplitRecipeError::Contract(e)),
    }
}

proof fn lemma_flatten_alt_nonempty(lists: Seq<Seq<Seq<char>>>)
    requires
        lists.len() > 0,
        lists[0].len() > 0,
    ensures
        lists.flatten_alt().len() > 0,
        lists.flatten_alt()[0] == lists[0][0],
    decreases lists.len(),
{
    if lists.len() > 1 {
        lemma_flatten_alt_nonempty(lists.drop_last());
        assert(lists.drop_last()[0] == lists[0]);
    } else {
        assert(lists.drop_last().flatten_alt() =~= Seq::<Seq<char>>::empty());
        assert(lists.flatten_alt() =~= lists[0]);
    }
}

/// The candidates of a sequence of split sites, one for one.
pub open spec fn candidates_for_splits(cs: Seq<TransformationCandidate>, p: RetainedProjection, sites: Seq<SplitSite>, recipe: TransformationRecipe) -> bool {
    cs.len() == sites.len() && forall|k: int| 0 <= k < cs.len() ==> #[trigger] split_candidate_for(cs[k], p, sites[k], recipe)
}

/// When the candidates of a projection are owed: its sites can be found
/// and, under the branch-split recipe and the projection's dependence graphs,
/// the candidate of every site is owed.
pub open spec fn split_all_owed(p: RetainedProjection) -> bool {
    &&& split_sites_of(p) is Ok
    &&& forall|recipe: TransformationRecipe, deps: Seq<DependenceGraph>, k: int|
        recipe_header(
                Ok(recipe),
                "rust-split-independent-branch-actions"@,
                "1.0.0"@,
                TransformationFamily::BranchControl,
                SafetyClass::SafeWithPrecondition,
                seq![
                    GraphEvidenceLayer::ControlFlow,
                    GraphEvidenceLayer::ControlRegions,
                    GraphEvidenceLayer::NonStructuredControl,
                    GraphEvidenceLayer::DataFlow,
                    GraphEvidenceLayer::ProgramDependence,
                ],
            ) && dependence_views(deps, p.dependence_graphs@) && 0 <= k < split_sites_of(p)->Ok_0.len()
            ==> #[trigger] split_owed(p, deps, split_sites_of(p)->Ok_0[k], recipe)
}

/// Finds every branch of a retained projection without `else` whose block
/// is two to eight direct calls with disjoint flow slices, and proposes
/// storing its predicate once and guarding each call on its own, for
/// review: one candidate per dispatch site, ordered by candidate identity.
/// A projection that lacks a graph or a syntax node a site refers to is
/// refused.
#[verifier::rlimit(40)]
pub fn detect_independent_branch_splits(p: &RetainedProjection) -> (r: Result<Vec<TransformationCandidate>, BranchSplitRecipeError>)
    ensures
        split_sites_of(*p) is Err ==> r matches Err(BranchSplitRecipeError::Projection(_)),
        split_all_owed(*p) ==> r is Ok,
        r matches Ok(cs) ==> split_sites_of(*p) is Ok && keys_sorted(cs@) && exists|
            recipe: TransformationRecipe,
            unsorted: Seq<TransformationCandidate>,
        |
            #![trigger candidates_for_splits(unsorted, *p, split_sites_of(*p)->Ok_0, recipe)]
            recipe_header(
                Ok(recipe),
                "rust-split-independent-branch-actions"@,
                "1.0.0"@,
                TransformationFamily::BranchControl,
                SafetyClass::SafeWithPrecondition,
                seq![
                    GraphEvidenceLayer::ControlFlow,
                    GraphEvidenceLayer::ControlRegions,
                    GraphEvidenceLayer::NonStructuredControl,
                    GraphEvidenceLayer::DataFlow,
                    GraphEvidenceLayer::ProgramDependence,
                ],
            ) && candidates_for_splits(unsorted, *p, split_sites_of(*p)->Ok_0, recipe) && cs@.to_multiset()
                == unsorted.to_multiset(),
{
    let recipe = match independent_branch_split_recipe() {
        Ok(recipe) => recipe,
        Err(e) => {
            if split_sites(p).is_err() {
                return Err(BranchSplitRecipeError::Projection(
                    "retained projection lacks a graph or syntax node a split refers to".to_owned(),
                ));
            }
            return Err(BranchSplitRecipeError::Contract(e));
        },
    };
    let sites = match split_sites(p) {
        Ok(v) => v,
        Err(()) => {
            return Err(BranchSplitRecipeError::Projection(
                "retained projection lacks a graph or syntax node a split refers to".to_owned(),
            ));
        },
    };
    proof {
        let all = p.dependence_graphs@.len() as nat;
        lemma_split_sites_ok(*p, all);
        assert forall|k: int| 0 <= k < sites@.len() implies split_site_ok(*p, #[trigger] sites@[k]) by {
            assert(sites@[k] == scan_split_graphs(*p, all)->Ok_0[k]);
        }
    }
    let deps = dependence_graphs_of(p);
    let mut candidates: Vec<TransformationCandidate> = Vec::new();
    let n = sites.len();
    proof {
        if split_all_owed(*p) {
            assert forall|k: int| 0 <= k < n implies #[trigger] split_owed(*p, deps@, sites@[k], recipe) by {
                assert(split_owed(*p, deps@, split_sites_of(*p)->Ok_0[k], recipe));
            }
        }
    }
    let mut i: usize = 0;
    while i < n
        invariant
            n == sites@.len(),
            i <= n,
            split_sites_of(*p) == Ok::<Seq<SplitSite>, ()>(sites@),
            forall|k: int| 0 <= k < sites@.len() ==> split_site_ok(*p, #[trigger] sites@[k]),
            dependence_views(deps@, p.dependence_graphs@),
            candidates_for_splits(candidates@, *p, sites@.subrange(0, i as int), recipe),
            split_all_owed(*p) ==> forall|k: int| 0 <= k < n ==> #[trigger] split_owed(*p, deps@, sites@[k], recipe),
        decreases n - i,
    {
        let c = split_candidate(p, &recipe, &deps, sites[i])?;
        let ghost before = candidates@;
        candidates.push(c);
        proof {
            let prefix = sites@.subrange(0, i + 1);
            assert forall|k: int| 0 <= k < candidates@.len() implies #[trigger] split_candidate_for(candidates@[k], *p, prefix[k], recipe) by {
                if k < i {
                    assert(candidates@[k] == before[k]);
                    assert(prefix[k] == sites@.subrange(0, i as int)[k]);
                }
            }
        }
        i = i + 1;
    }
    let ghost unsorted = candidates@;
    assert(sites@.subrange(0, n as int) =~= sites@);
    let sorted = sort_by_key(candidates);
    proof {
        assert(candidates_for_splits(unsorted, *p, split_sites_of(*p)->Ok_0, recipe));
        assert(sorted@.to_multiset() == unsorted.to_multiset());
    }
    Ok(sorted)
}
} // verus!
