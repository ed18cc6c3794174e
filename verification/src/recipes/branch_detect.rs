//! The equivalent-fragment candidates of a retained projection: every exact
//! two-armed branch whose arms share their children, a prefix or a suffix.

use vstd::prelude::*;
use crate::order::compare_str;
use crate::text::{contains_substring, contains_text, trim, trimmed};
use super::retained::{
    children_in_tree, claimed_contains, data_flow_key_is, find_data_flow, find_flow, find_non_structured,
    find_syntax, first_match, flow_key_is, key_set, lemma_first_match_at, lemma_first_match_found,
    lemma_first_match_none, named_positions, non_structured_key_is, syntax_key_is, FlowEdge, FlowGraph,
    PdgNode, RetainedProjection, SyntaxNode,
};
use crate::target::{revision_guard_id, CandidateTarget, NodeKey, NodeKeyView, TransformationEdit};
use crate::candidate::{candidate_fields_valid, 
    candidate_arrangement, keys_agree, steps_agree, CandidateDisposition, CandidateSource, TransformationCandidate,
    TransformationCandidateDraft,
};
use crate::contract::ProofState;
use crate::evidence::{
    CapabilitySupport, ConditionEvidence, ConditionResult, ExpectedGraphChange, ExpectedGraphDelta,
    GraphChangeKind, GraphEntityRef, GraphEntityView, ImpactCone, ImpactDirection,
};
use crate::impact::{impact_found, pdg_entity, program_dependence_impact_cone, DependenceGraph, ImpactQueryError};
use crate::json::text_view;
use crate::model::{GraphEvidenceLayer, SafetyClass, Span};
use crate::recipe::TransformationRecipe;
use super::branch::{
    factoring_name, factoring_variants, variants_are, ArmNode, BranchParts, BranchRecipeError, FactoringKind,
    CONDITION_CONDITION_ORDER, CONDITION_DEPENDENCIES, CONDITION_EFFECT_ORDER, CONDITION_EQUIVALENT_FRAGMENT,
    FORBIDDEN_BINDING_ESCAPE, FORBIDDEN_NON_STRUCTURED, FORBIDDEN_UNCERTAIN_CONTROL,
};
use super::retained::{dependence_graphs_of, dependence_views, is_branch_kind, FlowEdgeKind, FlowPointKind};
use super::unreachable::{rows_fit, copy_layers, node_span, single_result};
use super::branch::equivalent_branch_factoring_recipe;
use super::recipe_header;
use crate::contract::TransformationFamily;
use crate::order::{keys_sorted, sort_by_key};

verus! {

/// The first child of node `n` that fills `field`: `Err` when a child
/// before it lies outside the tree.
pub open spec fn field_child(nodes: Seq<SyntaxNode>, n: int, field: Seq<char>) -> Result<Option<int>, ()> {
    let ch = nodes[n].children@;
    match first_match(ch, fills_field(nodes, field)) {
        None => Ok(None),
        Some(k) => if ch[k] >= nodes.len() {
            Err(())
        } else {
            Ok(Some(ch[k] as int))
        },
    }
}

pub open spec fn fills_field(nodes: Seq<SyntaxNode>, field: Seq<char>) -> spec_fn(usize) -> bool {
    |c: usize| c >= nodes.len() || (nodes[c as int].field matches Some(f) && f@ == field)
}

/// The named children of node `n`, in order: `Err` when a child lies
/// outside the tree.
pub open spec fn named_children_of(nodes: Seq<SyntaxNode>, n: int) -> Result<Seq<usize>, ()> {
    if children_in_tree(nodes, n) {
        Ok(named_positions(nodes, nodes[n].children@))
    } else {
        Err(())
    }
}

pub open spec fn is_block(nodes: Seq<SyntaxNode>) -> spec_fn(usize) -> bool {
    |c: usize| nodes[c as int].kind@ == "block"@
}

/// The block of a branch's alternative: the alternative itself when it is
/// a block, the first block among the named children of an `else` clause.
pub open spec fn else_block_of(nodes: Seq<SyntaxNode>, alt: int) -> Result<Option<int>, ()> {
    if nodes[alt].kind@ == "else_clause"@ {
        match named_children_of(nodes, alt) {
            Err(_) => Err(()),
            Ok(ns) => match first_match(ns, is_block(nodes)) {
                Some(k) => Ok(Some(ns[k] as int)),
                None => Ok(None),
            },
        }
    } else if nodes[alt].kind@ == "block"@ {
        Ok(Some(alt))
    } else {
        Ok(None)
    }
}

/// A child that cannot be compared as written: an extra, an error, or an
/// attribute.
pub open spec fn incomparable(n: SyntaxNode) -> bool {
    n.extra || n.has_error || n.kind@ == "attribute_item"@ || n.kind@ == "inner_attribute_item"@
}

/// The named children of a block when all of them compare as written, and
/// none otherwise.
pub open spec fn comparable_of(nodes: Seq<SyntaxNode>, blk: int) -> Result<Seq<usize>, ()> {
    match named_children_of(nodes, blk) {
        Err(_) => Err(()),
        Ok(ns) => if exists|k: int| 0 <= k < ns.len() && incomparable(#[trigger] nodes[ns[k] as int]) {
            Ok(Seq::empty())
        } else {
            Ok(ns)
        },
    }
}

/// The body of a block's text: between its braces, trimmed.
pub open spec fn block_body_of(text: Seq<char>) -> Option<Seq<char>> {
    if text.len() >= 2 && text[0] == '{' && text[text.len() - 1] == '}' {
        Some(trim(text.subrange(1, text.len() - 1)))
    } else {
        None
    }
}

/// An exact Rust branch without comments or errors.
pub open spec fn plain_branch(n: SyntaxNode) -> bool {
    &&& n.rust
    &&& n.kind@ == "if_expression"@
    &&& !n.has_error
    &&& !contains_text(n.text@, "//"@)
    &&& !contains_text(n.text@, "/*"@)
}

/// The shape of a two-armed branch at position `b`: its condition, its
/// consequence block, its alternative block, and the comparable children of
/// the two blocks. Nothing when the branch is not plain, lacks a part, has a
/// `let` condition, an erroneous block, or an arm without comparable
/// children; `Err` when the tree lacks a node it refers to or the
/// consequence lacks its braces.
pub open spec fn branch_shape_of(nodes: Seq<SyntaxNode>, b: int) -> Result<
    Option<(int, int, int, Seq<usize>, Seq<usize>)>,
    (),
> {
    if !plain_branch(nodes[b]) {
        Ok(None)
    } else {
        match field_child(nodes, b, "condition"@) {
            Err(_) => Err(()),
            Ok(None) => Ok(None),
            Ok(Some(c)) => if nodes[c].kind@ == "let_condition"@ || nodes[c].kind@ == "let_chain"@ {
                Ok(None)
            } else {
                match field_child(nodes, b, "consequence"@) {
                    Err(_) => Err(()),
                    Ok(None) => Ok(None),
                    Ok(Some(t)) => match field_child(nodes, b, "alternative"@) {
                        Err(_) => Err(()),
                        Ok(None) => Ok(None),
                        Ok(Some(a0)) => match else_block_of(nodes, a0) {
                            Err(_) => Err(()),
                            Ok(None) => Ok(None),
                            Ok(Some(e)) => if nodes[t].kind@ != "block"@ || nodes[t].has_error || nodes[e].has_error {
                                Ok(None)
                            } else {
                                match (comparable_of(nodes, t), comparable_of(nodes, e)) {
                                    (Err(_), _) => Err(()),
                                    (_, Err(_)) => Err(()),
                                    (Ok(tc), Ok(ec)) => if tc.len() == 0 || ec.len() == 0 {
                                        Ok(None)
                                    } else if block_body_of(nodes[t].text@) is None {
                                        Err(())
                                    } else {
                                        Ok(Some((c, t, e, tc, ec)))
                                    },
                                }
                            },
                        },
                    },
                }
            },
        }
    }
}

pub fn field_child_exec(nodes: &Vec<SyntaxNode>, n: usize, field: &str) -> (r: Result<Option<usize>, ()>)
    requires
        n < nodes@.len(),
    ensures
        match r {
            Err(_) => field_child(nodes@, n as int, field@) is Err,
            Ok(None) => field_child(nodes@, n as int, field@) == Ok::<Option<int>, ()>(None),
            Ok(Some(c)) => field_child(nodes@, n as int, field@) == Ok::<Option<int>, ()>(Some(c as int)),
        },
{
    let ch = &nodes[n].children;
    let ghost p = fills_field(nodes@, field@);
    let m = ch.len();
    let mut k: usize = 0;
    while k < m
        invariant
            m == ch@.len(),
            *ch == nodes@[n as int].children,
            p == fills_field(nodes@, field@),
            k <= m,
            forall|j: int| 0 <= j < k ==> !p(#[trigger] ch@[j]),
        decreases m - k,
    {
        let c = ch[k];
        if c >= nodes.len() {
            proof {
                assert(p(ch@[k as int]));
                lemma_first_match_at(ch@, p, k as int);
            }
            return Err(());
        }
        let hit = match &nodes[c].field {
            Some(f) => compare_str(f.as_str(), field) == 0,
            None => false,
        };
        if hit {
            proof {
                assert(p(ch@[k as int]));
                lemma_first_match_at(ch@, p, k as int);
            }
            return Ok(Some(c));
        }
        k = k + 1;
    }
    proof {
        lemma_first_match_none(ch@, p);
    }
    Ok(None)
}

pub fn named_children_exec(nodes: &Vec<SyntaxNode>, n: usize) -> (r: Result<Vec<usize>, ()>)
    requires
        n < nodes@.len(),
    ensures
        match r {
            Err(_) => named_children_of(nodes@, n as int) is Err,
            Ok(v) => named_children_of(nodes@, n as int) == Ok::<Seq<usize>, ()>(v@) && forall|k: int|
                0 <= k < v@.len() ==> (#[trigger] v@[k]) < nodes@.len(),
        },
{
    let children = &nodes[n].children;
    let m = children.len();
    let mut named: Vec<usize> = Vec::new();
    let mut k: usize = 0;
    assert(children@.subrange(0, 0) =~= Seq::<usize>::empty());
    while k < m
        invariant
            m == children@.len(),
            *children == nodes@[n as int].children,
            k <= m,
            forall|x: int| 0 <= x < k ==> (#[trigger] children@[x]) < nodes@.len(),
            named@ == named_positions(nodes@, children@.subrange(0, k as int)),
            forall|x: int| 0 <= x < named@.len() ==> (#[trigger] named@[x]) < nodes@.len(),
        decreases m - k,
    {
        let c = children[k];
        if c >= nodes.len() {
            return Err(());
        }
        if nodes[c].named {
            named.push(c);
        }
        proof {
            let sub = children@.subrange(0, k + 1);
            assert(sub.drop_last() =~= children@.subrange(0, k as int));
            assert(sub.last() == c);
        }
        k = k + 1;
    }
    assert(children@.subrange(0, m as int) =~= children@);
    Ok(named)
}

pub fn else_block_exec(nodes: &Vec<SyntaxNode>, alt: usize) -> (r: Result<Option<usize>, ()>)
    requires
        alt < nodes@.len(),
    ensures
        match r {
            Err(_) => else_block_of(nodes@, alt as int) is Err,
            Ok(None) => else_block_of(nodes@, alt as int) == Ok::<Option<int>, ()>(None),
            Ok(Some(e)) => else_block_of(nodes@, alt as int) == Ok::<Option<int>, ()>(Some(e as int)) && e
                < nodes@.len(),
        },
{
    let kind = nodes[alt].kind.as_str();
    if compare_str(kind, "else_clause") == 0 {
        let ns = named_children_exec(nodes, alt)?;
        let ghost p = is_block(nodes@);
        let mut k: usize = 0;
        while k < ns.len()
            invariant
                k <= ns@.len(),
                p == is_block(nodes@),
                alt < nodes@.len(),
                nodes@[alt as int].kind@ == "else_clause"@,
                named_children_of(nodes@, alt as int) == Ok::<Seq<usize>, ()>(ns@),
                forall|x: int| 0 <= x < ns@.len() ==> (#[trigger] ns@[x]) < nodes@.len(),
                forall|j: int| 0 <= j < k ==> !p(#[trigger] ns@[j]),
            decreases ns@.len() - k,
        {
            if compare_str(nodes[ns[k]].kind.as_str(), "block") == 0 {
                proof {
                    lemma_first_match_at(ns@, p, k as int);
                }
                return Ok(Some(ns[k]));
            }
            k = k + 1;
        }
        proof {
            lemma_first_match_none(ns@, p);
        }
        Ok(None)
    } else if compare_str(kind, "block") == 0 {
        Ok(Some(alt))
    } else {
        Ok(None)
    }
}

fn incomparable_exec(n: &SyntaxNode) -> (r: bool)
    ensures
        r == incomparable(*n),
{
    n.extra || n.has_error || compare_str(n.kind.as_str(), "attribute_item") == 0 || compare_str(
        n.kind.as_str(),
        "inner_attribute_item",
    ) == 0
}

fn comparable_exec(nodes: &Vec<SyntaxNode>, blk: usize) -> (r: Result<Vec<usize>, ()>)
    requires
        blk < nodes@.len(),
    ensures
        match r {
            Err(_) => comparable_of(nodes@, blk as int) is Err,
            Ok(v) => comparable_of(nodes@, blk as int) == Ok::<Seq<usize>, ()>(v@) && forall|k: int|
                0 <= k < v@.len() ==> (#[trigger] v@[k]) < nodes@.len(),
        },
{
    let ns = named_children_exec(nodes, blk)?;
    let mut k: usize = 0;
    while k < ns.len()
        invariant
            k <= ns@.len(),
            blk < nodes@.len(),
            named_children_of(nodes@, blk as int) == Ok::<Seq<usize>, ()>(ns@),
            forall|x: int| 0 <= x < ns@.len() ==> (#[trigger] ns@[x]) < nodes@.len(),
            forall|j: int| 0 <= j < k ==> !incomparable(#[trigger] nodes@[ns@[j] as int]),
        decreases ns@.len() - k,
    {
        if incomparable_exec(&nodes[ns[k]]) {
            assert(incomparable(nodes@[ns@[k as int] as int]));
            let empty: Vec<usize> = Vec::new();
            assert(empty@ =~= Seq::<usize>::empty());
            return Ok(empty);
        }
        k = k + 1;
    }
    Ok(ns)
}

/// The body of a block's text between its braces, trimmed.
pub fn block_body(text: &str) -> (r: Option<String>)
    ensures
        match r {
            Some(b) => block_body_of(text@) == Some(b@),
            None => block_body_of(text@) is None,
        },
{
    let n = text.unicode_len();
    if n < 2 || text.get_char(0) != '{' || text.get_char(n - 1) != '}' {
        return None;
    }
    Some(trimmed(text.substring_char(1, n - 1)))
}

/// The shape of the branch at position `b`, as `branch_shape_of` gives it.
pub fn branch_shape(nodes: &Vec<SyntaxNode>, b: usize) -> (r: Result<
    Option<(usize, usize, usize, Vec<usize>, Vec<usize>)>,
    (),
>)
    requires
        b < nodes@.len(),
    ensures
        match r {
            Err(_) => branch_shape_of(nodes@, b as int) is Err,
            Ok(None) => branch_shape_of(nodes@, b as int) is Ok && branch_shape_of(nodes@, b as int)->Ok_0 is None,
            Ok(Some((c, t, e, tc, ec))) => branch_shape_of(nodes@, b as int) == Ok::<
                Option<(int, int, int, Seq<usize>, Seq<usize>)>,
                (),
            >(Some((c as int, t as int, e as int, tc@, ec@))) && c < nodes@.len() && t < nodes@.len() && e
                < nodes@.len() && (forall|k: int| 0 <= k < tc@.len() ==> (#[trigger] tc@[k]) < nodes@.len())
                && (forall|k: int| 0 <= k < ec@.len() ==> (#[trigger] ec@[k]) < nodes@.len()),
        },
{
    let n = &nodes[b];
    if !(n.rust && compare_str(n.kind.as_str(), "if_expression") == 0 && !n.has_error && !contains_substring(
        n.text.as_str(),
        "//",
    ) && !contains_substring(n.text.as_str(), "/*")) {
        return Ok(None);
    }
    let c = match field_child_exec(nodes, b, "condition")? {
        None => {
            return Ok(None);
        },
        Some(c) => c,
    };
    proof {
        lemma_field_child_in_tree(nodes@, b as int, "condition"@);
    }
    let ck = nodes[c].kind.as_str();
    if compare_str(ck, "let_condition") == 0 || compare_str(ck, "let_chain") == 0 {
        return Ok(None);
    }
    let t = match field_child_exec(nodes, b, "consequence")? {
        None => {
            return Ok(None);
        },
        Some(t) => t,
    };
    proof {
        lemma_field_child_in_tree(nodes@, b as int, "consequence"@);
    }
    let a0 = match field_child_exec(nodes, b, "alternative")? {
        None => {
            return Ok(None);
        },
        Some(a0) => a0,
    };
    proof {
        lemma_field_child_in_tree(nodes@, b as int, "alternative"@);
    }
    let e = match else_block_exec(nodes, a0)? {
        None => {
            return Ok(None);
        },
        Some(e) => e,
    };
    if compare_str(nodes[t].kind.as_str(), "block") != 0 || nodes[t].has_error || nodes[e].has_error {
        return Ok(None);
    }
    let tc = comparable_exec(nodes, t)?;
    let ec = comparable_exec(nodes, e)?;
    if tc.len() == 0 || ec.len() == 0 {
        return Ok(None);
    }
    if block_body(nodes[t].text.as_str()).is_none() {
        return Err(());
    }
    Ok(Some((c, t, e, tc, ec)))
}

pub proof fn lemma_field_child_in_tree(nodes: Seq<SyntaxNode>, n: int, field: Seq<char>)
    requires
        0 <= n < nodes.len(),
        field_child(nodes, n, field) matches Ok(Some(_)),
    ensures
        0 <= field_child(nodes, n, field)->Ok_0->Some_0 < nodes.len(),
{
    lemma_first_match_found(nodes[n].children@, fills_field(nodes, field));
}


/// The edges of a control-flow graph that leave a point, in order.
pub open spec fn edges_from(edges: Seq<FlowEdge>, key: Seq<char>) -> Seq<FlowEdge>
    decreases edges.len(),
{
    if edges.len() == 0 {
        Seq::empty()
    } else {
        let rest = edges_from(edges.drop_last(), key);
        if edges.last().from@ == key {
            rest.push(edges.last())
        } else {
            rest
        }
    }
}

/// An exact, unrecovered branch edge.
pub open spec fn exact_branch_edge(e: FlowEdge) -> bool {
    e.exact && !e.recovered_source && !e.recovered_predicate && is_branch_kind(e.kind)
}

/// Exactly two edges leave the dispatch, both exact unrecovered branch
/// edges.
pub open spec fn exact_branch_edges(flow: FlowGraph, key: Seq<char>) -> bool {
    let es = edges_from(flow.edges@, key);
    es.len() == 2 && forall|k: int| 0 <= k < es.len() ==> exact_branch_edge(#[trigger] es[k])
}

pub fn exact_branch_edges_exec(flow: &FlowGraph, key: &str) -> (r: bool)
    ensures
        r == exact_branch_edges(*flow, key@),
{
    let edges = &flow.edges;
    let n = edges.len();
    let mut count: usize = 0;
    let mut all_exact = true;
    let mut i: usize = 0;
    assert(edges@.subrange(0, 0) =~= Seq::<FlowEdge>::empty());
    while i < n
        invariant
            n == edges@.len(),
            *edges == flow.edges,
            i <= n,
            count == edges_from(edges@.subrange(0, i as int), key@).len(),
            count <= i,
            all_exact == forall|k: int| 0 <= k < count ==> exact_branch_edge(
                #[trigger] edges_from(edges@.subrange(0, i as int), key@)[k],
            ),
        decreases n - i,
    {
        let e = &edges[i];
        let ghost before = edges_from(edges@.subrange(0, i as int), key@);
        proof {
            let sub = edges@.subrange(0, i + 1);
            assert(sub.drop_last() =~= edges@.subrange(0, i as int));
            assert(sub.last() == edges@[i as int]);
        }
        if compare_str(e.from.as_str(), key) == 0 {
            let ok = e.exact && !e.recovered_source && !e.recovered_predicate && (e.kind == FlowEdgeKind::BranchTrue
                || e.kind == FlowEdgeKind::BranchFalse || e.kind == FlowEdgeKind::BranchOther);
            proof {
                let after = before.push(edges@[i as int]);
                assert(edges_from(edges@.subrange(0, i + 1), key@) == after);
                if all_exact && ok {
                    assert forall|k: int| 0 <= k < count + 1 implies exact_branch_edge(#[trigger] after[k]) by {
                        if k < count {
                            assert(after[k] == before[k]);
                        }
                    }
                }
                if !all_exact {
                    let k = choose|k: int| 0 <= k < count && !exact_branch_edge(#[trigger] before[k]);
                    assert(after[k] == before[k]);
                }
                if !ok {
                    assert(!exact_branch_edge(after[count as int]));
                }
            }
            all_exact = all_exact && ok;
            count = count + 1;
        } else {
            proof {
                assert(edges_from(edges@.subrange(0, i + 1), key@) == before);
            }
        }
        i = i + 1;
    }
    assert(edges@.subrange(0, n as int) =~= edges@);
    count == 2 && all_exact
}

pub open spec fn node_point_is(key: Seq<char>) -> spec_fn(PdgNode) -> bool {
    |n: PdgNode| n.point@ == key
}

pub fn find_node_by_point(nodes: &Vec<PdgNode>, key: &str) -> (r: Option<usize>)
    ensures
        r is None ==> first_match(nodes@, node_point_is(key@)) is None,
        r matches Some(i) ==> first_match(nodes@, node_point_is(key@)) == Some(i as int),
{
    let n = nodes.len();
    let mut i: usize = 0;
    while i < n
        invariant
            n == nodes@.len(),
            i <= n,
            forall|j: int| 0 <= j < i ==> !node_point_is(key@)(#[trigger] nodes@[j]),
        decreases n - i,
    {
        if compare_str(nodes[i].point.as_str(), key) == 0 {
            proof {
                lemma_first_match_at(nodes@, node_point_is(key@), i as int);
            }
            return Some(i);
        }
        i = i + 1;
    }
    proof {
        lemma_first_match_none(nodes@, node_point_is(key@));
    }
    None
}

/// A branch the equivalent-fragment recipe reads: the dependence graph,
/// the dispatch point, the dependence node at the dispatch, the branch's
/// syntax, and the positions of the graphs the dependence graph derives
/// from.
#[derive(Clone, Copy, Debug)]
pub struct BranchSite {
    pub graph: usize,
    pub point: usize,
    pub node: usize,
    pub branch: usize,
    pub flow: usize,
    pub non_structured: usize,
    pub data_flow: usize,
}

/// The control-flow, non-structured-control and data-flow graphs of a
/// dependence graph; `Err` when one is missing.
pub open spec fn branch_lookups(p: RetainedProjection, gi: int) -> Result<(int, int, int), ()> {
    let g = p.dependence_graphs@[gi];
    match (
        first_match(p.flow_graphs@, flow_key_is(g.flow_graph@)),
        first_match(p.non_structured_graphs@, non_structured_key_is(g.non_structured_graph@)),
        first_match(p.data_flow_graphs@, data_flow_key_is(g.data_flow_graph@)),
    ) {
        (Some(f), Some(n), Some(d)) => Ok((f, n, d)),
        _ => Err(()),
    }
}

/// One control point of a dependence graph's flow graph, given the
/// branches already claimed: the site it yields, if any, and the claimed
/// branches after it. A point yields nothing unless it is an unrecovered
/// dispatch with a source whose two edges are exact branch edges, whose
/// source is a two-armed branch of comparable arms, and whose dependence
/// node exists; a branch claimed before yields nothing again. `Err` when
/// the tree lacks a node the point or the branch refers to.
pub open spec fn dispatch_step(
    p: RetainedProjection,
    gi: int,
    pi: int,
    l: (int, int, int),
    claimed: Set<NodeKeyView>,
) -> Result<(Option<BranchSite>, Set<NodeKeyView>), ()> {
    let g = p.dependence_graphs@[gi];
    let flow = p.flow_graphs@[l.0];
    let point = flow.points@[pi];
    if point.kind != FlowPointKind::BranchDispatch || point.recovered || point.source is None {
        Ok((None, claimed))
    } else if !exact_branch_edges(flow, point.key@) {
        Ok((None, claimed))
    } else {
        let src = point.source->0@;
        match first_match(p.syntax@, syntax_key_is(src)) {
            None => Err(()),
            Some(b) => match branch_shape_of(p.syntax@, b) {
                Err(_) => Err(()),
                Ok(None) => Ok((None, claimed)),
                Ok(Some(_)) => match first_match(g.nodes@, node_point_is(point.key@)) {
                    None => Ok((None, claimed)),
                    Some(ni) => if claimed.contains(src) {
                        Ok((None, claimed))
                    } else {
                        Ok(
                            (
                                Some(
                                    BranchSite {
                                        graph: gi as usize,
                                        point: pi as usize,
                                        node: ni as usize,
                                        branch: b as usize,
                                        flow: l.0 as usize,
                                        non_structured: l.1 as usize,
                                        data_flow: l.2 as usize,
                                    },
                                ),
                                claimed.insert(src),
                            ),
                        )
                    },
                },
            },
        }
    }
}

pub open spec fn opt_site(o: Option<BranchSite>) -> Seq<BranchSite> {
    match o {
        Some(x) => seq![x],
        None => Seq::empty(),
    }
}

/// The sites of the first `k` points of a dependence graph's flow graph.
pub open spec fn scan_dispatches(
    p: RetainedProjection,
    gi: int,
    l: (int, int, int),
    claimed: Set<NodeKeyView>,
    k: nat,
) -> Result<(Seq<BranchSite>, Set<NodeKeyView>), ()>
    decreases k,
{
    if k == 0 {
        Ok((Seq::empty(), claimed))
    } else {
        match scan_dispatches(p, gi, l, claimed, (k - 1) as nat) {
            Err(_) => Err(()),
            Ok((sites, c)) => match dispatch_step(p, gi, k - 1, l, c) {
                Err(_) => Err(()),
                Ok((o, c2)) => Ok((sites + opt_site(o), c2)),
            },
        }
    }
}

/// The sites of the first `j` dependence graphs, in order.
pub open spec fn scan_branch_graphs(p: RetainedProjection, j: nat) -> Result<(Seq<BranchSite>, Set<NodeKeyView>), ()>
    decreases j,
{
    if j == 0 {
        Ok((Seq::empty(), Set::empty()))
    } else {
        match scan_branch_graphs(p, (j - 1) as nat) {
            Err(_) => Err(()),
            Ok((sites, c)) => match branch_lookups(p, j - 1) {
                Err(_) => Err(()),
                Ok(l) => match scan_dispatches(p, j - 1, l, c, p.flow_graphs@[l.0].points@.len()) {
                    Err(_) => Err(()),
                    Ok((s2, c2)) => Ok((sites + s2, c2)),
                },
            },
        }
    }
}

/// The branch sites of a whole projection.
pub open spec fn branch_sites_of(p: RetainedProjection) -> Result<Seq<BranchSite>, ()> {
    match scan_branch_graphs(p, p.dependence_graphs@.len()) {
        Err(_) => Err(()),
        Ok((sites, _)) => Ok(sites),
    }
}

pub fn branch_lookups_exec(p: &RetainedProjection, gi: usize) -> (r: Option<(usize, usize, usize)>)
    requires
        gi < p.dependence_graphs@.len(),
    ensures
        r matches Some(l) ==> branch_lookups(*p, gi as int) == Ok::<(int, int, int), ()>((l.0 as int, l.1 as int, l.2 as int)),
        r is None ==> branch_lookups(*p, gi as int) is Err,
{
    let g = &p.dependence_graphs[gi];
    let f = find_flow(&p.flow_graphs, g.flow_graph.as_str());
    let n = find_non_structured(&p.non_structured_graphs, g.non_structured_graph.as_str());
    let d = find_data_flow(&p.data_flow_graphs, g.data_flow_graph.as_str());
    match (f, n, d) {
        (Some(f), Some(n), Some(d)) => Some((f, n, d)),
        _ => None,
    }
}

pub proof fn lemma_branch_lookups_in_range(p: RetainedProjection, gi: int)
    requires
        0 <= gi < p.dependence_graphs@.len(),
        branch_lookups(p, gi) is Ok,
    ensures
        0 <= branch_lookups(p, gi)->Ok_0.0 < p.flow_graphs@.len(),
        0 <= branch_lookups(p, gi)->Ok_0.1 < p.non_structured_graphs@.len(),
        0 <= branch_lookups(p, gi)->Ok_0.2 < p.data_flow_graphs@.len(),
{
    let g = p.dependence_graphs@[gi];
    lemma_first_match_found(p.flow_graphs@, flow_key_is(g.flow_graph@));
    lemma_first_match_found(p.non_structured_graphs@, non_structured_key_is(g.non_structured_graph@));
    lemma_first_match_found(p.data_flow_graphs@, data_flow_key_is(g.data_flow_graph@));
}

fn step_dispatch(
    p: &RetainedProjection,
    gi: usize,
    pi: usize,
    l: (usize, usize, usize),
    claimed: &mut Vec<NodeKey>,
) -> (r: Result<Option<BranchSite>, ()>)
    requires
        gi < p.dependence_graphs@.len(),
        branch_lookups(*p, gi as int) == Ok::<(int, int, int), ()>((l.0 as int, l.1 as int, l.2 as int)),
        pi < p.flow_graphs@[l.0 as int].points@.len(),
    ensures
        dispatch_step(*p, gi as int, pi as int, (l.0 as int, l.1 as int, l.2 as int), key_set(old(claimed)@))
            matches Ok((o, c)) ==> r == Ok::<Option<BranchSite>, ()>(o) && key_set(final(claimed)@) == c,
        dispatch_step(*p, gi as int, pi as int, (l.0 as int, l.1 as int, l.2 as int), key_set(old(claimed)@))
            is Err ==> r is Err,
{
    proof {
        lemma_branch_lookups_in_range(*p, gi as int);
    }
    let flow = &p.flow_graphs[l.0];
    let point = &flow.points[pi];
    if point.kind != FlowPointKind::BranchDispatch || point.recovered {
        return Ok(None);
    }
    let source = match &point.source {
        None => {
            return Ok(None);
        },
        Some(s) => s,
    };
    if !exact_branch_edges_exec(flow, point.key.as_str()) {
        return Ok(None);
    }
    let b = match find_syntax(&p.syntax, source) {
        None => {
            return Err(());
        },
        Some(b) => b,
    };
    proof {
        lemma_first_match_found(p.syntax@, syntax_key_is(source@));
    }
    match branch_shape(&p.syntax, b) {
        Err(()) => {
            return Err(());
        },
        Ok(None) => {
            return Ok(None);
        },
        Ok(Some(_)) => {},
    }
    let g = &p.dependence_graphs[gi];
    let ni = match find_node_by_point(&g.nodes, point.key.as_str()) {
        None => {
            return Ok(None);
        },
        Some(ni) => ni,
    };
    proof {
        lemma_first_match_found(g.nodes@, node_point_is(point.key@));
    }
    if claimed_contains(claimed, source) {
        return Ok(None);
    }
    let ghost before = key_set(claimed@);
    claimed.push(source.duplicate());
    proof {
        let v = claimed@;
        assert forall|k: NodeKeyView| key_set(v).contains(k) <==> before.insert(source@).contains(k) by {
            if key_set(v).contains(k) {
                let i = choose|i: int| 0 <= i < v.len() && (#[trigger] v[i])@ == k;
                if i < v.len() - 1 {
                    assert(old(claimed)@[i] == v[i]);
                }
            }
            if before.contains(k) {
                let i = choose|i: int| 0 <= i < old(claimed)@.len() && (#[trigger] old(claimed)@[i])@ == k;
                assert(v[i] == old(claimed)@[i]);
            }
            if k == source@ {
                assert(v[v.len() - 1]@ == source@);
            }
        }
        assert(key_set(v) =~= before.insert(source@));
    }
    Ok(Some(BranchSite { graph: gi, point: pi, node: ni, branch: b, flow: l.0, non_structured: l.1, data_flow: l.2 }))
}

proof fn lemma_scan_dispatches_err_stays(
    p: RetainedProjection,
    gi: int,
    l: (int, int, int),
    claimed: Set<NodeKeyView>,
    k: nat,
    m: nat,
)
    requires
        k <= m,
        scan_dispatches(p, gi, l, claimed, k) is Err,
    ensures
        scan_dispatches(p, gi, l, claimed, m) is Err,
    decreases m - k,
{
    if k < m {
        lemma_scan_dispatches_err_stays(p, gi, l, claimed, k, (m - 1) as nat);
    }
}

proof fn lemma_scan_branch_graphs_err_stays(p: RetainedProjection, k: nat, m: nat)
    requires
        k <= m,
        scan_branch_graphs(p, k) is Err,
    ensures
        scan_branch_graphs(p, m) is Err,
    decreases m - k,
{
    if k < m {
        lemma_scan_branch_graphs_err_stays(p, k, (m - 1) as nat);
    }
}

/// The branch sites of a projection, in graph and point order, each branch
/// once.
pub fn branch_sites(p: &RetainedProjection) -> (r: Result<Vec<BranchSite>, ()>)
    ensures
        r matches Ok(v) ==> branch_sites_of(*p) == Ok::<Seq<BranchSite>, ()>(v@),
        r is Err ==> branch_sites_of(*p) is Err,
{
    let mut sites: Vec<BranchSite> = Vec::new();
    let mut claimed: Vec<NodeKey> = Vec::new();
    let ng = p.dependence_graphs.len();
    let mut j: usize = 0;
    assert(key_set(claimed@) =~= Set::<NodeKeyView>::empty());
    while j < ng
        invariant
            ng == p.dependence_graphs@.len(),
            j <= ng,
            scan_branch_graphs(*p, j as nat) == Ok::<(Seq<BranchSite>, Set<NodeKeyView>), ()>(
                (sites@, key_set(claimed@)),
            ),
        decreases ng - j,
    {
        let l = match branch_lookups_exec(p, j) {
            None => {
                proof {
                    lemma_scan_branch_graphs_err_stays(*p, (j + 1) as nat, ng as nat);
                }
                return Err(());
            },
            Some(l) => l,
        };
        proof {
            lemma_branch_lookups_in_range(*p, j as int);
        }
        let ghost lk = (l.0 as int, l.1 as int, l.2 as int);
        let ghost start_sites = sites@;
        let ghost start_claimed = key_set(claimed@);
        let np = p.flow_graphs[l.0].points.len();
        let mut k: usize = 0;
        assert(sites@.subrange(start_sites.len() as int, sites@.len() as int) =~= Seq::<BranchSite>::empty());
        assert(sites@.subrange(0, start_sites.len() as int) =~= start_sites);
        while k < np
            invariant
                ng == p.dependence_graphs@.len(),
                j < ng,
                l.0 < p.flow_graphs@.len(),
                np == p.flow_graphs@[l.0 as int].points@.len(),
                k <= np,
                branch_lookups(*p, j as int) == Ok::<(int, int, int), ()>(lk),
                lk == (l.0 as int, l.1 as int, l.2 as int),
                scan_branch_graphs(*p, j as nat) == Ok::<(Seq<BranchSite>, Set<NodeKeyView>), ()>(
                    (start_sites, start_claimed),
                ),
                scan_dispatches(*p, j as int, lk, start_claimed, k as nat) == Ok::<
                    (Seq<BranchSite>, Set<NodeKeyView>),
                    (),
                >((sites@.subrange(start_sites.len() as int, sites@.len() as int), key_set(claimed@))),
                sites@.subrange(0, start_sites.len() as int) == start_sites,
                start_sites.len() <= sites@.len(),
            decreases np - k,
        {
            let ghost before = sites@;
            match step_dispatch(p, j, k, l, &mut claimed) {
                Err(()) => {
                    proof {
                        lemma_scan_dispatches_err_stays(*p, j as int, lk, start_claimed, (k + 1) as nat, np as nat);
                        assert(scan_branch_graphs(*p, (j + 1) as nat) is Err);
                        lemma_scan_branch_graphs_err_stays(*p, (j + 1) as nat, ng as nat);
                    }
                    return Err(());
                },
                Ok(Some(site)) => {
                    sites.push(site);
                    proof {
                        assert(sites@.subrange(start_sites.len() as int, sites@.len() as int) =~= before.subrange(
                            start_sites.len() as int,
                            before.len() as int,
                        ) + seq![site]);
                        assert(sites@.subrange(0, start_sites.len() as int) =~= before.subrange(0, start_sites.len() as int));
                    }
                },
                Ok(None) => {
                    proof {
                        assert(before.subrange(start_sites.len() as int, before.len() as int) + Seq::<BranchSite>::empty()
                            =~= before.subrange(start_sites.len() as int, before.len() as int));
                    }
                },
            }
            k = k + 1;
        }
        proof {
            assert(sites@ =~= start_sites + sites@.subrange(start_sites.len() as int, sites@.len() as int));
        }
        j = j + 1;
    }
    Ok(sites)
}

/// A site names positions of the projection: a dispatch point whose source
/// is the branch, a dependence node at the dispatch, and a branch of a
/// two-armed shape.
pub open spec fn branch_site_ok(p: RetainedProjection, site: BranchSite) -> bool {
    &&& site.graph < p.dependence_graphs@.len()
    &&& site.node < p.dependence_graphs@[site.graph as int].nodes@.len()
    &&& site.flow < p.flow_graphs@.len()
    &&& site.point < p.flow_graphs@[site.flow as int].points@.len()
    &&& site.non_structured < p.non_structured_graphs@.len()
    &&& site.data_flow < p.data_flow_graphs@.len()
    &&& site.branch < p.syntax@.len()
    &&& branch_shape_of(p.syntax@, site.branch as int) matches Ok(Some(_))
    &&& p.flow_graphs@[site.flow as int].points@[site.point as int].source matches Some(src) && src@ == p.syntax@[site.branch as int].key@
    &&& p.dependence_graphs@[site.graph as int].nodes@[site.node as int].point@ == p.flow_graphs@[site.flow as int].points@[site.point as int].key@
}

proof fn lemma_dispatch_step_ok(p: RetainedProjection, gi: int, pi: int, l: (int, int, int), claimed: Set<NodeKeyView>)
    requires
        0 <= gi < p.dependence_graphs@.len(),
        branch_lookups(p, gi) == Ok::<(int, int, int), ()>(l),
        0 <= pi < p.flow_graphs@[l.0].points@.len(),
        dispatch_step(p, gi, pi, l, claimed) matches Ok((Some(_), _)),
    ensures
        branch_site_ok(p, dispatch_step(p, gi, pi, l, claimed)->Ok_0.0->Some_0),
{
    lemma_branch_lookups_in_range(p, gi);
    let g = p.dependence_graphs@[gi];
    let flow = p.flow_graphs@[l.0];
    let point = flow.points@[pi];
    let src = point.source->0@;
    lemma_first_match_found(p.syntax@, syntax_key_is(src));
    lemma_first_match_found(g.nodes@, node_point_is(point.key@));
    vstd::std_specs::vec::axiom_spec_len(&p.dependence_graphs);
    vstd::std_specs::vec::axiom_spec_len(&g.nodes);
    vstd::std_specs::vec::axiom_spec_len(&p.syntax);
    vstd::std_specs::vec::axiom_spec_len(&p.flow_graphs);
    vstd::std_specs::vec::axiom_spec_len(&flow.points);
    vstd::std_specs::vec::axiom_spec_len(&p.non_structured_graphs);
    vstd::std_specs::vec::axiom_spec_len(&p.data_flow_graphs);
}

proof fn lemma_scan_dispatches_ok(p: RetainedProjection, gi: int, l: (int, int, int), claimed: Set<NodeKeyView>, k: nat)
    requires
        0 <= gi < p.dependence_graphs@.len(),
        branch_lookups(p, gi) == Ok::<(int, int, int), ()>(l),
        k <= p.flow_graphs@[l.0].points@.len(),
        scan_dispatches(p, gi, l, claimed, k) is Ok,
    ensures
        forall|i: int| 0 <= i < scan_dispatches(p, gi, l, claimed, k)->Ok_0.0.len() ==> branch_site_ok(
            p,
            #[trigger] scan_dispatches(p, gi, l, claimed, k)->Ok_0.0[i],
        ),
    decreases k,
{
    lemma_branch_lookups_in_range(p, gi);
    if k > 0 {
        lemma_scan_dispatches_ok(p, gi, l, claimed, (k - 1) as nat);
        let prev = scan_dispatches(p, gi, l, claimed, (k - 1) as nat)->Ok_0;
        if dispatch_step(p, gi, k - 1, l, prev.1) matches Ok((Some(_), _)) {
            lemma_dispatch_step_ok(p, gi, k - 1, l, prev.1);
        }
        let all = scan_dispatches(p, gi, l, claimed, k)->Ok_0.0;
        assert forall|i: int| 0 <= i < all.len() implies branch_site_ok(p, #[trigger] all[i]) by {
            if i < prev.0.len() {
                assert(all[i] == prev.0[i]);
            }
        }
    }
}

/// Every site of a projection names positions that lie in it.
pub proof fn lemma_branch_sites_ok(p: RetainedProjection, j: nat)
    requires
        j <= p.dependence_graphs@.len(),
        scan_branch_graphs(p, j) is Ok,
    ensures
        forall|i: int| 0 <= i < scan_branch_graphs(p, j)->Ok_0.0.len() ==> branch_site_ok(
            p,
            #[trigger] scan_branch_graphs(p, j)->Ok_0.0[i],
        ),
    decreases j,
{
    if j > 0 {
        lemma_branch_sites_ok(p, (j - 1) as nat);
        let prev = scan_branch_graphs(p, (j - 1) as nat)->Ok_0;
        let l = branch_lookups(p, j - 1)->Ok_0;
        lemma_branch_lookups_in_range(p, j - 1);
        lemma_scan_dispatches_ok(p, j - 1, l, prev.1, p.flow_graphs@[l.0].points@.len());
        let more = scan_dispatches(p, j - 1, l, prev.1, p.flow_graphs@[l.0].points@.len())->Ok_0.0;
        let all = scan_branch_graphs(p, j)->Ok_0.0;
        assert forall|i: int| 0 <= i < all.len() implies branch_site_ok(p, #[trigger] all[i]) by {
            if i < prev.0.len() {
                assert(all[i] == prev.0[i]);
            } else {
                assert(all[i] == more[i - prev.0.len()]);
            }
        }
    }
}

/// The arm nodes at the given positions: their kinds and texts.
pub open spec fn arm_of(nodes: Seq<SyntaxNode>, positions: Seq<usize>, arm: Seq<ArmNode>) -> bool {
    &&& arm.len() == positions.len()
    &&& forall|k: int| 0 <= k < arm.len() ==> (#[trigger] arm[k]).kind@ == nodes[positions[k] as int].kind@ && arm[k].text@
        == nodes[positions[k] as int].text@
}

/// The parts of a site's branch: the condition's text, the comparable
/// children of both arms, and the body of the consequence.
pub open spec fn parts_of_site(parts: BranchParts, p: RetainedProjection, site: BranchSite) -> bool {
    let nodes = p.syntax@;
    let shape = branch_shape_of(nodes, site.branch as int)->Ok_0->Some_0;
    &&& parts.condition@ == nodes[shape.0].text@
    &&& arm_of(nodes, shape.3, parts.then_nodes@)
    &&& arm_of(nodes, shape.4, parts.else_nodes@)
    &&& block_body_of(nodes[shape.1].text@) == Some(parts.then_body@)
}

fn arm_nodes(nodes: &Vec<SyntaxNode>, positions: &Vec<usize>) -> (r: Vec<ArmNode>)
    requires
        forall|k: int| 0 <= k < positions@.len() ==> (#[trigger] positions@[k]) < nodes@.len(),
    ensures
        arm_of(nodes@, positions@, r@),
{
    let mut out: Vec<ArmNode> = Vec::new();
    let n = positions.len();
    let mut i: usize = 0;
    while i < n
        invariant
            n == positions@.len(),
            i <= n,
            out@.len() == i,
            forall|k: int| 0 <= k < positions@.len() ==> (#[trigger] positions@[k]) < nodes@.len(),
            forall|k: int| 0 <= k < i ==> (#[trigger] out@[k]).kind@ == nodes@[positions@[k] as int].kind@ && out@[k].text@
                == nodes@[positions@[k] as int].text@,
        decreases n - i,
    {
        let node = &nodes[positions[i]];
        out.push(ArmNode { kind: node.kind.clone(), text: node.text.clone() });
        i = i + 1;
    }
    out
}

/// The parts of a site's branch.
fn site_parts(p: &RetainedProjection, site: BranchSite) -> (r: BranchParts)
    requires
        branch_site_ok(*p, site),
    ensures
        parts_of_site(r, *p, site),
{
    match branch_shape(&p.syntax, site.branch) {
        Ok(Some((c, t, _e, tc, ec))) => {
            let body = match block_body(p.syntax[t].text.as_str()) {
                Some(b) => b,
                None => {
                    proof {
                        assert(false);
                    }
                    String::new()
                },
            };
            BranchParts {
                condition: p.syntax[c].text.clone(),
                then_nodes: arm_nodes(&p.syntax, &tc),
                else_nodes: arm_nodes(&p.syntax, &ec),
                then_body: body,
            }
        },
        _ => {
            proof {
                assert(false);
            }
            BranchParts { condition: String::new(), then_nodes: Vec::new(), else_nodes: Vec::new(), then_body: String::new() }
        },
    }
}

/// Capability of def/use facts.
pub const DEF_USE: &'static str = "def-use";
/// Capability of effect facts.
pub const EFFECTS: &'static str = "effects";

/// A result with one piece of evidence that names a capability.
pub open spec fn capability_result(
    r: ConditionResult,
    condition: Seq<char>,
    state: ProofState,
    entity: GraphEntityView,
    detail: Seq<char>,
    capability: Seq<char>,
    support: CapabilitySupport,
    authority: Option<Seq<char>>,
) -> bool {
    &&& r.condition@ == condition
    &&& r.state == state
    &&& r.evidence@.len() == 1
    &&& r.evidence@[0].entity@ == entity
    &&& r.evidence@[0].detail@ == detail
    &&& text_view(r.evidence@[0].capability) == Some(capability)
    &&& r.evidence@[0].support == Some(support)
    &&& text_view(r.evidence@[0].authority) == authority
}

pub const ORDER_DETAIL: &'static str =
    "The replacement keeps the condition before the factored fragment and evaluates it exactly once.";
pub const DEPENDENCY_DETAIL: &'static str =
    "Production Rust def/use authority is unavailable; binding movement requires review.";
pub const EFFECT_DETAIL: &'static str =
    "Production Rust effect authority is unavailable; destruction and borrow timing require review.";
pub const CONTROL_DETAIL: &'static str = "The dispatch and both outgoing branch edges are exact and unrecovered.";
pub const ESCAPE_DETAIL: &'static str =
    "The missing def/use and effect capabilities cannot disprove a binding, lifetime, or drop-order escape.";
pub const NO_FACTS_DETAIL: &'static str = "No retained non-structured-control fact participates in this callable.";
pub const FACTS_DETAIL: &'static str = "Retained non-structured-control facts require manual review.";

/// The detail of the exact-fragment obligation.
pub open spec fn fragment_detail(kind: FactoringKind) -> Seq<char> {
    "Exact retained Rust CST text proves a "@ + factoring_name(kind) + " fragment at matching arm boundaries."@
}

/// The rationale of the branch's expected modification.
pub open spec fn modify_rationale(kind: FactoringKind) -> Seq<char> {
    "Rebuild must retain one condition dispatch while replacing duplicated "@ + factoring_name(kind)
        + " control/dependence structure."@
}

/// The impact cone of a site: the answer of a bidirectional query of depth
/// eight around its dependence node.
pub open spec fn branch_impact(p: RetainedProjection, site: BranchSite, impact: ImpactCone) -> bool {
    let g = p.dependence_graphs@[site.graph as int];
    exists|deps: Seq<DependenceGraph>|
        dependence_views(deps, p.dependence_graphs@) && #[trigger] crate::impact::impact_answer(
            deps,
            g.key@,
            g.nodes@[site.node as int].key@,
            ImpactDirection::Bidirectional,
            8,
            Ok(impact),
        )
}

/// The draft of one factoring of a site's branch: bound to the recipe and
/// the projection's identities; targeting the branch through its dependence
/// node; the exact-fragment and condition-order obligations proven on the
/// dispatch, the dependency and effect obligations unknown with the
/// data-flow graph's capabilities; control uncertainty disproven, binding
/// escape unknown, non-structured control disproven exactly when the
/// callable has no such fact; the dependence node modified; one exact
/// replacement of the branch's text; the recipe's plans; review required
/// at safe-with-precondition.
pub open spec fn is_branch_draft(
    d: TransformationCandidateDraft,
    p: RetainedProjection,
    site: BranchSite,
    kind: FactoringKind,
    after: Seq<char>,
    recipe: TransformationRecipe,
) -> bool {
    let g = p.dependence_graphs@[site.graph as int];
    let n = g.nodes@[site.node as int];
    let flow = p.flow_graphs@[site.flow as int];
    let point = flow.points@[site.point as int];
    let nsc = p.non_structured_graphs@[site.non_structured as int];
    let data = p.data_flow_graphs@[site.data_flow as int];
    let branch = p.syntax@[site.branch as int];
    let fe = GraphEntityView { layer: GraphEvidenceLayer::ControlFlow, graph: flow.key@, entity: point.key@ };
    let de = GraphEntityView { layer: GraphEvidenceLayer::DataFlow, graph: data.key@, entity: data.key@ };
    let ne = GraphEntityView { layer: GraphEvidenceLayer::NonStructuredControl, graph: nsc.key@, entity: nsc.key@ };
    let root = pdg_entity(g.key@, n.key@);
    let span = node_span(branch.key@);
    &&& d.recipe.spec_id() == recipe.spec_id()
    &&& (recipe.wf() ==> d.recipe.wf())
    &&& d.source.project_snapshot@ == p.snapshot@
    &&& d.source.analysis@ == p.analysis@
    &&& d.source.program_dependence_projection@ == p.id@
    &&& d.target.entity@ == root
    &&& d.target.node@ == branch.key@
    &&& d.target.span == span
    &&& d.target.subtree_fingerprint is None
    &&& d.eligibility.consumer@ == g.eligibility.consumer@
    &&& d.eligibility.required_layers@ == g.eligibility.required_layers@
    &&& d.eligibility.eligible == g.eligibility.eligible
    &&& d.required_results@.len() == 4
    &&& single_result(d.required_results@[0], CONDITION_EQUIVALENT_FRAGMENT@, ProofState::Proven, fe, fragment_detail(kind))
    &&& single_result(d.required_results@[1], CONDITION_CONDITION_ORDER@, ProofState::Proven, fe, ORDER_DETAIL@)
    &&& capability_result(d.required_results@[2], CONDITION_DEPENDENCIES@, ProofState::Unknown, de, DEPENDENCY_DETAIL@,
        DEF_USE@, data.def_use_support, text_view(data.def_use_authority))
    &&& capability_result(d.required_results@[3], CONDITION_EFFECT_ORDER@, ProofState::Unknown, de, EFFECT_DETAIL@,
        EFFECTS@, data.effects_support, text_view(data.effects_authority))
    &&& d.forbidden_results@.len() == 3
    &&& single_result(d.forbidden_results@[0], FORBIDDEN_UNCERTAIN_CONTROL@, ProofState::Disproven, fe, CONTROL_DETAIL@)
    &&& capability_result(d.forbidden_results@[1], FORBIDDEN_BINDING_ESCAPE@, ProofState::Unknown, de, ESCAPE_DETAIL@,
        DEF_USE@, data.def_use_support, text_view(data.def_use_authority))
    &&& (if nsc.has_facts {
        single_result(d.forbidden_results@[2], FORBIDDEN_NON_STRUCTURED@, ProofState::Unknown, ne, FACTS_DETAIL@)
    } else {
        single_result(d.forbidden_results@[2], FORBIDDEN_NON_STRUCTURED@, ProofState::Disproven, ne, NO_FACTS_DETAIL@)
    })
    &&& d.expected_delta.changes@.len() == 1
    &&& d.expected_delta.changes@[0].kind == GraphChangeKind::Modify
    &&& d.expected_delta.changes@[0].entity@ == root
    &&& d.expected_delta.changes@[0].rationale@ == modify_rationale(kind)
    &&& d.edits@.len() == 1
    &&& d.edits@[0].target@ == branch.key@
    &&& d.edits@[0].span == span
    &&& d.edits@[0].before@ == branch.text@
    &&& d.edits@[0].after@ == after
    &&& d.edits@[0].revision_guard@ == revision_guard_id(branch.key@.path, span, branch.text@)
    &&& d.safety == SafetyClass::SafeWithPrecondition
    &&& d.disposition == CandidateDisposition::ReviewRequired
    &&& steps_agree(d.validation_plan.steps@, recipe.spec_draft().validation_plan.steps@)
    &&& d.rollback_plan.strategy == recipe.spec_draft().rollback_plan.strategy
    &&& d.rollback_plan.require_revision_guards == recipe.spec_draft().rollback_plan.require_revision_guards
    &&& keys_agree(d.rollback_plan.validation_steps@, recipe.spec_draft().rollback_plan.validation_steps@)
}

/// A candidate for one factoring of a site: well formed, and its draft is,
/// up to the canonical order of its lists, the factoring's draft with the
/// site's impact cone.
#[verifier::opaque]
pub open spec fn branch_candidate_for(
    c: TransformationCandidate,
    p: RetainedProjection,
    site: BranchSite,
    kind: FactoringKind,
    after: Seq<char>,
    recipe: TransformationRecipe,
) -> bool {
    &&& c.wf()
    &&& exists|d: TransformationCandidateDraft|
        #[trigger] is_branch_draft(d, p, site, kind, after, recipe) && candidate_arrangement(c.spec_draft(), d)
            && branch_impact(p, site, d.impact)
}

pub fn plain_result(condition: &str, state: ProofState, entity: GraphEntityRef, detail: &str) -> (r: ConditionResult)
    ensures
        single_result(r, condition@, state, entity@, detail@),
{
    ConditionResult {
        condition: condition.to_owned(),
        state,
        evidence: vec![
            ConditionEvidence { entity, detail: detail.to_owned(), capability: None, support: None, authority: None },
        ],
    }
}

pub fn capability_result_exec(
    condition: &str,
    state: ProofState,
    entity: GraphEntityRef,
    detail: &str,
    capability: &str,
    support: CapabilitySupport,
    authority: &Option<String>,
) -> (r: ConditionResult)
    ensures
        capability_result(r, condition@, state, entity@, detail@, capability@, support, text_view(*authority)),
{
    let authority = match authority {
        Some(a) => Some(a.clone()),
        None => None,
    };
    ConditionResult {
        condition: condition.to_owned(),
        state,
        evidence: vec![
            ConditionEvidence {
                entity,
                detail: detail.to_owned(),
                capability: Some(capability.to_owned()),
                support: Some(support),
                authority,
            },
        ],
    }
}

pub fn entity(layer: GraphEvidenceLayer, graph: &str, name: &str) -> (r: GraphEntityRef)
    ensures
        r@ == (GraphEntityView { layer, graph: graph@, entity: name@ }),
{
    GraphEntityRef { layer, graph: graph.to_owned(), entity: name.to_owned() }
}

/// When a factoring's candidate is owed: the branch's rows fit, the
/// impact query around its dependence node can be answered, and every
/// draft of the factoring is valid.
pub open spec fn factoring_owed(
    p: RetainedProjection,
    deps: Seq<DependenceGraph>,
    site: BranchSite,
    kind: FactoringKind,
    after: Seq<char>,
    recipe: TransformationRecipe,
) -> bool {
    let g = p.dependence_graphs@[site.graph as int];
    &&& rows_fit(p.syntax@[site.branch as int].key@)
    &&& impact_found(deps, g.key@, g.nodes@[site.node as int].key@, 8)
    &&& forall|d: TransformationCandidateDraft|
        #[trigger] is_branch_draft(d, p, site, kind, after, recipe) && branch_impact(p, site, d.impact) ==> candidate_fields_valid(d)
}

/// When a site's candidates are owed: the candidate of every factoring its
/// branch admits is owed.
pub open spec fn site_owed(p: RetainedProjection, deps: Seq<DependenceGraph>, site: BranchSite, recipe: TransformationRecipe) -> bool {
    forall|parts: BranchParts, vs: Seq<(FactoringKind, String)>, j: int|
        #![trigger parts_of_site(parts, p, site), variants_are(vs, parts), vs[j]]
        parts_of_site(parts, p, site) && variants_are(vs, parts) && 0 <= j < vs.len() ==> factoring_owed(
            p,
            deps,
            site,
            vs[j].0,
            vs[j].1@,
            recipe,
        )
}

/// The candidate of one factoring of a site.
fn factoring_candidate(
    p: &RetainedProjection,
    recipe: &TransformationRecipe,
    deps: &Vec<DependenceGraph>,
    site: BranchSite,
    kind: FactoringKind,
    after: &String,
) -> (r: Result<TransformationCandidate, BranchRecipeError>)
    requires
        branch_site_ok(*p, site),
        dependence_views(deps@, p.dependence_graphs@),
    ensures
        r matches Ok(c) ==> branch_candidate_for(c, *p, site, kind, after@, *recipe),
        factoring_owed(*p, deps@, site, kind, after@, *recipe) ==> r is Ok,
{
    let g = &p.dependence_graphs[site.graph];
    let node = &g.nodes[site.node];
    let flow = &p.flow_graphs[site.flow];
    let point = &flow.points[site.point];
    let nsc = &p.non_structured_graphs[site.non_structured];
    let data = &p.data_flow_graphs[site.data_flow];
    let branch = &p.syntax[site.branch];
    let key = &branch.key;
    if key.start_row >= usize::MAX || key.end_row >= usize::MAX {
        return Err(BranchRecipeError::Projection("retained node rows are out of range".to_owned()));
    }
    let span = Span {
        start_line: key.start_row + 1,
        end_line: key.end_row + 1,
        start_byte: key.start_byte,
        end_byte: key.end_byte,
    };
    let impact = match program_dependence_impact_cone(
        deps,
        g.key.as_str(),
        node.key.as_str(),
        ImpactDirection::Bidirectional,
        8,
    ) {
        Ok(c) => c,
        Err(e) => {
            return Err(BranchRecipeError::Impact(e));
        },
    };
    let fk = flow.key.as_str();
    let pk = point.key.as_str();
    let dk = data.key.as_str();
    let mut fragment = String::new();
    crate::json::string_append(&mut fragment, "Exact retained Rust CST text proves a ");
    crate::json::string_append(&mut fragment, kind.name());
    crate::json::string_append(&mut fragment, " fragment at matching arm boundaries.");
    assert(fragment@ =~= fragment_detail(kind));
    let mut rationale = String::new();
    crate::json::string_append(&mut rationale, "Rebuild must retain one condition dispatch while replacing duplicated ");
    crate::json::string_append(&mut rationale, kind.name());
    crate::json::string_append(&mut rationale, " control/dependence structure.");
    assert(rationale@ =~= modify_rationale(kind));
    let required_results = vec![
        plain_result(
            CONDITION_EQUIVALENT_FRAGMENT,
            ProofState::Proven,
            entity(GraphEvidenceLayer::ControlFlow, fk, pk),
            fragment.as_str(),
        ),
        plain_result(CONDITION_CONDITION_ORDER, ProofState::Proven, entity(GraphEvidenceLayer::ControlFlow, fk, pk), ORDER_DETAIL),
        capability_result_exec(
            CONDITION_DEPENDENCIES,
            ProofState::Unknown,
            entity(GraphEvidenceLayer::DataFlow, dk, dk),
            DEPENDENCY_DETAIL,
            DEF_USE,
            data.def_use_support,
            &data.def_use_authority,
        ),
        capability_result_exec(
            CONDITION_EFFECT_ORDER,
            ProofState::Unknown,
            entity(GraphEvidenceLayer::DataFlow, dk, dk),
            EFFECT_DETAIL,
            EFFECTS,
            data.effects_support,
            &data.effects_authority,
        ),
    ];
    let non_structured = if nsc.has_facts {
        plain_result(
            FORBIDDEN_NON_STRUCTURED,
            ProofState::Unknown,
            entity(GraphEvidenceLayer::NonStructuredControl, nsc.key.as_str(), nsc.key.as_str()),
            FACTS_DETAIL,
        )
    } else {
        plain_result(
            FORBIDDEN_NON_STRUCTURED,
            ProofState::Disproven,
            entity(GraphEvidenceLayer::NonStructuredControl, nsc.key.as_str(), nsc.key.as_str()),
            NO_FACTS_DETAIL,
        )
    };
    let forbidden_results = vec![
        plain_result(FORBIDDEN_UNCERTAIN_CONTROL, ProofState::Disproven, entity(GraphEvidenceLayer::ControlFlow, fk, pk), CONTROL_DETAIL),
        capability_result_exec(
            FORBIDDEN_BINDING_ESCAPE,
            ProofState::Unknown,
            entity(GraphEvidenceLayer::DataFlow, dk, dk),
            ESCAPE_DETAIL,
            DEF_USE,
            data.def_use_support,
            &data.def_use_authority,
        ),
        non_structured,
    ];
    let root = entity(GraphEvidenceLayer::ProgramDependence, g.key.as_str(), node.key.as_str());
    let draft = TransformationCandidateDraft {
        recipe: recipe.duplicate(),
        source: CandidateSource {
            project_snapshot: p.snapshot.clone(),
            analysis: p.analysis.clone(),
            program_dependence_projection: p.id.clone(),
        },
        target: CandidateTarget { entity: root.duplicate(), node: key.duplicate(), span, subtree_fingerprint: None },
        eligibility: crate::candidate::GraphEligibilityDecision {
            consumer: g.eligibility.consumer.clone(),
            required_layers: copy_layers(g.eligibility.required_layers.as_slice()),
            eligible: g.eligibility.eligible,
        },
        required_results,
        forbidden_results,
        impact,
        expected_delta: ExpectedGraphDelta {
            changes: vec![ExpectedGraphChange { kind: GraphChangeKind::Modify, entity: root, rationale }],
        },
        edits: vec![TransformationEdit::exact_node_replacement(key.duplicate(), span, branch.text.clone(), after.clone())],
        safety: SafetyClass::SafeWithPrecondition,
        disposition: CandidateDisposition::ReviewRequired,
        validation_plan: crate::recipe::duplicate_validation_plan(recipe.validation_plan()),
        rollback_plan: crate::recipe::duplicate_rollback_plan(recipe.rollback_plan()),
    };
    let ghost original = draft;
    proof {
        assert(crate::impact::impact_answer(
            deps@,
            g.key@,
            node.key@,
            ImpactDirection::Bidirectional,
            8,
            Ok(original.impact),
        ));
        assert(branch_impact(*p, site, original.impact));
        assert(is_branch_draft(original, *p, site, kind, after@, *recipe));
    }
    match TransformationCandidate::new(draft) {
        Ok(c) => {
            proof {
                reveal(branch_candidate_for);
            }
            Ok(c)
        },
        Err(e) => Err(BranchRecipeError::Contract(e)),
    }
}

/// The candidates of one site: one per factoring its branch admits, in the
/// order the factorings come.
#[verifier::opaque]
pub open spec fn site_candidates(
    cs: Seq<TransformationCandidate>,
    p: RetainedProjection,
    site: BranchSite,
    recipe: TransformationRecipe,
) -> bool {
    exists|parts: BranchParts, vs: Seq<(FactoringKind, String)>|
        #![trigger parts_of_site(parts, p, site), variants_are(vs, parts)]
        parts_of_site(parts, p, site) && variants_are(vs, parts) && cs.len() == vs.len() && forall|j: int|
            0 <= j < cs.len() ==> #[trigger] branch_candidate_for(cs[j], p, site, vs[j].0, vs[j].1@, recipe)
}

/// The candidates of one site.
fn site_candidates_exec(
    p: &RetainedProjection,
    recipe: &TransformationRecipe,
    deps: &Vec<DependenceGraph>,
    site: BranchSite,
) -> (r: Result<Vec<TransformationCandidate>, BranchRecipeError>)
    requires
        branch_site_ok(*p, site),
        dependence_views(deps@, p.dependence_graphs@),
    ensures
        r matches Ok(cs) ==> site_candidates(cs@, *p, site, *recipe),
        site_owed(*p, deps@, site, *recipe) ==> r is Ok,
{
    let parts = site_parts(p, site);
    let vs = factoring_variants(&parts);
    let mut out: Vec<TransformationCandidate> = Vec::new();
    let n = vs.len();
    let mut j: usize = 0;
    while j < n
        invariant
            n == vs@.len(),
            j <= n,
            branch_site_ok(*p, site),
            dependence_views(deps@, p.dependence_graphs@),
            out@.len() == j,
            forall|k: int| 0 <= k < j ==> #[trigger] branch_candidate_for(out@[k], *p, site, vs@[k].0, vs@[k].1@, *recipe),
            parts_of_site(parts, *p, site) && variants_are(vs@, parts),
        decreases n - j,
    {
        proof {
            if site_owed(*p, deps@, site, *recipe) {
                assert(factoring_owed(*p, deps@, site, vs@[j as int].0, vs@[j as int].1@, *recipe));
            }
        }
        let c = factoring_candidate(p, recipe, deps, site, vs[j].0, &vs[j].1)?;
        out.push(c);
        j = j + 1;
    }
    proof {
        reveal(site_candidates);
        assert(parts_of_site(parts, *p, site) && variants_are(vs@, parts));
    }
    Ok(out)
}

/// The candidates of each site, one group per site.
pub open spec fn groups_for_sites(
    groups: Seq<Seq<TransformationCandidate>>,
    p: RetainedProjection,
    sites: Seq<BranchSite>,
    recipe: TransformationRecipe,
) -> bool {
    groups.len() == sites.len() && forall|k: int| 0 <= k < groups.len() ==> #[trigger] site_candidates(groups[k], p, sites[k], recipe)
}

/// When the candidates of a projection are owed: its sites can be found
/// and, under the branch-factoring recipe and the projection's dependence graphs,
/// the candidate of every site is owed.
pub open spec fn branch_all_owed(p: RetainedProjection) -> bool {
    &&& branch_sites_of(p) is Ok
    &&& forall|recipe: TransformationRecipe, deps: Seq<DependenceGraph>, k: int|
        recipe_header(
                Ok(recipe),
                "rust-factor-equivalent-branch-fragments"@,
                "1.0.0"@,
                TransformationFamily::BranchControl,
                SafetyClass::SafeWithPrecondition,
                seq![
                    GraphEvidenceLayer::ControlFlow,
                    GraphEvidenceLayer::ControlRegions,
                    GraphEvidenceLayer::NonStructuredControl,
                    GraphEvidenceLayer::DataFlow,
                    GraphEvidenceLayer::ProgramDependence,
                ],
            ) && dependence_views(deps, p.dependence_graphs@) && 0 <= k < branch_sites_of(p)->Ok_0.len()
            ==> #[trigger] site_owed(p, deps, branch_sites_of(p)->Ok_0[k], recipe)
}

/// What an `Ok` of the branch-fragment detector holds on `p`: the sites
/// scanned, keys in order, and the candidate groups built for every site
/// under the recipe.
pub open spec fn branch_ok_result(p: RetainedProjection, cs: Seq<TransformationCandidate>) -> bool {
    branch_sites_of(p) is Ok && keys_sorted(cs) && exists|
        recipe: TransformationRecipe,
        groups: Seq<Seq<TransformationCandidate>>,
    |
        #![trigger groups_for_sites(groups, p, branch_sites_of(p)->Ok_0, recipe)]
        recipe_header(
            Ok(recipe),
            "rust-factor-equivalent-branch-fragments"@,
            "1.0.0"@,
            TransformationFamily::BranchControl,
            SafetyClass::SafeWithPrecondition,
            seq![
                GraphEvidenceLayer::ControlFlow,
                GraphEvidenceLayer::ControlRegions,
                GraphEvidenceLayer::NonStructuredControl,
                GraphEvidenceLayer::DataFlow,
                GraphEvidenceLayer::ProgramDependence,
            ],
        ) && groups_for_sites(groups, p, branch_sites_of(p)->Ok_0, recipe) && cs.to_multiset()
            == groups.flatten_alt().to_multiset()
}

/// Finds every exact two-armed branch of a retained projection whose arms
/// are equivalent or share a prefix or a suffix, and proposes each
/// factoring for review: the candidates of every site, ordered by
/// candidate identity. A projection that lacks a graph or a syntax node a
/// site refers to is refused.
pub fn detect_equivalent_branch_fragments(p: &RetainedProjection) -> (r: Result<
    Vec<TransformationCandidate>,
    BranchRecipeError,
>)
    ensures
        branch_sites_of(*p) is Err ==> r matches Err(BranchRecipeError::Projection(_)),
        branch_all_owed(*p) ==> r is Ok,
        r matches Ok(cs) ==> branch_sites_of(*p) is Ok && keys_sorted(cs@) && exists|
            recipe: TransformationRecipe,
            groups: Seq<Seq<TransformationCandidate>>,
        |
            #![trigger groups_for_sites(groups, *p, branch_sites_of(*p)->Ok_0, recipe)]
            recipe_header(
                Ok(recipe),
                "rust-factor-equivalent-branch-fragments"@,
                "1.0.0"@,
                TransformationFamily::BranchControl,
                SafetyClass::SafeWithPrecondition,
                seq![
                    GraphEvidenceLayer::ControlFlow,
                    GraphEvidenceLayer::ControlRegions,
                    GraphEvidenceLayer::NonStructuredControl,
                    GraphEvidenceLayer::DataFlow,
                    GraphEvidenceLayer::ProgramDependence,
                ],
            ) && groups_for_sites(groups, *p, branch_sites_of(*p)->Ok_0, recipe) && cs@.to_multiset()
                == groups.flatten_alt().to_multiset(),
{
    let recipe = match equivalent_branch_factoring_recipe() {
        Ok(recipe) => recipe,
        Err(e) => {
            if branch_sites(p).is_err() {
                return Err(BranchRecipeError::Projection(
                    "retained projection lacks a graph or syntax node a branch refers to".to_owned(),
                ));
            }
            return Err(BranchRecipeError::Contract(e));
        },
    };
    let sites = match branch_sites(p) {
        Ok(v) => v,
        Err(()) => {
            return Err(BranchRecipeError::Projection(
                "retained projection lacks a graph or syntax node a branch refers to".to_owned(),
            ));
        },
    };
    proof {
        lemma_branch_sites_ok(*p, p.dependence_graphs@.len() as nat);
    }
    let deps = dependence_graphs_of(p);
    let mut candidates: Vec<TransformationCandidate> = Vec::new();
    let ghost mut groups: Seq<Seq<TransformationCandidate>> = Seq::empty();
    let n = sites.len();
    proof {
        if branch_all_owed(*p) {
            assert forall|k: int| 0 <= k < n implies #[trigger] site_owed(*p, deps@, sites@[k], recipe) by {
                assert(site_owed(*p, deps@, branch_sites_of(*p)->Ok_0[k], recipe));
            }
        }
    }
    let mut i: usize = 0;
    while i < n
        invariant
            n == sites@.len(),
            i <= n,
            branch_sites_of(*p) == Ok::<Seq<BranchSite>, ()>(sites@),
            forall|k: int| 0 <= k < sites@.len() ==> branch_site_ok(*p, #[trigger] sites@[k]),
            dependence_views(deps@, p.dependence_graphs@),
            groups.len() == i,
            forall|k: int| 0 <= k < i ==> #[trigger] site_candidates(groups[k], *p, sites@[k], recipe),
            candidates@ == groups.flatten_alt(),
            branch_all_owed(*p) ==> forall|k: int| 0 <= k < n ==> #[trigger] site_owed(*p, deps@, sites@[k], recipe),
        decreases n - i,
    {
        let site = sites[i];
        let mut group = site_candidates_exec(p, &recipe, &deps, site)?;
        let ghost g = group@;
        let ghost before = groups;
        let ghost start = candidates@;
        candidates.append(&mut group);
        assert(candidates@ == start + g);
        proof {
            groups = groups.push(g);
            assert(groups.drop_last() =~= before);
            assert(g.subrange(0, g.len() as int) =~= g);
            assert forall|q: int| 0 <= q < i + 1 implies #[trigger] site_candidates(groups[q], *p, sites@[q], recipe) by {
                if q < i {
                    assert(groups[q] == before[q]);
                }
            }
        }
        i = i + 1;
    }
    let ghost unsorted = candidates@;
    let sorted = sort_by_key(candidates);
    proof {
        assert(sorted@.to_multiset() == groups.flatten_alt().to_multiset());
        assert(groups_for_sites(groups, *p, branch_sites_of(*p)->Ok_0, recipe));
    }
    Ok(sorted)
}
} // verus!
