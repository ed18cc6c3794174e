//! The literal-dead-arm candidates of a retained projection: branches on a
//! `true` or `false` literal, replaced by the arm the literal selects.

use vstd::prelude::*;
use crate::order::compare_str;
use crate::text::{trim, trimmed};
use super::retained::{
    find_syntax, first_match, lemma_first_match_at, lemma_first_match_found, lemma_first_match_none, syntax_key_is,
    FlowEdge, FlowEdgeKind, FlowPointKind, RetainedProjection, SyntaxNode,
};
use super::branch_detect::{
    branch_lookups, branch_lookups_exec, capability_result, capability_result_exec, entity, exact_branch_edges,
    exact_branch_edges_exec, field_child, field_child_exec, find_node_by_point, lemma_branch_lookups_in_range,
    lemma_field_child_in_tree, named_children_exec, named_children_of, node_point_is, plain_branch, plain_result,
    EFFECTS, FACTS_DETAIL, NO_FACTS_DETAIL,
};
use super::branch_terminal::{
    literal_dead_arm_recipe, TerminalBranchRecipeError, DEAD_COMPILE, DEAD_CONTROL, DEAD_LITERAL,
    DEAD_NON_STRUCTURED, DEAD_OPAQUE, DEAD_SELECTED,
};
use super::merge_detect::{plain_branch_exec, two_plain, two_results};
use super::recipe_header;
use super::retained::{dependence_graphs_of, dependence_views};
use super::unreachable::{rows_fit, copy_layers, node_span, single_result};
use crate::target::{revision_guard_id, CandidateTarget, TransformationEdit};
use crate::candidate::{candidate_fields_valid, 
    candidate_arrangement, keys_agree, steps_agree, CandidateDisposition, CandidateSource, GraphEligibilityDecision,
    TransformationCandidate, TransformationCandidateDraft,
};
use crate::contract::{ProofState, TransformationFamily};
use crate::evidence::{
    ExpectedGraphChange, ExpectedGraphDelta, GraphChangeKind, GraphEntityView, ImpactCone, ImpactDirection,
};
use crate::impact::{impact_found, pdg_entity, program_dependence_impact_cone, DependenceGraph};
use crate::json::{string_append, text_view};
use crate::model::{GraphEvidenceLayer, SafetyClass, Span};
use crate::order::{keys_sorted, sort_by_key};
use crate::recipe::TransformationRecipe;

verus! {

pub open spec fn is_opaque_kind(n: SyntaxNode) -> bool {
    n.kind@ == "macro_invocation"@ || n.kind@ == "attribute_item"@ || n.kind@ == "inner_attribute_item"@
}

/// Whether a descendant of node `n`, at most `depth` levels below its
/// children, is a macro invocation or an attribute, searching children in
/// order and each child's subtree before the next child: `Err` when the
/// search meets a child outside the tree, or a node with children at the
/// depth limit.
pub open spec fn opaque_below(nodes: Seq<SyntaxNode>, n: int, depth: nat) -> Result<bool, ()>
    decreases depth, nodes[n].children@.len() + 1,
{
    opaque_below_from(nodes, n, 0, depth)
}

/// The search of `opaque_below` from the `k`-th child of node `n` on.
pub open spec fn opaque_below_from(nodes: Seq<SyntaxNode>, n: int, k: int, depth: nat) -> Result<bool, ()>
    decreases depth, nodes[n].children@.len() - k,
{
    let ch = nodes[n].children@;
    if k < 0 || k >= ch.len() {
        Ok(false)
    } else {
        let c = ch[k] as int;
        if c >= nodes.len() {
            Err(())
        } else if is_opaque_kind(nodes[c]) {
            Ok(true)
        } else if nodes[c].children@.len() == 0 {
            opaque_below_from(nodes, n, k + 1, depth)
        } else if depth == 0 {
            Err(())
        } else {
            match opaque_below(nodes, c, (depth - 1) as nat) {
                Err(_) => Err(()),
                Ok(true) => Ok(true),
                Ok(false) => opaque_below_from(nodes, n, k + 1, depth),
            }
        }
    }
}

/// Whether node `n`, or a node below it, is a macro invocation or an
/// attribute.
pub open spec fn contains_opaque(nodes: Seq<SyntaxNode>, n: int) -> Result<bool, ()> {
    if is_opaque_kind(nodes[n]) {
        Ok(true)
    } else {
        opaque_below(nodes, n, nodes.len())
    }
}

/// A plain branch whose consequence is a block.
pub open spec fn eligible_if(nodes: Seq<SyntaxNode>, n: int) -> Result<bool, ()> {
    if !plain_branch(nodes[n]) {
        Ok(false)
    } else {
        match field_child(nodes, n, "consequence"@) {
            Err(_) => Err(()),
            Ok(None) => Ok(false),
            Ok(Some(c)) => Ok(nodes[c].kind@ == "block"@),
        }
    }
}

pub open spec fn is_block_node(nodes: Seq<SyntaxNode>) -> spec_fn(usize) -> bool {
    |c: usize| nodes[c as int].kind@ == "block"@
}

/// The block an alternative stands for: itself when it is a block, else
/// its first named child that is one.
pub open spec fn alternative_block_of(nodes: Seq<SyntaxNode>, alt: int) -> Result<Option<int>, ()> {
    if nodes[alt].kind@ == "block"@ {
        Ok(Some(alt))
    } else {
        match named_children_of(nodes, alt) {
            Err(_) => Err(()),
            Ok(ch) => match first_match(ch, is_block_node(nodes)) {
                Some(k) => Ok(Some(ch[k] as int)),
                None => Ok(None),
            },
        }
    }
}

fn is_opaque_kind_exec(n: &SyntaxNode) -> (r: bool)
    ensures
        r == is_opaque_kind(*n),
{
    let k = n.kind.as_str();
    compare_str(k, "macro_invocation") == 0 || compare_str(k, "attribute_item") == 0 || compare_str(
        k,
        "inner_attribute_item",
    ) == 0
}

fn opaque_below_exec(nodes: &Vec<SyntaxNode>, n: usize, depth: usize) -> (r: Result<bool, ()>)
    requires
        n < nodes@.len(),
    ensures
        r == opaque_below(nodes@, n as int, depth as nat),
    decreases depth, nodes@[n as int].children@.len() + 1,
{
    let ch = &nodes[n].children;
    let m = ch.len();
    let mut k: usize = 0;
    while k < m
        invariant
            n < nodes@.len(),
            m == ch@.len(),
            *ch == nodes@[n as int].children,
            k <= m,
            opaque_below(nodes@, n as int, depth as nat) == opaque_below_from(nodes@, n as int, k as int, depth as nat),
        decreases m - k,
    {
        let c = ch[k];
        if c >= nodes.len() {
            return Err(());
        }
        if is_opaque_kind_exec(&nodes[c]) {
            return Ok(true);
        }
        if nodes[c].children.len() > 0 {
            if depth == 0 {
                return Err(());
            }
            match opaque_below_exec(nodes, c, depth - 1) {
                Err(()) => {
                    return Err(());
                },
                Ok(true) => {
                    return Ok(true);
                },
                Ok(false) => {},
            }
        }
        k = k + 1;
    }
    Ok(false)
}

pub fn contains_opaque_exec(nodes: &Vec<SyntaxNode>, n: usize) -> (r: Result<bool, ()>)
    requires
        n < nodes@.len(),
    ensures
        r == contains_opaque(nodes@, n as int),
{
    if is_opaque_kind_exec(&nodes[n]) {
        return Ok(true);
    }
    opaque_below_exec(nodes, n, nodes.len())
}

pub fn eligible_if_exec(nodes: &Vec<SyntaxNode>, n: usize) -> (r: Result<bool, ()>)
    requires
        n < nodes@.len(),
    ensures
        match r {
            Err(_) => eligible_if(nodes@, n as int) is Err,
            Ok(b) => eligible_if(nodes@, n as int) == Ok::<bool, ()>(b),
        },
{
    if !plain_branch_exec(&nodes[n]) {
        return Ok(false);
    }
    match field_child_exec(nodes, n, "consequence")? {
        None => Ok(false),
        Some(c) => {
            proof {
                lemma_field_child_in_tree(nodes@, n as int, "consequence"@);
            }
            Ok(compare_str(nodes[c].kind.as_str(), "block") == 0)
        },
    }
}

pub fn alternative_block(nodes: &Vec<SyntaxNode>, alt: usize) -> (r: Result<Option<usize>, ()>)
    requires
        alt < nodes@.len(),
    ensures
        match r {
            Err(_) => alternative_block_of(nodes@, alt as int) is Err,
            Ok(None) => alternative_block_of(nodes@, alt as int) == Ok::<Option<int>, ()>(None),
            Ok(Some(e)) => alternative_block_of(nodes@, alt as int) == Ok::<Option<int>, ()>(Some(e as int)) && e
                < nodes@.len(),
        },
{
    if compare_str(nodes[alt].kind.as_str(), "block") == 0 {
        return Ok(Some(alt));
    }
    let ns = named_children_exec(nodes, alt)?;
    let ghost p = is_block_node(nodes@);
    let mut k: usize = 0;
    while k < ns.len()
        invariant
            k <= ns@.len(),
            alt < nodes@.len(),
            nodes@[alt as int].kind@ != "block"@,
            named_children_of(nodes@, alt as int) == Ok::<Seq<usize>, ()>(ns@),
            p == is_block_node(nodes@),
            forall|x: int| 0 <= x < ns@.len() ==> (#[trigger] ns@[x]) < nodes@.len(),
            forall|j: int| 0 <= j < k ==> !p(#[trigger] ns@[j]),
        decreases ns@.len() - k,
    {
        if compare_str(nodes[ns[k]].kind.as_str(), "block") == 0 {
            proof {
                lemma_first_match_at(ns@, p, k as int);
            }
            return Ok(Some(ns[k]));
        }
        k = k + 1;
    }
    proof {
        lemma_first_match_none(ns@, p);
    }
    Ok(None)
}

/// A literal branch: its predicate, the arm the literal selects, and
/// whether that arm is the one taken when the predicate holds.
#[derive(Clone, Copy, Debug)]
pub struct DeadShape {
    pub predicate: usize,
    pub selected: usize,
    pub keeps_true: bool,
}

/// The literal shape of the branch at position `b`, if it has one: an
/// eligible branch without macros or attributes whose condition is a
/// boolean literal, with a consequence and an alternative block; a `true`
/// selects the consequence, a `false` the alternative's block. `Err` when
/// the tree lacks a node it refers to.
pub open spec fn dead_shape_of(nodes: Seq<SyntaxNode>, b: int) -> Result<Option<DeadShape>, ()> {
    match eligible_if(nodes, b) {
        Err(_) => Err(()),
        Ok(false) => Ok(None),
        Ok(true) => match contains_opaque(nodes, b) {
            Err(_) => Err(()),
            Ok(true) => Ok(None),
            Ok(false) => match field_child(nodes, b, "condition"@) {
                Err(_) => Err(()),
                Ok(None) => Ok(None),
                Ok(Some(pred)) => if nodes[pred].kind@ != "boolean_literal"@ {
                    Ok(None)
                } else {
                    match field_child(nodes, b, "consequence"@) {
                        Err(_) => Err(()),
                        Ok(None) => Ok(None),
                        Ok(Some(c)) => match field_child(nodes, b, "alternative"@) {
                            Err(_) => Err(()),
                            Ok(None) => Ok(None),
                            Ok(Some(a)) => match alternative_block_of(nodes, a) {
                                Err(_) => Err(()),
                                Ok(None) => Ok(None),
                                Ok(Some(e)) => {
                                    let t = trim(nodes[pred].text@);
                                    if t == "true"@ {
                                        Ok(Some(DeadShape { predicate: pred as usize, selected: c as usize, keeps_true: true }))
                                    } else if t == "false"@ {
                                        Ok(Some(DeadShape { predicate: pred as usize, selected: e as usize, keeps_true: false }))
                                    } else {
                                        Ok(None)
                                    }
                                },
                            },
                        },
                    }
                },
            },
        },
    }
}

/// The branch edge kind of the selected arm, or of the dead one.
pub open spec fn arm_kind(taken_when_true: bool) -> FlowEdgeKind {
    if taken_when_true {
        FlowEdgeKind::BranchTrue
    } else {
        FlowEdgeKind::BranchFalse
    }
}

/// The shape of the branch at position `b`, as `dead_shape_of` gives it.
pub fn dead_shape(nodes: &Vec<SyntaxNode>, b: usize) -> (r: Result<Option<DeadShape>, ()>)
    requires
        b < nodes@.len(),
    ensures
        match r {
            Err(_) => dead_shape_of(nodes@, b as int) is Err,
            Ok(s) => dead_shape_of(nodes@, b as int) == Ok::<Option<DeadShape>, ()>(s) && (s matches Some(d) ==> d.predicate
                < nodes@.len() && d.selected < nodes@.len()),
        },
{
    if !eligible_if_exec(nodes, b)? {
        return Ok(None);
    }
    if contains_opaque_exec(nodes, b)? {
        return Ok(None);
    }
    let pred = match field_child_exec(nodes, b, "condition")? {
        None => {
            return Ok(None);
        },
        Some(p) => p,
    };
    proof {
        lemma_field_child_in_tree(nodes@, b as int, "condition"@);
    }
    if compare_str(nodes[pred].kind.as_str(), "boolean_literal") != 0 {
        return Ok(None);
    }
    let c = match field_child_exec(nodes, b, "consequence")? {
        None => {
            return Ok(None);
        },
        Some(c) => c,
    };
    proof {
        lemma_field_child_in_tree(nodes@, b as int, "consequence"@);
    }
    let a = match field_child_exec(nodes, b, "alternative")? {
        None => {
            return Ok(None);
        },
        Some(a) => a,
    };
    proof {
        lemma_field_child_in_tree(nodes@, b as int, "alternative"@);
    }
    let e = match alternative_block(nodes, a)? {
        None => {
            return Ok(None);
        },
        Some(e) => e,
    };
    let t = trimmed(nodes[pred].text.as_str());
    proof {
        reveal_strlit("true");
        reveal_strlit("false");
    }
    if compare_str(t.as_str(), "true") == 0 {
        Ok(Some(DeadShape { predicate: pred, selected: c, keeps_true: true }))
    } else if compare_str(t.as_str(), "false") == 0 {
        Ok(Some(DeadShape { predicate: pred, selected: e, keeps_true: false }))
    } else {
        Ok(None)
    }
}

pub open spec fn branch_edge_is(d: Seq<char>, kind: FlowEdgeKind) -> spec_fn(FlowEdge) -> bool {
    |e: FlowEdge| e.from@ == d && e.kind == kind
}

/// A literal branch the recipe reads: the dependence graph and the
/// positions of the graphs it derives from, the dispatch point, the branch
/// and its shape, the selected and the dead branch edge, and the
/// dependence node at the dispatch.
#[derive(Clone, Copy, Debug)]
pub struct DeadArmSite {
    pub graph: usize,
    pub flow: usize,
    pub non_structured: usize,
    pub data_flow: usize,
    pub point: usize,
    pub branch: usize,
    pub shape: DeadShape,
    pub selected_edge: usize,
    pub dead_edge: usize,
    pub node: usize,
}

/// One control point of a dependence graph's flow graph: the site it
/// yields, if any. A point yields nothing unless it is an unrecovered
/// dispatch with a source whose two edges are exact branch edges, whose
/// branch has a literal shape, which has an edge of the selected kind and
/// one of the dead kind, and whose dependence node exists. `Err` when the
/// tree lacks the source's node or a node the branch refers to.
pub open spec fn dead_step(p: RetainedProjection, gi: int, pi: int, l: (int, int, int)) -> Result<Option<DeadArmSite>, ()> {
    let g = p.dependence_graphs@[gi];
    let flow = p.flow_graphs@[l.0];
    let point = flow.points@[pi];
    if point.kind != FlowPointKind::BranchDispatch || point.recovered || point.source is None {
        Ok(None)
    } else if !exact_branch_edges(flow, point.key@) {
        Ok(None)
    } else {
        match first_match(p.syntax@, syntax_key_is(point.source->0@)) {
            None => Err(()),
            Some(b) => match dead_shape_of(p.syntax@, b) {
                Err(_) => Err(()),
                Ok(None) => Ok(None),
                Ok(Some(sh)) => match (
                    first_match(flow.edges@, branch_edge_is(point.key@, arm_kind(sh.keeps_true))),
                    first_match(flow.edges@, branch_edge_is(point.key@, arm_kind(!sh.keeps_true))),
                    first_match(g.nodes@, node_point_is(point.key@)),
                ) {
                    (Some(se), Some(de), Some(ni)) => Ok(
                        Some(
                            DeadArmSite {
                                graph: gi as usize,
                                flow: l.0 as usize,
                                non_structured: l.1 as usize,
                                data_flow: l.2 as usize,
                                point: pi as usize,
                                branch: b as usize,
                                shape: sh,
                                selected_edge: se as usize,
                                dead_edge: de as usize,
                                node: ni as usize,
                            },
                        ),
                    ),
                    _ => Ok(None),
                },
            },
        }
    }
}

pub open spec fn opt_dead(o: Option<DeadArmSite>) -> Seq<DeadArmSite> {
    match o {
        Some(x) => seq![x],
        None => Seq::empty(),
    }
}

/// The sites of the first `k` points of a dependence graph's flow graph.
pub open spec fn scan_dead_arms(p: RetainedProjection, gi: int, l: (int, int, int), k: nat) -> Result<Seq<DeadArmSite>, ()>
    decreases k,
{
    if k == 0 {
        Ok(Seq::empty())
    } else {
        match scan_dead_arms(p, gi, l, (k - 1) as nat) {
            Err(_) => Err(()),
            Ok(sites) => match dead_step(p, gi, k - 1, l) {
                Err(_) => Err(()),
                Ok(o) => Ok(sites + opt_dead(o)),
            },
        }
    }
}

/// The sites of the first `j` dependence graphs, in order.
pub open spec fn scan_dead_graphs(p: RetainedProjection, j: nat) -> Result<Seq<DeadArmSite>, ()>
    decreases j,
{
    if j == 0 {
        Ok(Seq::empty())
    } else {
        match scan_dead_graphs(p, (j - 1) as nat) {
            Err(_) => Err(()),
            Ok(sites) => match branch_lookups(p, j - 1) {
                Err(_) => Err(()),
                Ok(l) => match scan_dead_arms(p, j - 1, l, p.flow_graphs@[l.0].points@.len()) {
                    Err(_) => Err(()),
                    Ok(s2) => Ok(sites + s2),
                },
            },
        }
    }
}

/// The literal-branch sites of a whole projection.
pub open spec fn dead_sites_of(p: RetainedProjection) -> Result<Seq<DeadArmSite>, ()> {
    scan_dead_graphs(p, p.dependence_graphs@.len())
}

fn find_branch_edge(edges: &Vec<FlowEdge>, d: &str, kind: FlowEdgeKind) -> (r: Option<usize>)
    ensures
        r is None ==> first_match(edges@, branch_edge_is(d@, kind)) is None,
        r matches Some(i) ==> first_match(edges@, branch_edge_is(d@, kind)) == Some(i as int),
{
    let n = edges.len();
    let mut i: usize = 0;
    while i < n
        invariant
            n == edges@.len(),
            i <= n,
            forall|j: int| 0 <= j < i ==> !branch_edge_is(d@, kind)(#[trigger] edges@[j]),
        decreases n - i,
    {
        if compare_str(edges[i].from.as_str(), d) == 0 && edges[i].kind == kind {
            proof {
                lemma_first_match_at(edges@, branch_edge_is(d@, kind), i as int);
            }
            return Some(i);
        }
        i = i + 1;
    }
    proof {
        lemma_first_match_none(edges@, branch_edge_is(d@, kind));
    }
    None
}

fn arm_kind_exec(taken_when_true: bool) -> (r: FlowEdgeKind)
    ensures
        r == arm_kind(taken_when_true),
{
    if taken_when_true {
        FlowEdgeKind::BranchTrue
    } else {
        FlowEdgeKind::BranchFalse
    }
}

fn step_dead(p: &RetainedProjection, gi: usize, pi: usize, l: (usize, usize, usize)) -> (r: Result<Option<DeadArmSite>, ()>)
    requires
        gi < p.dependence_graphs@.len(),
        branch_lookups(*p, gi as int) == Ok::<(int, int, int), ()>((l.0 as int, l.1 as int, l.2 as int)),
        pi < p.flow_graphs@[l.0 as int].points@.len(),
    ensures
        r == dead_step(*p, gi as int, pi as int, (l.0 as int, l.1 as int, l.2 as int)),
{
    proof {
        lemma_branch_lookups_in_range(*p, gi as int);
    }
    let g = &p.dependence_graphs[gi];
    let flow = &p.flow_graphs[l.0];
    let point = &flow.points[pi];
    if point.kind != FlowPointKind::BranchDispatch || point.recovered {
        return Ok(None);
    }
    let source = match &point.source {
        None => {
            return Ok(None);
        },
        Some(s) => s,
    };
    if !exact_branch_edges_exec(flow, point.key.as_str()) {
        return Ok(None);
    }
    let b = match find_syntax(&p.syntax, source) {
        None => {
            return Err(());
        },
        Some(b) => b,
    };
    proof {
        lemma_first_match_found(p.syntax@, syntax_key_is(source@));
    }
    let sh = match dead_shape(&p.syntax, b) {
        Err(()) => {
            return Err(());
        },
        Ok(None) => {
            return Ok(None);
        },
        Ok(Some(sh)) => sh,
    };
    let se = find_branch_edge(&flow.edges, point.key.as_str(), arm_kind_exec(sh.keeps_true));
    let de = find_branch_edge(&flow.edges, point.key.as_str(), arm_kind_exec(!sh.keeps_true));
    let ni = find_node_by_point(&g.nodes, point.key.as_str());
    match (se, de, ni) {
        (Some(se), Some(de), Some(ni)) => Ok(
            Some(
                DeadArmSite {
                    graph: gi,
                    flow: l.0,
                    non_structured: l.1,
                    data_flow: l.2,
                    point: pi,
                    branch: b,
                    shape: sh,
                    selected_edge: se,
                    dead_edge: de,
                    node: ni,
                },
            ),
        ),
        _ => Ok(None),
    }
}

proof fn lemma_scan_dead_arms_err_stays(p: RetainedProjection, gi: int, l: (int, int, int), k: nat, m: nat)
    requires
        k <= m,
        scan_dead_arms(p, gi, l, k) is Err,
    ensures
        scan_dead_arms(p, gi, l, m) is Err,
    decreases m - k,
{
    if k < m {
        lemma_scan_dead_arms_err_stays(p, gi, l, k, (m - 1) as nat);
    }
}

proof fn lemma_scan_dead_graphs_err_stays(p: RetainedProjection, k: nat, m: nat)
    requires
        k <= m,
        scan_dead_graphs(p, k) is Err,
    ensures
        scan_dead_graphs(p, m) is Err,
    decreases m - k,
{
    if k < m {
        lemma_scan_dead_graphs_err_stays(p, k, (m - 1) as nat);
    }
}

/// The literal-branch sites of a projection, in graph and point order.
pub fn dead_arm_sites(p: &RetainedProjection) -> (r: Result<Vec<DeadArmSite>, ()>)
    ensures
        r matches Ok(v) ==> dead_sites_of(*p) == Ok::<Seq<DeadArmSite>, ()>(v@),
        r is Err ==> dead_sites_of(*p) is Err,
{
    let mut sites: Vec<DeadArmSite> = Vec::new();
    let ng = p.dependence_graphs.len();
    let mut j: usize = 0;
    while j < ng
        invariant
            ng == p.dependence_graphs@.len(),
            j <= ng,
            scan_dead_graphs(*p, j as nat) == Ok::<Seq<DeadArmSite>, ()>(sites@),
        decreases ng - j,
    {
        let l = match branch_lookups_exec(p, j) {
            None => {
                proof {
                    lemma_scan_dead_graphs_err_stays(*p, (j + 1) as nat, ng as nat);
                }
                return Err(());
            },
            Some(l) => l,
        };
        proof {
            lemma_branch_lookups_in_range(*p, j as int);
        }
        let ghost lk = (l.0 as int, l.1 as int, l.2 as int);
        let ghost start_sites = sites@;
        let np = p.flow_graphs[l.0].points.len();
        let mut k: usize = 0;
        assert(sites@.subrange(start_sites.len() as int, sites@.len() as int) =~= Seq::<DeadArmSite>::empty());
        while k < np
            invariant
                ng == p.dependence_graphs@.len(),
                j < ng,
                l.0 < p.flow_graphs@.len(),
                np == p.flow_graphs@[l.0 as int].points@.len(),
                k <= np,
                branch_lookups(*p, j as int) == Ok::<(int, int, int), ()>(lk),
                lk == (l.0 as int, l.1 as int, l.2 as int),
                scan_dead_graphs(*p, j as nat) == Ok::<Seq<DeadArmSite>, ()>(start_sites),
                scan_dead_arms(*p, j as int, lk, k as nat) == Ok::<Seq<DeadArmSite>, ()>(
                    sites@.subrange(start_sites.len() as int, sites@.len() as int),
                ),
                sites@.subrange(0, start_sites.len() as int) == start_sites,
                start_sites.len() <= sites@.len(),
            decreases np - k,
        {
            let ghost before = sites@;
            match step_dead(p, j, k, l) {
                Err(()) => {
                    proof {
                        lemma_scan_dead_arms_err_stays(*p, j as int, lk, (k + 1) as nat, np as nat);
                        assert(scan_dead_graphs(*p, (j + 1) as nat) is Err);
                        lemma_scan_dead_graphs_err_stays(*p, (j + 1) as nat, ng as nat);
                    }
                    return Err(());
                },
                Ok(Some(site)) => {
                    sites.push(site);
                    proof {
                        assert(sites@.subrange(start_sites.len() as int, sites@.len() as int) =~= before.subrange(
                            start_sites.len() as int,
                            before.len() as int,
                        ) + seq![site]);
                        assert(sites@.subrange(0, start_sites.len() as int) =~= before.subrange(0, start_sites.len() as int));
                    }
                },
                Ok(None) => {
                    proof {
                        assert(before.subrange(start_sites.len() as int, before.len() as int) + Seq::<DeadArmSite>::empty()
                            =~= before.subrange(start_sites.len() as int, before.len() as int));
                    }
                },
            }
            k = k + 1;
        }
        proof {
            assert(sites@ =~= start_sites + sites@.subrange(start_sites.len() as int, sites@.len() as int));
        }
        j = j + 1;
    }
    Ok(sites)
}

/// A site names positions of the projection: its graphs, dispatch point,
/// branch edges and dependence node lie in range, its dispatch's source is
/// its branch's node, and its branch has its shape.
pub open spec fn dead_site_ok(p: RetainedProjection, site: DeadArmSite) -> bool {
    let flow = p.flow_graphs@[site.flow as int];
    let g = p.dependence_graphs@[site.graph as int];
    &&& site.graph < p.dependence_graphs@.len()
    &&& site.flow < p.flow_graphs@.len()
    &&& site.non_structured < p.non_structured_graphs@.len()
    &&& site.data_flow < p.data_flow_graphs@.len()
    &&& site.point < flow.points@.len()
    &&& site.selected_edge < flow.edges@.len()
    &&& site.dead_edge < flow.edges@.len()
    &&& site.node < g.nodes@.len()
    &&& site.branch < p.syntax@.len()
    &&& dead_shape_of(p.syntax@, site.branch as int) == Ok::<Option<DeadShape>, ()>(Some(site.shape))
    &&& flow.points@[site.point as int].source matches Some(src) && src@ == p.syntax@[site.branch as int].key@
    &&& g.nodes@[site.node as int].point@ == flow.points@[site.point as int].key@
}

proof fn lemma_dead_step_ok(p: RetainedProjection, gi: int, pi: int, l: (int, int, int))
    requires
        0 <= gi < p.dependence_graphs@.len(),
        branch_lookups(p, gi) == Ok::<(int, int, int), ()>(l),
        0 <= pi < p.flow_graphs@[l.0].points@.len(),
        dead_step(p, gi, pi, l) matches Ok(Some(_)),
    ensures
        dead_site_ok(p, dead_step(p, gi, pi, l)->Ok_0->Some_0),
{
    lemma_branch_lookups_in_range(p, gi);
    let g = p.dependence_graphs@[gi];
    let flow = p.flow_graphs@[l.0];
    let point = flow.points@[pi];
    lemma_first_match_found(p.syntax@, syntax_key_is(point.source->0@));
    let b = first_match(p.syntax@, syntax_key_is(point.source->0@))->Some_0;
    let sh = dead_shape_of(p.syntax@, b)->Ok_0->Some_0;
    lemma_first_match_found(flow.edges@, branch_edge_is(point.key@, arm_kind(sh.keeps_true)));
    lemma_first_match_found(flow.edges@, branch_edge_is(point.key@, arm_kind(!sh.keeps_true)));
    lemma_first_match_found(g.nodes@, node_point_is(point.key@));
    vstd::std_specs::vec::axiom_spec_len(&p.dependence_graphs);
    vstd::std_specs::vec::axiom_spec_len(&g.nodes);
    vstd::std_specs::vec::axiom_spec_len(&p.syntax);
    vstd::std_specs::vec::axiom_spec_len(&p.flow_graphs);
    vstd::std_specs::vec::axiom_spec_len(&flow.points);
    vstd::std_specs::vec::axiom_spec_len(&flow.edges);
    vstd::std_specs::vec::axiom_spec_len(&p.non_structured_graphs);
    vstd::std_specs::vec::axiom_spec_len(&p.data_flow_graphs);
}

proof fn lemma_scan_dead_arms_ok(p: RetainedProjection, gi: int, l: (int, int, int), k: nat)
    requires
        0 <= gi < p.dependence_graphs@.len(),
        branch_lookups(p, gi) == Ok::<(int, int, int), ()>(l),
        k <= p.flow_graphs@[l.0].points@.len(),
        scan_dead_arms(p, gi, l, k) is Ok,
    ensures
        forall|i: int| 0 <= i < scan_dead_arms(p, gi, l, k)->Ok_0.len() ==> dead_site_ok(
            p,
            #[trigger] scan_dead_arms(p, gi, l, k)->Ok_0[i],
        ),
    decreases k,
{
    lemma_branch_lookups_in_range(p, gi);
    if k > 0 {
        lemma_scan_dead_arms_ok(p, gi, l, (k - 1) as nat);
        let prev = scan_dead_arms(p, gi, l, (k - 1) as nat)->Ok_0;
        if dead_step(p, gi, k - 1, l) matches Ok(Some(_)) {
            lemma_dead_step_ok(p, gi, k - 1, l);
        }
        let all = scan_dead_arms(p, gi, l, k)->Ok_0;
        assert forall|i: int| 0 <= i < all.len() implies dead_site_ok(p, #[trigger] all[i]) by {
            if i < prev.len() {
                assert(all[i] == prev[i]);
            }
        }
    }
}

/// Every literal-branch site of a projection names positions that lie in
/// it.
pub proof fn lemma_dead_sites_ok(p: RetainedProjection, j: nat)
    requires
        j <= p.dependence_graphs@.len(),
        scan_dead_graphs(p, j) is Ok,
    ensures
        forall|i: int| 0 <= i < scan_dead_graphs(p, j)->Ok_0.len() ==> dead_site_ok(
            p,
            #[trigger] scan_dead_graphs(p, j)->Ok_0[i],
        ),
    decreases j,
{
    if j > 0 {
        lemma_dead_sites_ok(p, (j - 1) as nat);
        let prev = scan_dead_graphs(p, (j - 1) as nat)->Ok_0;
        let l = branch_lookups(p, j - 1)->Ok_0;
        lemma_branch_lookups_in_range(p, j - 1);
        lemma_scan_dead_arms_ok(p, j - 1, l, p.flow_graphs@[l.0].points@.len());
        let more = scan_dead_arms(p, j - 1, l, p.flow_graphs@[l.0].points@.len())->Ok_0;
        let all = scan_dead_graphs(p, j)->Ok_0;
        assert forall|i: int| 0 <= i < all.len() implies dead_site_ok(p, #[trigger] all[i]) by {
            if i < prev.len() {
                assert(all[i] == prev[i]);
            } else {
                assert(all[i] == more[i - prev.len()]);
            }
        }
    }
}

pub const DEAD_ARM_DETAIL: &'static str = "The opposite exact branch edge is infeasible under the retained literal value.";
pub const SELECTED_DETAIL: &'static str = "The selected block bytes replace the complete if expression without reordering.";
pub const COMPILE_DETAIL: &'static str =
    "Production Effects authority cannot prove deletion is neutral to every compile-time or type-level effect.";
pub const CONTROL_DETAIL: &'static str = "The dispatch and both outgoing edges are exact and unrecovered.";
pub const OPAQUE_DETAIL: &'static str = "The complete branch was checked recursively for comments, attributes, and macros.";
pub const DISPATCH_RATIONALE: &'static str = "The literal branch dispatch is removed after selecting one arm.";
pub const DEAD_RATIONALE: &'static str = "The literal-infeasible arm is absent after rebuilding.";
pub const SELECTED_RATIONALE: &'static str = "The selected arm control fragment remains byte-exact.";

/// The name of a branch outcome.
pub open spec fn outcome_name(taken_when_true: bool) -> Seq<char> {
    if taken_when_true {
        "True"@
    } else {
        "False"@
    }
}

/// The detail of the literal's evidence: the exact predicate and the
/// outcome it selects.
pub open spec fn literal_detail(predicate: Seq<char>, keeps_true: bool) -> Seq<char> {
    "Exact predicate `"@ + predicate + "` selects only the "@ + outcome_name(keeps_true) + " branch outcome."@
}

/// The impact cone of a site: the answer of a bidirectional query of depth
/// eight around its dependence node.
pub open spec fn dead_impact(p: RetainedProjection, site: DeadArmSite, impact: ImpactCone) -> bool {
    let g = p.dependence_graphs@[site.graph as int];
    exists|deps: Seq<DependenceGraph>|
        dependence_views(deps, p.dependence_graphs@) && #[trigger] crate::impact::impact_answer(
            deps,
            g.key@,
            g.nodes@[site.node as int].key@,
            ImpactDirection::Bidirectional,
            8,
            Ok(impact),
        )
}

/// The draft of a literal branch: bound to the recipe and the projection's
/// identities; targeting the branch through the dependence node at its
/// dispatch; the literal outcome proven on the dispatch and the dead arm,
/// the selected fragment proven on the selected arm, compile-time effects
/// unknown with the data-flow graph's effect capability; uncertain control
/// disproven on the dispatch, removed comments, attributes and macros
/// disproven on the dead arm, non-structured control disproven exactly
/// when the callable has no such fact; the dispatch and the dead arm
/// removed, the selected arm kept; one exact replacement of the branch by
/// the selected block; the recipe's plans; review required at
/// safe-with-precondition.
pub open spec fn is_dead_draft(
    d: TransformationCandidateDraft,
    p: RetainedProjection,
    site: DeadArmSite,
    recipe: TransformationRecipe,
) -> bool {
    let g = p.dependence_graphs@[site.graph as int];
    let flow = p.flow_graphs@[site.flow as int];
    let nsc = p.non_structured_graphs@[site.non_structured as int];
    let data = p.data_flow_graphs@[site.data_flow as int];
    let branch = p.syntax@[site.branch as int];
    let fd = GraphEntityView { layer: GraphEvidenceLayer::ControlFlow, graph: flow.key@, entity: flow.points@[site.point as int].key@ };
    let fs = GraphEntityView { layer: GraphEvidenceLayer::ControlFlow, graph: flow.key@, entity: flow.edges@[site.selected_edge as int].to@ };
    let fx = GraphEntityView { layer: GraphEvidenceLayer::ControlFlow, graph: flow.key@, entity: flow.edges@[site.dead_edge as int].to@ };
    let de = GraphEntityView { layer: GraphEvidenceLayer::DataFlow, graph: data.key@, entity: data.key@ };
    let ne = GraphEntityView { layer: GraphEvidenceLayer::NonStructuredControl, graph: nsc.key@, entity: nsc.key@ };
    let root = pdg_entity(g.key@, g.nodes@[site.node as int].key@);
    let span = node_span(branch.key@);
    &&& d.recipe.spec_id() == recipe.spec_id()
    &&& (recipe.wf() ==> d.recipe.wf())
    &&& d.source.project_snapshot@ == p.snapshot@
    &&& d.source.analysis@ == p.analysis@
    &&& d.source.program_dependence_projection@ == p.id@
    &&& d.target.entity@ == root
    &&& d.target.node@ == branch.key@
    &&& d.target.span == span
    &&& d.target.subtree_fingerprint is None
    &&& d.eligibility.consumer@ == g.eligibility.consumer@
    &&& d.eligibility.required_layers@ == g.eligibility.required_layers@
    &&& d.eligibility.eligible == g.eligibility.eligible
    &&& d.required_results@.len() == 3
    &&& two_results(d.required_results@[0], DEAD_LITERAL@, ProofState::Proven, fd, literal_detail(
        p.syntax@[site.shape.predicate as int].text@,
        site.shape.keeps_true,
    ), fx, DEAD_ARM_DETAIL@)
    &&& single_result(d.required_results@[1], DEAD_SELECTED@, ProofState::Proven, fs, SELECTED_DETAIL@)
    &&& capability_result(d.required_results@[2], DEAD_COMPILE@, ProofState::Unknown, de, COMPILE_DETAIL@, EFFECTS@,
        data.effects_support, text_view(data.effects_authority))
    &&& d.forbidden_results@.len() == 3
    &&& single_result(d.forbidden_results@[0], DEAD_CONTROL@, ProofState::Disproven, fd, CONTROL_DETAIL@)
    &&& single_result(d.forbidden_results@[1], DEAD_OPAQUE@, ProofState::Disproven, fx, OPAQUE_DETAIL@)
    &&& (if nsc.has_facts {
        single_result(d.forbidden_results@[2], DEAD_NON_STRUCTURED@, ProofState::Unknown, ne, FACTS_DETAIL@)
    } else {
        single_result(d.forbidden_results@[2], DEAD_NON_STRUCTURED@, ProofState::Disproven, ne, NO_FACTS_DETAIL@)
    })
    &&& d.expected_delta.changes@.len() == 3
    &&& d.expected_delta.changes@[0].kind == GraphChangeKind::Remove
    &&& d.expected_delta.changes@[0].entity@ == root
    &&& d.expected_delta.changes@[0].rationale@ == DISPATCH_RATIONALE@
    &&& d.expected_delta.changes@[1].kind == GraphChangeKind::Remove
    &&& d.expected_delta.changes@[1].entity@ == fx
    &&& d.expected_delta.changes@[1].rationale@ == DEAD_RATIONALE@
    &&& d.expected_delta.changes@[2].kind == GraphChangeKind::Preserve
    &&& d.expected_delta.changes@[2].entity@ == fs
    &&& d.expected_delta.changes@[2].rationale@ == SELECTED_RATIONALE@
    &&& d.edits@.len() == 1
    &&& d.edits@[0].target@ == branch.key@
    &&& d.edits@[0].span == span
    &&& d.edits@[0].before@ == branch.text@
    &&& d.edits@[0].after@ == p.syntax@[site.shape.selected as int].text@
    &&& d.edits@[0].revision_guard@ == revision_guard_id(branch.key@.path, span, branch.text@)
    &&& d.safety == SafetyClass::SafeWithPrecondition
    &&& d.disposition == CandidateDisposition::ReviewRequired
    &&& steps_agree(d.validation_plan.steps@, recipe.spec_draft().validation_plan.steps@)
    &&& d.rollback_plan.strategy == recipe.spec_draft().rollback_plan.strategy
    &&& d.rollback_plan.require_revision_guards == recipe.spec_draft().rollback_plan.require_revision_guards
    &&& keys_agree(d.rollback_plan.validation_steps@, recipe.spec_draft().rollback_plan.validation_steps@)
}

/// A candidate for a literal-branch site: well formed, and its draft is,
/// up to the canonical order of its lists, the site's draft with its
/// impact cone.
#[verifier::opaque]
pub open spec fn dead_candidate_for(c: TransformationCandidate, p: RetainedProjection, site: DeadArmSite, recipe: TransformationRecipe) -> bool {
    &&& c.wf()
    &&& exists|d: TransformationCandidateDraft|
        #[trigger] is_dead_draft(d, p, site, recipe) && candidate_arrangement(c.spec_draft(), d) && dead_impact(p, site, d.impact)
}

/// When a literal-branch site's candidate is owed: the branch's rows
/// fit, the impact query around its dependence node can be answered, and
/// every draft of the site is valid.
pub open spec fn dead_owed(p: RetainedProjection, deps: Seq<DependenceGraph>, site: DeadArmSite, recipe: TransformationRecipe) -> bool {
    let g = p.dependence_graphs@[site.graph as int];
    &&& rows_fit(p.syntax@[site.branch as int].key@)
    &&& impact_found(deps, g.key@, g.nodes@[site.node as int].key@, 8)
    &&& forall|d: TransformationCandidateDraft|
        #[trigger] is_dead_draft(d, p, site, recipe) && dead_impact(p, site, d.impact) ==> candidate_fields_valid(d)
}

/// The candidate of one literal-branch site.
fn dead_candidate(
    p: &RetainedProjection,
    recipe: &TransformationRecipe,
    deps: &Vec<DependenceGraph>,
    site: DeadArmSite,
) -> (r: Result<TransformationCandidate, TerminalBranchRecipeError>)
    requires
        dead_site_ok(*p, site),
        dependence_views(deps@, p.dependence_graphs@),
    ensures
        r matches Ok(c) ==> dead_candidate_for(c, *p, site, *recipe),
        dead_owed(*p, deps@, site, *recipe) ==> r is Ok,
{
    let sh = match dead_shape(&p.syntax, site.branch) {
        Ok(Some(sh)) => sh,
        _ => {
            proof {
                assert(false);
            }
            return Err(TerminalBranchRecipeError::Projection("literal branch lost its shape".to_owned()));
        },
    };
    let g = &p.dependence_graphs[site.graph];
    let node = &g.nodes[site.node];
    let flow = &p.flow_graphs[site.flow];
    let nsc = &p.non_structured_graphs[site.non_structured];
    let data = &p.data_flow_graphs[site.data_flow];
    let branch = &p.syntax[site.branch];
    let key = &branch.key;
    if key.start_row >= usize::MAX || key.end_row >= usize::MAX {
        return Err(TerminalBranchRecipeError::Projection("retained node rows are out of range".to_owned()));
    }
    let span = Span { start_line: key.start_row + 1, end_line: key.end_row + 1, start_byte: key.start_byte, end_byte: key.end_byte };
    let impact = match program_dependence_impact_cone(deps, g.key.as_str(), node.key.as_str(), ImpactDirection::Bidirectional, 8) {
        Ok(c) => c,
        Err(e) => {
            return Err(TerminalBranchRecipeError::Impact(e));
        },
    };
    let fk = flow.key.as_str();
    let pd = flow.points[site.point].key.as_str();
    let ps = flow.edges[site.selected_edge].to.as_str();
    let px = flow.edges[site.dead_edge].to.as_str();
    let dk = data.key.as_str();
    let mut literal = String::new();
    string_append(&mut literal, "Exact predicate `");
    string_append(&mut literal, p.syntax[sh.predicate].text.as_str());
    string_append(&mut literal, "` selects only the ");
    string_append(&mut literal, if sh.keeps_true { "True" } else { "False" });
    string_append(&mut literal, " branch outcome.");
    let required_results = vec![
        two_plain(
            DEAD_LITERAL,
            ProofState::Proven,
            entity(GraphEvidenceLayer::ControlFlow, fk, pd),
            literal.as_str(),
            entity(GraphEvidenceLayer::ControlFlow, fk, px),
            DEAD_ARM_DETAIL,
        ),
        plain_result(DEAD_SELECTED, ProofState::Proven, entity(GraphEvidenceLayer::ControlFlow, fk, ps), SELECTED_DETAIL),
        capability_result_exec(
            DEAD_COMPILE,
            ProofState::Unknown,
            entity(GraphEvidenceLayer::DataFlow, dk, dk),
            COMPILE_DETAIL,
            EFFECTS,
            data.effects_support,
            &data.effects_authority,
        ),
    ];
    let non_structured = if nsc.has_facts {
        plain_result(
            DEAD_NON_STRUCTURED,
            ProofState::Unknown,
            entity(GraphEvidenceLayer::NonStructuredControl, nsc.key.as_str(), nsc.key.as_str()),
            FACTS_DETAIL,
        )
    } else {
        plain_result(
            DEAD_NON_STRUCTURED,
            ProofState::Disproven,
            entity(GraphEvidenceLayer::NonStructuredControl, nsc.key.as_str(), nsc.key.as_str()),
            NO_FACTS_DETAIL,
        )
    };
    let forbidden_results = vec![
        plain_result(DEAD_CONTROL, ProofState::Disproven, entity(GraphEvidenceLayer::ControlFlow, fk, pd), CONTROL_DETAIL),
        plain_result(DEAD_OPAQUE, ProofState::Disproven, entity(GraphEvidenceLayer::ControlFlow, fk, px), OPAQUE_DETAIL),
        non_structured,
    ];
    let root = entity(GraphEvidenceLayer::ProgramDependence, g.key.as_str(), node.key.as_str());
    let draft = TransformationCandidateDraft {
        recipe: recipe.duplicate(),
        source: CandidateSource {
            project_snapshot: p.snapshot.clone(),
            analysis: p.analysis.clone(),
            program_dependence_projection: p.id.clone(),
        },
        target: CandidateTarget { entity: root.duplicate(), node: key.duplicate(), span, subtree_fingerprint: None },
        eligibility: GraphEligibilityDecision {
            consumer: g.eligibility.consumer.clone(),
            required_layers: copy_layers(g.eligibility.required_layers.as_slice()),
            eligible: g.eligibility.eligible,
        },
        required_results,
        forbidden_results,
        impact,
        expected_delta: ExpectedGraphDelta {
            changes: vec![
                ExpectedGraphChange { kind: GraphChangeKind::Remove, entity: root, rationale: DISPATCH_RATIONALE.to_owned() },
                ExpectedGraphChange {
                    kind: GraphChangeKind::Remove,
                    entity: entity(GraphEvidenceLayer::ControlFlow, fk, px),
                    rationale: DEAD_RATIONALE.to_owned(),
                },
                ExpectedGraphChange {
                    kind: GraphChangeKind::Preserve,
                    entity: entity(GraphEvidenceLayer::ControlFlow, fk, ps),
                    rationale: SELECTED_RATIONALE.to_owned(),
                },
            ],
        },
        edits: vec![
            TransformationEdit::exact_node_replacement(key.duplicate(), span, branch.text.clone(), p.syntax[sh.selected].text.clone()),
        ],
        safety: SafetyClass::SafeWithPrecondition,
        disposition: CandidateDisposition::ReviewRequired,
        validation_plan: crate::recipe::duplicate_validation_plan(recipe.validation_plan()),
        rollback_plan: crate::recipe::duplicate_rollback_plan(recipe.rollback_plan()),
    };
    let ghost original = draft;
    proof {
        assert(literal@ =~= literal_detail(p.syntax@[sh.predicate as int].text@, sh.keeps_true));
        assert(crate::impact::impact_answer(deps@, g.key@, node.key@, ImpactDirection::Bidirectional, 8, Ok(original.impact)));
        assert(dead_impact(*p, site, original.impact));
        assert(is_dead_draft(original, *p, site, *recipe));
    }
    match TransformationCandidate::new(draft) {
        Ok(c) => {
            proof {
                reveal(dead_candidate_for);
            }
            Ok(c)
        },
        Err(e) => Err(TerminalBranchRecipeError::Contract(e)),
    }
}

/// The candidates of a sequence of literal-branch sites, one for one.
pub open spec fn candidates_for_dead_arms(cs: Seq<TransformationCandidate>, p: RetainedProjection, sites: Seq<DeadArmSite>, recipe: TransformationRecipe) -> bool {
    cs.len() == sites.len() && forall|k: int| 0 <= k < cs.len() ==> #[trigger] dead_candidate_for(cs[k], p, sites[k], recipe)
}

/// When the candidates of a projection are owed: its sites can be found
/// and, under the dead-arm recipe and the projection's dependence graphs,
/// the candidate of every site is owed.
pub open spec fn dead_all_owed(p: RetainedProjection) -> bool {
    &&& dead_sites_of(p) is Ok
    &&& forall|recipe: TransformationRecipe, deps: Seq<DependenceGraph>, k: int|
        recipe_header(
                Ok(recipe),
                "rust-remove-literal-dead-arm"@,
                "1.0.0"@,
                TransformationFamily::BranchControl,
                SafetyClass::SafeWithPrecondition,
                seq![
                    GraphEvidenceLayer::ControlFlow,
                    GraphEvidenceLayer::ControlRegions,
                    GraphEvidenceLayer::NonStructuredControl,
                    GraphEvidenceLayer::DataFlow,
                    GraphEvidenceLayer::ProgramDependence,
                ],
            ) && dependence_views(deps, p.dependence_graphs@) && 0 <= k < dead_sites_of(p)->Ok_0.len()
            ==> #[trigger] dead_owed(p, deps, dead_sites_of(p)->Ok_0[k], recipe)
}

/// Finds every branch of a retained projection on a `true` or `false`
/// literal and proposes its replacement by the selected arm for review:
/// one candidate per dispatch site, ordered by candidate identity. A
/// projection that lacks a graph or a syntax node a site refers to is
/// refused.
#[verifier::rlimit(40)]
pub fn detect_literal_dead_arms(p: &RetainedProjection) -> (r: Result<Vec<TransformationCandidate>, TerminalBranchRecipeError>)
    ensures
        dead_sites_of(*p) is Err ==> r matches Err(TerminalBranchRecipeError::Projection(_)),
        dead_all_owed(*p) ==> r is Ok,
        r matches Ok(cs) ==> dead_sites_of(*p) is Ok && keys_sorted(cs@) && exists|
            recipe: TransformationRecipe,
            unsorted: Seq<TransformationCandidate>,
        |
            #![trigger candidates_for_dead_arms(unsorted, *p, dead_sites_of(*p)->Ok_0, recipe)]
            recipe_header(
                Ok(recipe),
                "rust-remove-literal-dead-arm"@,
                "1.0.0"@,
                TransformationFamily::BranchControl,
                SafetyClass::SafeWithPrecondition,
                seq![
                    GraphEvidenceLayer::ControlFlow,
                    GraphEvidenceLayer::ControlRegions,
                    GraphEvidenceLayer::NonStructuredControl,
                    GraphEvidenceLayer::DataFlow,
                    GraphEvidenceLayer::ProgramDependence,
                ],
            ) && candidates_for_dead_arms(unsorted, *p, dead_sites_of(*p)->Ok_0, recipe) && cs@.to_multiset()
                == unsorted.to_multiset(),
{
    let recipe = match literal_dead_arm_recipe() {
        Ok(recipe) => recipe,
        Err(e) => {
            if dead_arm_sites(p).is_err() {
                return Err(TerminalBranchRecipeError::Projection(
                    "retained projection lacks a graph or syntax node a literal branch refers to".to_owned(),
                ));
            }
            return Err(TerminalBranchRecipeError::Contract(e));
        },
    };
    let sites = match dead_arm_sites(p) {
        Ok(v) => v,
        Err(()) => {
            return Err(TerminalBranchRecipeError::Projection(
                "retained projection lacks a graph or syntax node a literal branch refers to".to_owned(),
            ));
        },
    };
    proof {
        let all = p.dependence_graphs@.len() as nat;
        lemma_dead_sites_ok(*p, all);
        assert forall|k: int| 0 <= k < sites@.len() implies dead_site_ok(*p, #[trigger] sites@[k]) by {
            assert(sites@[k] == scan_dead_graphs(*p, all)->Ok_0[k]);
        }
    }
    let deps = dependence_graphs_of(p);
    let mut candidates: Vec<TransformationCandidate> = Vec::new();
    let n = sites.len();
    proof {
        if dead_all_owed(*p) {
            assert forall|k: int| 0 <= k < n implies #[trigger] dead_owed(*p, deps@, sites@[k], recipe) by {
                assert(dead_owed(*p, deps@, dead_sites_of(*p)->Ok_0[k], recipe));
            }
        }
    }
    let mut i: usize = 0;
    while i < n
        invariant
            n == sites@.len(),
            i <= n,
            dead_sites_of(*p) == Ok::<Seq<DeadArmSite>, ()>(sites@),
            forall|k: int| 0 <= k < sites@.len() ==> dead_site_ok(*p, #[trigger] sites@[k]),
            dependence_views(deps@, p.dependence_graphs@),
            candidates_for_dead_arms(candidates@, *p, sites@.subrange(0, i as int), recipe),
            dead_all_owed(*p) ==> forall|k: int| 0 <= k < n ==> #[trigger] dead_owed(*p, deps@, sites@[k], recipe),
        decreases n - i,
    {
        let c = dead_candidate(p, &recipe, &deps, sites[i])?;
        let ghost before = candidates@;
        candidates.push(c);
        proof {
            let prefix = sites@.subrange(0, i + 1);
            assert forall|k: int| 0 <= k < candidates@.len() implies #[trigger] dead_candidate_for(candidates@[k], *p, prefix[k], recipe) by {
                if k < i {
                    assert(candidates@[k] == before[k]);
                    assert(prefix[k] == sites@.subrange(0, i as int)[k]);
                }
            }
        }
        i = i + 1;
    }
    let ghost unsorted = candidates@;
    assert(sites@.subrange(0, n as int) =~= sites@);
    let sorted = sort_by_key(candidates);
    proof {
        assert(candidates_for_dead_arms(unsorted, *p, dead_sites_of(*p)->Ok_0, recipe));
        assert(sorted@.to_multiset() == unsorted.to_multiset());
    }
    Ok(sorted)
}
} // verus!
