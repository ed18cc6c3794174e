//! The exhaustive-chain candidates of a retained projection: `if`/`else if`
//! chains comparing one subject with distinct patterns and ending in an
//! explicit `else`, rewritten as one `match`.

use vstd::prelude::*;
use crate::order::compare_str;
use crate::json::string_append;
use super::retained::{
    find_syntax, first_match, lemma_first_match_at, lemma_first_match_found, lemma_first_match_none, syntax_key_is,
    FlowGraph, FlowPointKind, RegionGraph, RetainedProjection, SyntaxNode,
};
use super::branch_detect::{
    capability_result, capability_result_exec, entity, exact_branch_edges, exact_branch_edges_exec, field_child,
    field_child_exec, find_node_by_point, lemma_field_child_in_tree, named_children_exec, named_children_of,
    node_point_is, plain_result, DEF_USE, EFFECTS, FACTS_DETAIL, NO_FACTS_DETAIL,
};
use super::dead_arm_detect::{contains_opaque, contains_opaque_exec, eligible_if, eligible_if_exec, is_block_node};
use super::guard_detect::{guard_lookups, guard_lookups_exec, lemma_guard_lookups_in_range, relation_point_is, find_relation_by_point};
use super::merge_detect::{dispatch_of, find_dispatch_of};
use super::branch_terminal::{
    exhaustive_chain_to_match_recipe, TerminalBranchRecipeError, CHAIN_CONTROL, CHAIN_EFFECT, CHAIN_EQUALITY,
    CHAIN_EXHAUSTIVE, CHAIN_MOVE, CHAIN_NON_STRUCTURED, CHAIN_PST, CHAIN_REBUILD, CHAIN_SUBJECT,
};
use super::recipe_header;
use super::retained::{dependence_graphs_of, dependence_views};
use super::unreachable::{rows_fit, copy_layers, node_span, single_result};
use crate::target::{revision_guard_id, CandidateTarget, TransformationEdit};
use crate::candidate::{candidate_fields_valid, 
    candidate_arrangement, keys_agree, steps_agree, CandidateDisposition, CandidateSource, GraphEligibilityDecision,
    TransformationCandidate, TransformationCandidateDraft,
};
use crate::contract::{ProofState, TransformationFamily};
use crate::evidence::{
    ConditionEvidence, ConditionEvidenceView, ConditionResult, ExpectedGraphChange, ExpectedGraphDelta,
    GraphChangeKind, GraphEntityRef, GraphEntityView, ImpactCone, ImpactDirection,
};
use crate::impact::{impact_found, pdg_entity, program_dependence_impact_cone, DependenceGraph};
use crate::json::text_view;
use crate::model::{GraphEvidenceLayer, SafetyClass, Span};
use crate::order::{keys_sorted, sort_by_key};
use crate::recipe::TransformationRecipe;

verus! {

/// One equality case of a chain: its branch, the compared subject and
/// pattern, and its body, by position in the tree.
#[derive(Clone, Copy, Debug)]
pub struct ChainCase {
    pub branch: usize,
    pub subject: usize,
    pub pattern: usize,
    pub body: usize,
}

/// A pattern a `match` arm can hold as it stands: a path or a literal.
pub open spec fn pattern_allowed(n: SyntaxNode) -> bool {
    let k = n.kind@;
    k == "scoped_identifier"@ || k == "integer_literal"@ || k == "char_literal"@ || k == "string_literal"@ || k
        == "boolean_literal"@
}

pub open spec fn is_eq_token(nodes: Seq<SyntaxNode>) -> spec_fn(usize) -> bool {
    |c: usize| c < nodes.len() && !nodes[c as int].named && nodes[c as int].text@ == "=="@
}

pub open spec fn is_if_node(nodes: Seq<SyntaxNode>) -> spec_fn(usize) -> bool {
    |c: usize| nodes[c as int].kind@ == "if_expression"@
}

/// The subject and the pattern of an equality condition: a binary
/// expression with an unnamed `==` child, one side an identifier and the
/// other an allowed pattern, the left side first considered the subject.
pub open spec fn equality_case_of(nodes: Seq<SyntaxNode>, c: int) -> Result<Option<(int, int)>, ()> {
    if nodes[c].kind@ != "binary_expression"@ || first_match(nodes[c].children@, is_eq_token(nodes)) is None {
        Ok(None)
    } else {
        match field_child(nodes, c, "left"@) {
            Err(_) => Err(()),
            Ok(None) => Ok(None),
            Ok(Some(l)) => match field_child(nodes, c, "right"@) {
                Err(_) => Err(()),
                Ok(None) => Ok(None),
                Ok(Some(r)) => if nodes[l].kind@ == "identifier"@ && pattern_allowed(nodes[r]) {
                    Ok(Some((l, r)))
                } else if nodes[r].kind@ == "identifier"@ && pattern_allowed(nodes[l]) {
                    Ok(Some((r, l)))
                } else {
                    Ok(None)
                },
            },
        }
    }
}

/// A case before holds a pattern with this text.
pub open spec fn seen_pattern(nodes: Seq<SyntaxNode>, cases: Seq<ChainCase>, t: Seq<char>) -> bool {
    exists|i: int| 0 <= i < cases.len() && nodes[(#[trigger] cases[i]).pattern as int].text@ == t
}

/// The chain from branch `current` on, after `cases`: each branch is
/// eligible, compares the first subject with a pattern no case before
/// holds, and has an error-free block as body, until an alternative holds
/// no branch but a block, the fallback; at most six cases. Nothing when
/// the chain breaks off; `Err` when the tree lacks a node it refers to.
pub open spec fn chain_from(nodes: Seq<SyntaxNode>, current: int, cases: Seq<ChainCase>) -> Result<
    Option<(Seq<ChainCase>, int)>,
    (),
>
    decreases 6 - cases.len(),
{
    if cases.len() >= 6 {
        Ok(None)
    } else {
        match eligible_if(nodes, current) {
            Err(_) => Err(()),
            Ok(false) => Ok(None),
            Ok(true) => match field_child(nodes, current, "condition"@) {
                Err(_) => Err(()),
                Ok(None) => Ok(None),
                Ok(Some(c)) => match equality_case_of(nodes, c) {
                    Err(_) => Err(()),
                    Ok(None) => Ok(None),
                    Ok(Some(sp)) => if (cases.len() > 0 && nodes[cases[0].subject as int].text@ != nodes[sp.0].text@)
                        || seen_pattern(nodes, cases, nodes[sp.1].text@) {
                        Ok(None)
                    } else {
                        match field_child(nodes, current, "consequence"@) {
                            Err(_) => Err(()),
                            Ok(None) => Ok(None),
                            Ok(Some(body)) => if nodes[body].kind@ != "block"@ || nodes[body].has_error {
                                Ok(None)
                            } else {
                                let now = cases.push(
                                    ChainCase {
                                        branch: current as usize,
                                        subject: sp.0 as usize,
                                        pattern: sp.1 as usize,
                                        body: body as usize,
                                    },
                                );
                                match field_child(nodes, current, "alternative"@) {
                                    Err(_) => Err(()),
                                    Ok(None) => Ok(None),
                                    Ok(Some(alt)) => match named_children_of(nodes, alt) {
                                        Err(_) => Err(()),
                                        Ok(ts) => match first_match(ts, is_if_node(nodes)) {
                                            Some(k) => chain_from(nodes, ts[k] as int, now),
                                            None => match first_match(ts, is_block_node(nodes)) {
                                                None => Ok(None),
                                                Some(k) => Ok(Some((now, ts[k] as int))),
                                            },
                                        },
                                    },
                                }
                            },
                        }
                    },
                },
            },
        }
    }
}

/// The chain of the branch at position `b`, if it is one: an eligible
/// branch without macros or attributes whose chain has at least two
/// cases.
pub open spec fn chain_shape_of(nodes: Seq<SyntaxNode>, b: int) -> Result<Option<(Seq<ChainCase>, int)>, ()> {
    match eligible_if(nodes, b) {
        Err(_) => Err(()),
        Ok(false) => Ok(None),
        Ok(true) => match contains_opaque(nodes, b) {
            Err(_) => Err(()),
            Ok(true) => Ok(None),
            Ok(false) => match chain_from(nodes, b, Seq::empty()) {
                Err(_) => Err(()),
                Ok(None) => Ok(None),
                Ok(Some(ch)) => if ch.0.len() < 2 {
                    Ok(None)
                } else {
                    Ok(Some(ch))
                },
            },
        },
    }
}

/// Whether the branch at position `b` is the `else if` of another branch.
pub open spec fn nested_else_if_of(nodes: Seq<SyntaxNode>, b: int) -> Result<bool, ()> {
    match nodes[b].parent {
        None => Ok(false),
        Some(pa) => if pa >= nodes.len() {
            Err(())
        } else {
            Ok(nodes[pa as int].kind@ == "else_clause"@)
        },
    }
}

/// All positions of a chain lie in the tree.
pub open spec fn chain_in_tree(nodes: Seq<SyntaxNode>, cases: Seq<ChainCase>, fallback: int) -> bool {
    &&& 0 <= fallback < nodes.len()
    &&& forall|i: int| 0 <= i < cases.len() ==> {
        let c = #[trigger] cases[i];
        c.branch < nodes.len() && c.subject < nodes.len() && c.pattern < nodes.len() && c.body < nodes.len()
    }
}

pub open spec fn case_arm(nodes: Seq<SyntaxNode>, c: ChainCase) -> Seq<char> {
    nodes[c.pattern as int].text@ + " => "@ + nodes[c.body as int].text@
}

/// The arms of the cases, each followed by `, `.
pub open spec fn arms_text(nodes: Seq<SyntaxNode>, cases: Seq<ChainCase>) -> Seq<char>
    decreases cases.len(),
{
    if cases.len() == 0 {
        Seq::empty()
    } else {
        arms_text(nodes, cases.drop_last()) + case_arm(nodes, cases.last()) + ", "@
    }
}

/// The `match` that replaces a chain: on the first case's subject, one arm
/// per case, then a final `_` arm with the fallback.
pub open spec fn match_text(nodes: Seq<SyntaxNode>, cases: Seq<ChainCase>, fallback: int) -> Seq<char> {
    "match "@ + nodes[cases[0].subject as int].text@ + " { "@ + arms_text(nodes, cases) + "_ => "@
        + nodes[fallback].text@ + " }"@
}

fn pattern_allowed_exec(n: &SyntaxNode) -> (r: bool)
    ensures
        r == pattern_allowed(*n),
{
    let k = n.kind.as_str();
    compare_str(k, "scoped_identifier") == 0 || compare_str(k, "integer_literal") == 0 || compare_str(k, "char_literal")
        == 0 || compare_str(k, "string_literal") == 0 || compare_str(k, "boolean_literal") == 0
}

fn has_eq_token(nodes: &Vec<SyntaxNode>, c: usize) -> (r: bool)
    requires
        c < nodes@.len(),
    ensures
        r == first_match(nodes@[c as int].children@, is_eq_token(nodes@)) is Some,
{
    let ch = &nodes[c].children;
    let ghost p = is_eq_token(nodes@);
    let mut k: usize = 0;
    while k < ch.len()
        invariant
            k <= ch@.len(),
            *ch == nodes@[c as int].children,
            p == is_eq_token(nodes@),
            forall|j: int| 0 <= j < k ==> !p(#[trigger] ch@[j]),
        decreases ch@.len() - k,
    {
        let x = ch[k];
        if x < nodes.len() && !nodes[x].named && compare_str(nodes[x].text.as_str(), "==") == 0 {
            proof {
                lemma_first_match_at(ch@, p, k as int);
            }
            return true;
        }
        k = k + 1;
    }
    proof {
        lemma_first_match_none(ch@, p);
    }
    false
}

fn equality_case(nodes: &Vec<SyntaxNode>, c: usize) -> (r: Result<Option<(usize, usize)>, ()>)
    requires
        c < nodes@.len(),
    ensures
        match r {
            Err(_) => equality_case_of(nodes@, c as int) is Err,
            Ok(None) => equality_case_of(nodes@, c as int) == Ok::<Option<(int, int)>, ()>(None),
            Ok(Some(sp)) => equality_case_of(nodes@, c as int) == Ok::<Option<(int, int)>, ()>(Some((sp.0 as int, sp.1 as int)))
                && sp.0 < nodes@.len() && sp.1 < nodes@.len(),
        },
{
    if compare_str(nodes[c].kind.as_str(), "binary_expression") != 0 || !has_eq_token(nodes, c) {
        return Ok(None);
    }
    let l = match field_child_exec(nodes, c, "left")? {
        None => {
            return Ok(None);
        },
        Some(l) => l,
    };
    proof {
        lemma_field_child_in_tree(nodes@, c as int, "left"@);
    }
    let r = match field_child_exec(nodes, c, "right")? {
        None => {
            return Ok(None);
        },
        Some(r) => r,
    };
    proof {
        lemma_field_child_in_tree(nodes@, c as int, "right"@);
    }
    if compare_str(nodes[l].kind.as_str(), "identifier") == 0 && pattern_allowed_exec(&nodes[r]) {
        Ok(Some((l, r)))
    } else if compare_str(nodes[r].kind.as_str(), "identifier") == 0 && pattern_allowed_exec(&nodes[l]) {
        Ok(Some((r, l)))
    } else {
        Ok(None)
    }
}

fn seen_pattern_exec(nodes: &Vec<SyntaxNode>, cases: &Vec<ChainCase>, t: &str) -> (r: bool)
    requires
        forall|i: int| 0 <= i < cases@.len() ==> (#[trigger] cases@[i]).pattern < nodes@.len(),
    ensures
        r == seen_pattern(nodes@, cases@, t@),
{
    let mut i: usize = 0;
    while i < cases.len()
        invariant
            i <= cases@.len(),
            forall|x: int| 0 <= x < cases@.len() ==> (#[trigger] cases@[x]).pattern < nodes@.len(),
            forall|j: int| 0 <= j < i ==> nodes@[(#[trigger] cases@[j]).pattern as int].text@ != t@,
        decreases cases@.len() - i,
    {
        if compare_str(nodes[cases[i].pattern].text.as_str(), t) == 0 {
            return true;
        }
        i = i + 1;
    }
    false
}

fn find_if_node(nodes: &Vec<SyntaxNode>, ts: &Vec<usize>) -> (r: Option<usize>)
    requires
        forall|x: int| 0 <= x < ts@.len() ==> (#[trigger] ts@[x]) < nodes@.len(),
    ensures
        r is None ==> first_match(ts@, is_if_node(nodes@)) is None,
        r matches Some(k) ==> first_match(ts@, is_if_node(nodes@)) == Some(k as int) && k < ts@.len(),
{
    let ghost p = is_if_node(nodes@);
    let mut k: usize = 0;
    while k < ts.len()
        invariant
            k <= ts@.len(),
            p == is_if_node(nodes@),
            forall|x: int| 0 <= x < ts@.len() ==> (#[trigger] ts@[x]) < nodes@.len(),
            forall|j: int| 0 <= j < k ==> !p(#[trigger] ts@[j]),
        decreases ts@.len() - k,
    {
        if compare_str(nodes[ts[k]].kind.as_str(), "if_expression") == 0 {
            proof {
                lemma_first_match_at(ts@, p, k as int);
            }
            return Some(k);
        }
        k = k + 1;
    }
    proof {
        lemma_first_match_none(ts@, p);
    }
    None
}

fn find_block_node(nodes: &Vec<SyntaxNode>, ts: &Vec<usize>) -> (r: Option<usize>)
    requires
        forall|x: int| 0 <= x < ts@.len() ==> (#[trigger] ts@[x]) < nodes@.len(),
    ensures
        r is None ==> first_match(ts@, is_block_node(nodes@)) is None,
        r matches Some(k) ==> first_match(ts@, is_block_node(nodes@)) == Some(k as int) && k < ts@.len(),
{
    let ghost p = is_block_node(nodes@);
    let mut k: usize = 0;
    while k < ts.len()
        invariant
            k <= ts@.len(),
            p == is_block_node(nodes@),
            forall|x: int| 0 <= x < ts@.len() ==> (#[trigger] ts@[x]) < nodes@.len(),
            forall|j: int| 0 <= j < k ==> !p(#[trigger] ts@[j]),
        decreases ts@.len() - k,
    {
        if compare_str(nodes[ts[k]].kind.as_str(), "block") == 0 {
            proof {
                lemma_first_match_at(ts@, p, k as int);
            }
            return Some(k);
        }
        k = k + 1;
    }
    proof {
        lemma_first_match_none(ts@, p);
    }
    None
}

/// The chain of the branch at position `b`, as `chain_shape_of` gives it:
/// its cases and its fallback.
pub fn chain_shape(nodes: &Vec<SyntaxNode>, b: usize) -> (r: Result<Option<(Vec<ChainCase>, usize)>, ()>)
    requires
        b < nodes@.len(),
    ensures
        match r {
            Err(_) => chain_shape_of(nodes@, b as int) is Err,
            Ok(None) => chain_shape_of(nodes@, b as int) == Ok::<Option<(Seq<ChainCase>, int)>, ()>(None),
            Ok(Some(ch)) => chain_shape_of(nodes@, b as int) == Ok::<Option<(Seq<ChainCase>, int)>, ()>(
                Some((ch.0@, ch.1 as int)),
            ) && chain_in_tree(nodes@, ch.0@, ch.1 as int),
        },
{
    if !eligible_if_exec(nodes, b)? {
        return Ok(None);
    }
    if contains_opaque_exec(nodes, b)? {
        return Ok(None);
    }
    let mut cases: Vec<ChainCase> = Vec::new();
    let mut current = b;
    loop
        invariant
            current < nodes@.len(),
            cases@.len() <= 6,
            chain_from(nodes@, b as int, Seq::empty()) == chain_from(nodes@, current as int, cases@),
            forall|i: int| 0 <= i < cases@.len() ==> {
                let c = #[trigger] cases@[i];
                c.branch < nodes@.len() && c.subject < nodes@.len() && c.pattern < nodes@.len() && c.body < nodes@.len()
            },
            eligible_if(nodes@, b as int) == Ok::<bool, ()>(true),
            contains_opaque(nodes@, b as int) == Ok::<bool, ()>(false),
        decreases 6 - cases@.len(),
    {
        if cases.len() >= 6 {
            return Ok(None);
        }
        if !eligible_if_exec(nodes, current)? {
            return Ok(None);
        }
        let c = match field_child_exec(nodes, current, "condition")? {
            None => {
                return Ok(None);
            },
            Some(c) => c,
        };
        proof {
            lemma_field_child_in_tree(nodes@, current as int, "condition"@);
        }
        let sp = match equality_case(nodes, c)? {
            None => {
                return Ok(None);
            },
            Some(sp) => sp,
        };
        if (cases.len() > 0 && compare_str(nodes[cases[0].subject].text.as_str(), nodes[sp.0].text.as_str()) != 0)
            || seen_pattern_exec(nodes, &cases, nodes[sp.1].text.as_str()) {
            return Ok(None);
        }
        let body = match field_child_exec(nodes, current, "consequence")? {
            None => {
                return Ok(None);
            },
            Some(t) => t,
        };
        proof {
            lemma_field_child_in_tree(nodes@, current as int, "consequence"@);
        }
        if compare_str(nodes[body].kind.as_str(), "block") != 0 || nodes[body].has_error {
            return Ok(None);
        }
        let ghost before = cases@;
        cases.push(ChainCase { branch: current, subject: sp.0, pattern: sp.1, body });
        let alt = match field_child_exec(nodes, current, "alternative")? {
            None => {
                return Ok(None);
            },
            Some(a) => a,
        };
        proof {
            lemma_field_child_in_tree(nodes@, current as int, "alternative"@);
        }
        let ts = named_children_exec(nodes, alt)?;
        match find_if_node(nodes, &ts) {
            Some(k) => {
                current = ts[k];
            },
            None => {
                let fb = match find_block_node(nodes, &ts) {
                    None => {
                        return Ok(None);
                    },
                    Some(k) => ts[k],
                };
                if cases.len() < 2 {
                    return Ok(None);
                }
                return Ok(Some((cases, fb)));
            },
        }
    }
}

/// Whether the branch at position `b` is an `else if`, as
/// `nested_else_if_of` gives it.
pub fn nested_else_if(nodes: &Vec<SyntaxNode>, b: usize) -> (r: Result<bool, ()>)
    requires
        b < nodes@.len(),
    ensures
        match r {
            Err(_) => nested_else_if_of(nodes@, b as int) is Err,
            Ok(x) => nested_else_if_of(nodes@, b as int) == Ok::<bool, ()>(x),
        },
{
    match nodes[b].parent {
        None => Ok(false),
        Some(pa) => {
            if pa >= nodes.len() {
                Err(())
            } else {
                Ok(compare_str(nodes[pa].kind.as_str(), "else_clause") == 0)
            }
        },
    }
}

/// The `match` that replaces a chain, as `match_text` gives it.
pub fn render_match(nodes: &Vec<SyntaxNode>, cases: &Vec<ChainCase>, fallback: usize) -> (r: String)
    requires
        cases@.len() > 0,
        chain_in_tree(nodes@, cases@, fallback as int),
    ensures
        r@ == match_text(nodes@, cases@, fallback as int),
{
    let mut arms = String::new();
    let mut i: usize = 0;
    assert(cases@.subrange(0, 0) =~= Seq::<ChainCase>::empty());
    while i < cases.len()
        invariant
            i <= cases@.len(),
            chain_in_tree(nodes@, cases@, fallback as int),
            arms@ == arms_text(nodes@, cases@.subrange(0, i as int)),
        decreases cases@.len() - i,
    {
        let c = cases[i];
        string_append(&mut arms, nodes[c.pattern].text.as_str());
        string_append(&mut arms, " => ");
        string_append(&mut arms, nodes[c.body].text.as_str());
        string_append(&mut arms, ", ");
        proof {
            let sub = cases@.subrange(0, i + 1);
            assert(sub.drop_last() =~= cases@.subrange(0, i as int));
            assert(sub.last() == c);
            assert(arms@ =~= arms_text(nodes@, sub));
        }
        i = i + 1;
    }
    assert(cases@.subrange(0, cases@.len() as int) =~= cases@);
    let mut out = String::new();
    string_append(&mut out, "match ");
    string_append(&mut out, nodes[cases[0].subject].text.as_str());
    string_append(&mut out, " { ");
    string_append(&mut out, arms.as_str());
    string_append(&mut out, "_ => ");
    string_append(&mut out, nodes[fallback].text.as_str());
    string_append(&mut out, " }");
    assert(out@ =~= match_text(nodes@, cases@, fallback as int));
    out
}

/// The dispatch point, dependence node and region fact of one case.
#[derive(Clone, Copy, Debug)]
pub struct CaseSite {
    pub point: usize,
    pub node: usize,
    pub fact: usize,
}

/// The site of one case: the first dispatch of its branch, when it is
/// unrecovered with two exact branch edges, its dependence node and its
/// region fact.
pub open spec fn case_site_of(p: RetainedProjection, gi: int, l: (int, int, int, int), c: ChainCase) -> Option<CaseSite> {
    let flow = p.flow_graphs@[l.0];
    let g = p.dependence_graphs@[gi];
    let region = p.region_graphs@[l.1];
    match first_match(flow.points@, dispatch_of(p.syntax@[c.branch as int].key@)) {
        None => None,
        Some(q) => if flow.points@[q].recovered || !exact_branch_edges(flow, flow.points@[q].key@) {
            None
        } else {
            match (
                first_match(g.nodes@, node_point_is(flow.points@[q].key@)),
                first_match(region.relations@, relation_point_is(flow.points@[q].key@)),
            ) {
                (Some(ni), Some(fi)) => Some(CaseSite { point: q as usize, node: ni as usize, fact: fi as usize }),
                _ => None,
            }
        },
    }
}

/// The sites of all cases, when every case has one.
pub open spec fn case_sites_of(p: RetainedProjection, gi: int, l: (int, int, int, int), cases: Seq<ChainCase>) -> Option<Seq<CaseSite>>
    decreases cases.len(),
{
    if cases.len() == 0 {
        Some(Seq::empty())
    } else {
        match case_sites_of(p, gi, l, cases.drop_last()) {
            None => None,
            Some(v) => match case_site_of(p, gi, l, cases.last()) {
                None => None,
                Some(s) => Some(v.push(s)),
            },
        }
    }
}

/// A chain the recipe reads: the dependence graph and the positions of the
/// graphs it derives from, the dispatch point and the chain's first
/// branch.
#[derive(Clone, Copy, Debug)]
pub struct ChainSite {
    pub graph: usize,
    pub flow: usize,
    pub region: usize,
    pub data_flow: usize,
    pub non_structured: usize,
    pub point: usize,
    pub branch: usize,
}

pub open spec fn lookups_of(site: ChainSite) -> (int, int, int, int) {
    (site.flow as int, site.region as int, site.data_flow as int, site.non_structured as int)
}

/// One control point of a dependence graph's flow graph: the site it
/// yields, if any. A point yields nothing unless it is an unrecovered
/// dispatch with a source, whose branch is no `else if`, is a chain, and
/// has a site for every case. `Err` when the tree lacks the source's node
/// or a node the branch refers to.
pub open spec fn chain_step(p: RetainedProjection, gi: int, pi: int, l: (int, int, int, int)) -> Result<Option<ChainSite>, ()> {
    let point = p.flow_graphs@[l.0].points@[pi];
    if point.kind != FlowPointKind::BranchDispatch || point.recovered || point.source is None {
        Ok(None)
    } else {
        match first_match(p.syntax@, syntax_key_is(point.source->0@)) {
            None => Err(()),
            Some(b) => match nested_else_if_of(p.syntax@, b) {
                Err(_) => Err(()),
                Ok(true) => Ok(None),
                Ok(false) => match chain_shape_of(p.syntax@, b) {
                    Err(_) => Err(()),
                    Ok(None) => Ok(None),
                    Ok(Some(ch)) => match case_sites_of(p, gi, l, ch.0) {
                        None => Ok(None),
                        Some(_) => Ok(
                            Some(
                                ChainSite {
                                    graph: gi as usize,
                                    flow: l.0 as usize,
                                    region: l.1 as usize,
                                    data_flow: l.2 as usize,
                                    non_structured: l.3 as usize,
                                    point: pi as usize,
                                    branch: b as usize,
                                },
                            ),
                        ),
                    },
                },
            },
        }
    }
}

pub open spec fn opt_chain(o: Option<ChainSite>) -> Seq<ChainSite> {
    match o {
        Some(x) => seq![x],
        None => Seq::empty(),
    }
}

/// The sites of the first `k` points of a dependence graph's flow graph.
pub open spec fn scan_chains(p: RetainedProjection, gi: int, l: (int, int, int, int), k: nat) -> Result<Seq<ChainSite>, ()>
    decreases k,
{
    if k == 0 {
        Ok(Seq::empty())
    } else {
        match scan_chains(p, gi, l, (k - 1) as nat) {
            Err(_) => Err(()),
            Ok(sites) => match chain_step(p, gi, k - 1, l) {
                Err(_) => Err(()),
                Ok(o) => Ok(sites + opt_chain(o)),
            },
        }
    }
}

/// The sites of the first `j` dependence graphs, in order.
pub open spec fn scan_chain_graphs(p: RetainedProjection, j: nat) -> Result<Seq<ChainSite>, ()>
    decreases j,
{
    if j == 0 {
        Ok(Seq::empty())
    } else {
        match scan_chain_graphs(p, (j - 1) as nat) {
            Err(_) => Err(()),
            Ok(sites) => match guard_lookups(p, j - 1) {
                Err(_) => Err(()),
                Ok(l) => match scan_chains(p, j - 1, l, p.flow_graphs@[l.0].points@.len()) {
                    Err(_) => Err(()),
                    Ok(s2) => Ok(sites + s2),
                },
            },
        }
    }
}

/// The chain sites of a whole projection.
pub open spec fn chain_sites_of(p: RetainedProjection) -> Result<Seq<ChainSite>, ()> {
    scan_chain_graphs(p, p.dependence_graphs@.len())
}

fn case_site(p: &RetainedProjection, gi: usize, l: (usize, usize, usize, usize), c: ChainCase) -> (r: Option<CaseSite>)
    requires
        gi < p.dependence_graphs@.len(),
        l.0 < p.flow_graphs@.len(),
        l.1 < p.region_graphs@.len(),
        c.branch < p.syntax@.len(),
    ensures
        r == case_site_of(*p, gi as int, (l.0 as int, l.1 as int, l.2 as int, l.3 as int), c),
        r matches Some(s) ==> s.point < p.flow_graphs@[l.0 as int].points@.len() && s.node
            < p.dependence_graphs@[gi as int].nodes@.len() && s.fact < p.region_graphs@[l.1 as int].relations@.len(),
{
    let flow = &p.flow_graphs[l.0];
    let g = &p.dependence_graphs[gi];
    let region = &p.region_graphs[l.1];
    let q = match find_dispatch_of(&flow.points, &p.syntax[c.branch].key) {
        None => {
            return None;
        },
        Some(q) => q,
    };
    proof {
        lemma_first_match_found(flow.points@, dispatch_of(p.syntax@[c.branch as int].key@));
    }
    if flow.points[q].recovered || !exact_branch_edges_exec(flow, flow.points[q].key.as_str()) {
        return None;
    }
    let ni = find_node_by_point(&g.nodes, flow.points[q].key.as_str());
    let fi = find_relation_by_point(&region.relations, flow.points[q].key.as_str());
    match (ni, fi) {
        (Some(ni), Some(fi)) => {
            proof {
                lemma_first_match_found(g.nodes@, node_point_is(flow.points@[q as int].key@));
            }
            Some(CaseSite { point: q, node: ni, fact: fi })
        },
        _ => None,
    }
}

/// The sites of all cases, as `case_sites_of` gives them.
fn case_sites(p: &RetainedProjection, gi: usize, l: (usize, usize, usize, usize), cases: &Vec<ChainCase>) -> (r: Option<Vec<CaseSite>>)
    requires
        gi < p.dependence_graphs@.len(),
        l.0 < p.flow_graphs@.len(),
        l.1 < p.region_graphs@.len(),
        forall|i: int| 0 <= i < cases@.len() ==> (#[trigger] cases@[i]).branch < p.syntax@.len(),
    ensures
        r is None ==> case_sites_of(*p, gi as int, (l.0 as int, l.1 as int, l.2 as int, l.3 as int), cases@) is None,
        r matches Some(v) ==> case_sites_of(*p, gi as int, (l.0 as int, l.1 as int, l.2 as int, l.3 as int), cases@) == Some(v@)
            && v@.len() == cases@.len() && forall|i: int| 0 <= i < v@.len() ==> {
                let s = #[trigger] v@[i];
                s.point < p.flow_graphs@[l.0 as int].points@.len() && s.node < p.dependence_graphs@[gi as int].nodes@.len()
                    && s.fact < p.region_graphs@[l.1 as int].relations@.len()
            },
{
    let ghost lk = (l.0 as int, l.1 as int, l.2 as int, l.3 as int);
    let mut out: Vec<CaseSite> = Vec::new();
    let mut i: usize = 0;
    assert(cases@.subrange(0, 0) =~= Seq::<ChainCase>::empty());
    while i < cases.len()
        invariant
            i <= cases@.len(),
            gi < p.dependence_graphs@.len(),
            l.0 < p.flow_graphs@.len(),
            l.1 < p.region_graphs@.len(),
            lk == (l.0 as int, l.1 as int, l.2 as int, l.3 as int),
            forall|x: int| 0 <= x < cases@.len() ==> (#[trigger] cases@[x]).branch < p.syntax@.len(),
            case_sites_of(*p, gi as int, lk, cases@.subrange(0, i as int)) == Some(out@),
            out@.len() == i,
            forall|x: int| 0 <= x < out@.len() ==> {
                let s = #[trigger] out@[x];
                s.point < p.flow_graphs@[l.0 as int].points@.len() && s.node < p.dependence_graphs@[gi as int].nodes@.len()
                    && s.fact < p.region_graphs@[l.1 as int].relations@.len()
            },
        decreases cases@.len() - i,
    {
        let ghost sub = cases@.subrange(0, i + 1);
        assert(sub.drop_last() =~= cases@.subrange(0, i as int));
        assert(sub.last() == cases@[i as int]);
        match case_site(p, gi, l, cases[i]) {
            None => {
                proof {
                    lemma_case_sites_none_stays(*p, gi as int, lk, cases@, i + 1);
                }
                return None;
            },
            Some(s) => {
                out.push(s);
            },
        }
        i = i + 1;
    }
    assert(cases@.subrange(0, cases@.len() as int) =~= cases@);
    Some(out)
}

proof fn lemma_case_sites_none_stays(p: RetainedProjection, gi: int, l: (int, int, int, int), cases: Seq<ChainCase>, k: int)
    requires
        0 <= k <= cases.len(),
        case_sites_of(p, gi, l, cases.subrange(0, k)) is None,
    ensures
        case_sites_of(p, gi, l, cases) is None,
    decreases cases.len() - k,
{
    if k < cases.len() {
        let sub = cases.subrange(0, k + 1);
        assert(sub.drop_last() =~= cases.subrange(0, k));
        lemma_case_sites_none_stays(p, gi, l, cases, k + 1);
    } else {
        assert(cases.subrange(0, k) =~= cases);
    }
}

fn step_chain(p: &RetainedProjection, gi: usize, pi: usize, l: (usize, usize, usize, usize)) -> (r: Result<Option<ChainSite>, ()>)
    requires
        gi < p.dependence_graphs@.len(),
        guard_lookups(*p, gi as int) == Ok::<(int, int, int, int), ()>((l.0 as int, l.1 as int, l.2 as int, l.3 as int)),
        pi < p.flow_graphs@[l.0 as int].points@.len(),
    ensures
        r == chain_step(*p, gi as int, pi as int, (l.0 as int, l.1 as int, l.2 as int, l.3 as int)),
{
    proof {
        lemma_guard_lookups_in_range(*p, gi as int);
    }
    let point = &p.flow_graphs[l.0].points[pi];
    if point.kind != FlowPointKind::BranchDispatch || point.recovered {
        return Ok(None);
    }
    let source = match &point.source {
        None => {
            return Ok(None);
        },
        Some(s) => s,
    };
    let b = match find_syntax(&p.syntax, source) {
        None => {
            return Err(());
        },
        Some(b) => b,
    };
    proof {
        lemma_first_match_found(p.syntax@, syntax_key_is(source@));
    }
    if nested_else_if(&p.syntax, b)? {
        return Ok(None);
    }
    let ch = match chain_shape(&p.syntax, b)? {
        None => {
            return Ok(None);
        },
        Some(ch) => ch,
    };
    match case_sites(p, gi, l, &ch.0) {
        None => Ok(None),
        Some(_) => Ok(
            Some(ChainSite { graph: gi, flow: l.0, region: l.1, data_flow: l.2, non_structured: l.3, point: pi, branch: b }),
        ),
    }
}

proof fn lemma_scan_chains_err_stays(p: RetainedProjection, gi: int, l: (int, int, int, int), k: nat, m: nat)
    requires
        k <= m,
        scan_chains(p, gi, l, k) is Err,
    ensures
        scan_chains(p, gi, l, m) is Err,
    decreases m - k,
{
    if k < m {
        lemma_scan_chains_err_stays(p, gi, l, k, (m - 1) as nat);
    }
}

proof fn lemma_scan_chain_graphs_err_stays(p: RetainedProjection, k: nat, m: nat)
    requires
        k <= m,
        scan_chain_graphs(p, k) is Err,
    ensures
        scan_chain_graphs(p, m) is Err,
    decreases m - k,
{
    if k < m {
        lemma_scan_chain_graphs_err_stays(p, k, (m - 1) as nat);
    }
}

/// The chain sites of a projection, in graph and point order.
pub fn chain_sites(p: &RetainedProjection) -> (r: Result<Vec<ChainSite>, ()>)
    ensures
        r matches Ok(v) ==> chain_sites_of(*p) == Ok::<Seq<ChainSite>, ()>(v@),
        r is Err ==> chain_sites_of(*p) is Err,
{
    let mut sites: Vec<ChainSite> = Vec::new();
    let ng = p.dependence_graphs.len();
    let mut j: usize = 0;
    while j < ng
        invariant
            ng == p.dependence_graphs@.len(),
            j <= ng,
            scan_chain_graphs(*p, j as nat) == Ok::<Seq<ChainSite>, ()>(sites@),
        decreases ng - j,
    {
        let l = match guard_lookups_exec(p, j) {
            None => {
                proof {
                    lemma_scan_chain_graphs_err_stays(*p, (j + 1) as nat, ng as nat);
                }
                return Err(());
            },
            Some(l) => l,
        };
        proof {
            lemma_guard_lookups_in_range(*p, j as int);
        }
        let ghost lk = (l.0 as int, l.1 as int, l.2 as int, l.3 as int);
        let ghost start_sites = sites@;
        let np = p.flow_graphs[l.0].points.len();
        let mut k: usize = 0;
        assert(sites@.subrange(start_sites.len() as int, sites@.len() as int) =~= Seq::<ChainSite>::empty());
        while k < np
            invariant
                ng == p.dependence_graphs@.len(),
                j < ng,
                l.0 < p.flow_graphs@.len(),
                np == p.flow_graphs@[l.0 as int].points@.len(),
                k <= np,
                guard_lookups(*p, j as int) == Ok::<(int, int, int, int), ()>(lk),
                lk == (l.0 as int, l.1 as int, l.2 as int, l.3 as int),
                scan_chain_graphs(*p, j as nat) == Ok::<Seq<ChainSite>, ()>(start_sites),
                scan_chains(*p, j as int, lk, k as nat) == Ok::<Seq<ChainSite>, ()>(
                    sites@.subrange(start_sites.len() as int, sites@.len() as int),
                ),
                sites@.subrange(0, start_sites.len() as int) == start_sites,
                start_sites.len() <= sites@.len(),
            decreases np - k,
        {
            let ghost before = sites@;
            match step_chain(p, j, k, l) {
                Err(()) => {
                    proof {
                        lemma_scan_chains_err_stays(*p, j as int, lk, (k + 1) as nat, np as nat);
                        assert(scan_chain_graphs(*p, (j + 1) as nat) is Err);
                        lemma_scan_chain_graphs_err_stays(*p, (j + 1) as nat, ng as nat);
                    }
                    return Err(());
                },
                Ok(Some(site)) => {
                    sites.push(site);
                    proof {
                        assert(sites@.subrange(start_sites.len() as int, sites@.len() as int) =~= before.subrange(
                            start_sites.len() as int,
                            before.len() as int,
                        ) + seq![site]);
                        assert(sites@.subrange(0, start_sites.len() as int) =~= before.subrange(0, start_sites.len() as int));
                    }
                },
                Ok(None) => {
                    proof {
                        assert(before.subrange(start_sites.len() as int, before.len() as int) + Seq::<ChainSite>::empty()
                            =~= before.subrange(start_sites.len() as int, before.len() as int));
                    }
                },
            }
            k = k + 1;
        }
        proof {
            assert(sites@ =~= start_sites + sites@.subrange(start_sites.len() as int, sites@.len() as int));
        }
        j = j + 1;
    }
    Ok(sites)
}

/// A site names positions of the projection: its graphs and dispatch point
/// lie in range, its dispatch's source is its branch's node, and its
/// branch is a chain with a site for every case.
pub open spec fn chain_site_ok(p: RetainedProjection, site: ChainSite) -> bool {
    let flow = p.flow_graphs@[site.flow as int];
    &&& site.graph < p.dependence_graphs@.len()
    &&& site.flow < p.flow_graphs@.len()
    &&& site.region < p.region_graphs@.len()
    &&& site.data_flow < p.data_flow_graphs@.len()
    &&& site.non_structured < p.non_structured_graphs@.len()
    &&& site.point < flow.points@.len()
    &&& site.branch < p.syntax@.len()
    &&& chain_shape_of(p.syntax@, site.branch as int) matches Ok(Some(ch)) && case_sites_of(
        p,
        site.graph as int,
        lookups_of(site),
        ch.0,
    ) is Some
    &&& flow.points@[site.point as int].source matches Some(src) && src@ == p.syntax@[site.branch as int].key@
}

proof fn lemma_chain_step_ok(p: RetainedProjection, gi: int, pi: int, l: (int, int, int, int))
    requires
        0 <= gi < p.dependence_graphs@.len(),
        guard_lookups(p, gi) == Ok::<(int, int, int, int), ()>(l),
        0 <= pi < p.flow_graphs@[l.0].points@.len(),
        chain_step(p, gi, pi, l) matches Ok(Some(_)),
    ensures
        chain_site_ok(p, chain_step(p, gi, pi, l)->Ok_0->Some_0),
{
    lemma_guard_lookups_in_range(p, gi);
    let point = p.flow_graphs@[l.0].points@[pi];
    lemma_first_match_found(p.syntax@, syntax_key_is(point.source->0@));
    vstd::std_specs::vec::axiom_spec_len(&p.dependence_graphs);
    vstd::std_specs::vec::axiom_spec_len(&p.syntax);
    vstd::std_specs::vec::axiom_spec_len(&p.flow_graphs);
    vstd::std_specs::vec::axiom_spec_len(&p.flow_graphs@[l.0].points);
    vstd::std_specs::vec::axiom_spec_len(&p.region_graphs);
    vstd::std_specs::vec::axiom_spec_len(&p.non_structured_graphs);
    vstd::std_specs::vec::axiom_spec_len(&p.data_flow_graphs);
}

proof fn lemma_scan_chains_ok(p: RetainedProjection, gi: int, l: (int, int, int, int), k: nat)
    requires
        0 <= gi < p.dependence_graphs@.len(),
        guard_lookups(p, gi) == Ok::<(int, int, int, int), ()>(l),
        k <= p.flow_graphs@[l.0].points@.len(),
        scan_chains(p, gi, l, k) is Ok,
    ensures
        forall|i: int| 0 <= i < scan_chains(p, gi, l, k)->Ok_0.len() ==> chain_site_ok(
            p,
            #[trigger] scan_chains(p, gi, l, k)->Ok_0[i],
        ),
    decreases k,
{
    lemma_guard_lookups_in_range(p, gi);
    if k > 0 {
        lemma_scan_chains_ok(p, gi, l, (k - 1) as nat);
        let prev = scan_chains(p, gi, l, (k - 1) as nat)->Ok_0;
        if chain_step(p, gi, k - 1, l) matches Ok(Some(_)) {
            lemma_chain_step_ok(p, gi, k - 1, l);
        }
        let all = scan_chains(p, gi, l, k)->Ok_0;
        assert forall|i: int| 0 <= i < all.len() implies chain_site_ok(p, #[trigger] all[i]) by {
            if i < prev.len() {
                assert(all[i] == prev[i]);
            }
        }
    }
}

/// Every chain site of a projection names positions that lie in it.
pub proof fn lemma_chain_sites_ok(p: RetainedProjection, j: nat)
    requires
        j <= p.dependence_graphs@.len(),
        scan_chain_graphs(p, j) is Ok,
    ensures
        forall|i: int| 0 <= i < scan_chain_graphs(p, j)->Ok_0.len() ==> chain_site_ok(
            p,
            #[trigger] scan_chain_graphs(p, j)->Ok_0[i],
        ),
    decreases j,
{
    if j > 0 {
        lemma_chain_sites_ok(p, (j - 1) as nat);
        let prev = scan_chain_graphs(p, (j - 1) as nat)->Ok_0;
        let l = guard_lookups(p, j - 1)->Ok_0;
        lemma_guard_lookups_in_range(p, j - 1);
        lemma_scan_chains_ok(p, j - 1, l, p.flow_graphs@[l.0].points@.len());
        let more = scan_chains(p, j - 1, l, p.flow_graphs@[l.0].points@.len())->Ok_0;
        let all = scan_chain_graphs(p, j)->Ok_0;
        assert forall|i: int| 0 <= i < all.len() implies chain_site_ok(p, #[trigger] all[i]) by {
            if i < prev.len() {
                assert(all[i] == prev[i]);
            } else {
                assert(all[i] == more[i - prev.len()]);
            }
        }
    }
}

pub const SUBJECT_DETAIL: &'static str = "Exact chain dispatch over the retained shared subject.";
pub const EXHAUSTIVE_DETAIL: &'static str =
    "The explicit final else block becomes a final `_` arm, so syntax-level dispatch is exhaustive.";
pub const REBUILD_DETAIL: &'static str =
    "The generated match uses unguarded case arms and a unique final wildcard supported by exact CFG lowering.";
pub const PST_POINT_DETAIL: &'static str = "Retained chain dispatch PST point.";
pub const EQUALITY_DETAIL: &'static str =
    "Production type/effect authority cannot prove overloaded equality is identical to pattern selection.";
pub const MOVE_DETAIL: &'static str =
    "Missing DefUse authority cannot disprove a move, borrow, lifetime, or drop change from one subject evaluation.";
pub const EFFECT_DETAIL: &'static str =
    "Missing Effects authority cannot disprove custom equality effects, panic, exception, or suspension changes.";
pub const ROOT_RATIONALE: &'static str = "The outer conditional dispatch becomes one exact match-table dispatch.";
pub const NESTED_RATIONALE: &'static str = "A nested equality dispatch becomes one case edge on the match table.";
pub const BOUNDARY_RATIONALE: &'static str = "The rebuilt dispatch must retain equivalent reachability boundaries.";

/// A result whose evidence names the given entities, one per case, each
/// with the same detail and no capability.
pub open spec fn list_result(
    r: ConditionResult,
    condition: Seq<char>,
    state: ProofState,
    entities: Seq<GraphEntityView>,
    detail: Seq<char>,
) -> bool {
    &&& r.condition@ == condition
    &&& r.state == state
    &&& r.evidence@.len() == entities.len()
    &&& forall|k: int| 0 <= k < entities.len() ==> (#[trigger] r.evidence@[k])@ == ConditionEvidenceView {
        entity: entities[k],
        detail,
        capability: None,
        support: None,
        authority: None,
    }
}

/// The dispatch entities of a chain's cases.
pub open spec fn case_dispatches(flow: FlowGraph, cs: Seq<CaseSite>) -> Seq<GraphEntityView> {
    cs.map_values(|c: CaseSite| GraphEntityView { layer: GraphEvidenceLayer::ControlFlow, graph: flow.key@, entity: flow.points@[c.point as int].key@ })
}

/// The region-fact entities of a chain's cases.
pub open spec fn case_facts(region: RegionGraph, cs: Seq<CaseSite>) -> Seq<GraphEntityView> {
    cs.map_values(|c: CaseSite| GraphEntityView { layer: GraphEvidenceLayer::ControlRegions, graph: region.key@, entity: region.relations@[c.fact as int].key@ })
}

/// The impact cone of a site: the answer of a bidirectional query of depth
/// eight around the dependence node of its first case.
pub open spec fn chain_impact(p: RetainedProjection, site: ChainSite, root: Seq<char>, impact: ImpactCone) -> bool {
    let g = p.dependence_graphs@[site.graph as int];
    exists|deps: Seq<DependenceGraph>|
        dependence_views(deps, p.dependence_graphs@) && #[trigger] crate::impact::impact_answer(
            deps,
            g.key@,
            root,
            ImpactDirection::Bidirectional,
            8,
            Ok(impact),
        )
}

/// The draft of a chain: bound to the recipe and the projection's
/// identities; targeting the chain through the dependence node of its
/// first case; the shared subject proven on every case dispatch,
/// exhaustiveness and reconstruction proven on the first, the region
/// nesting proven or unknown as the region facts are complete or not,
/// equality semantics unknown with the data-flow graph's effect
/// capability; uncertain control disproven on every case dispatch, move
/// and effect changes unknown with the def/use and effect capabilities,
/// non-structured control disproven exactly when the callable has no such
/// fact; the first case's node modified, every later case's node removed,
/// every region fact kept; one exact replacement of the chain by its
/// `match`; the recipe's plans; review required at safe-with-precondition.
pub open spec fn is_chain_draft(
    d: TransformationCandidateDraft,
    p: RetainedProjection,
    site: ChainSite,
    recipe: TransformationRecipe,
) -> bool {
    let g = p.dependence_graphs@[site.graph as int];
    let flow = p.flow_graphs@[site.flow as int];
    let region = p.region_graphs@[site.region as int];
    let nsc = p.non_structured_graphs@[site.non_structured as int];
    let data = p.data_flow_graphs@[site.data_flow as int];
    let branch = p.syntax@[site.branch as int];
    let ch = chain_shape_of(p.syntax@, site.branch as int)->Ok_0->Some_0;
    let cs = case_sites_of(p, site.graph as int, lookups_of(site), ch.0)->Some_0;
    let n = cs.len();
    let dispatches = case_dispatches(flow, cs);
    let facts = case_facts(region, cs);
    let de = GraphEntityView { layer: GraphEvidenceLayer::DataFlow, graph: data.key@, entity: data.key@ };
    let ne = GraphEntityView { layer: GraphEvidenceLayer::NonStructuredControl, graph: nsc.key@, entity: nsc.key@ };
    let root = pdg_entity(g.key@, g.nodes@[cs[0].node as int].key@);
    let span = node_span(branch.key@);
    &&& d.recipe.spec_id() == recipe.spec_id()
    &&& (recipe.wf() ==> d.recipe.wf())
    &&& d.source.project_snapshot@ == p.snapshot@
    &&& d.source.analysis@ == p.analysis@
    &&& d.source.program_dependence_projection@ == p.id@
    &&& d.target.entity@ == root
    &&& d.target.node@ == branch.key@
    &&& d.target.span == span
    &&& d.target.subtree_fingerprint is None
    &&& d.eligibility.consumer@ == g.eligibility.consumer@
    &&& d.eligibility.required_layers@ == g.eligibility.required_layers@
    &&& d.eligibility.eligible == g.eligibility.eligible
    &&& d.required_results@.len() == 5
    &&& list_result(d.required_results@[0], CHAIN_SUBJECT@, ProofState::Proven, dispatches, SUBJECT_DETAIL@)
    &&& single_result(d.required_results@[1], CHAIN_EXHAUSTIVE@, ProofState::Proven, dispatches[0], EXHAUSTIVE_DETAIL@)
    &&& single_result(d.required_results@[2], CHAIN_REBUILD@, ProofState::Proven, dispatches[0], REBUILD_DETAIL@)
    &&& list_result(d.required_results@[3], CHAIN_PST@, if region.complete { ProofState::Proven } else { ProofState::Unknown },
        facts, PST_POINT_DETAIL@)
    &&& capability_result(d.required_results@[4], CHAIN_EQUALITY@, ProofState::Unknown, de, EQUALITY_DETAIL@, EFFECTS@,
        data.effects_support, text_view(data.effects_authority))
    &&& d.forbidden_results@.len() == 4
    &&& list_result(d.forbidden_results@[0], CHAIN_CONTROL@, ProofState::Disproven, dispatches, SUBJECT_DETAIL@)
    &&& capability_result(d.forbidden_results@[1], CHAIN_MOVE@, ProofState::Unknown, de, MOVE_DETAIL@, DEF_USE@,
        data.def_use_support, text_view(data.def_use_authority))
    &&& capability_result(d.forbidden_results@[2], CHAIN_EFFECT@, ProofState::Unknown, de, EFFECT_DETAIL@, EFFECTS@,
        data.effects_support, text_view(data.effects_authority))
    &&& (if nsc.has_facts {
        single_result(d.forbidden_results@[3], CHAIN_NON_STRUCTURED@, ProofState::Unknown, ne, FACTS_DETAIL@)
    } else {
        single_result(d.forbidden_results@[3], CHAIN_NON_STRUCTURED@, ProofState::Disproven, ne, NO_FACTS_DETAIL@)
    })
    &&& d.expected_delta.changes@.len() == 2 * n
    &&& d.expected_delta.changes@[0].kind == GraphChangeKind::Modify
    &&& d.expected_delta.changes@[0].entity@ == root
    &&& d.expected_delta.changes@[0].rationale@ == ROOT_RATIONALE@
    &&& forall|i: int| 1 <= i < n ==> {
        let c = #[trigger] d.expected_delta.changes@[i];
        c.kind == GraphChangeKind::Remove && c.entity@ == pdg_entity(g.key@, g.nodes@[cs[i].node as int].key@)
            && c.rationale@ == NESTED_RATIONALE@
    }
    &&& forall|i: int| 0 <= i < n ==> {
        let c = #[trigger] d.expected_delta.changes@[n + i];
        c.kind == GraphChangeKind::Preserve && c.entity@ == facts[i] && c.rationale@ == BOUNDARY_RATIONALE@
    }
    &&& d.edits@.len() == 1
    &&& d.edits@[0].target@ == branch.key@
    &&& d.edits@[0].span == span
    &&& d.edits@[0].before@ == branch.text@
    &&& d.edits@[0].after@ == match_text(p.syntax@, ch.0, ch.1)
    &&& d.edits@[0].revision_guard@ == revision_guard_id(branch.key@.path, span, branch.text@)
    &&& d.safety == SafetyClass::SafeWithPrecondition
    &&& d.disposition == CandidateDisposition::ReviewRequired
    &&& steps_agree(d.validation_plan.steps@, recipe.spec_draft().validation_plan.steps@)
    &&& d.rollback_plan.strategy == recipe.spec_draft().rollback_plan.strategy
    &&& d.rollback_plan.require_revision_guards == recipe.spec_draft().rollback_plan.require_revision_guards
    &&& keys_agree(d.rollback_plan.validation_steps@, recipe.spec_draft().rollback_plan.validation_steps@)
}

/// A candidate for a chain site: well formed, and its draft is, up to the
/// canonical order of its lists, the site's chain draft with its impact
/// cone.
#[verifier::opaque]
pub open spec fn chain_candidate_for(c: TransformationCandidate, p: RetainedProjection, site: ChainSite, recipe: TransformationRecipe) -> bool {
    let ch = chain_shape_of(p.syntax@, site.branch as int)->Ok_0->Some_0;
    let cs = case_sites_of(p, site.graph as int, lookups_of(site), ch.0)->Some_0;
    let g = p.dependence_graphs@[site.graph as int];
    &&& c.wf()
    &&& exists|d: TransformationCandidateDraft|
        #[trigger] is_chain_draft(d, p, site, recipe) && candidate_arrangement(c.spec_draft(), d) && chain_impact(
            p,
            site,
            g.nodes@[cs[0].node as int].key@,
            d.impact,
        )
}

fn evidence_list(entities: &Vec<GraphEntityRef>, detail: &str) -> (r: Vec<ConditionEvidence>)
    ensures
        r@.len() == entities@.len(),
        forall|k: int| 0 <= k < r@.len() ==> (#[trigger] r@[k])@ == (ConditionEvidenceView {
            entity: entities@[k]@,
            detail: detail@,
            capability: None,
            support: None,
            authority: None,
        }),
{
    let mut out: Vec<ConditionEvidence> = Vec::new();
    let mut i: usize = 0;
    while i < entities.len()
        invariant
            i <= entities@.len(),
            out@.len() == i,
            forall|k: int| 0 <= k < i ==> (#[trigger] out@[k])@ == (ConditionEvidenceView {
                entity: entities@[k]@,
                detail: detail@,
                capability: None,
                support: None,
                authority: None,
            }),
        decreases entities@.len() - i,
    {
        out.push(ConditionEvidence {
            entity: entities[i].duplicate(),
            detail: detail.to_owned(),
            capability: None,
            support: None,
            authority: None,
        });
        i = i + 1;
    }
    out
}

/// When a chain site's candidate is owed: the branch's rows fit, the
/// impact query around the dependence node of its first case can be
/// answered, and every draft of the site is valid.
pub open spec fn chain_owed(p: RetainedProjection, deps: Seq<DependenceGraph>, site: ChainSite, recipe: TransformationRecipe) -> bool {
    let g = p.dependence_graphs@[site.graph as int];
    &&& rows_fit(p.syntax@[site.branch as int].key@)
    &&& impact_found(deps, g.key@, g.nodes@[case_sites_of(p, site.graph as int, lookups_of(site), chain_shape_of(p.syntax@, site.branch as int)->Ok_0->Some_0.0)->Some_0[0].node as int].key@, 8)
    &&& forall|d: TransformationCandidateDraft|
        #[trigger] is_chain_draft(d, p, site, recipe) && chain_impact(p, site, g.nodes@[case_sites_of(p, site.graph as int, lookups_of(site), chain_shape_of(p.syntax@, site.branch as int)->Ok_0->Some_0.0)->Some_0[0].node as int].key@, d.impact) ==> candidate_fields_valid(d)
}

/// The candidate of one chain site.
#[verifier::rlimit(40)]
fn chain_candidate(
    p: &RetainedProjection,
    recipe: &TransformationRecipe,
    deps: &Vec<DependenceGraph>,
    site: ChainSite,
) -> (r: Result<TransformationCandidate, TerminalBranchRecipeError>)
    requires
        chain_site_ok(*p, site),
        dependence_views(deps@, p.dependence_graphs@),
    ensures
        r matches Ok(c) ==> chain_candidate_for(c, *p, site, *recipe),
        chain_owed(*p, deps@, site, *recipe) ==> r is Ok,
{
    let ch = match chain_shape(&p.syntax, site.branch) {
        Ok(Some(ch)) => ch,
        _ => {
            proof {
                assert(false);
            }
            return Err(TerminalBranchRecipeError::Projection("chain lost its shape".to_owned()));
        },
    };
    let l = (site.flow, site.region, site.data_flow, site.non_structured);
    let cs = match case_sites(p, site.graph, l, &ch.0) {
        Some(cs) => cs,
        None => {
            proof {
                assert(false);
            }
            return Err(TerminalBranchRecipeError::Projection("chain lost its case sites".to_owned()));
        },
    };
    let ghost chv = chain_shape_of(p.syntax@, site.branch as int)->Ok_0->Some_0;
    assert(chv.0.len() >= 2);
    let g = &p.dependence_graphs[site.graph];
    let flow = &p.flow_graphs[site.flow];
    let region = &p.region_graphs[site.region];
    let nsc = &p.non_structured_graphs[site.non_structured];
    let data = &p.data_flow_graphs[site.data_flow];
    let branch = &p.syntax[site.branch];
    let key = &branch.key;
    if key.start_row >= usize::MAX || key.end_row >= usize::MAX {
        return Err(TerminalBranchRecipeError::Projection("retained node rows are out of range".to_owned()));
    }
    let span = Span { start_line: key.start_row + 1, end_line: key.end_row + 1, start_byte: key.start_byte, end_byte: key.end_byte };
    let root_node = &g.nodes[cs[0].node];
    let impact = match program_dependence_impact_cone(deps, g.key.as_str(), root_node.key.as_str(), ImpactDirection::Bidirectional, 8) {
        Ok(c) => c,
        Err(e) => {
            return Err(TerminalBranchRecipeError::Impact(e));
        },
    };
    let fk = flow.key.as_str();
    let rk = region.key.as_str();
    let gk = g.key.as_str();
    let mut dispatches: Vec<GraphEntityRef> = Vec::new();
    let mut facts: Vec<GraphEntityRef> = Vec::new();
    let mut changes: Vec<ExpectedGraphChange> = Vec::new();
    changes.push(ExpectedGraphChange {
        kind: GraphChangeKind::Modify,
        entity: entity(GraphEvidenceLayer::ProgramDependence, gk, root_node.key.as_str()),
        rationale: ROOT_RATIONALE.to_owned(),
    });
    let n = cs.len();
    let mut i: usize = 0;
    while i < n
        invariant
            n == cs@.len(),
            i <= n,
            *flow == p.flow_graphs@[site.flow as int],
            *region == p.region_graphs@[site.region as int],
            *g == p.dependence_graphs@[site.graph as int],
            fk@ == flow.key@,
            rk@ == region.key@,
            gk@ == g.key@,
            forall|x: int| 0 <= x < cs@.len() ==> {
                let s = #[trigger] cs@[x];
                s.point < flow.points@.len() && s.node < g.nodes@.len() && s.fact < region.relations@.len()
            },
            dispatches@.len() == i,
            facts@.len() == i,
            changes@.len() == if i == 0 { 1 } else { i as int },
            changes@[0].kind == GraphChangeKind::Modify,
            changes@[0].entity@ == pdg_entity(g.key@, g.nodes@[cs@[0].node as int].key@),
            changes@[0].rationale@ == ROOT_RATIONALE@,
            forall|k: int| 0 <= k < i ==> (#[trigger] dispatches@[k])@ == case_dispatches(*flow, cs@)[k],
            forall|k: int| 0 <= k < i ==> (#[trigger] facts@[k])@ == case_facts(*region, cs@)[k],
            forall|k: int| 1 <= k < i ==> {
                let c = #[trigger] changes@[k];
                c.kind == GraphChangeKind::Remove && c.entity@ == pdg_entity(g.key@, g.nodes@[cs@[k].node as int].key@)
                    && c.rationale@ == NESTED_RATIONALE@
            },
        decreases n - i,
    {
        let s = cs[i];
        dispatches.push(entity(GraphEvidenceLayer::ControlFlow, fk, flow.points[s.point].key.as_str()));
        facts.push(entity(GraphEvidenceLayer::ControlRegions, rk, region.relations[s.fact].key.as_str()));
        if i > 0 {
            changes.push(ExpectedGraphChange {
                kind: GraphChangeKind::Remove,
                entity: entity(GraphEvidenceLayer::ProgramDependence, gk, g.nodes[s.node].key.as_str()),
                rationale: NESTED_RATIONALE.to_owned(),
            });
        }
        i = i + 1;
    }
    let mut k: usize = 0;
    while k < n
        invariant
            n == cs@.len(),
            n >= 2,
            k <= n,
            facts@.len() == n,
            changes@.len() == n + k,
            changes@[0].kind == GraphChangeKind::Modify,
            changes@[0].entity@ == pdg_entity(g.key@, g.nodes@[cs@[0].node as int].key@),
            changes@[0].rationale@ == ROOT_RATIONALE@,
            forall|x: int| 1 <= x < n ==> {
                let c = #[trigger] changes@[x];
                c.kind == GraphChangeKind::Remove && c.entity@ == pdg_entity(g.key@, g.nodes@[cs@[x].node as int].key@)
                    && c.rationale@ == NESTED_RATIONALE@
            },
            forall|x: int| 0 <= x < k ==> {
                let c = #[trigger] changes@[n + x];
                c.kind == GraphChangeKind::Preserve && c.entity@ == facts@[x]@ && c.rationale@ == BOUNDARY_RATIONALE@
            },
        decreases n - k,
    {
        let ghost before = changes@;
        changes.push(ExpectedGraphChange {
            kind: GraphChangeKind::Preserve,
            entity: facts[k].duplicate(),
            rationale: BOUNDARY_RATIONALE.to_owned(),
        });
        proof {
            assert forall|x: int| 1 <= x < n implies #[trigger] changes@[x] == before[x] by {}
            assert forall|x: int| 0 <= x < k implies #[trigger] changes@[n + x] == before[n + x] by {}
        }
        k = k + 1;
    }
    let dk = data.key.as_str();
    let pst_state = if region.complete {
        ProofState::Proven
    } else {
        ProofState::Unknown
    };
    let first = dispatches[0].duplicate();
    let required_results = vec![
        ConditionResult {
            condition: CHAIN_SUBJECT.to_owned(),
            state: ProofState::Proven,
            evidence: evidence_list(&dispatches, SUBJECT_DETAIL),
        },
        plain_result(CHAIN_EXHAUSTIVE, ProofState::Proven, first.duplicate(), EXHAUSTIVE_DETAIL),
        plain_result(CHAIN_REBUILD, ProofState::Proven, first, REBUILD_DETAIL),
        ConditionResult { condition: CHAIN_PST.to_owned(), state: pst_state, evidence: evidence_list(&facts, PST_POINT_DETAIL) },
        capability_result_exec(
            CHAIN_EQUALITY,
            ProofState::Unknown,
            entity(GraphEvidenceLayer::DataFlow, dk, dk),
            EQUALITY_DETAIL,
            EFFECTS,
            data.effects_support,
            &data.effects_authority,
        ),
    ];
    let non_structured = if nsc.has_facts {
        plain_result(
            CHAIN_NON_STRUCTURED,
            ProofState::Unknown,
            entity(GraphEvidenceLayer::NonStructuredControl, nsc.key.as_str(), nsc.key.as_str()),
            FACTS_DETAIL,
        )
    } else {
        plain_result(
            CHAIN_NON_STRUCTURED,
            ProofState::Disproven,
            entity(GraphEvidenceLayer::NonStructuredControl, nsc.key.as_str(), nsc.key.as_str()),
            NO_FACTS_DETAIL,
        )
    };
    let forbidden_results = vec![
        ConditionResult {
            condition: CHAIN_CONTROL.to_owned(),
            state: ProofState::Disproven,
            evidence: evidence_list(&dispatches, SUBJECT_DETAIL),
        },
        capability_result_exec(
            CHAIN_MOVE,
            ProofState::Unknown,
            entity(GraphEvidenceLayer::DataFlow, dk, dk),
            MOVE_DETAIL,
            DEF_USE,
            data.def_use_support,
            &data.def_use_authority,
        ),
        capability_result_exec(
            CHAIN_EFFECT,
            ProofState::Unknown,
            entity(GraphEvidenceLayer::DataFlow, dk, dk),
            EFFECT_DETAIL,
            EFFECTS,
            data.effects_support,
            &data.effects_authority,
        ),
        non_structured,
    ];
    let after = render_match(&p.syntax, &ch.0, ch.1);
    let root = entity(GraphEvidenceLayer::ProgramDependence, gk, root_node.key.as_str());
    let draft = TransformationCandidateDraft {
        recipe: recipe.duplicate(),
        source: CandidateSource {
            project_snapshot: p.snapshot.clone(),
            analysis: p.analysis.clone(),
            program_dependence_projection: p.id.clone(),
        },
        target: CandidateTarget { entity: root, node: key.duplicate(), span, subtree_fingerprint: None },
        eligibility: GraphEligibilityDecision {
            consumer: g.eligibility.consumer.clone(),
            required_layers: copy_layers(g.eligibility.required_layers.as_slice()),
            eligible: g.eligibility.eligible,
        },
        required_results,
        forbidden_results,
        impact,
        expected_delta: ExpectedGraphDelta { changes },
        edits: vec![TransformationEdit::exact_node_replacement(key.duplicate(), span, branch.text.clone(), after)],
        safety: SafetyClass::SafeWithPrecondition,
        disposition: CandidateDisposition::ReviewRequired,
        validation_plan: crate::recipe::duplicate_validation_plan(recipe.validation_plan()),
        rollback_plan: crate::recipe::duplicate_rollback_plan(recipe.rollback_plan()),
    };
    let ghost original = draft;
    proof {
        assert(dispatches@.map_values(|e: GraphEntityRef| e@) =~= case_dispatches(*flow, cs@));
        assert(facts@.map_values(|e: GraphEntityRef| e@) =~= case_facts(*region, cs@));
        assert(crate::impact::impact_answer(deps@, g.key@, root_node.key@, ImpactDirection::Bidirectional, 8, Ok(original.impact)));
        assert(chain_impact(*p, site, root_node.key@, original.impact));
        assert(list_result(original.required_results@[0], CHAIN_SUBJECT@, ProofState::Proven, case_dispatches(*flow, cs@), SUBJECT_DETAIL@));
        assert(list_result(original.required_results@[3], CHAIN_PST@, pst_state, case_facts(*region, cs@), PST_POINT_DETAIL@));
        assert(list_result(original.forbidden_results@[0], CHAIN_CONTROL@, ProofState::Disproven, case_dispatches(*flow, cs@), SUBJECT_DETAIL@));
        assert(is_chain_draft(original, *p, site, *recipe));
    }
    match TransformationCandidate::new(draft) {
        Ok(c) => {
            proof {
                reveal(chain_candidate_for);
            }
            Ok(c)
        },
        Err(e) => Err(TerminalBranchRecipeError::Contract(e)),
    }
}

/// The candidates of a sequence of chain sites, one for one.
pub open spec fn candidates_for_chains(cs: Seq<TransformationCandidate>, p: RetainedProjection, sites: Seq<ChainSite>, recipe: TransformationRecipe) -> bool {
    cs.len() == sites.len() && forall|k: int| 0 <= k < cs.len() ==> #[trigger] chain_candidate_for(cs[k], p, sites[k], recipe)
}

/// When the candidates of a projection are owed: its sites can be found
/// and, under the chain-to-match recipe and the projection's dependence graphs,
/// the candidate of every site is owed.
pub open spec fn chain_all_owed(p: RetainedProjection) -> bool {
    &&& chain_sites_of(p) is Ok
    &&& forall|recipe: TransformationRecipe, deps: Seq<DependenceGraph>, k: int|
        recipe_header(
                Ok(recipe),
                "rust-convert-exhaustive-chain-to-match"@,
                "1.0.0"@,
                TransformationFamily::BranchControl,
                SafetyClass::SafeWithPrecondition,
                seq![
                    GraphEvidenceLayer::ControlFlow,
                    GraphEvidenceLayer::ControlRegions,
                    GraphEvidenceLayer::NonStructuredControl,
                    GraphEvidenceLayer::DataFlow,
                    GraphEvidenceLayer::ProgramDependence,
                ],
            ) && dependence_views(deps, p.dependence_graphs@) && 0 <= k < chain_sites_of(p)->Ok_0.len()
            ==> #[trigger] chain_owed(p, deps, chain_sites_of(p)->Ok_0[k], recipe)
}

/// Finds every `if`/`else if` chain of a retained projection that compares
/// one subject with two to six distinct patterns and ends in an explicit
/// `else`, and proposes its conversion into one `match` for review: one
/// candidate per dispatch site of the chain's first branch, ordered by
/// candidate identity. A projection that lacks a graph or a syntax node a
/// site refers to is refused.
#[verifier::rlimit(40)]
pub fn detect_exhaustive_chain_matches(p: &RetainedProjection) -> (r: Result<Vec<TransformationCandidate>, TerminalBranchRecipeError>)
    ensures
        chain_sites_of(*p) is Err ==> r matches Err(TerminalBranchRecipeError::Projection(_)),
        chain_all_owed(*p) ==> r is Ok,
        r matches Ok(cs) ==> chain_sites_of(*p) is Ok && keys_sorted(cs@) && exists|
            recipe: TransformationRecipe,
            unsorted: Seq<TransformationCandidate>,
        |
            #![trigger candidates_for_chains(unsorted, *p, chain_sites_of(*p)->Ok_0, recipe)]
            recipe_header(
                Ok(recipe),
                "rust-convert-exhaustive-chain-to-match"@,
                "1.0.0"@,
                TransformationFamily::BranchControl,
                SafetyClass::SafeWithPrecondition,
                seq![
                    GraphEvidenceLayer::ControlFlow,
                    GraphEvidenceLayer::ControlRegions,
                    GraphEvidenceLayer::NonStructuredControl,
                    GraphEvidenceLayer::DataFlow,
                    GraphEvidenceLayer::ProgramDependence,
                ],
            ) && candidates_for_chains(unsorted, *p, chain_sites_of(*p)->Ok_0, recipe) && cs@.to_multiset()
                == unsorted.to_multiset(),
{
    let recipe = match exhaustive_chain_to_match_recipe() {
        Ok(recipe) => recipe,
        Err(e) => {
            if chain_sites(p).is_err() {
                return Err(TerminalBranchRecipeError::Projection(
                    "retained projection lacks a graph or syntax node a chain refers to".to_owned(),
                ));
            }
            return Err(TerminalBranchRecipeError::Contract(e));
        },
    };
    let sites = match chain_sites(p) {
        Ok(v) => v,
        Err(()) => {
            return Err(TerminalBranchRecipeError::Projection(
                "retained projection lacks a graph or syntax node a chain refers to".to_owned(),
            ));
        },
    };
    proof {
        let all = p.dependence_graphs@.len() as nat;
        lemma_chain_sites_ok(*p, all);
        assert forall|k: int| 0 <= k < sites@.len() implies chain_site_ok(*p, #[trigger] sites@[k]) by {
            assert(sites@[k] == scan_chain_graphs(*p, all)->Ok_0[k]);
        }
    }
    let deps = dependence_graphs_of(p);
    let mut candidates: Vec<TransformationCandidate> = Vec::new();
    let n = sites.len();
    proof {
        if chain_all_owed(*p) {
            assert forall|k: int| 0 <= k < n implies #[trigger] chain_owed(*p, deps@, sites@[k], recipe) by {
                assert(chain_owed(*p, deps@, chain_sites_of(*p)->Ok_0[k], recipe));
            }
        }
    }
    let mut i: usize = 0;
    while i < n
        invariant
            n == sites@.len(),
            i <= n,
            chain_sites_of(*p) == Ok::<Seq<ChainSite>, ()>(sites@),
            forall|k: int| 0 <= k < sites@.len() ==> chain_site_ok(*p, #[trigger] sites@[k]),
            dependence_views(deps@, p.dependence_graphs@),
            candidates_for_chains(candidates@, *p, sites@.subrange(0, i as int), recipe),
            chain_all_owed(*p) ==> forall|k: int| 0 <= k < n ==> #[trigger] chain_owed(*p, deps@, sites@[k], recipe),
        decreases n - i,
    {
        let c = chain_candidate(p, &recipe, &deps, sites[i])?;
        let ghost before = candidates@;
        candidates.push(c);
        proof {
            let prefix = sites@.subrange(0, i + 1);
            assert forall|k: int| 0 <= k < candidates@.len() implies #[trigger] chain_candidate_for(candidates@[k], *p, prefix[k], recipe) by {
                if k < i {
                    assert(candidates@[k] == before[k]);
                    assert(prefix[k] == sites@.subrange(0, i as int)[k]);
                }
            }
        }
        i = i + 1;
    }
    let ghost unsorted = candidates@;
    assert(sites@.subrange(0, n as int) =~= sites@);
    let sorted = sort_by_key(candidates);
    proof {
        assert(candidates_for_chains(unsorted, *p, chain_sites_of(*p)->Ok_0, recipe));
        assert(sorted@.to_multiset() == unsorted.to_multiset());
    }
    Ok(sorted)
}
} // verus!
