//! The adjacent-condition candidates of a retained projection: nested or
//! chained branches that one `&&` or `||` condition can replace.

use vstd::prelude::*;
use crate::order::compare_str;
use crate::json::string_append;
use super::retained::{first_match, lemma_first_match_at, lemma_first_match_found, lemma_first_match_none, SyntaxNode};
use super::branch_detect::{
    branch_lookups, branch_lookups_exec, exact_branch_edges, exact_branch_edges_exec, field_child, field_child_exec,
    find_node_by_point, lemma_branch_lookups_in_range, lemma_field_child_in_tree, named_children_exec,
    named_children_of, node_point_is, plain_branch,
};
use super::retained::{claimed_contains, find_syntax, key_set, syntax_key_is, FlowPoint, RetainedProjection};
use crate::target::{revision_guard_id, CandidateTarget, NodeKey, NodeKeyView, TransformationEdit};
use crate::candidate::{candidate_fields_valid, 
    candidate_arrangement, keys_agree, steps_agree, CandidateDisposition, CandidateSource, GraphEligibilityDecision,
    TransformationCandidate, TransformationCandidateDraft,
};
use crate::contract::{ProofState, TransformationFamily};
use crate::evidence::{
    ConditionEvidence, ConditionResult, ExpectedGraphChange, ExpectedGraphDelta, GraphChangeKind, GraphEntityRef,
    GraphEntityView, ImpactCone, ImpactDirection,
};
use crate::impact::{impact_found, pdg_entity, program_dependence_impact_cone, DependenceGraph};
use crate::json::text_view;
use crate::model::{GraphEvidenceLayer, SafetyClass, Span};
use crate::order::{keys_sorted, sort_by_key};
use crate::recipe::TransformationRecipe;
use super::branch_detect::{capability_result, capability_result_exec, entity, plain_result, EFFECTS, FACTS_DETAIL, NO_FACTS_DETAIL};
use super::condition_merge::{
    adjacent_condition_merge_recipe, ConditionMergeRecipeError, CONDITION_BODIES_EXACT, CONDITION_EVALUATION_ORDER,
    CONDITION_EXCEPTION_ORDER, CONDITION_TRUTH_EQUIVALENT, FORBIDDEN_BINDING_SCOPE, FORBIDDEN_EFFECT_DIVERGENCE,
    FORBIDDEN_NON_STRUCTURED, FORBIDDEN_UNCERTAIN_CONTROL,
};
use super::recipe_header;
use super::retained::{dependence_graphs_of, dependence_views, FlowPointKind};
use super::unreachable::{rows_fit, copy_layers, node_span, single_result};

verus! {

/// How nested conditions merge into one.
#[derive(Clone, Copy, Debug, PartialEq, Eq, Structural)]
pub enum MergeKind {
    AndNoFallback,
    AndSharedFallback,
    OrSharedSuccess,
}

pub open spec fn merge_name(k: MergeKind) -> Seq<char> {
    match k {
        MergeKind::AndNoFallback => "and-no-fallback"@,
        MergeKind::AndSharedFallback => "and-shared-fallback"@,
        MergeKind::OrSharedSuccess => "or-shared-success"@,
    }
}

pub open spec fn merge_operator(k: MergeKind) -> Seq<char> {
    match k {
        MergeKind::AndNoFallback | MergeKind::AndSharedFallback => "&&"@,
        MergeKind::OrSharedSuccess => "||"@,
    }
}

impl MergeKind {
    pub fn name(self) -> (r: &'static str)
        ensures
            r@ == merge_name(self),
    {
        match self {
            MergeKind::AndNoFallback => "and-no-fallback",
            MergeKind::AndSharedFallback => "and-shared-fallback",
            MergeKind::OrSharedSuccess => "or-shared-success",
        }
    }

    pub fn operator(self) -> (r: &'static str)
        ensures
            r@ == merge_operator(self),
    {
        match self {
            MergeKind::AndNoFallback | MergeKind::AndSharedFallback => "&&",
            MergeKind::OrSharedSuccess => "||",
        }
    }
}

pub open spec fn is_let_kind(n: SyntaxNode) -> bool {
    n.kind@ == "let_condition"@ || n.kind@ == "let_chain"@
}

/// Whether a descendant of node `n`, at most `depth` levels below its
/// children, is a `let` condition or chain, searching children in order
/// and each child's subtree before the next child: `Err` when the search
/// meets a child outside the tree, or a node with children at the depth
/// limit.
pub open spec fn let_below(nodes: Seq<SyntaxNode>, n: int, depth: nat) -> Result<bool, ()>
    decreases depth, nodes[n].children@.len() + 1,
{
    let_below_from(nodes, n, 0, depth)
}

/// The search of `let_below` from the `k`-th child of node `n` on.
pub open spec fn let_below_from(nodes: Seq<SyntaxNode>, n: int, k: int, depth: nat) -> Result<bool, ()>
    decreases depth, nodes[n].children@.len() - k,
{
    let ch = nodes[n].children@;
    if k < 0 || k >= ch.len() {
        Ok(false)
    } else {
        let c = ch[k] as int;
        if c >= nodes.len() {
            Err(())
        } else if is_let_kind(nodes[c]) {
            Ok(true)
        } else if nodes[c].children@.len() == 0 {
            let_below_from(nodes, n, k + 1, depth)
        } else if depth == 0 {
            Err(())
        } else {
            match let_below(nodes, c, (depth - 1) as nat) {
                Err(_) => Err(()),
                Ok(true) => Ok(true),
                Ok(false) => let_below_from(nodes, n, k + 1, depth),
            }
        }
    }
}

/// Whether a condition binds: it, or a node below it, is a `let` condition
/// or chain.
pub open spec fn condition_binds(nodes: Seq<SyntaxNode>, c: int) -> Result<bool, ()> {
    if is_let_kind(nodes[c]) {
        Ok(true)
    } else {
        let_below(nodes, c, nodes.len())
    }
}

fn is_let_kind_exec(n: &SyntaxNode) -> (r: bool)
    ensures
        r == is_let_kind(*n),
{
    compare_str(n.kind.as_str(), "let_condition") == 0 || compare_str(n.kind.as_str(), "let_chain") == 0
}

fn let_below_exec(nodes: &Vec<SyntaxNode>, n: usize, depth: usize) -> (r: Result<bool, ()>)
    requires
        n < nodes@.len(),
    ensures
        r == let_below(nodes@, n as int, depth as nat),
    decreases depth, nodes@[n as int].children@.len() + 1,
{
    let ch = &nodes[n].children;
    let m = ch.len();
    let mut k: usize = 0;
    while k < m
        invariant
            n < nodes@.len(),
            m == ch@.len(),
            *ch == nodes@[n as int].children,
            k <= m,
            let_below(nodes@, n as int, depth as nat) == let_below_from(nodes@, n as int, k as int, depth as nat),
        decreases m - k,
    {
        let c = ch[k];
        if c >= nodes.len() {
            return Err(());
        }
        if is_let_kind_exec(&nodes[c]) {
            return Ok(true);
        }
        if nodes[c].children.len() > 0 {
            if depth == 0 {
                return Err(());
            }
            match let_below_exec(nodes, c, depth - 1) {
                Err(()) => {
                    return Err(());
                },
                Ok(true) => {
                    return Ok(true);
                },
                Ok(false) => {},
            }
        }
        k = k + 1;
    }
    Ok(false)
}

pub fn condition_binds_exec(nodes: &Vec<SyntaxNode>, c: usize) -> (r: Result<bool, ()>)
    requires
        c < nodes@.len(),
    ensures
        r == condition_binds(nodes@, c as int),
{
    if is_let_kind_exec(&nodes[c]) {
        return Ok(true);
    }
    let_below_exec(nodes, c, nodes.len())
}


/// The one branch a block holds, directly or as its one statement.
pub open spec fn single_if_in_block_of(nodes: Seq<SyntaxNode>, b: int) -> Result<Option<int>, ()> {
    if nodes[b].kind@ != "block"@ || nodes[b].has_error {
        Ok(None)
    } else {
        match named_children_of(nodes, b) {
            Err(_) => Err(()),
            Ok(ch) => if ch.len() != 1 {
                Ok(None)
            } else if nodes[ch[0] as int].kind@ == "if_expression"@ {
                Ok(Some(ch[0] as int))
            } else if nodes[ch[0] as int].kind@ != "expression_statement"@ {
                Ok(None)
            } else {
                match named_children_of(nodes, ch[0] as int) {
                    Err(_) => Err(()),
                    Ok(sc) => if sc.len() == 1 && nodes[sc[0] as int].kind@ == "if_expression"@ {
                        Ok(Some(sc[0] as int))
                    } else {
                        Ok(None)
                    },
                }
            },
        }
    }
}

pub open spec fn is_block_or_branch(nodes: Seq<SyntaxNode>) -> spec_fn(usize) -> bool {
    |c: usize| nodes[c as int].kind@ == "block"@ || nodes[c as int].kind@ == "if_expression"@
}

/// What an alternative stands for: itself, unless it is an `else` clause,
/// whose first block or branch it stands for.
pub open spec fn else_target_of(nodes: Seq<SyntaxNode>, a: int) -> Result<Option<int>, ()> {
    if nodes[a].kind@ != "else_clause"@ {
        Ok(Some(a))
    } else {
        match named_children_of(nodes, a) {
            Err(_) => Err(()),
            Ok(ch) => match first_match(ch, is_block_or_branch(nodes)) {
                Some(k) => Ok(Some(ch[k] as int)),
                None => Ok(None),
            },
        }
    }
}

/// The target of a branch's alternative, if it has one.
pub open spec fn alternative_of(nodes: Seq<SyntaxNode>, n: int) -> Result<Option<int>, ()> {
    match field_child(nodes, n, "alternative"@) {
        Err(_) => Err(()),
        Ok(None) => Ok(None),
        Ok(Some(a)) => else_target_of(nodes, a),
    }
}

/// A merge of nested conditions: its kind, the inner branch, the left and
/// right conditions, the success body and the fallback body.
#[derive(Clone, Copy, Debug)]
pub struct MergeShape {
    pub kind: MergeKind,
    pub inner: usize,
    pub left: usize,
    pub right: usize,
    pub success: usize,
    pub fallback: Option<usize>,
}

/// The single condition that replaces the nested ones.
pub open spec fn merge_text(nodes: Seq<SyntaxNode>, m: MergeShape) -> Seq<char> {
    "if ("@ + nodes[m.left as int].text@ + ") "@ + merge_operator(m.kind) + " ("@ + nodes[m.right as int].text@ + ") "@
        + nodes[m.success as int].text@ + match m.fallback {
        Some(f) => " else "@ + nodes[f as int].text@,
        None => Seq::empty(),
    }
}

pub open spec fn shape(kind: MergeKind, inner: int, left: int, right: int, success: int, fallback: Option<int>) -> MergeShape {
    MergeShape {
        kind,
        inner: inner as usize,
        left: left as usize,
        right: right as usize,
        success: success as usize,
        fallback: match fallback {
            Some(f) => Some(f as usize),
            None => None,
        },
    }
}

/// The `||` merge of a branch whose alternative is a branch with the same
/// success body.
pub open spec fn or_merge_of(nodes: Seq<SyntaxNode>, left: int, outer_then: int, outer_else: Option<int>) -> Result<
    Option<MergeShape>,
    (),
> {
    match outer_else {
        None => Ok(None),
        Some(inner) => if nodes[inner].kind@ != "if_expression"@ || !plain_branch(nodes[inner]) {
            Ok(None)
        } else {
            match field_child(nodes, inner, "condition"@) {
                Err(_) => Err(()),
                Ok(None) => Ok(None),
                Ok(Some(right)) => match condition_binds(nodes, right) {
                    Err(_) => Err(()),
                    Ok(true) => Ok(None),
                    Ok(false) => match field_child(nodes, inner, "consequence"@) {
                        Err(_) => Err(()),
                        Ok(None) => Ok(None),
                        Ok(Some(inner_then)) => if nodes[outer_then].kind@ != "block"@ || nodes[outer_then].text@
                            != nodes[inner_then].text@ {
                            Ok(None)
                        } else {
                            match alternative_of(nodes, inner) {
                                Err(_) => Err(()),
                                Ok(fallback) => Ok(
                                    Some(shape(MergeKind::OrSharedSuccess, inner, left, right, outer_then, fallback)),
                                ),
                            }
                        },
                    },
                },
            }
        },
    }
}

/// The `&&` merge of a branch whose success body is one inner branch,
/// when both have no fallback or the same block as fallback; `None` when
/// the nesting does not merge by `&&` (the `||` form may still apply), and
/// `Some(None)` when the inner branch rules out any merge.
pub open spec fn and_merge_of(
    nodes: Seq<SyntaxNode>,
    left: int,
    inner: int,
    outer_else: Option<int>,
) -> Result<Option<Option<MergeShape>>, ()> {
    match field_child(nodes, inner, "condition"@) {
        Err(_) => Err(()),
        Ok(None) => Ok(Some(None)),
        Ok(Some(right)) => if !plain_branch(nodes[inner]) {
            Ok(Some(None))
        } else {
            match condition_binds(nodes, right) {
                Err(_) => Err(()),
                Ok(true) => Ok(Some(None)),
                Ok(false) => match field_child(nodes, inner, "consequence"@) {
                    Err(_) => Err(()),
                    Ok(None) => Ok(Some(None)),
                    Ok(Some(inner_then)) => match alternative_of(nodes, inner) {
                        Err(_) => Err(()),
                        Ok(inner_else) => match (outer_else, inner_else) {
                            (None, None) => Ok(
                                Some(Some(shape(MergeKind::AndNoFallback, inner, left, right, inner_then, None))),
                            ),
                            (Some(of), Some(inf)) => if nodes[of].kind@ == "block"@ && nodes[inf].kind@ == "block"@
                                && nodes[of].text@ == nodes[inf].text@ {
                                Ok(
                                    Some(
                                        Some(
                                            shape(MergeKind::AndSharedFallback, inner, left, right, inner_then, Some(of)),
                                        ),
                                    ),
                                )
                            } else {
                                Ok(None)
                            },
                            _ => Ok(None),
                        },
                    },
                },
            }
        },
    }
}

/// How the branch at position `o` merges with the branch nested in it or
/// chained after it, if it does: `Err` when the tree lacks a node it refers
/// to.
pub open spec fn merge_shape_of(nodes: Seq<SyntaxNode>, o: int) -> Result<Option<MergeShape>, ()> {
    if !plain_branch(nodes[o]) {
        Ok(None)
    } else {
        match field_child(nodes, o, "condition"@) {
            Err(_) => Err(()),
            Ok(None) => Ok(None),
            Ok(Some(left)) => match condition_binds(nodes, left) {
                Err(_) => Err(()),
                Ok(true) => Ok(None),
                Ok(false) => match field_child(nodes, o, "consequence"@) {
                    Err(_) => Err(()),
                    Ok(None) => Ok(None),
                    Ok(Some(outer_then)) => match alternative_of(nodes, o) {
                        Err(_) => Err(()),
                        Ok(outer_else) => match single_if_in_block_of(nodes, outer_then) {
                            Err(_) => Err(()),
                            Ok(None) => or_merge_of(nodes, left, outer_then, outer_else),
                            Ok(Some(inner)) => match and_merge_of(nodes, left, inner, outer_else) {
                                Err(_) => Err(()),
                                Ok(Some(decided)) => Ok(decided),
                                Ok(None) => or_merge_of(nodes, left, outer_then, outer_else),
                            },
                        },
                    },
                },
            },
        }
    }
}

fn kind_is(nodes: &Vec<SyntaxNode>, n: usize, kind: &str) -> (r: bool)
    requires
        n < nodes@.len(),
    ensures
        r == (nodes@[n as int].kind@ == kind@),
{
    compare_str(nodes[n].kind.as_str(), kind) == 0
}

pub fn plain_branch_exec(n: &SyntaxNode) -> (r: bool)
    ensures
        r == plain_branch(*n),
{
    n.rust && compare_str(n.kind.as_str(), "if_expression") == 0 && !n.has_error && !crate::text::contains_substring(
        n.text.as_str(),
        "//",
    ) && !crate::text::contains_substring(n.text.as_str(), "/*")
}

fn single_if_in_block(nodes: &Vec<SyntaxNode>, b: usize) -> (r: Result<Option<usize>, ()>)
    requires
        b < nodes@.len(),
    ensures
        match r {
            Err(_) => single_if_in_block_of(nodes@, b as int) is Err,
            Ok(None) => single_if_in_block_of(nodes@, b as int) == Ok::<Option<int>, ()>(None),
            Ok(Some(i)) => single_if_in_block_of(nodes@, b as int) == Ok::<Option<int>, ()>(Some(i as int)) && i
                < nodes@.len(),
        },
{
    if !kind_is(nodes, b, "block") || nodes[b].has_error {
        return Ok(None);
    }
    let ch = named_children_exec(nodes, b)?;
    if ch.len() != 1 {
        return Ok(None);
    }
    let c = ch[0];
    if kind_is(nodes, c, "if_expression") {
        return Ok(Some(c));
    }
    if !kind_is(nodes, c, "expression_statement") {
        return Ok(None);
    }
    let sc = named_children_exec(nodes, c)?;
    if sc.len() == 1 && kind_is(nodes, sc[0], "if_expression") {
        Ok(Some(sc[0]))
    } else {
        Ok(None)
    }
}

fn else_target(nodes: &Vec<SyntaxNode>, a: usize) -> (r: Result<Option<usize>, ()>)
    requires
        a < nodes@.len(),
    ensures
        match r {
            Err(_) => else_target_of(nodes@, a as int) is Err,
            Ok(None) => else_target_of(nodes@, a as int) == Ok::<Option<int>, ()>(None),
            Ok(Some(i)) => else_target_of(nodes@, a as int) == Ok::<Option<int>, ()>(Some(i as int)) && i
                < nodes@.len(),
        },
{
    if !kind_is(nodes, a, "else_clause") {
        return Ok(Some(a));
    }
    let ch = named_children_exec(nodes, a)?;
    let ghost p = is_block_or_branch(nodes@);
    let mut k: usize = 0;
    while k < ch.len()
        invariant
            k <= ch@.len(),
            p == is_block_or_branch(nodes@),
            a < nodes@.len(),
            nodes@[a as int].kind@ == "else_clause"@,
            named_children_of(nodes@, a as int) == Ok::<Seq<usize>, ()>(ch@),
            forall|x: int| 0 <= x < ch@.len() ==> (#[trigger] ch@[x]) < nodes@.len(),
            forall|j: int| 0 <= j < k ==> !p(#[trigger] ch@[j]),
        decreases ch@.len() - k,
    {
        if kind_is(nodes, ch[k], "block") || kind_is(nodes, ch[k], "if_expression") {
            proof {
                lemma_first_match_at(ch@, p, k as int);
            }
            return Ok(Some(ch[k]));
        }
        k = k + 1;
    }
    proof {
        lemma_first_match_none(ch@, p);
    }
    Ok(None)
}

fn alternative(nodes: &Vec<SyntaxNode>, n: usize) -> (r: Result<Option<usize>, ()>)
    requires
        n < nodes@.len(),
    ensures
        match r {
            Err(_) => alternative_of(nodes@, n as int) is Err,
            Ok(None) => alternative_of(nodes@, n as int) == Ok::<Option<int>, ()>(None),
            Ok(Some(i)) => alternative_of(nodes@, n as int) == Ok::<Option<int>, ()>(Some(i as int)) && i
                < nodes@.len(),
        },
{
    match field_child_exec(nodes, n, "alternative")? {
        None => Ok(None),
        Some(a) => {
            proof {
                lemma_field_child_in_tree(nodes@, n as int, "alternative"@);
            }
            else_target(nodes, a)
        },
    }
}

pub open spec fn shape_in_tree(nodes: Seq<SyntaxNode>, m: MergeShape) -> bool {
    &&& m.inner < nodes.len()
    &&& m.left < nodes.len()
    &&& m.right < nodes.len()
    &&& m.success < nodes.len()
    &&& (m.fallback matches Some(f) ==> f < nodes.len())
}

fn or_merge(nodes: &Vec<SyntaxNode>, left: usize, outer_then: usize, outer_else: Option<usize>) -> (r: Result<
    Option<MergeShape>,
    (),
>)
    requires
        left < nodes@.len(),
        outer_then < nodes@.len(),
        outer_else matches Some(e) ==> e < nodes@.len(),
    ensures
        match r {
            Err(_) => or_merge_of(nodes@, left as int, outer_then as int, opt_int(outer_else)) is Err,
            Ok(m) => or_merge_of(nodes@, left as int, outer_then as int, opt_int(outer_else)) == Ok::<Option<MergeShape>, ()>(m)
                && (m matches Some(s) ==> shape_in_tree(nodes@, s)),
        },
{
    let inner = match outer_else {
        None => {
            return Ok(None);
        },
        Some(i) => i,
    };
    if !kind_is(nodes, inner, "if_expression") || !plain_branch_exec(&nodes[inner]) {
        return Ok(None);
    }
    let right = match field_child_exec(nodes, inner, "condition")? {
        None => {
            return Ok(None);
        },
        Some(r) => r,
    };
    proof {
        lemma_field_child_in_tree(nodes@, inner as int, "condition"@);
    }
    if condition_binds_exec(nodes, right)? {
        return Ok(None);
    }
    let inner_then = match field_child_exec(nodes, inner, "consequence")? {
        None => {
            return Ok(None);
        },
        Some(t) => t,
    };
    proof {
        lemma_field_child_in_tree(nodes@, inner as int, "consequence"@);
    }
    if !kind_is(nodes, outer_then, "block") || compare_str(nodes[outer_then].text.as_str(), nodes[inner_then].text.as_str())
        != 0 {
        return Ok(None);
    }
    let fallback = alternative(nodes, inner)?;
    Ok(Some(MergeShape { kind: MergeKind::OrSharedSuccess, inner, left, right, success: outer_then, fallback }))
}

pub open spec fn opt_int(o: Option<usize>) -> Option<int> {
    match o {
        Some(x) => Some(x as int),
        None => None,
    }
}

fn and_merge(nodes: &Vec<SyntaxNode>, left: usize, inner: usize, outer_else: Option<usize>) -> (r: Result<
    Option<Option<MergeShape>>,
    (),
>)
    requires
        left < nodes@.len(),
        inner < nodes@.len(),
        outer_else matches Some(e) ==> e < nodes@.len(),
    ensures
        match r {
            Err(_) => and_merge_of(nodes@, left as int, inner as int, opt_int(outer_else)) is Err,
            Ok(m) => and_merge_of(nodes@, left as int, inner as int, opt_int(outer_else)) == Ok::<Option<Option<MergeShape>>, ()>(m)
                && (m matches Some(Some(s)) ==> shape_in_tree(nodes@, s)),
        },
{
    let right = match field_child_exec(nodes, inner, "condition")? {
        None => {
            return Ok(Some(None));
        },
        Some(r) => r,
    };
    proof {
        lemma_field_child_in_tree(nodes@, inner as int, "condition"@);
    }
    if !plain_branch_exec(&nodes[inner]) {
        return Ok(Some(None));
    }
    if condition_binds_exec(nodes, right)? {
        return Ok(Some(None));
    }
    let inner_then = match field_child_exec(nodes, inner, "consequence")? {
        None => {
            return Ok(Some(None));
        },
        Some(t) => t,
    };
    proof {
        lemma_field_child_in_tree(nodes@, inner as int, "consequence"@);
    }
    let inner_else = alternative(nodes, inner)?;
    match (outer_else, inner_else) {
        (None, None) => Ok(
            Some(Some(MergeShape { kind: MergeKind::AndNoFallback, inner, left, right, success: inner_then, fallback: None })),
        ),
        (Some(of), Some(inf)) => {
            if kind_is(nodes, of, "block") && kind_is(nodes, inf, "block") && compare_str(
                nodes[of].text.as_str(),
                nodes[inf].text.as_str(),
            ) == 0 {
                Ok(
                    Some(
                        Some(
                            MergeShape {
                                kind: MergeKind::AndSharedFallback,
                                inner,
                                left,
                                right,
                                success: inner_then,
                                fallback: Some(of),
                            },
                        ),
                    ),
                )
            } else {
                Ok(None)
            }
        },
        _ => Ok(None),
    }
}

/// How the branch at position `o` merges, as `merge_shape_of` gives it.
pub fn merge_shape(nodes: &Vec<SyntaxNode>, o: usize) -> (r: Result<Option<MergeShape>, ()>)
    requires
        o < nodes@.len(),
    ensures
        match r {
            Err(_) => merge_shape_of(nodes@, o as int) is Err,
            Ok(m) => merge_shape_of(nodes@, o as int) == Ok::<Option<MergeShape>, ()>(m) && (m matches Some(s)
                ==> shape_in_tree(nodes@, s)),
        },
{
    if !plain_branch_exec(&nodes[o]) {
        return Ok(None);
    }
    let left = match field_child_exec(nodes, o, "condition")? {
        None => {
            return Ok(None);
        },
        Some(l) => l,
    };
    proof {
        lemma_field_child_in_tree(nodes@, o as int, "condition"@);
    }
    if condition_binds_exec(nodes, left)? {
        return Ok(None);
    }
    let outer_then = match field_child_exec(nodes, o, "consequence")? {
        None => {
            return Ok(None);
        },
        Some(t) => t,
    };
    proof {
        lemma_field_child_in_tree(nodes@, o as int, "consequence"@);
    }
    let outer_else = alternative(nodes, o)?;
    match single_if_in_block(nodes, outer_then)? {
        None => or_merge(nodes, left, outer_then, outer_else),
        Some(inner) => match and_merge(nodes, left, inner, outer_else)? {
            Some(decided) => Ok(decided),
            None => or_merge(nodes, left, outer_then, outer_else),
        },
    }
}

/// The single condition that replaces the nested ones.
pub fn render_merge(nodes: &Vec<SyntaxNode>, m: MergeShape) -> (r: String)
    requires
        shape_in_tree(nodes@, m),
    ensures
        r@ == merge_text(nodes@, m),
{
    let mut out = String::new();
    string_append(&mut out, "if (");
    string_append(&mut out, nodes[m.left].text.as_str());
    string_append(&mut out, ") ");
    string_append(&mut out, m.kind.operator());
    string_append(&mut out, " (");
    string_append(&mut out, nodes[m.right].text.as_str());
    string_append(&mut out, ") ");
    string_append(&mut out, nodes[m.success].text.as_str());
    match m.fallback {
        Some(f) => {
            string_append(&mut out, " else ");
            string_append(&mut out, nodes[f].text.as_str());
        },
        None => {},
    }
    assert(out@ =~= merge_text(nodes@, m));
    out
}

/// A nested condition the merge recipe reads: the dependence graph, the
/// outer and inner dispatch points, the outer branch's syntax, the
/// dependence nodes at both dispatches, the positions of the graphs the
/// dependence graph derives from, and the merge.
#[derive(Clone, Copy, Debug)]
pub struct MergeSite {
    pub graph: usize,
    pub point: usize,
    pub inner_point: usize,
    pub outer: usize,
    pub outer_node: usize,
    pub inner_node: usize,
    pub flow: usize,
    pub non_structured: usize,
    pub data_flow: usize,
    pub shape: MergeShape,
}

/// The dispatch of a branch: a dispatch point whose source is the branch's
/// node.
pub open spec fn dispatch_of(key: NodeKeyView) -> spec_fn(FlowPoint) -> bool {
    |q: FlowPoint| q.kind == FlowPointKind::BranchDispatch && (q.source matches Some(s) && s@ == key)
}

/// One control point of a dependence graph's flow graph, given the
/// branches already claimed: the site it yields, if any, and the claimed
/// branches after it. A point yields nothing unless it is an unrecovered
/// dispatch with a source whose two edges are exact branch edges, whose
/// source branch merges with a nested or chained one, and which no earlier
/// point claimed; such a branch is claimed, and yields a site when the
/// inner branch has an unrecovered dispatch with exact edges and both
/// dispatches have dependence nodes. `Err` when the tree lacks a node the
/// point or the branch refers to.
pub open spec fn merge_step(
    p: RetainedProjection,
    gi: int,
    pi: int,
    l: (int, int, int),
    claimed: Set<NodeKeyView>,
) -> Result<(Option<MergeSite>, Set<NodeKeyView>), ()> {
    let g = p.dependence_graphs@[gi];
    let flow = p.flow_graphs@[l.0];
    let point = flow.points@[pi];
    if point.kind != FlowPointKind::BranchDispatch || point.recovered || point.source is None {
        Ok((None, claimed))
    } else if !exact_branch_edges(flow, point.key@) {
        Ok((None, claimed))
    } else {
        let src = point.source->0@;
        match first_match(p.syntax@, syntax_key_is(src)) {
            None => Err(()),
            Some(o) => match merge_shape_of(p.syntax@, o) {
                Err(_) => Err(()),
                Ok(None) => Ok((None, claimed)),
                Ok(Some(m)) => if claimed.contains(src) {
                    Ok((None, claimed))
                } else {
                    let now = claimed.insert(src);
                    match first_match(flow.points@, dispatch_of(p.syntax@[m.inner as int].key@)) {
                        None => Ok((None, now)),
                        Some(ip) => if flow.points@[ip].recovered || !exact_branch_edges(flow, flow.points@[ip].key@) {
                            Ok((None, now))
                        } else {
                            match (
                                first_match(g.nodes@, node_point_is(point.key@)),
                                first_match(g.nodes@, node_point_is(flow.points@[ip].key@)),
                            ) {
                                (Some(on), Some(inn)) => Ok(
                                    (
                                        Some(
                                            MergeSite {
                                                graph: gi as usize,
                                                point: pi as usize,
                                                inner_point: ip as usize,
                                                outer: o as usize,
                                                outer_node: on as usize,
                                                inner_node: inn as usize,
                                                flow: l.0 as usize,
                                                non_structured: l.1 as usize,
                                                data_flow: l.2 as usize,
                                                shape: m,
                                            },
                                        ),
                                        now,
                                    ),
                                ),
                                _ => Ok((None, now)),
                            }
                        },
                    }
                },
            },
        }
    }
}

pub open spec fn opt_merge(o: Option<MergeSite>) -> Seq<MergeSite> {
    match o {
        Some(x) => seq![x],
        None => Seq::empty(),
    }
}

/// The sites of the first `k` points of a dependence graph's flow graph.
pub open spec fn scan_merges(
    p: RetainedProjection,
    gi: int,
    l: (int, int, int),
    claimed: Set<NodeKeyView>,
    k: nat,
) -> Result<(Seq<MergeSite>, Set<NodeKeyView>), ()>
    decreases k,
{
    if k == 0 {
        Ok((Seq::empty(), claimed))
    } else {
        match scan_merges(p, gi, l, claimed, (k - 1) as nat) {
            Err(_) => Err(()),
            Ok((sites, c)) => match merge_step(p, gi, k - 1, l, c) {
                Err(_) => Err(()),
                Ok((o, c2)) => Ok((sites + opt_merge(o), c2)),
            },
        }
    }
}

/// The sites of the first `j` dependence graphs, in order.
pub open spec fn scan_merge_graphs(p: RetainedProjection, j: nat) -> Result<(Seq<MergeSite>, Set<NodeKeyView>), ()>
    decreases j,
{
    if j == 0 {
        Ok((Seq::empty(), Set::empty()))
    } else {
        match scan_merge_graphs(p, (j - 1) as nat) {
            Err(_) => Err(()),
            Ok((sites, c)) => match branch_lookups(p, j - 1) {
                Err(_) => Err(()),
                Ok(l) => match scan_merges(p, j - 1, l, c, p.flow_graphs@[l.0].points@.len()) {
                    Err(_) => Err(()),
                    Ok((s2, c2)) => Ok((sites + s2, c2)),
                },
            },
        }
    }
}

/// The merge sites of a whole projection.
pub open spec fn merge_sites_of(p: RetainedProjection) -> Result<Seq<MergeSite>, ()> {
    match scan_merge_graphs(p, p.dependence_graphs@.len()) {
        Err(_) => Err(()),
        Ok((sites, _)) => Ok(sites),
    }
}

pub fn find_dispatch_of(points: &Vec<FlowPoint>, key: &NodeKey) -> (r: Option<usize>)
    ensures
        r is None ==> first_match(points@, dispatch_of(key@)) is None,
        r matches Some(i) ==> first_match(points@, dispatch_of(key@)) == Some(i as int),
{
    let n = points.len();
    let mut i: usize = 0;
    while i < n
        invariant
            n == points@.len(),
            i <= n,
            forall|j: int| 0 <= j < i ==> !dispatch_of(key@)(#[trigger] points@[j]),
        decreases n - i,
    {
        let q = &points[i];
        let hit = q.kind == FlowPointKind::BranchDispatch && match &q.source {
            Some(s) => s.same_node(key),
            None => false,
        };
        if hit {
            proof {
                lemma_first_match_at(points@, dispatch_of(key@), i as int);
            }
            return Some(i);
        }
        i = i + 1;
    }
    proof {
        lemma_first_match_none(points@, dispatch_of(key@));
    }
    None
}

fn step_merge(
    p: &RetainedProjection,
    gi: usize,
    pi: usize,
    l: (usize, usize, usize),
    claimed: &mut Vec<NodeKey>,
) -> (r: Result<Option<MergeSite>, ()>)
    requires
        gi < p.dependence_graphs@.len(),
        branch_lookups(*p, gi as int) == Ok::<(int, int, int), ()>((l.0 as int, l.1 as int, l.2 as int)),
        pi < p.flow_graphs@[l.0 as int].points@.len(),
    ensures
        merge_step(*p, gi as int, pi as int, (l.0 as int, l.1 as int, l.2 as int), key_set(old(claimed)@))
            matches Ok((o, c)) ==> r == Ok::<Option<MergeSite>, ()>(o) && key_set(final(claimed)@) == c,
        merge_step(*p, gi as int, pi as int, (l.0 as int, l.1 as int, l.2 as int), key_set(old(claimed)@)) is Err
            ==> r is Err,
{
    proof {
        lemma_branch_lookups_in_range(*p, gi as int);
    }
    let flow = &p.flow_graphs[l.0];
    let point = &flow.points[pi];
    if point.kind != FlowPointKind::BranchDispatch || point.recovered {
        return Ok(None);
    }
    let source = match &point.source {
        None => {
            return Ok(None);
        },
        Some(s) => s,
    };
    if !exact_branch_edges_exec(flow, point.key.as_str()) {
        return Ok(None);
    }
    let o = match find_syntax(&p.syntax, source) {
        None => {
            return Err(());
        },
        Some(o) => o,
    };
    proof {
        lemma_first_match_found(p.syntax@, syntax_key_is(source@));
    }
    let m = match merge_shape(&p.syntax, o) {
        Err(()) => {
            return Err(());
        },
        Ok(None) => {
            return Ok(None);
        },
        Ok(Some(m)) => m,
    };
    if claimed_contains(claimed, source) {
        return Ok(None);
    }
    let ghost before = key_set(claimed@);
    claimed.push(source.duplicate());
    proof {
        let v = claimed@;
        assert forall|k: NodeKeyView| key_set(v).contains(k) <==> before.insert(source@).contains(k) by {
            if key_set(v).contains(k) {
                let i = choose|i: int| 0 <= i < v.len() && (#[trigger] v[i])@ == k;
                if i < v.len() - 1 {
                    assert(old(claimed)@[i] == v[i]);
                }
            }
            if before.contains(k) {
                let i = choose|i: int| 0 <= i < old(claimed)@.len() && (#[trigger] old(claimed)@[i])@ == k;
                assert(v[i] == old(claimed)@[i]);
            }
            if k == source@ {
                assert(v[v.len() - 1]@ == source@);
            }
        }
        assert(key_set(v) =~= before.insert(source@));
    }
    let ip = match find_dispatch_of(&flow.points, &p.syntax[m.inner].key) {
        None => {
            return Ok(None);
        },
        Some(ip) => ip,
    };
    proof {
        lemma_first_match_found(flow.points@, dispatch_of(p.syntax@[m.inner as int].key@));
    }
    let inner_point = &flow.points[ip];
    if inner_point.recovered || !exact_branch_edges_exec(flow, inner_point.key.as_str()) {
        return Ok(None);
    }
    let g = &p.dependence_graphs[gi];
    let on = find_node_by_point(&g.nodes, point.key.as_str());
    let inn = find_node_by_point(&g.nodes, inner_point.key.as_str());
    match (on, inn) {
        (Some(on), Some(inn)) => Ok(
            Some(
                MergeSite {
                    graph: gi,
                    point: pi,
                    inner_point: ip,
                    outer: o,
                    outer_node: on,
                    inner_node: inn,
                    flow: l.0,
                    non_structured: l.1,
                    data_flow: l.2,
                    shape: m,
                },
            ),
        ),
        _ => Ok(None),
    }
}

proof fn lemma_scan_merges_err_stays(
    p: RetainedProjection,
    gi: int,
    l: (int, int, int),
    claimed: Set<NodeKeyView>,
    k: nat,
    m: nat,
)
    requires
        k <= m,
        scan_merges(p, gi, l, claimed, k) is Err,
    ensures
        scan_merges(p, gi, l, claimed, m) is Err,
    decreases m - k,
{
    if k < m {
        lemma_scan_merges_err_stays(p, gi, l, claimed, k, (m - 1) as nat);
    }
}

proof fn lemma_scan_merge_graphs_err_stays(p: RetainedProjection, k: nat, m: nat)
    requires
        k <= m,
        scan_merge_graphs(p, k) is Err,
    ensures
        scan_merge_graphs(p, m) is Err,
    decreases m - k,
{
    if k < m {
        lemma_scan_merge_graphs_err_stays(p, k, (m - 1) as nat);
    }
}

/// The merge sites of a projection, in graph and point order, each outer
/// branch once.
pub fn merge_sites(p: &RetainedProjection) -> (r: Result<Vec<MergeSite>, ()>)
    ensures
        r matches Ok(v) ==> merge_sites_of(*p) == Ok::<Seq<MergeSite>, ()>(v@),
        r is Err ==> merge_sites_of(*p) is Err,
{
    let mut sites: Vec<MergeSite> = Vec::new();
    let mut claimed: Vec<NodeKey> = Vec::new();
    let ng = p.dependence_graphs.len();
    let mut j: usize = 0;
    assert(key_set(claimed@) =~= Set::<NodeKeyView>::empty());
    while j < ng
        invariant
            ng == p.dependence_graphs@.len(),
            j <= ng,
            scan_merge_graphs(*p, j as nat) == Ok::<(Seq<MergeSite>, Set<NodeKeyView>), ()>((sites@, key_set(claimed@))),
        decreases ng - j,
    {
        let l = match branch_lookups_exec(p, j) {
            None => {
                proof {
                    lemma_scan_merge_graphs_err_stays(*p, (j + 1) as nat, ng as nat);
                }
                return Err(());
            },
            Some(l) => l,
        };
        proof {
            lemma_branch_lookups_in_range(*p, j as int);
        }
        let ghost lk = (l.0 as int, l.1 as int, l.2 as int);
        let ghost start_sites = sites@;
        let ghost start_claimed = key_set(claimed@);
        let np = p.flow_graphs[l.0].points.len();
        let mut k: usize = 0;
        assert(sites@.subrange(start_sites.len() as int, sites@.len() as int) =~= Seq::<MergeSite>::empty());
        assert(sites@.subrange(0, start_sites.len() as int) =~= start_sites);
        while k < np
            invariant
                ng == p.dependence_graphs@.len(),
                j < ng,
                l.0 < p.flow_graphs@.len(),
                np == p.flow_graphs@[l.0 as int].points@.len(),
                k <= np,
                branch_lookups(*p, j as int) == Ok::<(int, int, int), ()>(lk),
                lk == (l.0 as int, l.1 as int, l.2 as int),
                scan_merge_graphs(*p, j as nat) == Ok::<(Seq<MergeSite>, Set<NodeKeyView>), ()>((start_sites, start_claimed)),
                scan_merges(*p, j as int, lk, start_claimed, k as nat) == Ok::<(Seq<MergeSite>, Set<NodeKeyView>), ()>(
                    (sites@.subrange(start_sites.len() as int, sites@.len() as int), key_set(claimed@)),
                ),
                sites@.subrange(0, start_sites.len() as int) == start_sites,
                start_sites.len() <= sites@.len(),
            decreases np - k,
        {
            let ghost before = sites@;
            match step_merge(p, j, k, l, &mut claimed) {
                Err(()) => {
                    proof {
                        lemma_scan_merges_err_stays(*p, j as int, lk, start_claimed, (k + 1) as nat, np as nat);
                        assert(scan_merge_graphs(*p, (j + 1) as nat) is Err);
                        lemma_scan_merge_graphs_err_stays(*p, (j + 1) as nat, ng as nat);
                    }
                    return Err(());
                },
                Ok(Some(site)) => {
                    sites.push(site);
                    proof {
                        assert(sites@.subrange(start_sites.len() as int, sites@.len() as int) =~= before.subrange(
                            start_sites.len() as int,
                            before.len() as int,
                        ) + seq![site]);
                        assert(sites@.subrange(0, start_sites.len() as int) =~= before.subrange(0, start_sites.len() as int));
                    }
                },
                Ok(None) => {
                    proof {
                        assert(before.subrange(start_sites.len() as int, before.len() as int) + Seq::<MergeSite>::empty()
                            =~= before.subrange(start_sites.len() as int, before.len() as int));
                    }
                },
            }
            k = k + 1;
        }
        proof {
            assert(sites@ =~= start_sites + sites@.subrange(start_sites.len() as int, sites@.len() as int));
        }
        j = j + 1;
    }
    Ok(sites)
}

/// A site names positions of the projection: dispatch points of the outer
/// branch and of the inner one, dependence nodes at both, and the outer
/// branch with its merge.
pub open spec fn merge_site_ok(p: RetainedProjection, site: MergeSite) -> bool {
    let flow = p.flow_graphs@[site.flow as int];
    let g = p.dependence_graphs@[site.graph as int];
    &&& site.graph < p.dependence_graphs@.len()
    &&& site.outer_node < g.nodes@.len()
    &&& site.inner_node < g.nodes@.len()
    &&& site.flow < p.flow_graphs@.len()
    &&& site.point < flow.points@.len()
    &&& site.inner_point < flow.points@.len()
    &&& site.non_structured < p.non_structured_graphs@.len()
    &&& site.data_flow < p.data_flow_graphs@.len()
    &&& site.outer < p.syntax@.len()
    &&& merge_shape_of(p.syntax@, site.outer as int) == Ok::<Option<MergeShape>, ()>(Some(site.shape))
    &&& flow.points@[site.point as int].source matches Some(src) && src@ == p.syntax@[site.outer as int].key@
    &&& g.nodes@[site.outer_node as int].point@ == flow.points@[site.point as int].key@
    &&& g.nodes@[site.inner_node as int].point@ == flow.points@[site.inner_point as int].key@
}

proof fn lemma_merge_step_ok(p: RetainedProjection, gi: int, pi: int, l: (int, int, int), claimed: Set<NodeKeyView>)
    requires
        0 <= gi < p.dependence_graphs@.len(),
        branch_lookups(p, gi) == Ok::<(int, int, int), ()>(l),
        0 <= pi < p.flow_graphs@[l.0].points@.len(),
        merge_step(p, gi, pi, l, claimed) matches Ok((Some(_), _)),
    ensures
        merge_site_ok(p, merge_step(p, gi, pi, l, claimed)->Ok_0.0->Some_0),
{
    lemma_branch_lookups_in_range(p, gi);
    let g = p.dependence_graphs@[gi];
    let flow = p.flow_graphs@[l.0];
    let point = flow.points@[pi];
    let src = point.source->0@;
    lemma_first_match_found(p.syntax@, syntax_key_is(src));
    let o = first_match(p.syntax@, syntax_key_is(src))->Some_0;
    let m = merge_shape_of(p.syntax@, o)->Ok_0->Some_0;
    lemma_first_match_found(flow.points@, dispatch_of(p.syntax@[m.inner as int].key@));
    let ip = first_match(flow.points@, dispatch_of(p.syntax@[m.inner as int].key@))->Some_0;
    lemma_first_match_found(g.nodes@, node_point_is(point.key@));
    lemma_first_match_found(g.nodes@, node_point_is(flow.points@[ip].key@));
    vstd::std_specs::vec::axiom_spec_len(&p.dependence_graphs);
    vstd::std_specs::vec::axiom_spec_len(&g.nodes);
    vstd::std_specs::vec::axiom_spec_len(&p.syntax);
    vstd::std_specs::vec::axiom_spec_len(&p.flow_graphs);
    vstd::std_specs::vec::axiom_spec_len(&flow.points);
    vstd::std_specs::vec::axiom_spec_len(&p.non_structured_graphs);
    vstd::std_specs::vec::axiom_spec_len(&p.data_flow_graphs);
}

proof fn lemma_scan_merges_ok(p: RetainedProjection, gi: int, l: (int, int, int), claimed: Set<NodeKeyView>, k: nat)
    requires
        0 <= gi < p.dependence_graphs@.len(),
        branch_lookups(p, gi) == Ok::<(int, int, int), ()>(l),
        k <= p.flow_graphs@[l.0].points@.len(),
        scan_merges(p, gi, l, claimed, k) is Ok,
    ensures
        forall|i: int| 0 <= i < scan_merges(p, gi, l, claimed, k)->Ok_0.0.len() ==> merge_site_ok(
            p,
            #[trigger] scan_merges(p, gi, l, claimed, k)->Ok_0.0[i],
        ),
    decreases k,
{
    lemma_branch_lookups_in_range(p, gi);
    if k > 0 {
        lemma_scan_merges_ok(p, gi, l, claimed, (k - 1) as nat);
        let prev = scan_merges(p, gi, l, claimed, (k - 1) as nat)->Ok_0;
        if merge_step(p, gi, k - 1, l, prev.1) matches Ok((Some(_), _)) {
            lemma_merge_step_ok(p, gi, k - 1, l, prev.1);
        }
        let all = scan_merges(p, gi, l, claimed, k)->Ok_0.0;
        assert forall|i: int| 0 <= i < all.len() implies merge_site_ok(p, #[trigger] all[i]) by {
            if i < prev.0.len() {
                assert(all[i] == prev.0[i]);
            }
        }
    }
}

/// Every merge site of a projection names positions that lie in it.
pub proof fn lemma_merge_sites_ok(p: RetainedProjection, j: nat)
    requires
        j <= p.dependence_graphs@.len(),
        scan_merge_graphs(p, j) is Ok,
    ensures
        forall|i: int| 0 <= i < scan_merge_graphs(p, j)->Ok_0.0.len() ==> merge_site_ok(
            p,
            #[trigger] scan_merge_graphs(p, j)->Ok_0.0[i],
        ),
    decreases j,
{
    if j > 0 {
        lemma_merge_sites_ok(p, (j - 1) as nat);
        let prev = scan_merge_graphs(p, (j - 1) as nat)->Ok_0;
        let l = branch_lookups(p, j - 1)->Ok_0;
        lemma_branch_lookups_in_range(p, j - 1);
        lemma_scan_merges_ok(p, j - 1, l, prev.1, p.flow_graphs@[l.0].points@.len());
        let more = scan_merges(p, j - 1, l, prev.1, p.flow_graphs@[l.0].points@.len())->Ok_0.0;
        let all = scan_merge_graphs(p, j)->Ok_0.0;
        assert forall|i: int| 0 <= i < all.len() implies merge_site_ok(p, #[trigger] all[i]) by {
            if i < prev.0.len() {
                assert(all[i] == prev.0[i]);
            } else {
                assert(all[i] == more[i - prev.0.len()]);
            }
        }
    }
}

pub const INNER_DETAIL: &'static str = "The inner dispatch is evaluated only on the same short-circuit path as before.";
pub const EXCEPTION_DETAIL: &'static str =
    "Production Rust Effects authority is unavailable; panic, exception, and suspension equivalence remains review evidence.";
pub const OUTER_EXACT_DETAIL: &'static str = "The outer dispatch and both outgoing edges are exact and unrecovered.";
pub const INNER_EXACT_DETAIL: &'static str = "The inner dispatch and both outgoing edges are exact and unrecovered.";
pub const BINDING_DETAIL: &'static str =
    "Both conditions were checked recursively and contain no let condition or let chain.";
pub const DIVERGENCE_DETAIL: &'static str =
    "Missing Effects authority cannot disprove a hidden panic, exception, abrupt-exit, or suspension divergence.";
pub const REMOVE_RATIONALE: &'static str =
    "The nested dispatch is represented by the right short-circuit operand after rebuilding.";

pub open spec fn outer_detail(kind: MergeKind) -> Seq<char> {
    "The outer dispatch is the left operand of the exact "@ + merge_operator(kind) + " short-circuit form."@
}

pub open spec fn bodies_detail(kind: MergeKind) -> Seq<char> {
    "Exact retained block bytes satisfy the "@ + merge_name(kind) + " body equivalence rule."@
}

pub open spec fn merge_rationale(kind: MergeKind) -> Seq<char> {
    "The outer dispatch becomes the retained "@ + merge_operator(kind) + " short-circuit dispatch."@
}

/// A result with two plain pieces of evidence.
pub open spec fn two_results(
    r: ConditionResult,
    condition: Seq<char>,
    state: ProofState,
    e1: GraphEntityView,
    d1: Seq<char>,
    e2: GraphEntityView,
    d2: Seq<char>,
) -> bool {
    &&& r.condition@ == condition
    &&& r.state == state
    &&& r.evidence@.len() == 2
    &&& r.evidence@[0]@ == crate::evidence::ConditionEvidenceView { entity: e1, detail: d1, capability: None, support: None, authority: None }
    &&& r.evidence@[1]@ == crate::evidence::ConditionEvidenceView { entity: e2, detail: d2, capability: None, support: None, authority: None }
}

/// The impact cone of a site: the answer of a bidirectional query of depth
/// eight around its outer dependence node.
pub open spec fn merge_impact(p: RetainedProjection, site: MergeSite, impact: ImpactCone) -> bool {
    let g = p.dependence_graphs@[site.graph as int];
    exists|deps: Seq<DependenceGraph>|
        dependence_views(deps, p.dependence_graphs@) && #[trigger] crate::impact::impact_answer(
            deps,
            g.key@,
            g.nodes@[site.outer_node as int].key@,
            ImpactDirection::Bidirectional,
            8,
            Ok(impact),
        )
}

/// The draft of a merge: bound to the recipe and the projection's
/// identities; targeting the outer branch through its dependence node;
/// truth equivalence and evaluation order proven on both dispatches, the
/// bodies proven on the outer one, exception order unknown with the
/// data-flow graph's effect capability; control uncertainty and binding
/// scope disproven, effect divergence unknown, non-structured control
/// disproven exactly when the callable has no such fact; the outer node
/// modified and the inner one removed; one exact replacement of the outer
/// branch by the merged condition; the recipe's plans; review required at
/// safe-with-precondition.
pub open spec fn is_merge_draft(
    d: TransformationCandidateDraft,
    p: RetainedProjection,
    site: MergeSite,
    recipe: TransformationRecipe,
) -> bool {
    let g = p.dependence_graphs@[site.graph as int];
    let flow = p.flow_graphs@[site.flow as int];
    let nsc = p.non_structured_graphs@[site.non_structured as int];
    let data = p.data_flow_graphs@[site.data_flow as int];
    let outer = p.syntax@[site.outer as int];
    let kind = site.shape.kind;
    let fo = GraphEntityView { layer: GraphEvidenceLayer::ControlFlow, graph: flow.key@, entity: flow.points@[site.point as int].key@ };
    let fi = GraphEntityView { layer: GraphEvidenceLayer::ControlFlow, graph: flow.key@, entity: flow.points@[site.inner_point as int].key@ };
    let de = GraphEntityView { layer: GraphEvidenceLayer::DataFlow, graph: data.key@, entity: data.key@ };
    let ne = GraphEntityView { layer: GraphEvidenceLayer::NonStructuredControl, graph: nsc.key@, entity: nsc.key@ };
    let root = pdg_entity(g.key@, g.nodes@[site.outer_node as int].key@);
    let inner_root = pdg_entity(g.key@, g.nodes@[site.inner_node as int].key@);
    let span = node_span(outer.key@);
    &&& d.recipe.spec_id() == recipe.spec_id()
    &&& (recipe.wf() ==> d.recipe.wf())
    &&& d.source.project_snapshot@ == p.snapshot@
    &&& d.source.analysis@ == p.analysis@
    &&& d.source.program_dependence_projection@ == p.id@
    &&& d.target.entity@ == root
    &&& d.target.node@ == outer.key@
    &&& d.target.span == span
    &&& d.target.subtree_fingerprint is None
    &&& d.eligibility.consumer@ == g.eligibility.consumer@
    &&& d.eligibility.required_layers@ == g.eligibility.required_layers@
    &&& d.eligibility.eligible == g.eligibility.eligible
    &&& d.required_results@.len() == 4
    &&& two_results(d.required_results@[0], CONDITION_TRUTH_EQUIVALENT@, ProofState::Proven, fo, outer_detail(kind), fi, INNER_DETAIL@)
    &&& two_results(d.required_results@[1], CONDITION_EVALUATION_ORDER@, ProofState::Proven, fo, outer_detail(kind), fi, INNER_DETAIL@)
    &&& single_result(d.required_results@[2], CONDITION_BODIES_EXACT@, ProofState::Proven, fo, bodies_detail(kind))
    &&& capability_result(d.required_results@[3], CONDITION_EXCEPTION_ORDER@, ProofState::Unknown, de, EXCEPTION_DETAIL@,
        EFFECTS@, data.effects_support, text_view(data.effects_authority))
    &&& d.forbidden_results@.len() == 4
    &&& two_results(d.forbidden_results@[0], FORBIDDEN_UNCERTAIN_CONTROL@, ProofState::Disproven, fo, OUTER_EXACT_DETAIL@, fi,
        INNER_EXACT_DETAIL@)
    &&& single_result(d.forbidden_results@[1], FORBIDDEN_BINDING_SCOPE@, ProofState::Disproven, fo, BINDING_DETAIL@)
    &&& capability_result(d.forbidden_results@[2], FORBIDDEN_EFFECT_DIVERGENCE@, ProofState::Unknown, de, DIVERGENCE_DETAIL@,
        EFFECTS@, data.effects_support, text_view(data.effects_authority))
    &&& (if nsc.has_facts {
        single_result(d.forbidden_results@[3], FORBIDDEN_NON_STRUCTURED@, ProofState::Unknown, ne, FACTS_DETAIL@)
    } else {
        single_result(d.forbidden_results@[3], FORBIDDEN_NON_STRUCTURED@, ProofState::Disproven, ne, NO_FACTS_DETAIL@)
    })
    &&& d.expected_delta.changes@.len() == 2
    &&& d.expected_delta.changes@[0].kind == GraphChangeKind::Modify
    &&& d.expected_delta.changes@[0].entity@ == root
    &&& d.expected_delta.changes@[0].rationale@ == merge_rationale(kind)
    &&& d.expected_delta.changes@[1].kind == GraphChangeKind::Remove
    &&& d.expected_delta.changes@[1].entity@ == inner_root
    &&& d.expected_delta.changes@[1].rationale@ == REMOVE_RATIONALE@
    &&& d.edits@.len() == 1
    &&& d.edits@[0].target@ == outer.key@
    &&& d.edits@[0].span == span
    &&& d.edits@[0].before@ == outer.text@
    &&& d.edits@[0].after@ == merge_text(p.syntax@, site.shape)
    &&& d.edits@[0].revision_guard@ == revision_guard_id(outer.key@.path, span, outer.text@)
    &&& d.safety == SafetyClass::SafeWithPrecondition
    &&& d.disposition == CandidateDisposition::ReviewRequired
    &&& steps_agree(d.validation_plan.steps@, recipe.spec_draft().validation_plan.steps@)
    &&& d.rollback_plan.strategy == recipe.spec_draft().rollback_plan.strategy
    &&& d.rollback_plan.require_revision_guards == recipe.spec_draft().rollback_plan.require_revision_guards
    &&& keys_agree(d.rollback_plan.validation_steps@, recipe.spec_draft().rollback_plan.validation_steps@)
}

/// A candidate for a merge site: well formed, and its draft is, up to the
/// canonical order of its lists, the site's merge draft with its impact
/// cone.
#[verifier::opaque]
pub open spec fn merge_candidate_for(c: TransformationCandidate, p: RetainedProjection, site: MergeSite, recipe: TransformationRecipe) -> bool {
    &&& c.wf()
    &&& exists|d: TransformationCandidateDraft|
        #[trigger] is_merge_draft(d, p, site, recipe) && candidate_arrangement(c.spec_draft(), d) && merge_impact(p, site, d.impact)
}

pub fn two_plain(condition: &str, state: ProofState, e1: GraphEntityRef, d1: &str, e2: GraphEntityRef, d2: &str) -> (r: ConditionResult)
    ensures
        two_results(r, condition@, state, e1@, d1@, e2@, d2@),
{
    ConditionResult {
        condition: condition.to_owned(),
        state,
        evidence: vec![
            ConditionEvidence { entity: e1, detail: d1.to_owned(), capability: None, support: None, authority: None },
            ConditionEvidence { entity: e2, detail: d2.to_owned(), capability: None, support: None, authority: None },
        ],
    }
}

/// When a merge site's candidate is owed: the outer branch's rows fit,
/// the impact query around its dependence node can be answered, and
/// every draft of the site is valid.
pub open spec fn merge_owed(p: RetainedProjection, deps: Seq<DependenceGraph>, site: MergeSite, recipe: TransformationRecipe) -> bool {
    let g = p.dependence_graphs@[site.graph as int];
    &&& rows_fit(p.syntax@[site.outer as int].key@)
    &&& impact_found(deps, g.key@, g.nodes@[site.outer_node as int].key@, 8)
    &&& forall|d: TransformationCandidateDraft|
        #[trigger] is_merge_draft(d, p, site, recipe) && merge_impact(p, site, d.impact) ==> candidate_fields_valid(d)
}

/// The candidate of one merge site.
fn merge_candidate(
    p: &RetainedProjection,
    recipe: &TransformationRecipe,
    deps: &Vec<DependenceGraph>,
    site: MergeSite,
) -> (r: Result<TransformationCandidate, ConditionMergeRecipeError>)
    requires
        merge_site_ok(*p, site),
        dependence_views(deps@, p.dependence_graphs@),
    ensures
        r matches Ok(c) ==> merge_candidate_for(c, *p, site, *recipe),
        merge_owed(*p, deps@, site, *recipe) ==> r is Ok,
{
    let m = match merge_shape(&p.syntax, site.outer) {
        Ok(Some(m)) => m,
        _ => {
            proof {
                assert(false);
            }
            return Err(ConditionMergeRecipeError::Projection("merge lost its shape".to_owned()));
        },
    };
    let g = &p.dependence_graphs[site.graph];
    let outer_node = &g.nodes[site.outer_node];
    let inner_node = &g.nodes[site.inner_node];
    let flow = &p.flow_graphs[site.flow];
    let point = &flow.points[site.point];
    let inner_point = &flow.points[site.inner_point];
    let nsc = &p.non_structured_graphs[site.non_structured];
    let data = &p.data_flow_graphs[site.data_flow];
    let outer = &p.syntax[site.outer];
    let key = &outer.key;
    if key.start_row >= usize::MAX || key.end_row >= usize::MAX {
        return Err(ConditionMergeRecipeError::Projection("retained node rows are out of range".to_owned()));
    }
    let span = Span { start_line: key.start_row + 1, end_line: key.end_row + 1, start_byte: key.start_byte, end_byte: key.end_byte };
    let impact = match program_dependence_impact_cone(deps, g.key.as_str(), outer_node.key.as_str(), ImpactDirection::Bidirectional, 8) {
        Ok(c) => c,
        Err(e) => {
            return Err(ConditionMergeRecipeError::Impact(e));
        },
    };
    let fk = flow.key.as_str();
    let po = point.key.as_str();
    let pi = inner_point.key.as_str();
    let dk = data.key.as_str();
    let mut outer_text = String::new();
    string_append(&mut outer_text, "The outer dispatch is the left operand of the exact ");
    string_append(&mut outer_text, m.kind.operator());
    string_append(&mut outer_text, " short-circuit form.");
    assert(outer_text@ =~= outer_detail(m.kind));
    let mut bodies = String::new();
    string_append(&mut bodies, "Exact retained block bytes satisfy the ");
    string_append(&mut bodies, m.kind.name());
    string_append(&mut bodies, " body equivalence rule.");
    assert(bodies@ =~= bodies_detail(m.kind));
    let mut rationale = String::new();
    string_append(&mut rationale, "The outer dispatch becomes the retained ");
    string_append(&mut rationale, m.kind.operator());
    string_append(&mut rationale, " short-circuit dispatch.");
    assert(rationale@ =~= merge_rationale(m.kind));
    let required_results = vec![
        two_plain(
            CONDITION_TRUTH_EQUIVALENT,
            ProofState::Proven,
            entity(GraphEvidenceLayer::ControlFlow, fk, po),
            outer_text.as_str(),
            entity(GraphEvidenceLayer::ControlFlow, fk, pi),
            INNER_DETAIL,
        ),
        two_plain(
            CONDITION_EVALUATION_ORDER,
            ProofState::Proven,
            entity(GraphEvidenceLayer::ControlFlow, fk, po),
            outer_text.as_str(),
            entity(GraphEvidenceLayer::ControlFlow, fk, pi),
            INNER_DETAIL,
        ),
        plain_result(CONDITION_BODIES_EXACT, ProofState::Proven, entity(GraphEvidenceLayer::ControlFlow, fk, po), bodies.as_str()),
        capability_result_exec(
            CONDITION_EXCEPTION_ORDER,
            ProofState::Unknown,
            entity(GraphEvidenceLayer::DataFlow, dk, dk),
            EXCEPTION_DETAIL,
            EFFECTS,
            data.effects_support,
            &data.effects_authority,
        ),
    ];
    let non_structured = if nsc.has_facts {
        plain_result(
            FORBIDDEN_NON_STRUCTURED,
            ProofState::Unknown,
            entity(GraphEvidenceLayer::NonStructuredControl, nsc.key.as_str(), nsc.key.as_str()),
            FACTS_DETAIL,
        )
    } else {
        plain_result(
            FORBIDDEN_NON_STRUCTURED,
            ProofState::Disproven,
            entity(GraphEvidenceLayer::NonStructuredControl, nsc.key.as_str(), nsc.key.as_str()),
            NO_FACTS_DETAIL,
        )
    };
    let forbidden_results = vec![
        two_plain(
            FORBIDDEN_UNCERTAIN_CONTROL,
            ProofState::Disproven,
            entity(GraphEvidenceLayer::ControlFlow, fk, po),
            OUTER_EXACT_DETAIL,
            entity(GraphEvidenceLayer::ControlFlow, fk, pi),
            INNER_EXACT_DETAIL,
        ),
        plain_result(FORBIDDEN_BINDING_SCOPE, ProofState::Disproven, entity(GraphEvidenceLayer::ControlFlow, fk, po), BINDING_DETAIL),
        capability_result_exec(
            FORBIDDEN_EFFECT_DIVERGENCE,
            ProofState::Unknown,
            entity(GraphEvidenceLayer::DataFlow, dk, dk),
            DIVERGENCE_DETAIL,
            EFFECTS,
            data.effects_support,
            &data.effects_authority,
        ),
        non_structured,
    ];
    let root = entity(GraphEvidenceLayer::ProgramDependence, g.key.as_str(), outer_node.key.as_str());
    let inner_root = entity(GraphEvidenceLayer::ProgramDependence, g.key.as_str(), inner_node.key.as_str());
    let after = render_merge(&p.syntax, m);
    let draft = TransformationCandidateDraft {
        recipe: recipe.duplicate(),
        source: CandidateSource {
            project_snapshot: p.snapshot.clone(),
            analysis: p.analysis.clone(),
            program_dependence_projection: p.id.clone(),
        },
        target: CandidateTarget { entity: root.duplicate(), node: key.duplicate(), span, subtree_fingerprint: None },
        eligibility: GraphEligibilityDecision {
            consumer: g.eligibility.consumer.clone(),
            required_layers: copy_layers(g.eligibility.required_layers.as_slice()),
            eligible: g.eligibility.eligible,
        },
        required_results,
        forbidden_results,
        impact,
        expected_delta: ExpectedGraphDelta {
            changes: vec![
                ExpectedGraphChange { kind: GraphChangeKind::Modify, entity: root, rationale },
                ExpectedGraphChange { kind: GraphChangeKind::Remove, entity: inner_root, rationale: REMOVE_RATIONALE.to_owned() },
            ],
        },
        edits: vec![TransformationEdit::exact_node_replacement(key.duplicate(), span, outer.text.clone(), after)],
        safety: SafetyClass::SafeWithPrecondition,
        disposition: CandidateDisposition::ReviewRequired,
        validation_plan: crate::recipe::duplicate_validation_plan(recipe.validation_plan()),
        rollback_plan: crate::recipe::duplicate_rollback_plan(recipe.rollback_plan()),
    };
    let ghost original = draft;
    proof {
        assert(crate::impact::impact_answer(deps@, g.key@, outer_node.key@, ImpactDirection::Bidirectional, 8, Ok(original.impact)));
        assert(merge_impact(*p, site, original.impact));
        assert(is_merge_draft(original, *p, site, *recipe));
    }
    match TransformationCandidate::new(draft) {
        Ok(c) => {
            proof {
                reveal(merge_candidate_for);
            }
            Ok(c)
        },
        Err(e) => Err(ConditionMergeRecipeError::Contract(e)),
    }
}

/// The candidates of a sequence of merge sites, one for one.
pub open spec fn candidates_for_merges(cs: Seq<TransformationCandidate>, p: RetainedProjection, sites: Seq<MergeSite>, recipe: TransformationRecipe) -> bool {
    cs.len() == sites.len() && forall|k: int| 0 <= k < cs.len() ==> #[trigger] merge_candidate_for(cs[k], p, sites[k], recipe)
}

/// When the candidates of a projection are owed: its sites can be found
/// and, under the condition-merge recipe and the projection's dependence graphs,
/// the candidate of every site is owed.
pub open spec fn merge_all_owed(p: RetainedProjection) -> bool {
    &&& merge_sites_of(p) is Ok
    &&& forall|recipe: TransformationRecipe, deps: Seq<DependenceGraph>, k: int|
        recipe_header(
                Ok(recipe),
                "rust-merge-adjacent-conditions"@,
                "1.0.0"@,
                TransformationFamily::BranchControl,
                SafetyClass::SafeWithPrecondition,
                seq![
                    GraphEvidenceLayer::ControlFlow,
                    GraphEvidenceLayer::ControlRegions,
                    GraphEvidenceLayer::NonStructuredControl,
                    GraphEvidenceLayer::DataFlow,
                    GraphEvidenceLayer::ProgramDependence,
                ],
            ) && dependence_views(deps, p.dependence_graphs@) && 0 <= k < merge_sites_of(p)->Ok_0.len()
            ==> #[trigger] merge_owed(p, deps, merge_sites_of(p)->Ok_0[k], recipe)
}

/// Finds every branch of a retained projection whose nested or chained
/// branch one short-circuit condition can replace, and proposes each merge
/// for review: one candidate per site, ordered by candidate identity. A
/// projection that lacks a graph or a syntax node a site refers to is
/// refused.
#[verifier::rlimit(60)]
pub fn detect_adjacent_condition_merges(p: &RetainedProjection) -> (r: Result<Vec<TransformationCandidate>, ConditionMergeRecipeError>)
    ensures
        merge_sites_of(*p) is Err ==> r matches Err(ConditionMergeRecipeError::Projection(_)),
        merge_all_owed(*p) ==> r is Ok,
        r matches Ok(cs) ==> merge_sites_of(*p) is Ok && keys_sorted(cs@) && exists|
            recipe: TransformationRecipe,
            unsorted: Seq<TransformationCandidate>,
        |
            #![trigger candidates_for_merges(unsorted, *p, merge_sites_of(*p)->Ok_0, recipe)]
            recipe_header(
                Ok(recipe),
                "rust-merge-adjacent-conditions"@,
                "1.0.0"@,
                TransformationFamily::BranchControl,
                SafetyClass::SafeWithPrecondition,
                seq![
                    GraphEvidenceLayer::ControlFlow,
                    GraphEvidenceLayer::ControlRegions,
                    GraphEvidenceLayer::NonStructuredControl,
                    GraphEvidenceLayer::DataFlow,
                    GraphEvidenceLayer::ProgramDependence,
                ],
            ) && candidates_for_merges(unsorted, *p, merge_sites_of(*p)->Ok_0, recipe) && cs@.to_multiset()
                == unsorted.to_multiset(),
{
    let recipe = match adjacent_condition_merge_recipe() {
        Ok(recipe) => recipe,
        Err(e) => {
            if merge_sites(p).is_err() {
                return Err(ConditionMergeRecipeError::Projection(
                    "retained projection lacks a graph or syntax node a merge refers to".to_owned(),
                ));
            }
            return Err(ConditionMergeRecipeError::Contract(e));
        },
    };
    let sites = match merge_sites(p) {
        Ok(v) => v,
        Err(()) => {
            return Err(ConditionMergeRecipeError::Projection(
                "retained projection lacks a graph or syntax node a merge refers to".to_owned(),
            ));
        },
    };
    proof {
        lemma_merge_sites_ok(*p, p.dependence_graphs@.len() as nat);
    }
    let deps = dependence_graphs_of(p);
    let mut candidates: Vec<TransformationCandidate> = Vec::new();
    let n = sites.len();
    proof {
        if merge_all_owed(*p) {
            assert forall|k: int| 0 <= k < n implies #[trigger] merge_owed(*p, deps@, sites@[k], recipe) by {
                assert(merge_owed(*p, deps@, merge_sites_of(*p)->Ok_0[k], recipe));
            }
        }
    }
    let mut i: usize = 0;
    while i < n
        invariant
            n == sites@.len(),
            i <= n,
            merge_sites_of(*p) == Ok::<Seq<MergeSite>, ()>(sites@),
            forall|k: int| 0 <= k < sites@.len() ==> merge_site_ok(*p, #[trigger] sites@[k]),
            dependence_views(deps@, p.dependence_graphs@),
            candidates_for_merges(candidates@, *p, sites@.subrange(0, i as int), recipe),
            merge_all_owed(*p) ==> forall|k: int| 0 <= k < n ==> #[trigger] merge_owed(*p, deps@, sites@[k], recipe),
        decreases n - i,
    {
        let c = merge_candidate(p, &recipe, &deps, sites[i])?;
        let ghost before = candidates@;
        candidates.push(c);
        proof {
            let prefix = sites@.subrange(0, i + 1);
            assert forall|k: int| 0 <= k < candidates@.len() implies #[trigger] merge_candidate_for(candidates@[k], *p, prefix[k], recipe) by {
                if k < i {
                    assert(candidates@[k] == before[k]);
                    assert(prefix[k] == sites@.subrange(0, i as int)[k]);
                }
            }
        }
        i = i + 1;
    }
    let ghost unsorted = candidates@;
    assert(sites@.subrange(0, n as int) =~= sites@);
    let sorted = sort_by_key(candidates);
    proof {
        assert(candidates_for_merges(unsorted, *p, merge_sites_of(*p)->Ok_0, recipe));
        assert(sorted@.to_multiset() == unsorted.to_multiset());
    }
    Ok(sorted)
}
} // verus!
