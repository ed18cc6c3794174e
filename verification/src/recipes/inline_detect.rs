//! The inline-helper candidates of a system-dependence projection: a
//! private, parameterless unit helper called exactly once, from a sibling
//! function, as a whole statement, inlined in place of that call.

use vstd::prelude::*;
use crate::order::compare_str;
use crate::text::{contains_word, find_substring, first_occurrence, has_word};
use crate::target::NodeKey;
use crate::candidate::GraphEligibilityDecision;
use crate::impact::DependenceEdge;
use super::retained::{
    find_syntax, first_match, lemma_first_match_at, lemma_first_match_found, lemma_first_match_none, syntax_key_is,
    PdgNode, SyntaxNode,
};
use super::branch_detect::{entity, plain_result};
use super::inline_helper::{
    inline_single_use_helper_recipe, InlineHelperRecipeError, FORBIDDEN_BOUNDARY, FORBIDDEN_EXTRA_USE,
    FORBIDDEN_SUBSTITUTION, REQUIRED_BINDING, REQUIRED_EFFECTS, REQUIRED_FRAME_REVIEW, REQUIRED_SCOPE, REQUIRED_SHAPE,
    REQUIRED_SINGLE_USE,
};
use super::recipe_header;
use super::unreachable::{copy_layers, node_span, rows_fit, single_result};
use crate::candidate::{
    candidate_arrangement, candidate_fields_valid, keys_agree, steps_agree, CandidateDisposition, CandidateSource, TransformationCandidate,
    TransformationCandidateDraft,
};
use crate::contract::{ProofState, TransformationFamily};
use crate::evidence::{
    ExpectedGraphChange, ExpectedGraphDelta, GraphChangeKind, GraphEntityView, ImpactCone, ImpactDirection,
};
use crate::impact::{impact_found, pdg_entity, program_dependence_impact_cone, DependenceGraph};
use crate::model::{GraphEvidenceLayer, SafetyClass, Span};
use crate::order::{keys_sorted, sort_by_key};
use crate::recipe::TransformationRecipe;
use crate::target::{revision_guard_id, CandidateTarget, TransformationEdit};
use crate::target::NodeKeyView;
use super::branch_detect::{field_child, field_child_exec, lemma_field_child_in_tree, named_children_exec, named_children_of};

verus! {

/// A data-flow access: its key, whether it is a call, the resolution
/// result it reads, and its control point.
#[derive(Clone, Debug)]
pub struct DataAccess {
    pub key: String,
    pub call: bool,
    pub resolution: String,
    pub point: String,
}

/// A data-flow effect: its key, and whether one of its kinds is other
/// than a return.
#[derive(Clone, Debug)]
pub struct DataEffect {
    pub key: String,
    pub beyond_return: bool,
}

/// The data-flow facts of one callable.
#[derive(Clone, Debug)]
pub struct CallableData {
    pub key: String,
    /// The facts cover the whole callable.
    pub complete: bool,
    /// The key of the callable's control-flow graph.
    pub flow_graph: String,
    pub accesses: Vec<DataAccess>,
    pub has_definitions: bool,
    pub has_boundaries: bool,
    pub effects: Vec<DataEffect>,
}

/// The program-dependence graph of one callable: its key, the node that
/// owns it, the keys of its control-flow and data-flow graphs, its nodes
/// and its edges.
#[derive(Clone, Debug)]
pub struct CallableGraph {
    pub key: String,
    pub owner: NodeKey,
    pub flow_graph: String,
    pub data_flow_graph: String,
    pub nodes: Vec<PdgNode>,
    pub edges: Vec<DependenceEdge>,
}

/// A call between callables: its key, the caller's and the callee's
/// graph keys, whether it is uncertain or binds parameters or outputs, the
/// key of its data-flow access and of its dependence node.
#[derive(Clone, Debug)]
pub struct CallSite {
    pub key: String,
    pub caller: String,
    pub callee: Option<String>,
    pub uncertain: bool,
    pub has_parameter_bindings: bool,
    pub has_output_bindings: bool,
    pub call: String,
    pub call_node: String,
}

/// The preferred candidate of a resolution: whether it is unique, and the
/// scope fact each endpoint declares or defines (`None` for an endpoint of
/// another kind).
#[derive(Clone, Debug)]
pub struct PreferredCandidate {
    pub unique: bool,
    pub endpoints: Vec<Option<String>>,
}

/// A resolution result: its key, whether its status is unique and its
/// coverage complete, and its preferred candidate.
#[derive(Clone, Debug)]
pub struct ResolutionResult {
    pub key: String,
    pub unique: bool,
    pub complete: bool,
    pub preferred: Option<PreferredCandidate>,
}

/// A scope fact and the syntax node it was read from.
#[derive(Clone, Debug)]
pub struct ScopeNode {
    pub key: String,
    pub node: NodeKey,
}

/// A system-dependence projection with everything the inline recipe reads.
#[derive(Clone, Debug)]
pub struct SystemProjection {
    pub id: String,
    pub snapshot: String,
    pub analysis: String,
    /// The identity of the program-dependence projection.
    pub program: String,
    /// The system facts cover the whole project and leave no gap.
    pub complete: bool,
    pub has_gaps: bool,
    pub calls: Vec<CallSite>,
    pub graphs: Vec<CallableGraph>,
    pub data: Vec<CallableData>,
    pub results: Vec<ResolutionResult>,
    pub facts: Vec<ScopeNode>,
    pub syntax: Vec<SyntaxNode>,
    pub eligibility: GraphEligibilityDecision,
}

pub open spec fn forbidden_kind(k: Seq<char>) -> bool {
    k == "return_expression"@ || k == "break_expression"@ || k == "continue_expression"@ || k == "try_expression"@ || k
        == "await_expression"@ || k == "yield_expression"@ || k == "macro_invocation"@ || k == "attribute_item"@ || k
        == "inner_attribute_item"@ || k == "unsafe_block"@ || k == "closure_expression"@ || k == "let_declaration"@ || k
        == "let_condition"@ || k == "let_chain"@ || k == "line_comment"@ || k == "block_comment"@
}

/// A node a helper may not hold: one with an error, or of a kind that
/// exits, suspends, binds, hides code or comments.
pub open spec fn bad_node(n: SyntaxNode) -> bool {
    n.has_error || forbidden_kind(n.kind@)
}

/// Whether a descendant of node `n`, at most `depth` levels below its
/// children, is a bad node, searching children in order and each child's
/// subtree before the next child: `Err` when the search meets a child
/// outside the tree, or a node with children at the depth limit.
pub open spec fn bad_below(nodes: Seq<SyntaxNode>, n: int, depth: nat) -> Result<bool, ()>
    decreases depth, nodes[n].children@.len() + 1,
{
    bad_below_from(nodes, n, 0, depth)
}

/// The search of `bad_below` from the `k`-th child of node `n` on.
pub open spec fn bad_below_from(nodes: Seq<SyntaxNode>, n: int, k: int, depth: nat) -> Result<bool, ()>
    decreases depth, nodes[n].children@.len() - k,
{
    let ch = nodes[n].children@;
    if k < 0 || k >= ch.len() {
        Ok(false)
    } else {
        let c = ch[k] as int;
        if c >= nodes.len() {
            Err(())
        } else if bad_node(nodes[c]) {
            Ok(true)
        } else if nodes[c].children@.len() == 0 {
            bad_below_from(nodes, n, k + 1, depth)
        } else if depth == 0 {
            Err(())
        } else {
            match bad_below(nodes, c, (depth - 1) as nat) {
                Err(_) => Err(()),
                Ok(true) => Ok(true),
                Ok(false) => bad_below_from(nodes, n, k + 1, depth),
            }
        }
    }
}

/// Whether a helper holds forbidden syntax: its own kind is forbidden, or
/// a node below it is bad.
pub open spec fn contains_forbidden(nodes: Seq<SyntaxNode>, n: int) -> Result<bool, ()> {
    if forbidden_kind(nodes[n].kind@) {
        Ok(true)
    } else {
        bad_below(nodes, n, nodes.len())
    }
}

/// The parent of a node, when it lies in the tree.
pub open spec fn parent_node(nodes: Seq<SyntaxNode>, n: int) -> Option<int> {
    match nodes[n].parent {
        Some(pa) => if pa < nodes.len() {
            Some(pa as int)
        } else {
            None
        },
        None => None,
    }
}

pub open spec fn is_node(c: usize) -> spec_fn(usize) -> bool {
    |x: usize| x == c
}

pub open spec fn attaching_kind(k: Seq<char>) -> bool {
    k == "attribute_item"@ || k == "inner_attribute_item"@ || k == "line_comment"@ || k == "block_comment"@
}

/// Whether an attribute or a comment stands right before the helper among
/// the named children of its source file; also when the helper is not
/// among them.
pub open spec fn attached_outer_attribute_of(nodes: Seq<SyntaxNode>, sf: int, callee: int) -> Result<bool, ()> {
    match named_children_of(nodes, sf) {
        Err(_) => Err(()),
        Ok(ch) => match first_match(ch, is_node(callee as usize)) {
            None => Ok(true),
            Some(i) => Ok(i > 0 && attaching_kind(nodes[ch[i - 1] as int].kind@)),
        },
    }
}

/// The text of a function before its `fn `, or all of it.
pub open spec fn fn_prefix(t: Seq<char>) -> Seq<char> {
    match first_occurrence(t, "fn "@) {
        Some(i) => t.subrange(0, i),
        None => t,
    }
}

/// The prefix of a function names a qualifier that changes how it runs.
pub open spec fn qualified(t: Seq<char>) -> bool {
    let pre = fn_prefix(t);
    has_word(pre, "async"@) || has_word(pre, "const"@) || has_word(pre, "unsafe"@) || has_word(pre, "extern"@)
}

pub open spec fn marking_kind(k: Seq<char>) -> bool {
    k == "visibility_modifier"@ || k == "attribute_item"@
}

/// A child of the helper, named or not, is a visibility or an attribute.
pub open spec fn has_marked_child(nodes: Seq<SyntaxNode>, n: int) -> bool {
    exists|k: int|
        0 <= k < nodes[n].children@.len() && nodes[n].children@[k] < nodes.len() && #[trigger] marking_kind(
            nodes[nodes[n].children@[k] as int].kind@,
        )
}

pub open spec fn plain_statement_node(n: SyntaxNode) -> bool {
    n.kind@ == "expression_statement"@ && !n.has_error
}

/// The checks of a helper's signature once its body and source file are
/// known: not qualified, called by a plain name without arguments, with
/// no parameters, return type, type parameters, `where` clause, visibility
/// or attribute.
pub open spec fn plain_signature(nodes: Seq<SyntaxNode>, callee: int, f: int, args: int, params: int) -> Result<bool, ()> {
    if qualified(nodes[callee].text@) || nodes[f].kind@ != "identifier"@ {
        Ok(false)
    } else {
        match named_children_of(nodes, args) {
            Err(_) => Err(()),
            Ok(a) => if a.len() != 0 {
                Ok(false)
            } else {
                match named_children_of(nodes, params) {
                    Err(_) => Err(()),
                    Ok(ps) => if ps.len() != 0 {
                        Ok(false)
                    } else {
                        match field_child(nodes, callee, "return_type"@) {
                            Err(_) => Err(()),
                            Ok(Some(_)) => Ok(false),
                            Ok(None) => match field_child(nodes, callee, "type_parameters"@) {
                                Err(_) => Err(()),
                                Ok(Some(_)) => Ok(false),
                                Ok(None) => match field_child(nodes, callee, "where_clause"@) {
                                    Err(_) => Err(()),
                                    Ok(Some(_)) => Ok(false),
                                    Ok(None) => Ok(!has_marked_child(nodes, callee)),
                                },
                            },
                        }
                    },
                }
            },
        }
    }
}

/// Where a call sits: its own statement, that statement's block, and the
/// function holding the block, when the call is the statement's one named
/// child, the block is a function's body, and that function is a sibling
/// of the helper.
pub open spec fn call_place(nodes: Seq<SyntaxNode>, call: int, callee: int) -> Result<Option<int>, ()> {
    match parent_node(nodes, call) {
        None => Ok(None),
        Some(st) => match named_children_of(nodes, st) {
            Err(_) => Err(()),
            Ok(sc) => if nodes[st].kind@ != "expression_statement"@ || sc.len() != 1 || sc[0] != call {
                Ok(None)
            } else {
                match parent_node(nodes, st) {
                    None => Ok(None),
                    Some(cb) => match parent_node(nodes, cb) {
                        None => Ok(None),
                        Some(caller) => if nodes[cb].kind@ != "block"@ || nodes[caller].kind@ != "function_item"@
                            || nodes[callee].parent != nodes[caller].parent {
                            Ok(None)
                        } else {
                            Ok(Some(st))
                        },
                    },
                }
            },
        },
    }
}

/// The inline shape of a call and its helper: the call's statement and the
/// helper's body. The call is an error-free call expression; the helper an
/// error-free Rust function without forbidden syntax, at the top of its
/// source file with no attribute or comment before it, with a plain
/// signature and a body of one to four error-free expression statements;
/// the call stands as a statement in a sibling function's body. `Err` when
/// the tree lacks a node it refers to.
pub open spec fn inline_shape_of(nodes: Seq<SyntaxNode>, call: int, callee: int) -> Result<Option<(int, int)>, ()> {
    if nodes[call].kind@ != "call_expression"@ || !nodes[callee].rust || nodes[callee].kind@ != "function_item"@
        || nodes[call].has_error || nodes[callee].has_error {
        Ok(None)
    } else {
        match contains_forbidden(nodes, callee) {
            Err(_) => Err(()),
            Ok(true) => Ok(None),
            Ok(false) => match field_child(nodes, call, "function"@) {
                Err(_) => Err(()),
                Ok(None) => Ok(None),
                Ok(Some(f)) => match field_child(nodes, call, "arguments"@) {
                    Err(_) => Err(()),
                    Ok(None) => Ok(None),
                    Ok(Some(args)) => match field_child(nodes, callee, "parameters"@) {
                        Err(_) => Err(()),
                        Ok(None) => Ok(None),
                        Ok(Some(params)) => match field_child(nodes, callee, "body"@) {
                            Err(_) => Err(()),
                            Ok(None) => Ok(None),
                            Ok(Some(body)) => match parent_node(nodes, callee) {
                                None => Ok(None),
                                Some(sf) => if nodes[sf].kind@ != "source_file"@ {
                                    Ok(None)
                                } else {
                                    match attached_outer_attribute_of(nodes, sf, callee) {
                                        Err(_) => Err(()),
                                        Ok(true) => Ok(None),
                                        Ok(false) => match plain_signature(nodes, callee, f, args, params) {
                                            Err(_) => Err(()),
                                            Ok(false) => Ok(None),
                                            Ok(true) => match named_children_of(nodes, body) {
                                                Err(_) => Err(()),
                                                Ok(stmts) => if stmts.len() < 1 || stmts.len() > 4 || exists|k: int|
                                                    0 <= k < stmts.len() && !#[trigger] plain_statement_node(
                                                        nodes[stmts[k] as int],
                                                    ) {
                                                    Ok(None)
                                                } else {
                                                    match call_place(nodes, call, callee) {
                                                        Err(_) => Err(()),
                                                        Ok(None) => Ok(None),
                                                        Ok(Some(st)) => Ok(Some((st, body))),
                                                    }
                                                },
                                            },
                                        },
                                    }
                                },
                            },
                        },
                    },
                },
            },
        }
    }
}

fn forbidden_kind_exec(k: &str) -> (r: bool)
    ensures
        r == forbidden_kind(k@),
{
    compare_str(k, "return_expression") == 0 || compare_str(k, "break_expression") == 0 || compare_str(
        k,
        "continue_expression",
    ) == 0 || compare_str(k, "try_expression") == 0 || compare_str(k, "await_expression") == 0 || compare_str(
        k,
        "yield_expression",
    ) == 0 || compare_str(k, "macro_invocation") == 0 || compare_str(k, "attribute_item") == 0 || compare_str(
        k,
        "inner_attribute_item",
    ) == 0 || compare_str(k, "unsafe_block") == 0 || compare_str(k, "closure_expression") == 0 || compare_str(
        k,
        "let_declaration",
    ) == 0 || compare_str(k, "let_condition") == 0 || compare_str(k, "let_chain") == 0 || compare_str(k, "line_comment")
        == 0 || compare_str(k, "block_comment") == 0
}

fn bad_below_exec(nodes: &Vec<SyntaxNode>, n: usize, depth: usize) -> (r: Result<bool, ()>)
    requires
        n < nodes@.len(),
    ensures
        r == bad_below(nodes@, n as int, depth as nat),
    decreases depth, nodes@[n as int].children@.len() + 1,
{
    let ch = &nodes[n].children;
    let m = ch.len();
    let mut k: usize = 0;
    while k < m
        invariant
            n < nodes@.len(),
            m == ch@.len(),
            *ch == nodes@[n as int].children,
            k <= m,
            bad_below(nodes@, n as int, depth as nat) == bad_below_from(nodes@, n as int, k as int, depth as nat),
        decreases m - k,
    {
        let c = ch[k];
        if c >= nodes.len() {
            return Err(());
        }
        if nodes[c].has_error || forbidden_kind_exec(nodes[c].kind.as_str()) {
            return Ok(true);
        }
        if nodes[c].children.len() > 0 {
            if depth == 0 {
                return Err(());
            }
            match bad_below_exec(nodes, c, depth - 1) {
                Err(()) => {
                    return Err(());
                },
                Ok(true) => {
                    return Ok(true);
                },
                Ok(false) => {},
            }
        }
        k = k + 1;
    }
    Ok(false)
}

fn contains_forbidden_exec(nodes: &Vec<SyntaxNode>, n: usize) -> (r: Result<bool, ()>)
    requires
        n < nodes@.len(),
    ensures
        r == contains_forbidden(nodes@, n as int),
{
    if forbidden_kind_exec(nodes[n].kind.as_str()) {
        return Ok(true);
    }
    bad_below_exec(nodes, n, nodes.len())
}

pub fn parent_node_exec(nodes: &Vec<SyntaxNode>, n: usize) -> (r: Option<usize>)
    requires
        n < nodes@.len(),
    ensures
        r matches Some(x) ==> parent_node(nodes@, n as int) == Some(x as int) && x < nodes@.len(),
        r is None ==> parent_node(nodes@, n as int) is None,
{
    match nodes[n].parent {
        Some(pa) => {
            if pa < nodes.len() {
                Some(pa)
            } else {
                None
            }
        },
        None => None,
    }
}

fn attaching_kind_exec(k: &str) -> (r: bool)
    ensures
        r == attaching_kind(k@),
{
    compare_str(k, "attribute_item") == 0 || compare_str(k, "inner_attribute_item") == 0 || compare_str(k, "line_comment")
        == 0 || compare_str(k, "block_comment") == 0
}

fn attached_outer_attribute(nodes: &Vec<SyntaxNode>, sf: usize, callee: usize) -> (r: Result<bool, ()>)
    requires
        sf < nodes@.len(),
    ensures
        match r {
            Err(_) => attached_outer_attribute_of(nodes@, sf as int, callee as int) is Err,
            Ok(b) => attached_outer_attribute_of(nodes@, sf as int, callee as int) == Ok::<bool, ()>(b),
        },
{
    let ch = named_children_exec(nodes, sf)?;
    let ghost p = is_node(callee);
    let mut i: usize = 0;
    while i < ch.len()
        invariant
            i <= ch@.len(),
            p == is_node(callee),
            sf < nodes@.len(),
            named_children_of(nodes@, sf as int) == Ok::<Seq<usize>, ()>(ch@),
            forall|x: int| 0 <= x < ch@.len() ==> (#[trigger] ch@[x]) < nodes@.len(),
            forall|j: int| 0 <= j < i ==> !p(#[trigger] ch@[j]),
        decreases ch@.len() - i,
    {
        if ch[i] == callee {
            proof {
                lemma_first_match_at(ch@, p, i as int);
            }
            return Ok(i > 0 && attaching_kind_exec(nodes[ch[i - 1]].kind.as_str()));
        }
        i = i + 1;
    }
    proof {
        lemma_first_match_none(ch@, p);
    }
    Ok(true)
}

fn fn_prefix_exec(t: &str) -> (r: &str)
    ensures
        r@ == fn_prefix(t@),
{
    proof {
        reveal_strlit("fn ");
    }
    match find_substring(t, "fn ") {
        Some(i) => t.substring_char(0, i),
        None => t,
    }
}

fn qualified_exec(t: &str) -> (r: bool)
    ensures
        r == qualified(t@),
{
    let pre = fn_prefix_exec(t);
    proof {
        reveal_strlit("async");
        reveal_strlit("const");
        reveal_strlit("unsafe");
        reveal_strlit("extern");
    }
    contains_word(pre, "async") || contains_word(pre, "const") || contains_word(pre, "unsafe") || contains_word(pre, "extern")
}

fn has_marked_child_exec(nodes: &Vec<SyntaxNode>, n: usize) -> (r: bool)
    requires
        n < nodes@.len(),
    ensures
        r == has_marked_child(nodes@, n as int),
{
    let ch = &nodes[n].children;
    let mut k: usize = 0;
    while k < ch.len()
        invariant
            k <= ch@.len(),
            n < nodes@.len(),
            *ch == nodes@[n as int].children,
            forall|j: int| 0 <= j < k ==> !(nodes@[n as int].children@[j] < nodes@.len() && #[trigger] marking_kind(
                nodes@[nodes@[n as int].children@[j] as int].kind@,
            )),
        decreases ch@.len() - k,
    {
        let c = ch[k];
        if c < nodes.len() && (compare_str(nodes[c].kind.as_str(), "visibility_modifier") == 0 || compare_str(
            nodes[c].kind.as_str(),
            "attribute_item",
        ) == 0) {
            assert(marking_kind(nodes@[c as int].kind@));
            return true;
        }
        k = k + 1;
    }
    false
}

fn plain_signature_exec(nodes: &Vec<SyntaxNode>, callee: usize, f: usize, args: usize, params: usize) -> (r: Result<bool, ()>)
    requires
        callee < nodes@.len(),
        f < nodes@.len(),
        args < nodes@.len(),
        params < nodes@.len(),
    ensures
        match r {
            Err(_) => plain_signature(nodes@, callee as int, f as int, args as int, params as int) is Err,
            Ok(b) => plain_signature(nodes@, callee as int, f as int, args as int, params as int) == Ok::<bool, ()>(b),
        },
{
    if qualified_exec(nodes[callee].text.as_str()) || compare_str(nodes[f].kind.as_str(), "identifier") != 0 {
        return Ok(false);
    }
    if named_children_exec(nodes, args)?.len() != 0 {
        return Ok(false);
    }
    if named_children_exec(nodes, params)?.len() != 0 {
        return Ok(false);
    }
    if field_child_exec(nodes, callee, "return_type")?.is_some() {
        return Ok(false);
    }
    if field_child_exec(nodes, callee, "type_parameters")?.is_some() {
        return Ok(false);
    }
    if field_child_exec(nodes, callee, "where_clause")?.is_some() {
        return Ok(false);
    }
    Ok(!has_marked_child_exec(nodes, callee))
}

fn call_place_exec(nodes: &Vec<SyntaxNode>, call: usize, callee: usize) -> (r: Result<Option<usize>, ()>)
    requires
        call < nodes@.len(),
        callee < nodes@.len(),
    ensures
        match r {
            Err(_) => call_place(nodes@, call as int, callee as int) is Err,
            Ok(None) => call_place(nodes@, call as int, callee as int) == Ok::<Option<int>, ()>(None),
            Ok(Some(st)) => call_place(nodes@, call as int, callee as int) == Ok::<Option<int>, ()>(Some(st as int))
                && st < nodes@.len(),
        },
{
    let st = match parent_node_exec(nodes, call) {
        None => {
            return Ok(None);
        },
        Some(st) => st,
    };
    let sc = named_children_exec(nodes, st)?;
    if compare_str(nodes[st].kind.as_str(), "expression_statement") != 0 || sc.len() != 1 || sc[0] != call {
        return Ok(None);
    }
    let cb = match parent_node_exec(nodes, st) {
        None => {
            return Ok(None);
        },
        Some(cb) => cb,
    };
    let caller = match parent_node_exec(nodes, cb) {
        None => {
            return Ok(None);
        },
        Some(c) => c,
    };
    if compare_str(nodes[cb].kind.as_str(), "block") != 0 || compare_str(nodes[caller].kind.as_str(), "function_item") != 0
        || nodes[callee].parent != nodes[caller].parent {
        return Ok(None);
    }
    Ok(Some(st))
}

fn statements_plain(nodes: &Vec<SyntaxNode>, stmts: &Vec<usize>) -> (r: bool)
    requires
        forall|x: int| 0 <= x < stmts@.len() ==> (#[trigger] stmts@[x]) < nodes@.len(),
    ensures
        r == !exists|k: int| 0 <= k < stmts@.len() && !#[trigger] plain_statement_node(nodes@[stmts@[k] as int]),
{
    let mut k: usize = 0;
    while k < stmts.len()
        invariant
            k <= stmts@.len(),
            forall|x: int| 0 <= x < stmts@.len() ==> (#[trigger] stmts@[x]) < nodes@.len(),
            forall|j: int| 0 <= j < k ==> #[trigger] plain_statement_node(nodes@[stmts@[j] as int]),
        decreases stmts@.len() - k,
    {
        let s = &nodes[stmts[k]];
        if compare_str(s.kind.as_str(), "expression_statement") != 0 || s.has_error {
            assert(!plain_statement_node(nodes@[stmts@[k as int] as int]));
            return false;
        }
        k = k + 1;
    }
    true
}

/// The inline shape of a call and its helper, as `inline_shape_of` gives
/// it: the call's statement and the helper's body.
pub fn inline_shape(nodes: &Vec<SyntaxNode>, call: usize, callee: usize) -> (r: Result<Option<(usize, usize)>, ()>)
    requires
        call < nodes@.len(),
        callee < nodes@.len(),
    ensures
        match r {
            Err(_) => inline_shape_of(nodes@, call as int, callee as int) is Err,
            Ok(None) => inline_shape_of(nodes@, call as int, callee as int) == Ok::<Option<(int, int)>, ()>(None),
            Ok(Some(s)) => inline_shape_of(nodes@, call as int, callee as int) == Ok::<Option<(int, int)>, ()>(
                Some((s.0 as int, s.1 as int)),
            ) && s.0 < nodes@.len() && s.1 < nodes@.len(),
        },
{
    if compare_str(nodes[call].kind.as_str(), "call_expression") != 0 || !nodes[callee].rust || compare_str(
        nodes[callee].kind.as_str(),
        "function_item",
    ) != 0 || nodes[call].has_error || nodes[callee].has_error {
        return Ok(None);
    }
    if contains_forbidden_exec(nodes, callee)? {
        return Ok(None);
    }
    let f = match field_child_exec(nodes, call, "function")? {
        None => {
            return Ok(None);
        },
        Some(f) => f,
    };
    proof {
        lemma_field_child_in_tree(nodes@, call as int, "function"@);
    }
    let args = match field_child_exec(nodes, call, "arguments")? {
        None => {
            return Ok(None);
        },
        Some(a) => a,
    };
    proof {
        lemma_field_child_in_tree(nodes@, call as int, "arguments"@);
    }
    let params = match field_child_exec(nodes, callee, "parameters")? {
        None => {
            return Ok(None);
        },
        Some(p) => p,
    };
    proof {
        lemma_field_child_in_tree(nodes@, callee as int, "parameters"@);
    }
    let body = match field_child_exec(nodes, callee, "body")? {
        None => {
            return Ok(None);
        },
        Some(b) => b,
    };
    proof {
        lemma_field_child_in_tree(nodes@, callee as int, "body"@);
    }
    let sf = match parent_node_exec(nodes, callee) {
        None => {
            return Ok(None);
        },
        Some(sf) => sf,
    };
    if compare_str(nodes[sf].kind.as_str(), "source_file") != 0 {
        return Ok(None);
    }
    if attached_outer_attribute(nodes, sf, callee)? {
        return Ok(None);
    }
    if !plain_signature_exec(nodes, callee, f, args, params)? {
        return Ok(None);
    }
    let stmts = named_children_exec(nodes, body)?;
    if stmts.len() < 1 || stmts.len() > 4 {
        return Ok(None);
    }
    if !statements_plain(nodes, &stmts) {
        return Ok(None);
    }
    match call_place_exec(nodes, call, callee)? {
        None => Ok(None),
        Some(st) => Ok(Some((st, body))),
    }
}

/// How many calls a caller makes.
pub open spec fn calls_by(calls: Seq<CallSite>, caller: Seq<char>) -> nat
    decreases calls.len(),
{
    if calls.len() == 0 {
        0
    } else {
        calls_by(calls.drop_last(), caller) + if calls.last().caller@ == caller {
            1nat
        } else {
            0nat
        }
    }
}

/// How many calls reach a callee.
pub open spec fn calls_to(calls: Seq<CallSite>, callee: Seq<char>) -> nat
    decreases calls.len(),
{
    if calls.len() == 0 {
        0
    } else {
        calls_to(calls.drop_last(), callee) + if calls.last().callee matches Some(k) && k@ == callee {
            1nat
        } else {
            0nat
        }
    }
}

/// How many accesses are calls.
pub open spec fn call_accesses(accesses: Seq<DataAccess>) -> nat
    decreases accesses.len(),
{
    if accesses.len() == 0 {
        0
    } else {
        call_accesses(accesses.drop_last()) + if accesses.last().call {
            1nat
        } else {
            0nat
        }
    }
}

pub open spec fn graph_of_data(key: Seq<char>) -> spec_fn(CallableGraph) -> bool {
    |g: CallableGraph| g.data_flow_graph@ == key
}

pub open spec fn graph_key_is(key: Seq<char>) -> spec_fn(CallableGraph) -> bool {
    |g: CallableGraph| g.key@ == key
}

pub open spec fn data_key_is(key: Seq<char>) -> spec_fn(CallableData) -> bool {
    |d: CallableData| d.key@ == key
}

pub open spec fn access_key_is(key: Seq<char>) -> spec_fn(DataAccess) -> bool {
    |a: DataAccess| a.key@ == key
}

pub open spec fn pdg_key_is(key: Seq<char>) -> spec_fn(PdgNode) -> bool {
    |n: PdgNode| n.key@ == key
}

pub open spec fn fact_key_is(key: Seq<char>) -> spec_fn(ScopeNode) -> bool {
    |f: ScopeNode| f.key@ == key
}

/// The data-flow graphs, in order, up to the `k`-th: `Ok(false)` once one
/// is incomplete or counts other calls than the system has from its
/// callable; `Err` when one has no dependence graph.
pub open spec fn graphs_ready(p: SystemProjection, k: nat) -> Result<bool, ()>
    decreases k,
{
    if k == 0 {
        Ok(true)
    } else {
        match graphs_ready(p, (k - 1) as nat) {
            Err(_) => Err(()),
            Ok(false) => Ok(false),
            Ok(true) => {
                let d = p.data@[k - 1];
                match first_match(p.graphs@, graph_of_data(d.key@)) {
                    None => Err(()),
                    Some(gi) => Ok(d.complete && call_accesses(d.accesses@) == calls_by(p.calls@, p.graphs@[gi].key@)),
                }
            },
        }
    }
}

/// A resolution result references the owner: unique and complete, with a
/// unique preferred candidate whose one endpoint declares or defines a
/// scope fact read from the owner.
pub open spec fn references_owner(p: SystemProjection, r: ResolutionResult, owner: NodeKeyView) -> bool {
    &&& r.unique
    &&& r.complete
    &&& r.preferred matches Some(pc) && pc.unique && pc.endpoints@.len() == 1 && (pc.endpoints@[0] matches Some(fk) && (
    first_match(p.facts@, fact_key_is(fk@)) matches Some(fi) && p.facts@[fi].node@ == owner))
}

/// The keys of the first `k` resolution results that reference the owner,
/// in order.
pub open spec fn owner_references(p: SystemProjection, owner: NodeKeyView, k: nat) -> Seq<Seq<char>>
    decreases k,
{
    if k == 0 {
        Seq::empty()
    } else {
        owner_references(p, owner, (k - 1) as nat) + if references_owner(p, p.results@[k - 1], owner) {
            seq![p.results@[k - 1].key@]
        } else {
            Seq::empty()
        }
    }
}

/// A helper's data flow is empty: no definition, access or boundary, and
/// no effect other than a return.
pub open spec fn quiet_data(d: CallableData) -> bool {
    &&& !d.has_definitions
    &&& d.accesses@.len() == 0
    &&& !d.has_boundaries
    &&& forall|k: int| 0 <= k < d.effects@.len() ==> !(#[trigger] d.effects@[k]).beyond_return
}

/// An inline the recipe reads, by position: the call; the caller's and the
/// helper's dependence and data-flow graphs; the call's access and
/// dependence node; the call expression and the helper in the tree; the
/// call's statement and the helper's body.
#[derive(Clone, Copy, Debug)]
pub struct InlineSite {
    pub call: usize,
    pub caller: usize,
    pub callee: usize,
    pub caller_data: usize,
    pub callee_data: usize,
    pub access: usize,
    pub node: usize,
    pub call_expression: usize,
    pub helper: usize,
    pub statement: usize,
    pub body: usize,
}

/// The site a call yields, if any. A call yields nothing unless it names a
/// callee, is certain, binds nothing, is no recursion and the only call of
/// its callee; caller and helper share a file; the helper's owner has
/// exactly one reference, the call's; the call's node has a source; the
/// call and the helper have an inline shape; and the helper's data flow
/// is empty. `Err` when a graph, data-flow graph, access, node or syntax
/// node a call refers to is missing.
pub open spec fn inline_step(p: SystemProjection, ci: int) -> Result<Option<InlineSite>, ()> {
    let call = p.calls@[ci];
    match call.callee {
        None => Ok(None),
        Some(ck) => if call.uncertain || call.has_parameter_bindings || call.has_output_bindings || call.caller@ == ck@
            || calls_to(p.calls@, ck@) != 1 {
            Ok(None)
        } else {
            match (first_match(p.graphs@, graph_key_is(call.caller@)), first_match(p.graphs@, graph_key_is(ck@))) {
                (Some(cg), Some(eg)) => {
                    let caller = p.graphs@[cg];
                    let callee = p.graphs@[eg];
                    if caller.owner.path@ != callee.owner.path@ {
                        Ok(None)
                    } else {
                        match (
                            first_match(p.data@, data_key_is(caller.data_flow_graph@)),
                            first_match(p.data@, data_key_is(callee.data_flow_graph@)),
                        ) {
                            (Some(cd), Some(ed)) => match first_match(p.data@[cd].accesses@, access_key_is(call.call@)) {
                                None => Err(()),
                                Some(ai) => {
                                    let refs = owner_references(p, callee.owner@, p.results@.len());
                                    if refs.len() != 1 || refs[0] != p.data@[cd].accesses@[ai].resolution@ {
                                        Ok(None)
                                    } else {
                                        match first_match(caller.nodes@, pdg_key_is(call.call_node@)) {
                                            None => Err(()),
                                            Some(ni) => match caller.nodes@[ni].source {
                                                None => Ok(None),
                                                Some(src) => match (
                                                    first_match(p.syntax@, syntax_key_is(src@)),
                                                    first_match(p.syntax@, syntax_key_is(callee.owner@)),
                                                ) {
                                                    (Some(cx), Some(hx)) => match inline_shape_of(p.syntax@, cx, hx) {
                                                        Err(_) => Err(()),
                                                        Ok(None) => Ok(None),
                                                        Ok(Some(sh)) => if !quiet_data(p.data@[ed]) {
                                                            Ok(None)
                                                        } else {
                                                            Ok(
                                                                Some(
                                                                    InlineSite {
                                                                        call: ci as usize,
                                                                        caller: cg as usize,
                                                                        callee: eg as usize,
                                                                        caller_data: cd as usize,
                                                                        callee_data: ed as usize,
                                                                        access: ai as usize,
                                                                        node: ni as usize,
                                                                        call_expression: cx as usize,
                                                                        helper: hx as usize,
                                                                        statement: sh.0 as usize,
                                                                        body: sh.1 as usize,
                                                                    },
                                                                ),
                                                            )
                                                        },
                                                    },
                                                    _ => Err(()),
                                                },
                                            },
                                        }
                                    }
                                },
                            },
                            _ => Err(()),
                        }
                    }
                },
                _ => Err(()),
            }
        },
    }
}

/// A site names positions of the projection: its call, graphs, data-flow
/// graphs, access, dependence node and syntax nodes lie in range.
pub open spec fn inline_site_ok(p: SystemProjection, site: InlineSite) -> bool {
    &&& site.call < p.calls@.len()
    &&& site.caller < p.graphs@.len()
    &&& site.callee < p.graphs@.len()
    &&& site.caller_data < p.data@.len()
    &&& site.callee_data < p.data@.len()
    &&& site.access < p.data@[site.caller_data as int].accesses@.len()
    &&& site.node < p.graphs@[site.caller as int].nodes@.len()
    &&& site.helper < p.syntax@.len()
    &&& site.statement < p.syntax@.len()
    &&& site.body < p.syntax@.len()
}

pub open spec fn opt_inline(o: Option<InlineSite>) -> Seq<InlineSite> {
    match o {
        Some(x) => seq![x],
        None => Seq::empty(),
    }
}

/// The sites of the first `k` calls.
pub open spec fn scan_inline(p: SystemProjection, k: nat) -> Result<Seq<InlineSite>, ()>
    decreases k,
{
    if k == 0 {
        Ok(Seq::empty())
    } else {
        match scan_inline(p, (k - 1) as nat) {
            Err(_) => Err(()),
            Ok(sites) => match inline_step(p, k - 1) {
                Err(_) => Err(()),
                Ok(o) => Ok(sites + opt_inline(o)),
            },
        }
    }
}

/// The system facts leave nothing unknown: complete, without gaps, and
/// every resolution result complete.
pub open spec fn system_complete(p: SystemProjection) -> bool {
    &&& p.complete
    &&& !p.has_gaps
    &&& forall|k: int| 0 <= k < p.results@.len() ==> (#[trigger] p.results@[k]).complete
}

/// The inline sites of a system projection, in call order: none unless
/// the system facts are complete and every data-flow graph is ready.
pub open spec fn inline_sites_of(p: SystemProjection) -> Result<Seq<InlineSite>, ()> {
    if !system_complete(p) {
        Ok(Seq::empty())
    } else {
        match graphs_ready(p, p.data@.len()) {
            Err(_) => Err(()),
            Ok(false) => Ok(Seq::empty()),
            Ok(true) => scan_inline(p, p.calls@.len()),
        }
    }
}

fn count_calls_by(calls: &Vec<CallSite>, caller: &str) -> (r: usize)
    ensures
        r == calls_by(calls@, caller@),
{
    let mut n: usize = 0;
    let mut i: usize = 0;
    assert(calls@.subrange(0, 0) =~= Seq::<CallSite>::empty());
    while i < calls.len()
        invariant
            i <= calls@.len(),
            n == calls_by(calls@.subrange(0, i as int), caller@),
            n <= i,
        decreases calls@.len() - i,
    {
        let sub = Ghost(calls@.subrange(0, i + 1));
        assert(sub@.drop_last() =~= calls@.subrange(0, i as int));
        if compare_str(calls[i].caller.as_str(), caller) == 0 {
            n = n + 1;
        }
        i = i + 1;
    }
    assert(calls@.subrange(0, calls@.len() as int) =~= calls@);
    n
}

fn count_calls_to(calls: &Vec<CallSite>, callee: &str) -> (r: usize)
    ensures
        r == calls_to(calls@, callee@),
{
    let mut n: usize = 0;
    let mut i: usize = 0;
    assert(calls@.subrange(0, 0) =~= Seq::<CallSite>::empty());
    while i < calls.len()
        invariant
            i <= calls@.len(),
            n == calls_to(calls@.subrange(0, i as int), callee@),
            n <= i,
        decreases calls@.len() - i,
    {
        let sub = Ghost(calls@.subrange(0, i + 1));
        assert(sub@.drop_last() =~= calls@.subrange(0, i as int));
        let hit = match &calls[i].callee {
            Some(k) => compare_str(k.as_str(), callee) == 0,
            None => false,
        };
        if hit {
            n = n + 1;
        }
        i = i + 1;
    }
    assert(calls@.subrange(0, calls@.len() as int) =~= calls@);
    n
}

fn count_call_accesses(accesses: &Vec<DataAccess>) -> (r: usize)
    ensures
        r == call_accesses(accesses@),
{
    let mut n: usize = 0;
    let mut i: usize = 0;
    assert(accesses@.subrange(0, 0) =~= Seq::<DataAccess>::empty());
    while i < accesses.len()
        invariant
            i <= accesses@.len(),
            n == call_accesses(accesses@.subrange(0, i as int)),
            n <= i,
        decreases accesses@.len() - i,
    {
        let sub = Ghost(accesses@.subrange(0, i + 1));
        assert(sub@.drop_last() =~= accesses@.subrange(0, i as int));
        if accesses[i].call {
            n = n + 1;
        }
        i = i + 1;
    }
    assert(accesses@.subrange(0, accesses@.len() as int) =~= accesses@);
    n
}

fn find_graph_of_data(graphs: &Vec<CallableGraph>, key: &str) -> (r: Option<usize>)
    ensures
        r is None ==> first_match(graphs@, graph_of_data(key@)) is None,
        r matches Some(i) ==> first_match(graphs@, graph_of_data(key@)) == Some(i as int) && i < graphs@.len(),
{
    let mut i: usize = 0;
    while i < graphs.len()
        invariant
            i <= graphs@.len(),
            forall|j: int| 0 <= j < i ==> !graph_of_data(key@)(#[trigger] graphs@[j]),
        decreases graphs@.len() - i,
    {
        if compare_str(graphs[i].data_flow_graph.as_str(), key) == 0 {
            proof {
                lemma_first_match_at(graphs@, graph_of_data(key@), i as int);
            }
            return Some(i);
        }
        i = i + 1;
    }
    proof {
        lemma_first_match_none(graphs@, graph_of_data(key@));
    }
    None
}

fn find_graph(graphs: &Vec<CallableGraph>, key: &str) -> (r: Option<usize>)
    ensures
        r is None ==> first_match(graphs@, graph_key_is(key@)) is None,
        r matches Some(i) ==> first_match(graphs@, graph_key_is(key@)) == Some(i as int) && i < graphs@.len(),
{
    let mut i: usize = 0;
    while i < graphs.len()
        invariant
            i <= graphs@.len(),
            forall|j: int| 0 <= j < i ==> !graph_key_is(key@)(#[trigger] graphs@[j]),
        decreases graphs@.len() - i,
    {
        if compare_str(graphs[i].key.as_str(), key) == 0 {
            proof {
                lemma_first_match_at(graphs@, graph_key_is(key@), i as int);
            }
            return Some(i);
        }
        i = i + 1;
    }
    proof {
        lemma_first_match_none(graphs@, graph_key_is(key@));
    }
    None
}

fn find_data(data: &Vec<CallableData>, key: &str) -> (r: Option<usize>)
    ensures
        r is None ==> first_match(data@, data_key_is(key@)) is None,
        r matches Some(i) ==> first_match(data@, data_key_is(key@)) == Some(i as int) && i < data@.len(),
{
    let mut i: usize = 0;
    while i < data.len()
        invariant
            i <= data@.len(),
            forall|j: int| 0 <= j < i ==> !data_key_is(key@)(#[trigger] data@[j]),
        decreases data@.len() - i,
    {
        if compare_str(data[i].key.as_str(), key) == 0 {
            proof {
                lemma_first_match_at(data@, data_key_is(key@), i as int);
            }
            return Some(i);
        }
        i = i + 1;
    }
    proof {
        lemma_first_match_none(data@, data_key_is(key@));
    }
    None
}

fn find_access(accesses: &Vec<DataAccess>, key: &str) -> (r: Option<usize>)
    ensures
        r is None ==> first_match(accesses@, access_key_is(key@)) is None,
        r matches Some(i) ==> first_match(accesses@, access_key_is(key@)) == Some(i as int) && i < accesses@.len(),
{
    let mut i: usize = 0;
    while i < accesses.len()
        invariant
            i <= accesses@.len(),
            forall|j: int| 0 <= j < i ==> !access_key_is(key@)(#[trigger] accesses@[j]),
        decreases accesses@.len() - i,
    {
        if compare_str(accesses[i].key.as_str(), key) == 0 {
            proof {
                lemma_first_match_at(accesses@, access_key_is(key@), i as int);
            }
            return Some(i);
        }
        i = i + 1;
    }
    proof {
        lemma_first_match_none(accesses@, access_key_is(key@));
    }
    None
}

fn find_pdg_node(nodes: &Vec<PdgNode>, key: &str) -> (r: Option<usize>)
    ensures
        r is None ==> first_match(nodes@, pdg_key_is(key@)) is None,
        r matches Some(i) ==> first_match(nodes@, pdg_key_is(key@)) == Some(i as int) && i < nodes@.len(),
{
    let mut i: usize = 0;
    while i < nodes.len()
        invariant
            i <= nodes@.len(),
            forall|j: int| 0 <= j < i ==> !pdg_key_is(key@)(#[trigger] nodes@[j]),
        decreases nodes@.len() - i,
    {
        if compare_str(nodes[i].key.as_str(), key) == 0 {
            proof {
                lemma_first_match_at(nodes@, pdg_key_is(key@), i as int);
            }
            return Some(i);
        }
        i = i + 1;
    }
    proof {
        lemma_first_match_none(nodes@, pdg_key_is(key@));
    }
    None
}

fn find_fact(facts: &Vec<ScopeNode>, key: &str) -> (r: Option<usize>)
    ensures
        r is None ==> first_match(facts@, fact_key_is(key@)) is None,
        r matches Some(i) ==> first_match(facts@, fact_key_is(key@)) == Some(i as int) && i < facts@.len(),
{
    let mut i: usize = 0;
    while i < facts.len()
        invariant
            i <= facts@.len(),
            forall|j: int| 0 <= j < i ==> !fact_key_is(key@)(#[trigger] facts@[j]),
        decreases facts@.len() - i,
    {
        if compare_str(facts[i].key.as_str(), key) == 0 {
            proof {
                lemma_first_match_at(facts@, fact_key_is(key@), i as int);
            }
            return Some(i);
        }
        i = i + 1;
    }
    proof {
        lemma_first_match_none(facts@, fact_key_is(key@));
    }
    None
}

fn references_owner_exec(p: &SystemProjection, r: &ResolutionResult, owner: &NodeKey) -> (b: bool)
    ensures
        b == references_owner(*p, *r, owner@),
{
    if !r.unique || !r.complete {
        return false;
    }
    let pc = match &r.preferred {
        None => {
            return false;
        },
        Some(pc) => pc,
    };
    if !pc.unique || pc.endpoints.len() != 1 {
        return false;
    }
    let fk = match &pc.endpoints[0] {
        None => {
            return false;
        },
        Some(fk) => fk,
    };
    match find_fact(&p.facts, fk.as_str()) {
        None => false,
        Some(fi) => p.facts[fi].node.same_node(owner),
    }
}

/// The keys of the resolution results that reference the owner, as
/// `owner_references` gives them.
fn owner_references_exec(p: &SystemProjection, owner: &NodeKey) -> (r: Vec<String>)
    ensures
        r@.map_values(|s: String| s@) == owner_references(*p, owner@, p.results@.len() as nat),
{
    let mut out: Vec<String> = Vec::new();
    let mut i: usize = 0;
    while i < p.results.len()
        invariant
            i <= p.results@.len(),
            out@.map_values(|s: String| s@) == owner_references(*p, owner@, i as nat),
        decreases p.results@.len() - i,
    {
        let ghost before = out@.map_values(|s: String| s@);
        if references_owner_exec(p, &p.results[i], owner) {
            let k = p.results[i].key.clone();
            out.push(k);
            proof {
                assert(out@.map_values(|s: String| s@) =~= before + seq![p.results@[i as int].key@]);
            }
        } else {
            assert(out@.map_values(|s: String| s@) =~= before + Seq::<Seq<char>>::empty());
        }
        i = i + 1;
    }
    out
}

fn quiet_data_exec(d: &CallableData) -> (r: bool)
    ensures
        r == quiet_data(*d),
{
    if d.has_definitions || d.accesses.len() != 0 || d.has_boundaries {
        return false;
    }
    let mut k: usize = 0;
    while k < d.effects.len()
        invariant
            k <= d.effects@.len(),
            !d.has_definitions && d.accesses@.len() == 0 && !d.has_boundaries,
            forall|j: int| 0 <= j < k ==> !(#[trigger] d.effects@[j]).beyond_return,
        decreases d.effects@.len() - k,
    {
        if d.effects[k].beyond_return {
            return false;
        }
        k = k + 1;
    }
    true
}

fn step_inline(p: &SystemProjection, ci: usize) -> (r: Result<Option<InlineSite>, ()>)
    requires
        ci < p.calls@.len(),
    ensures
        r == inline_step(*p, ci as int),
        r matches Ok(Some(site)) ==> inline_site_ok(*p, site),
{
    let call = &p.calls[ci];
    let ck = match &call.callee {
        None => {
            return Ok(None);
        },
        Some(k) => k,
    };
    if call.uncertain || call.has_parameter_bindings || call.has_output_bindings || compare_str(call.caller.as_str(), ck.as_str())
        == 0 || count_calls_to(&p.calls, ck.as_str()) != 1 {
        return Ok(None);
    }
    let (cg, eg) = match (find_graph(&p.graphs, call.caller.as_str()), find_graph(&p.graphs, ck.as_str())) {
        (Some(cg), Some(eg)) => (cg, eg),
        _ => {
            return Err(());
        },
    };
    let caller = &p.graphs[cg];
    let callee = &p.graphs[eg];
    if compare_str(caller.owner.path.as_str(), callee.owner.path.as_str()) != 0 {
        return Ok(None);
    }
    let (cd, ed) = match (find_data(&p.data, caller.data_flow_graph.as_str()), find_data(&p.data, callee.data_flow_graph.as_str())) {
        (Some(cd), Some(ed)) => (cd, ed),
        _ => {
            return Err(());
        },
    };
    let ai = match find_access(&p.data[cd].accesses, call.call.as_str()) {
        None => {
            return Err(());
        },
        Some(ai) => ai,
    };
    let refs = owner_references_exec(p, &callee.owner);
    proof {
        if refs@.len() == 1 {
            assert(refs@.map_values(|s: String| s@)[0] == refs@[0]@);
        }
    }
    if refs.len() != 1 || compare_str(refs[0].as_str(), p.data[cd].accesses[ai].resolution.as_str()) != 0 {
        return Ok(None);
    }
    let ni = match find_pdg_node(&caller.nodes, call.call_node.as_str()) {
        None => {
            return Err(());
        },
        Some(ni) => ni,
    };
    let src = match &caller.nodes[ni].source {
        None => {
            return Ok(None);
        },
        Some(s) => s,
    };
    let (cx, hx) = match (find_syntax(&p.syntax, src), find_syntax(&p.syntax, &callee.owner)) {
        (Some(cx), Some(hx)) => (cx, hx),
        _ => {
            return Err(());
        },
    };
    proof {
        lemma_first_match_found(p.syntax@, syntax_key_is(src@));
        lemma_first_match_found(p.syntax@, syntax_key_is(callee.owner@));
    }
    let sh = match inline_shape(&p.syntax, cx, hx) {
        Err(()) => {
            return Err(());
        },
        Ok(None) => {
            return Ok(None);
        },
        Ok(Some(sh)) => sh,
    };
    if !quiet_data_exec(&p.data[ed]) {
        return Ok(None);
    }
    Ok(
        Some(
            InlineSite {
                call: ci,
                caller: cg,
                callee: eg,
                caller_data: cd,
                callee_data: ed,
                access: ai,
                node: ni,
                call_expression: cx,
                helper: hx,
                statement: sh.0,
                body: sh.1,
            },
        ),
    )
}

proof fn lemma_scan_inline_err_stays(p: SystemProjection, k: nat, m: nat)
    requires
        k <= m,
        scan_inline(p, k) is Err,
    ensures
        scan_inline(p, m) is Err,
    decreases m - k,
{
    if k < m {
        lemma_scan_inline_err_stays(p, k, (m - 1) as nat);
    }
}

proof fn lemma_graphs_ready_stays(p: SystemProjection, k: nat, m: nat)
    requires
        k <= m,
        graphs_ready(p, k) matches Err(_) || graphs_ready(p, k) == Ok::<bool, ()>(false),
    ensures
        graphs_ready(p, m) == graphs_ready(p, k),
    decreases m - k,
{
    if k < m {
        lemma_graphs_ready_stays(p, k, (m - 1) as nat);
    }
}

/// The inline sites of a system projection, as `inline_sites_of` gives
/// them.
pub fn inline_sites(p: &SystemProjection) -> (r: Result<Vec<InlineSite>, ()>)
    ensures
        r matches Ok(v) ==> inline_sites_of(*p) == Ok::<Seq<InlineSite>, ()>(v@),
        r matches Ok(v) ==> forall|k: int| 0 <= k < v@.len() ==> inline_site_ok(*p, #[trigger] v@[k]),
        r is Err ==> inline_sites_of(*p) is Err,
{
    let mut sites: Vec<InlineSite> = Vec::new();
    if !p.complete || p.has_gaps {
        return Ok(sites);
    }
    let mut r: usize = 0;
    while r < p.results.len()
        invariant
            r <= p.results@.len(),
            sites@.len() == 0,
            forall|j: int| 0 <= j < r ==> (#[trigger] p.results@[j]).complete,
        decreases p.results@.len() - r,
    {
        if !p.results[r].complete {
            assert(!system_complete(*p));
            assert(sites@ =~= Seq::<InlineSite>::empty());
            return Ok(sites);
        }
        r = r + 1;
    }
    assert(system_complete(*p));
    let mut d: usize = 0;
    while d < p.data.len()
        invariant
            d <= p.data@.len(),
            system_complete(*p),
            sites@.len() == 0,
            graphs_ready(*p, d as nat) == Ok::<bool, ()>(true),
        decreases p.data@.len() - d,
    {
        let data = &p.data[d];
        let gi = match find_graph_of_data(&p.graphs, data.key.as_str()) {
            None => {
                proof {
                    lemma_graphs_ready_stays(*p, (d + 1) as nat, p.data@.len() as nat);
                }
                return Err(());
            },
            Some(gi) => gi,
        };
        if !data.complete || count_call_accesses(&data.accesses) != count_calls_by(&p.calls, p.graphs[gi].key.as_str()) {
            proof {
                lemma_graphs_ready_stays(*p, (d + 1) as nat, p.data@.len() as nat);
                assert(sites@ =~= Seq::<InlineSite>::empty());
            }
            return Ok(sites);
        }
        d = d + 1;
    }
    let mut i: usize = 0;
    assert(sites@ =~= Seq::<InlineSite>::empty());
    while i < p.calls.len()
        invariant
            i <= p.calls@.len(),
            system_complete(*p),
            graphs_ready(*p, p.data@.len() as nat) == Ok::<bool, ()>(true),
            scan_inline(*p, i as nat) == Ok::<Seq<InlineSite>, ()>(sites@),
            forall|k: int| 0 <= k < sites@.len() ==> inline_site_ok(*p, #[trigger] sites@[k]),
        decreases p.calls@.len() - i,
    {
        let ghost before = sites@;
        let step = step_inline(p, i);
        assert(scan_inline(*p, (i + 1) as nat) == match step {
            Err(_) => Err::<Seq<InlineSite>, ()>(()),
            Ok(o) => Ok(before + opt_inline(o)),
        });
        match step {
            Err(()) => {
                proof {
                    lemma_scan_inline_err_stays(*p, (i + 1) as nat, p.calls@.len() as nat);
                }
                return Err(());
            },
            Ok(Some(site)) => {
                sites.push(site);
                assert(sites@ =~= before + opt_inline(Some(site)));
                assert forall|k: int| 0 <= k < sites@.len() implies inline_site_ok(*p, #[trigger] sites@[k]) by {
                    if k < before.len() {
                        assert(sites@[k] == before[k]);
                    }
                }
            },
            Ok(None) => {
                assert(sites@ =~= before + opt_inline(None));
            },
        }
        i = i + 1;
    }
    Ok(sites)
}
/// The dependence graphs of a system projection's callables: each
/// callable's key, node keys and edges, in order.
pub open spec fn callable_views(deps: Seq<DependenceGraph>, graphs: Seq<CallableGraph>) -> bool {
    &&& deps.len() == graphs.len()
    &&& forall|i: int| 0 <= i < deps.len() ==> (#[trigger] deps[i]).key@ == graphs[i].key@ && deps[i].edges@
        == graphs[i].edges@ && deps[i].nodes@.len() == graphs[i].nodes@.len() && forall|k: int|
        0 <= k < deps[i].nodes@.len() ==> (#[trigger] deps[i].nodes@[k])@ == graphs[i].nodes@[k].key@
}

/// The dependence graphs of a system projection as impact queries read
/// them.
fn callable_dependence_graphs(p: &SystemProjection) -> (r: Vec<DependenceGraph>)
    ensures
        callable_views(r@, p.graphs@),
{
    let n = p.graphs.len();
    let mut out: Vec<DependenceGraph> = Vec::new();
    let mut i: usize = 0;
    while i < n
        invariant
            n == p.graphs@.len(),
            i <= n,
            out@.len() == i,
            forall|x: int| 0 <= x < i ==> (#[trigger] out@[x]).key@ == p.graphs@[x].key@ && out@[x].edges@
                == p.graphs@[x].edges@ && out@[x].nodes@.len() == p.graphs@[x].nodes@.len() && forall|k: int|
                0 <= k < out@[x].nodes@.len() ==> (#[trigger] out@[x].nodes@[k])@ == p.graphs@[x].nodes@[k].key@,
        decreases n - i,
    {
        let g = &p.graphs[i];
        let mut nodes: Vec<String> = Vec::new();
        let nn = g.nodes.len();
        let mut k: usize = 0;
        while k < nn
            invariant
                nn == g.nodes@.len(),
                k <= nn,
                nodes@.len() == k,
                forall|y: int| 0 <= y < k ==> (#[trigger] nodes@[y])@ == g.nodes@[y].key@,
            decreases nn - k,
        {
            nodes.push(g.nodes[k].key.clone());
            k = k + 1;
        }
        let mut edges: Vec<DependenceEdge> = Vec::new();
        let ne = g.edges.len();
        let mut e: usize = 0;
        while e < ne
            invariant
                ne == g.edges@.len(),
                e <= ne,
                edges@ == g.edges@.subrange(0, e as int),
            decreases ne - e,
        {
            edges.push(
                DependenceEdge {
                    key: g.edges[e].key.clone(),
                    from: g.edges[e].from.clone(),
                    to: g.edges[e].to.clone(),
                    flow: g.edges[e].flow,
                },
            );
            assert(edges@ =~= g.edges@.subrange(0, e + 1));
            e = e + 1;
        }
        assert(edges@ =~= g.edges@);
        out.push(DependenceGraph { key: g.key.clone(), nodes, edges });
        i = i + 1;
    }
    out
}

pub const BINDING_DETAIL: &'static str = "Complete Unique resolution binds this call site to the exact local callee owner.";
pub const SINGLE_USE_DETAIL: &'static str = "Complete call/reference enumeration contains exactly this one use.";
pub const SHAPE_DETAIL: &'static str = "Private zero-parameter unit helper requires no substitution or output binding.";
pub const SCOPE_DETAIL: &'static str =
    "The exact helper block replaces one direct call statement without flattening its scope.";
pub const EFFECTS_DETAIL: &'static str = "Complete callee data flow retains zero non-return effects and zero outputs.";
pub const FRAME_DETAIL: &'static str =
    "Inlining removes one call frame; caller-location, panic, and backtrace observations require review.";
pub const EXTRA_USE_DETAIL: &'static str = "Complete enumeration has no second call or value reference.";
pub const SUBSTITUTION_DETAIL: &'static str =
    "Callee summaries contain no formal input, output, mutation, or global binding.";
pub const BOUNDARY_DETAIL: &'static str = "Exact CST and complete control flow contain no forbidden helper boundary.";
pub const CALL_RATIONALE: &'static str = "The sole interprocedural call boundary is removed.";
pub const CALLEE_RATIONALE: &'static str = "The now-unused local helper callable is deleted.";
pub const CALLER_RATIONALE: &'static str = "The caller contains the exact helper block at the former call site.";

/// The impact cone of a site: the answer of a bidirectional query of depth
/// twelve around the call's dependence node in the caller's graph.
pub open spec fn inline_impact(p: SystemProjection, site: InlineSite, impact: ImpactCone) -> bool {
    exists|deps: Seq<DependenceGraph>|
        callable_views(deps, p.graphs@) && #[trigger] crate::impact::impact_answer(
            deps,
            p.graphs@[site.caller as int].key@,
            p.calls@[site.call as int].call_node@,
            ImpactDirection::Bidirectional,
            12,
            Ok(impact),
        )
}

/// The draft of an inline: bound to the recipe and the projection's
/// identities and eligibility; targeting the call's statement through the
/// call's dependence node; binding and single use proven on the call site,
/// shape and effects proven and the call frame unknown on the helper's
/// data-flow graph, scope proven on the call's control point; an extra
/// use disproven on the call site, substitution on the helper's data-flow
/// graph and a boundary on its control-flow graph; the call site and the
/// helper removed and the caller modified; the helper deleted and the call
/// statement replaced by the helper's body; the recipe's plans; review
/// required at safe-with-precondition.
pub open spec fn is_inline_draft(
    d: TransformationCandidateDraft,
    p: SystemProjection,
    site: InlineSite,
    recipe: TransformationRecipe,
) -> bool {
    let call = p.calls@[site.call as int];
    let caller = p.graphs@[site.caller as int];
    let callee = p.graphs@[site.callee as int];
    let callee_data = p.data@[site.callee_data as int];
    let access = p.data@[site.caller_data as int].accesses@[site.access as int];
    let helper = p.syntax@[site.helper as int];
    let statement = p.syntax@[site.statement as int];
    let body = p.syntax@[site.body as int];
    let call_site = GraphEntityView { layer: GraphEvidenceLayer::SystemDependence, graph: p.id@, entity: call.key@ };
    let de = GraphEntityView { layer: GraphEvidenceLayer::DataFlow, graph: callee_data.key@, entity: callee_data.key@ };
    let scope = GraphEntityView { layer: GraphEvidenceLayer::ControlFlow, graph: caller.flow_graph@, entity: access.point@ };
    let boundary = GraphEntityView {
        layer: GraphEvidenceLayer::ControlFlow,
        graph: callee.flow_graph@,
        entity: callee_data.flow_graph@,
    };
    let target = pdg_entity(caller.key@, call.call_node@);
    let helper_span = node_span(helper.key@);
    let statement_span = node_span(statement.key@);
    &&& d.recipe.spec_id() == recipe.spec_id()
    &&& (recipe.wf() ==> d.recipe.wf())
    &&& d.source.project_snapshot@ == p.snapshot@
    &&& d.source.analysis@ == p.analysis@
    &&& d.source.program_dependence_projection@ == p.program@
    &&& d.target.entity@ == target
    &&& d.target.node@ == statement.key@
    &&& d.target.span == statement_span
    &&& d.target.subtree_fingerprint is None
    &&& d.eligibility.consumer@ == p.eligibility.consumer@
    &&& d.eligibility.required_layers@ == p.eligibility.required_layers@
    &&& d.eligibility.eligible == p.eligibility.eligible
    &&& d.required_results@.len() == 6
    &&& single_result(d.required_results@[0], REQUIRED_BINDING@, ProofState::Proven, call_site, BINDING_DETAIL@)
    &&& single_result(d.required_results@[1], REQUIRED_SINGLE_USE@, ProofState::Proven, call_site, SINGLE_USE_DETAIL@)
    &&& single_result(d.required_results@[2], REQUIRED_SHAPE@, ProofState::Proven, de, SHAPE_DETAIL@)
    &&& single_result(d.required_results@[3], REQUIRED_SCOPE@, ProofState::Proven, scope, SCOPE_DETAIL@)
    &&& single_result(d.required_results@[4], REQUIRED_EFFECTS@, ProofState::Proven, de, EFFECTS_DETAIL@)
    &&& single_result(d.required_results@[5], REQUIRED_FRAME_REVIEW@, ProofState::Unknown, de, FRAME_DETAIL@)
    &&& d.forbidden_results@.len() == 3
    &&& single_result(d.forbidden_results@[0], FORBIDDEN_EXTRA_USE@, ProofState::Disproven, call_site, EXTRA_USE_DETAIL@)
    &&& single_result(d.forbidden_results@[1], FORBIDDEN_SUBSTITUTION@, ProofState::Disproven, de, SUBSTITUTION_DETAIL@)
    &&& single_result(d.forbidden_results@[2], FORBIDDEN_BOUNDARY@, ProofState::Disproven, boundary, BOUNDARY_DETAIL@)
    &&& d.expected_delta.changes@.len() == 3
    &&& d.expected_delta.changes@[0].kind == GraphChangeKind::Remove
    &&& d.expected_delta.changes@[0].entity@ == call_site
    &&& d.expected_delta.changes@[0].rationale@ == CALL_RATIONALE@
    &&& d.expected_delta.changes@[1].kind == GraphChangeKind::Remove
    &&& d.expected_delta.changes@[1].entity@ == pdg_entity(callee.key@, callee.key@)
    &&& d.expected_delta.changes@[1].rationale@ == CALLEE_RATIONALE@
    &&& d.expected_delta.changes@[2].kind == GraphChangeKind::Modify
    &&& d.expected_delta.changes@[2].entity@ == pdg_entity(caller.key@, caller.key@)
    &&& d.expected_delta.changes@[2].rationale@ == CALLER_RATIONALE@
    &&& d.edits@.len() == 2
    &&& d.edits@[0].target@ == helper.key@
    &&& d.edits@[0].span == helper_span
    &&& d.edits@[0].before@ == helper.text@
    &&& d.edits@[0].after@ == Seq::<char>::empty()
    &&& d.edits@[0].revision_guard@ == revision_guard_id(helper.key@.path, helper_span, helper.text@)
    &&& d.edits@[1].target@ == statement.key@
    &&& d.edits@[1].span == statement_span
    &&& d.edits@[1].before@ == statement.text@
    &&& d.edits@[1].after@ == body.text@
    &&& d.edits@[1].revision_guard@ == revision_guard_id(statement.key@.path, statement_span, statement.text@)
    &&& d.safety == SafetyClass::SafeWithPrecondition
    &&& d.disposition == CandidateDisposition::ReviewRequired
    &&& steps_agree(d.validation_plan.steps@, recipe.spec_draft().validation_plan.steps@)
    &&& d.rollback_plan.strategy == recipe.spec_draft().rollback_plan.strategy
    &&& d.rollback_plan.require_revision_guards == recipe.spec_draft().rollback_plan.require_revision_guards
    &&& keys_agree(d.rollback_plan.validation_steps@, recipe.spec_draft().rollback_plan.validation_steps@)
}

/// A candidate for an inline site: well formed, and its draft is, up to
/// the canonical order of its lists, the site's inline draft with its
/// impact cone.
#[verifier::opaque]
pub open spec fn inline_candidate_for(c: TransformationCandidate, p: SystemProjection, site: InlineSite, recipe: TransformationRecipe) -> bool {
    &&& c.wf()
    &&& exists|d: TransformationCandidateDraft|
        #[trigger] is_inline_draft(d, p, site, recipe) && candidate_arrangement(c.spec_draft(), d) && inline_impact(p, site, d.impact)
}

/// The span of a syntax node, or `None` when its rows do not fit.
fn span_of(key: &NodeKey) -> (r: Option<Span>)
    ensures
        r is None <==> key.start_row >= usize::MAX || key.end_row >= usize::MAX,
        r matches Some(s) ==> s == node_span(key@),
{
    if key.start_row >= usize::MAX || key.end_row >= usize::MAX {
        return None;
    }
    Some(Span { start_line: key.start_row + 1, end_line: key.end_row + 1, start_byte: key.start_byte, end_byte: key.end_byte })
}

/// When an inline site's candidate is owed: the rows of the helper and of
/// the call statement fit, the impact query around the call's dependence
/// node can be answered, and every draft of the site is valid.
pub open spec fn inline_owed(p: SystemProjection, deps: Seq<DependenceGraph>, site: InlineSite, recipe: TransformationRecipe) -> bool {
    &&& rows_fit(p.syntax@[site.helper as int].key@)
    &&& rows_fit(p.syntax@[site.statement as int].key@)
    &&& impact_found(deps, p.graphs@[site.caller as int].key@, p.calls@[site.call as int].call_node@, 12)
    &&& forall|d: TransformationCandidateDraft|
        #[trigger] is_inline_draft(d, p, site, recipe) && inline_impact(p, site, d.impact) ==> candidate_fields_valid(d)
}

/// The candidate of one inline site.
#[verifier::rlimit(40)]
fn inline_candidate(
    p: &SystemProjection,
    recipe: &TransformationRecipe,
    deps: &Vec<DependenceGraph>,
    site: InlineSite,
) -> (r: Result<TransformationCandidate, InlineHelperRecipeError>)
    requires
        inline_site_ok(*p, site),
        callable_views(deps@, p.graphs@),
    ensures
        r matches Ok(c) ==> inline_candidate_for(c, *p, site, *recipe),
        inline_owed(*p, deps@, site, *recipe) ==> r is Ok,
{
    let call = &p.calls[site.call];
    let caller = &p.graphs[site.caller];
    let callee = &p.graphs[site.callee];
    let callee_data = &p.data[site.callee_data];
    let access = &p.data[site.caller_data].accesses[site.access];
    let helper = &p.syntax[site.helper];
    let statement = &p.syntax[site.statement];
    let body = &p.syntax[site.body];
    let (helper_span, statement_span) = match (span_of(&helper.key), span_of(&statement.key)) {
        (Some(h), Some(s)) => (h, s),
        _ => {
            return Err(InlineHelperRecipeError::Projection("retained node rows are out of range".to_owned()));
        },
    };
    let impact = match program_dependence_impact_cone(
        deps,
        caller.key.as_str(),
        call.call_node.as_str(),
        ImpactDirection::Bidirectional,
        12,
    ) {
        Ok(c) => c,
        Err(e) => {
            return Err(InlineHelperRecipeError::Impact(e));
        },
    };
    let dk = callee_data.key.as_str();
    let sid = p.id.as_str();
    let ck = call.key.as_str();
    let required_results = vec![
        plain_result(REQUIRED_BINDING, ProofState::Proven, entity(GraphEvidenceLayer::SystemDependence, sid, ck), BINDING_DETAIL),
        plain_result(
            REQUIRED_SINGLE_USE,
            ProofState::Proven,
            entity(GraphEvidenceLayer::SystemDependence, sid, ck),
            SINGLE_USE_DETAIL,
        ),
        plain_result(REQUIRED_SHAPE, ProofState::Proven, entity(GraphEvidenceLayer::DataFlow, dk, dk), SHAPE_DETAIL),
        plain_result(
            REQUIRED_SCOPE,
            ProofState::Proven,
            entity(GraphEvidenceLayer::ControlFlow, caller.flow_graph.as_str(), access.point.as_str()),
            SCOPE_DETAIL,
        ),
        plain_result(REQUIRED_EFFECTS, ProofState::Proven, entity(GraphEvidenceLayer::DataFlow, dk, dk), EFFECTS_DETAIL),
        plain_result(REQUIRED_FRAME_REVIEW, ProofState::Unknown, entity(GraphEvidenceLayer::DataFlow, dk, dk), FRAME_DETAIL),
    ];
    let forbidden_results = vec![
        plain_result(
            FORBIDDEN_EXTRA_USE,
            ProofState::Disproven,
            entity(GraphEvidenceLayer::SystemDependence, sid, ck),
            EXTRA_USE_DETAIL,
        ),
        plain_result(
            FORBIDDEN_SUBSTITUTION,
            ProofState::Disproven,
            entity(GraphEvidenceLayer::DataFlow, dk, dk),
            SUBSTITUTION_DETAIL,
        ),
        plain_result(
            FORBIDDEN_BOUNDARY,
            ProofState::Disproven,
            entity(GraphEvidenceLayer::ControlFlow, callee.flow_graph.as_str(), callee_data.flow_graph.as_str()),
            BOUNDARY_DETAIL,
        ),
    ];
    let draft = TransformationCandidateDraft {
        recipe: recipe.duplicate(),
        source: CandidateSource {
            project_snapshot: p.snapshot.clone(),
            analysis: p.analysis.clone(),
            program_dependence_projection: p.program.clone(),
        },
        target: CandidateTarget {
            entity: entity(GraphEvidenceLayer::ProgramDependence, caller.key.as_str(), call.call_node.as_str()),
            node: statement.key.duplicate(),
            span: statement_span,
            subtree_fingerprint: None,
        },
        eligibility: GraphEligibilityDecision {
            consumer: p.eligibility.consumer.clone(),
            required_layers: copy_layers(p.eligibility.required_layers.as_slice()),
            eligible: p.eligibility.eligible,
        },
        required_results,
        forbidden_results,
        impact,
        expected_delta: ExpectedGraphDelta {
            changes: vec![
                ExpectedGraphChange {
                    kind: GraphChangeKind::Remove,
                    entity: entity(GraphEvidenceLayer::SystemDependence, sid, ck),
                    rationale: CALL_RATIONALE.to_owned(),
                },
                ExpectedGraphChange {
                    kind: GraphChangeKind::Remove,
                    entity: entity(GraphEvidenceLayer::ProgramDependence, callee.key.as_str(), callee.key.as_str()),
                    rationale: CALLEE_RATIONALE.to_owned(),
                },
                ExpectedGraphChange {
                    kind: GraphChangeKind::Modify,
                    entity: entity(GraphEvidenceLayer::ProgramDependence, caller.key.as_str(), caller.key.as_str()),
                    rationale: CALLER_RATIONALE.to_owned(),
                },
            ],
        },
        edits: vec![
            TransformationEdit::exact_node_deletion(helper.key.duplicate(), helper_span, helper.text.clone()),
            TransformationEdit::exact_node_replacement(
                statement.key.duplicate(),
                statement_span,
                statement.text.clone(),
                body.text.clone(),
            ),
        ],
        safety: SafetyClass::SafeWithPrecondition,
        disposition: CandidateDisposition::ReviewRequired,
        validation_plan: crate::recipe::duplicate_validation_plan(recipe.validation_plan()),
        rollback_plan: crate::recipe::duplicate_rollback_plan(recipe.rollback_plan()),
    };
    let ghost original = draft;
    proof {
        assert(crate::impact::impact_answer(deps@, caller.key@, call.call_node@, ImpactDirection::Bidirectional, 12, Ok(original.impact)));
        assert(inline_impact(*p, site, original.impact));
        assert(is_inline_draft(original, *p, site, *recipe));
    }
    match TransformationCandidate::new(draft) {
        Ok(c) => {
            proof {
                reveal(inline_candidate_for);
            }
            Ok(c)
        },
        Err(e) => Err(InlineHelperRecipeError::Contract(e)),
    }
}

/// The candidates of a sequence of inline sites, one for one.
pub open spec fn candidates_for_inlines(cs: Seq<TransformationCandidate>, p: SystemProjection, sites: Seq<InlineSite>, recipe: TransformationRecipe) -> bool {
    cs.len() == sites.len() && forall|k: int| 0 <= k < cs.len() ==> #[trigger] inline_candidate_for(cs[k], p, sites[k], recipe)
}

/// When the candidates of a projection are owed: its sites can be found
/// and, under the inline-helper recipe and the projection's dependence graphs,
/// the candidate of every site is owed.
pub open spec fn inline_all_owed(p: SystemProjection) -> bool {
    &&& inline_sites_of(p) is Ok
    &&& forall|recipe: TransformationRecipe, deps: Seq<DependenceGraph>, k: int|
        recipe_header(
                Ok(recipe),
                "rust-inline-exact-single-use-helper"@,
                "1.0.0"@,
                TransformationFamily::FunctionExpression,
                SafetyClass::SafeWithPrecondition,
                seq![
                    GraphEvidenceLayer::ControlFlow,
                    GraphEvidenceLayer::ControlRegions,
                    GraphEvidenceLayer::NonStructuredControl,
                    GraphEvidenceLayer::DataFlow,
                    GraphEvidenceLayer::ProgramDependence,
                    GraphEvidenceLayer::SystemDependence,
                ],
            ) && callable_views(deps, p.graphs@) && 0 <= k < inline_sites_of(p)->Ok_0.len()
            ==> #[trigger] inline_owed(p, deps, inline_sites_of(p)->Ok_0[k], recipe)
}

/// Finds every private, parameterless unit helper that a complete system
/// projection shows called exactly once, as a whole statement of a sibling
/// function, and proposes inlining its body there for review: one
/// candidate per site, ordered by candidate identity. A projection that
/// lacks a graph, data-flow graph, access, node or syntax node a call
/// refers to is refused.
pub fn detect_inline_single_use_helpers(p: &SystemProjection) -> (r: Result<Vec<TransformationCandidate>, InlineHelperRecipeError>)
    ensures
        inline_sites_of(*p) is Err ==> r matches Err(InlineHelperRecipeError::Projection(_)),
        inline_all_owed(*p) ==> r is Ok,
        r matches Ok(cs) ==> inline_sites_of(*p) is Ok && keys_sorted(cs@) && exists|
            recipe: TransformationRecipe,
            unsorted: Seq<TransformationCandidate>,
        |
            #![trigger candidates_for_inlines(unsorted, *p, inline_sites_of(*p)->Ok_0, recipe)]
            recipe_header(
                Ok(recipe),
                "rust-inline-exact-single-use-helper"@,
                "1.0.0"@,
                TransformationFamily::FunctionExpression,
                SafetyClass::SafeWithPrecondition,
                seq![
                    GraphEvidenceLayer::ControlFlow,
                    GraphEvidenceLayer::ControlRegions,
                    GraphEvidenceLayer::NonStructuredControl,
                    GraphEvidenceLayer::DataFlow,
                    GraphEvidenceLayer::ProgramDependence,
                    GraphEvidenceLayer::SystemDependence,
                ],
            ) && candidates_for_inlines(unsorted, *p, inline_sites_of(*p)->Ok_0, recipe) && cs@.to_multiset()
                == unsorted.to_multiset(),
{
    let recipe = match inline_single_use_helper_recipe() {
        Ok(recipe) => recipe,
        Err(e) => {
            if inline_sites(p).is_err() {
                return Err(InlineHelperRecipeError::Projection(
                    "system projection lacks a graph, access, node or syntax node a call refers to".to_owned(),
                ));
            }
            return Err(InlineHelperRecipeError::Contract(e));
        },
    };
    let sites = match inline_sites(p) {
        Ok(v) => v,
        Err(()) => {
            return Err(InlineHelperRecipeError::Projection(
                "system projection lacks a graph, access, node or syntax node a call refers to".to_owned(),
            ));
        },
    };
    let deps = callable_dependence_graphs(p);
    let mut candidates: Vec<TransformationCandidate> = Vec::new();
    let n = sites.len();
    proof {
        if inline_all_owed(*p) {
            assert forall|k: int| 0 <= k < n implies #[trigger] inline_owed(*p, deps@, sites@[k], recipe) by {
                assert(inline_owed(*p, deps@, inline_sites_of(*p)->Ok_0[k], recipe));
            }
        }
    }
    let mut i: usize = 0;
    while i < n
        invariant
            n == sites@.len(),
            i <= n,
            inline_sites_of(*p) == Ok::<Seq<InlineSite>, ()>(sites@),
            forall|k: int| 0 <= k < sites@.len() ==> inline_site_ok(*p, #[trigger] sites@[k]),
            callable_views(deps@, p.graphs@),
            candidates_for_inlines(candidates@, *p, sites@.subrange(0, i as int), recipe),
            inline_all_owed(*p) ==> forall|k: int| 0 <= k < n ==> #[trigger] inline_owed(*p, deps@, sites@[k], recipe),
        decreases n - i,
    {
        let c = inline_candidate(p, &recipe, &deps, sites[i])?;
        let ghost before = candidates@;
        candidates.push(c);
        proof {
            let prefix = sites@.subrange(0, i + 1);
            assert forall|k: int| 0 <= k < candidates@.len() implies #[trigger] inline_candidate_for(candidates@[k], *p, prefix[k], recipe) by {
                if k < i {
                    assert(candidates@[k] == before[k]);
                    assert(prefix[k] == sites@.subrange(0, i as int)[k]);
                }
            }
        }
        i = i + 1;
    }
    let ghost unsorted = candidates@;
    assert(sites@.subrange(0, n as int) =~= sites@);
    let sorted = sort_by_key(candidates);
    proof {
        assert(candidates_for_inlines(unsorted, *p, inline_sites_of(*p)->Ok_0, recipe));
        assert(sorted@.to_multiset() == unsorted.to_multiset());
    }
    Ok(sorted)
}
} // verus!
