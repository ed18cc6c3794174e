//! The local-cleanup candidates of a program-dependence projection: an
//! unused literal statement or literal local removed, and a temporary read
//! once, in the very next statement, inlined in place of that read.

use vstd::prelude::*;
use crate::order::compare_str;
use crate::target::NodeKey;
use crate::candidate::GraphEligibilityDecision;
use crate::impact::DependenceEdge;
use super::retained::{
    find_syntax, first_match, lemma_first_match_at, lemma_first_match_found, lemma_first_match_none, syntax_key_is,
    PdgNode, SyntaxNode,
};
use crate::target::NodeKeyView;
use super::branch_detect::{entity, plain_result};
use super::local_cleanup::{
    inline_single_use_temporary_recipe, remove_independent_dead_local_recipe, remove_unused_pure_expression_recipe,
    cleanup_layers, LocalCleanupRecipeError, BAD_SHAPE, CLOSED, DEF_USE, EFFECTFUL, EFFECTS, LITERAL, LOCATION,
    NO_REFS, PARTIAL, SINGLE_USE,
};
use super::recipe_header;
use super::unreachable::{copy_layers, node_span, rows_fit, single_result};
use crate::candidate::{
    candidate_arrangement, candidate_fields_valid, keys_agree, steps_agree, CandidateDisposition, CandidateSource, TransformationCandidate,
    TransformationCandidateDraft,
};
use crate::contract::{ProofState, TransformationFamily};
use crate::evidence::{
    ConditionResult, ExpectedGraphChange, ExpectedGraphDelta, GraphChangeKind, GraphEntityView, ImpactCone,
    ImpactDirection,
};
use crate::impact::{impact_found, pdg_entity, program_dependence_impact_cone, DependenceGraph};
use crate::json::string_append;
use crate::model::{GraphEvidenceLayer, SafetyClass, Span};
use crate::order::{keys_sorted, sort_by_key};
use crate::recipe::TransformationRecipe;
use crate::target::{revision_guard_id, CandidateTarget, TransformationEdit};
use super::branch_detect::{field_child, field_child_exec, named_children_exec, named_children_of};
use super::inline_detect::{parent_node, parent_node_exec};

verus! {

/// A local definition: its key, its control point, the scope fact it
/// comes from and the symbol it defines.
#[derive(Clone, Debug)]
pub struct LocalDefinition {
    pub key: String,
    pub point: String,
    pub source_fact: String,
    pub symbol: String,
}

/// A symbol access: its key, its control point, the symbol it reads or
/// writes if known, whether it is a read, the definitions that reach it,
/// the reference fact it comes from, and whether it is uncertain.
#[derive(Clone, Debug)]
pub struct LocalAccess {
    pub key: String,
    pub point: String,
    pub symbol: Option<String>,
    pub read: bool,
    pub reaching: Vec<String>,
    pub reference: String,
    pub uncertain: bool,
}

/// The effects at one control point: whether they are uncertain, and
/// whether there are none.
#[derive(Clone, Debug)]
pub struct PointEffects {
    pub point: String,
    pub uncertain: bool,
    pub empty: bool,
}

/// The data-flow facts of one callable.
#[derive(Clone, Debug)]
pub struct LocalData {
    pub key: String,
    pub complete: bool,
    pub definitions: Vec<LocalDefinition>,
    pub accesses: Vec<LocalAccess>,
    /// The control points of the data-flow boundaries.
    pub boundary_points: Vec<String>,
    pub effects: Vec<PointEffects>,
}

/// The program-dependence graph of one callable, with its eligibility for
/// each of the three cleanups.
#[derive(Clone, Debug)]
pub struct LocalGraph {
    pub key: String,
    pub complete: bool,
    pub has_gaps: bool,
    pub flow_graph: String,
    pub data_flow_graph: String,
    pub nodes: Vec<PdgNode>,
    pub edges: Vec<DependenceEdge>,
    pub temporary: GraphEligibilityDecision,
    pub expression: GraphEligibilityDecision,
    pub dead_local: GraphEligibilityDecision,
}

/// A scope fact and the syntax node it was read from.
#[derive(Clone, Debug)]
pub struct LocalFact {
    pub key: String,
    pub node: NodeKey,
}

/// A program-dependence projection with everything local cleanup reads.
#[derive(Clone, Debug)]
pub struct LocalProjection {
    pub id: String,
    pub snapshot: String,
    pub analysis: String,
    pub syntax: Vec<SyntaxNode>,
    pub facts: Vec<LocalFact>,
    pub data: Vec<LocalData>,
    pub graphs: Vec<LocalGraph>,
}

/// A node with an error, or a comment.
pub open spec fn flawed(n: SyntaxNode) -> bool {
    n.has_error || n.kind@ == "line_comment"@ || n.kind@ == "block_comment"@
}

/// Whether a descendant of node `n`, at most `depth` levels below its
/// children, is flawed: `Err` when the search meets a child outside the
/// tree, or a node with children at the depth limit.
pub open spec fn flawed_below(nodes: Seq<SyntaxNode>, n: int, depth: nat) -> Result<bool, ()>
    decreases depth, nodes[n].children@.len() + 1,
{
    flawed_below_from(nodes, n, 0, depth)
}

/// The search of `flawed_below` from the `k`-th child of node `n` on.
pub open spec fn flawed_below_from(nodes: Seq<SyntaxNode>, n: int, k: int, depth: nat) -> Result<bool, ()>
    decreases depth, nodes[n].children@.len() - k,
{
    let ch = nodes[n].children@;
    if k < 0 || k >= ch.len() {
        Ok(false)
    } else {
        let c = ch[k] as int;
        if c >= nodes.len() {
            Err(())
        } else if flawed(nodes[c]) {
            Ok(true)
        } else if nodes[c].children@.len() == 0 {
            flawed_below_from(nodes, n, k + 1, depth)
        } else if depth == 0 {
            Err(())
        } else {
            match flawed_below(nodes, c, (depth - 1) as nat) {
                Err(_) => Err(()),
                Ok(true) => Ok(true),
                Ok(false) => flawed_below_from(nodes, n, k + 1, depth),
            }
        }
    }
}

/// A node is flawed or holds a flawed node.
pub open spec fn bad_syntax_of(nodes: Seq<SyntaxNode>, n: int) -> Result<bool, ()> {
    if flawed(nodes[n]) {
        Ok(true)
    } else {
        flawed_below(nodes, n, nodes.len())
    }
}

/// A node stands directly in a block.
pub open spec fn direct_block_child(nodes: Seq<SyntaxNode>, n: int) -> bool {
    parent_node(nodes, n) matches Some(pa) && nodes[pa].kind@ == "block"@
}

/// A simple local: an unflawed `let` directly in a block, without a type
/// or an `else`, binding a plain identifier to a value; its pattern and its
/// value.
pub open spec fn simple_local_of(nodes: Seq<SyntaxNode>, n: int) -> Result<Option<(int, int)>, ()> {
    if nodes[n].kind@ != "let_declaration"@ || !direct_block_child(nodes, n) {
        Ok(None)
    } else {
        match bad_syntax_of(nodes, n) {
            Err(_) => Err(()),
            Ok(true) => Ok(None),
            Ok(false) => match field_child(nodes, n, "type"@) {
                Err(_) => Err(()),
                Ok(Some(_)) => Ok(None),
                Ok(None) => match field_child(nodes, n, "alternative"@) {
                    Err(_) => Err(()),
                    Ok(Some(_)) => Ok(None),
                    Ok(None) => match field_child(nodes, n, "pattern"@) {
                        Err(_) => Err(()),
                        Ok(pattern) => match field_child(nodes, n, "value"@) {
                            Err(_) => Err(()),
                            Ok(value) => match (pattern, value) {
                                (Some(pt), Some(v)) => if nodes[pt].kind@ != "identifier"@ {
                                    Ok(None)
                                } else {
                                    Ok(Some((pt, v)))
                                },
                                _ => Ok(None),
                            },
                        },
                    },
                },
            },
        }
    }
}

pub open spec fn literal_kind(k: Seq<char>) -> bool {
    k == "integer_literal"@ || k == "float_literal"@ || k == "boolean_literal"@ || k == "char_literal"@ || k
        == "string_literal"@ || k == "raw_string_literal"@
}

/// A closed literal: an error-free literal, or an unflawed parenthesized
/// or unary expression around one closed literal; `Err` past `depth`
/// levels or at a child outside the tree.
pub open spec fn closed_literal(nodes: Seq<SyntaxNode>, n: int, depth: nat) -> Result<bool, ()>
    decreases depth,
{
    let k = nodes[n].kind@;
    if literal_kind(k) {
        Ok(!nodes[n].has_error)
    } else if k != "parenthesized_expression"@ && k != "unary_expression"@ {
        Ok(false)
    } else {
        match bad_syntax_of(nodes, n) {
            Err(_) => Err(()),
            Ok(true) => Ok(false),
            Ok(false) => match named_children_of(nodes, n) {
                Err(_) => Err(()),
                Ok(ch) => if ch.len() != 1 {
                    Ok(false)
                } else if depth == 0 {
                    Err(())
                } else {
                    closed_literal(nodes, ch[0] as int, (depth - 1) as nat)
                },
            },
        }
    }
}

/// A closed expression: a closed literal, or an unflawed binary
/// expression of two closed expressions.
pub open spec fn closed_expression(nodes: Seq<SyntaxNode>, n: int, depth: nat) -> Result<bool, ()>
    decreases depth,
{
    match closed_literal(nodes, n, nodes.len()) {
        Err(_) => Err(()),
        Ok(true) => Ok(true),
        Ok(false) => if nodes[n].kind@ != "binary_expression"@ {
            Ok(false)
        } else {
            match bad_syntax_of(nodes, n) {
                Err(_) => Err(()),
                Ok(true) => Ok(false),
                Ok(false) => match named_children_of(nodes, n) {
                    Err(_) => Err(()),
                    Ok(ch) => if ch.len() != 2 {
                        Ok(false)
                    } else if depth == 0 {
                        Err(())
                    } else {
                        match closed_expression(nodes, ch[0] as int, (depth - 1) as nat) {
                            Err(_) => Err(()),
                            Ok(false) => Ok(false),
                            Ok(true) => closed_expression(nodes, ch[1] as int, (depth - 1) as nat),
                        }
                    },
                },
            }
        },
    }
}

/// An unflawed expression statement directly in a block whose one named
/// child is a closed literal.
pub open spec fn literal_statement_of(nodes: Seq<SyntaxNode>, n: int) -> Result<bool, ()> {
    if nodes[n].kind@ != "expression_statement"@ || !direct_block_child(nodes, n) {
        Ok(false)
    } else {
        match bad_syntax_of(nodes, n) {
            Err(_) => Err(()),
            Ok(true) => Ok(false),
            Ok(false) => match named_children_of(nodes, n) {
                Err(_) => Err(()),
                Ok(ch) => if ch.len() != 1 {
                    Ok(false)
                } else {
                    closed_literal(nodes, ch[0] as int, nodes.len())
                },
            },
        }
    }
}

/// The ancestor of a node, or the node itself, that stands directly in a
/// block; none when a function comes first. `Err` at a parent outside the
/// tree or past `fuel` steps.
pub open spec fn body_child_of(nodes: Seq<SyntaxNode>, n: int, fuel: nat) -> Result<Option<int>, ()>
    decreases fuel,
{
    match nodes[n].parent {
        None => Ok(None),
        Some(pa) => if pa >= nodes.len() {
            Err(())
        } else if nodes[pa as int].kind@ == "block"@ {
            Ok(Some(n))
        } else if nodes[pa as int].kind@ == "function_item"@ {
            Ok(None)
        } else if fuel == 0 {
            Err(())
        } else {
            body_child_of(nodes, pa as int, (fuel - 1) as nat)
        },
    }
}

/// Two siblings stand one right after the other among the named children
/// of their parent.
pub open spec fn adjacent_of(nodes: Seq<SyntaxNode>, d: int, u: int) -> Result<bool, ()> {
    if nodes[d].parent != nodes[u].parent {
        Ok(false)
    } else {
        match parent_node(nodes, d) {
            None => Ok(false),
            Some(b) => match named_children_of(nodes, b) {
                Err(_) => Err(()),
                Ok(ch) => Ok(consecutive(ch, d, u)),
            },
        }
    }
}

/// `d` stands right before `u` in a list of positions.
pub open spec fn consecutive(ch: Seq<usize>, d: int, u: int) -> bool {
    exists|k: int| 0 <= k && k + 1 < ch.len() && #[trigger] ch[k] == d && ch[k + 1] == u
}

pub open spec fn hiding_kind(k: Seq<char>) -> bool {
    k == "macro_invocation"@ || k == "closure_expression"@ || k == "async_block"@ || k == "unsafe_block"@ || k
        == "attribute_item"@ || k == "inner_attribute_item"@
}

/// Whether the path from a use up to its statement passes a macro,
/// closure, async or unsafe block or attribute, leaves the tree's root, or
/// ends in a flawed statement. `Err` at a parent outside the tree or past
/// `fuel` steps.
pub open spec fn use_hidden(nodes: Seq<SyntaxNode>, cur: int, stmt: int, fuel: nat) -> Result<bool, ()>
    decreases fuel,
{
    if cur == stmt {
        bad_syntax_of(nodes, stmt)
    } else if hiding_kind(nodes[cur].kind@) {
        Ok(true)
    } else {
        match nodes[cur].parent {
            None => Ok(true),
            Some(pa) => if pa >= nodes.len() || fuel == 0 {
                Err(())
            } else {
                use_hidden(nodes, pa as int, stmt, (fuel - 1) as nat)
            },
        }
    }
}

fn flawed_exec(n: &SyntaxNode) -> (r: bool)
    ensures
        r == flawed(*n),
{
    n.has_error || compare_str(n.kind.as_str(), "line_comment") == 0 || compare_str(n.kind.as_str(), "block_comment") == 0
}

fn flawed_below_exec(nodes: &Vec<SyntaxNode>, n: usize, depth: usize) -> (r: Result<bool, ()>)
    requires
        n < nodes@.len(),
    ensures
        r == flawed_below(nodes@, n as int, depth as nat),
    decreases depth, nodes@[n as int].children@.len() + 1,
{
    let ch = &nodes[n].children;
    let m = ch.len();
    let mut k: usize = 0;
    while k < m
        invariant
            n < nodes@.len(),
            m == ch@.len(),
            *ch == nodes@[n as int].children,
            k <= m,
            flawed_below(nodes@, n as int, depth as nat) == flawed_below_from(nodes@, n as int, k as int, depth as nat),
        decreases m - k,
    {
        let c = ch[k];
        if c >= nodes.len() {
            return Err(());
        }
        if flawed_exec(&nodes[c]) {
            return Ok(true);
        }
        if nodes[c].children.len() > 0 {
            if depth == 0 {
                return Err(());
            }
            match flawed_below_exec(nodes, c, depth - 1) {
                Err(()) => {
                    return Err(());
                },
                Ok(true) => {
                    return Ok(true);
                },
                Ok(false) => {},
            }
        }
        k = k + 1;
    }
    Ok(false)
}

fn bad_syntax(nodes: &Vec<SyntaxNode>, n: usize) -> (r: Result<bool, ()>)
    requires
        n < nodes@.len(),
    ensures
        r == bad_syntax_of(nodes@, n as int),
{
    if flawed_exec(&nodes[n]) {
        return Ok(true);
    }
    flawed_below_exec(nodes, n, nodes.len())
}

fn direct_block_child_exec(nodes: &Vec<SyntaxNode>, n: usize) -> (r: bool)
    requires
        n < nodes@.len(),
    ensures
        r == direct_block_child(nodes@, n as int),
{
    match parent_node_exec(nodes, n) {
        None => false,
        Some(pa) => compare_str(nodes[pa].kind.as_str(), "block") == 0,
    }
}

pub fn simple_local(nodes: &Vec<SyntaxNode>, n: usize) -> (r: Result<Option<(usize, usize)>, ()>)
    requires
        n < nodes@.len(),
    ensures
        match r {
            Err(_) => simple_local_of(nodes@, n as int) is Err,
            Ok(None) => simple_local_of(nodes@, n as int) == Ok::<Option<(int, int)>, ()>(None),
            Ok(Some(s)) => simple_local_of(nodes@, n as int) == Ok::<Option<(int, int)>, ()>(
                Some((s.0 as int, s.1 as int)),
            ) && s.0 < nodes@.len() && s.1 < nodes@.len(),
        },
{
    if compare_str(nodes[n].kind.as_str(), "let_declaration") != 0 || !direct_block_child_exec(nodes, n) {
        return Ok(None);
    }
    if bad_syntax(nodes, n)? {
        return Ok(None);
    }
    if field_child_exec(nodes, n, "type")?.is_some() {
        return Ok(None);
    }
    if field_child_exec(nodes, n, "alternative")?.is_some() {
        return Ok(None);
    }
    let pattern = field_child_exec(nodes, n, "pattern")?;
    let value = field_child_exec(nodes, n, "value")?;
    match (pattern, value) {
        (Some(pt), Some(v)) => {
            proof {
                super::branch_detect::lemma_field_child_in_tree(nodes@, n as int, "pattern"@);
                super::branch_detect::lemma_field_child_in_tree(nodes@, n as int, "value"@);
            }
            if compare_str(nodes[pt].kind.as_str(), "identifier") != 0 {
                Ok(None)
            } else {
                Ok(Some((pt, v)))
            }
        },
        _ => Ok(None),
    }
}

fn literal_kind_exec(k: &str) -> (r: bool)
    ensures
        r == literal_kind(k@),
{
    compare_str(k, "integer_literal") == 0 || compare_str(k, "float_literal") == 0 || compare_str(k, "boolean_literal")
        == 0 || compare_str(k, "char_literal") == 0 || compare_str(k, "string_literal") == 0 || compare_str(
        k,
        "raw_string_literal",
    ) == 0
}

pub fn closed_literal_exec(nodes: &Vec<SyntaxNode>, n: usize, depth: usize) -> (r: Result<bool, ()>)
    requires
        n < nodes@.len(),
    ensures
        r == closed_literal(nodes@, n as int, depth as nat),
    decreases depth,
{
    let k = nodes[n].kind.as_str();
    if literal_kind_exec(k) {
        return Ok(!nodes[n].has_error);
    }
    if compare_str(k, "parenthesized_expression") != 0 && compare_str(k, "unary_expression") != 0 {
        return Ok(false);
    }
    if bad_syntax(nodes, n)? {
        return Ok(false);
    }
    let ch = named_children_exec(nodes, n)?;
    if ch.len() != 1 {
        return Ok(false);
    }
    if depth == 0 {
        return Err(());
    }
    closed_literal_exec(nodes, ch[0], depth - 1)
}

pub fn closed_expression_exec(nodes: &Vec<SyntaxNode>, n: usize, depth: usize) -> (r: Result<bool, ()>)
    requires
        n < nodes@.len(),
    ensures
        r == closed_expression(nodes@, n as int, depth as nat),
    decreases depth,
{
    if closed_literal_exec(nodes, n, nodes.len())? {
        return Ok(true);
    }
    if compare_str(nodes[n].kind.as_str(), "binary_expression") != 0 {
        return Ok(false);
    }
    if bad_syntax(nodes, n)? {
        return Ok(false);
    }
    let ch = named_children_exec(nodes, n)?;
    if ch.len() != 2 {
        return Ok(false);
    }
    if depth == 0 {
        return Err(());
    }
    if !closed_expression_exec(nodes, ch[0], depth - 1)? {
        return Ok(false);
    }
    closed_expression_exec(nodes, ch[1], depth - 1)
}

pub fn literal_statement(nodes: &Vec<SyntaxNode>, n: usize) -> (r: Result<bool, ()>)
    requires
        n < nodes@.len(),
    ensures
        r == literal_statement_of(nodes@, n as int),
{
    if compare_str(nodes[n].kind.as_str(), "expression_statement") != 0 || !direct_block_child_exec(nodes, n) {
        return Ok(false);
    }
    if bad_syntax(nodes, n)? {
        return Ok(false);
    }
    let ch = named_children_exec(nodes, n)?;
    if ch.len() != 1 {
        return Ok(false);
    }
    closed_literal_exec(nodes, ch[0], nodes.len())
}

fn body_child(nodes: &Vec<SyntaxNode>, n: usize, fuel: usize) -> (r: Result<Option<usize>, ()>)
    requires
        n < nodes@.len(),
    ensures
        match r {
            Err(_) => body_child_of(nodes@, n as int, fuel as nat) is Err,
            Ok(None) => body_child_of(nodes@, n as int, fuel as nat) == Ok::<Option<int>, ()>(None),
            Ok(Some(s)) => body_child_of(nodes@, n as int, fuel as nat) == Ok::<Option<int>, ()>(Some(s as int))
                && s < nodes@.len(),
        },
    decreases fuel,
{
    match nodes[n].parent {
        None => Ok(None),
        Some(pa) => {
            if pa >= nodes.len() {
                return Err(());
            }
            if compare_str(nodes[pa].kind.as_str(), "block") == 0 {
                return Ok(Some(n));
            }
            if compare_str(nodes[pa].kind.as_str(), "function_item") == 0 {
                return Ok(None);
            }
            if fuel == 0 {
                return Err(());
            }
            body_child(nodes, pa, fuel - 1)
        },
    }
}

fn adjacent(nodes: &Vec<SyntaxNode>, d: usize, u: usize) -> (r: Result<bool, ()>)
    requires
        d < nodes@.len(),
        u < nodes@.len(),
    ensures
        r == adjacent_of(nodes@, d as int, u as int),
{
    if nodes[d].parent != nodes[u].parent {
        return Ok(false);
    }
    let b = match parent_node_exec(nodes, d) {
        None => {
            return Ok(false);
        },
        Some(b) => b,
    };
    let ch = named_children_exec(nodes, b)?;
    let ghost b_int = b as int;
    assert(parent_node(nodes@, d as int) == Some(b_int));
    let mut k: usize = 0;
    while k < ch.len()
        invariant
            k <= ch@.len(),
            d < nodes@.len(),
            u < nodes@.len(),
            named_children_of(nodes@, b_int) == Ok::<Seq<usize>, ()>(ch@),
            parent_node(nodes@, d as int) == Some(b_int),
            nodes@[d as int].parent == nodes@[u as int].parent,
            forall|j: int| 0 <= j < k && j + 1 < ch@.len() ==> !(#[trigger] ch@[j] == d && ch@[j + 1] == u),
        decreases ch@.len() - k,
    {
        if k + 1 < ch.len() && ch[k] == d && ch[k + 1] == u {
            assert(ch@[k as int] == d && ch@[k + 1] == u);
            let ghost di = d as int;
            let ghost ui = u as int;
            assert(consecutive(ch@, di, ui));
            return Ok(true);
        }
        k = k + 1;
    }
    assert forall|j: int| 0 <= j && j + 1 < ch@.len() implies !(#[trigger] ch@[j] == d && ch@[j + 1] == u) by {
        assert(j < k);
    }
    assert(!consecutive(ch@, d as int, u as int));
    Ok(false)
}

fn hiding_kind_exec(k: &str) -> (r: bool)
    ensures
        r == hiding_kind(k@),
{
    compare_str(k, "macro_invocation") == 0 || compare_str(k, "closure_expression") == 0 || compare_str(k, "async_block")
        == 0 || compare_str(k, "unsafe_block") == 0 || compare_str(k, "attribute_item") == 0 || compare_str(
        k,
        "inner_attribute_item",
    ) == 0
}

fn use_hidden_exec(nodes: &Vec<SyntaxNode>, cur: usize, stmt: usize, fuel: usize) -> (r: Result<bool, ()>)
    requires
        cur < nodes@.len(),
        stmt < nodes@.len(),
    ensures
        r == use_hidden(nodes@, cur as int, stmt as int, fuel as nat),
    decreases fuel,
{
    if cur == stmt {
        return bad_syntax(nodes, stmt);
    }
    if hiding_kind_exec(nodes[cur].kind.as_str()) {
        return Ok(true);
    }
    match nodes[cur].parent {
        None => Ok(true),
        Some(pa) => {
            if pa >= nodes.len() || fuel == 0 {
                return Err(());
            }
            use_hidden_exec(nodes, pa, stmt, fuel - 1)
        },
    }
}

pub open spec fn data_key_is(key: Seq<char>) -> spec_fn(LocalData) -> bool {
    |d: LocalData| d.key@ == key
}

pub open spec fn local_fact_is(key: Seq<char>) -> spec_fn(LocalFact) -> bool {
    |f: LocalFact| f.key@ == key
}

pub open spec fn node_at_point(point: Seq<char>) -> spec_fn(PdgNode) -> bool {
    |n: PdgNode| n.point@ == point
}

pub open spec fn effects_at(point: Seq<char>) -> spec_fn(PointEffects) -> bool {
    |e: PointEffects| e.point@ == point
}

/// How many definitions sit at a point.
pub open spec fn definitions_at(defs: Seq<LocalDefinition>, point: Seq<char>) -> nat
    decreases defs.len(),
{
    if defs.len() == 0 {
        0
    } else {
        definitions_at(defs.drop_last(), point) + if defs.last().point@ == point {
            1nat
        } else {
            0nat
        }
    }
}

/// A point holds `allowed` definitions and nothing else: no access, no
/// boundary, and certain, empty effects.
pub open spec fn point_free(d: LocalData, point: Seq<char>, allowed: nat) -> bool {
    &&& definitions_at(d.definitions@, point) == allowed
    &&& forall|i: int| 0 <= i < d.accesses@.len() ==> (#[trigger] d.accesses@[i]).point@ != point
    &&& forall|i: int| 0 <= i < d.boundary_points@.len() ==> (#[trigger] d.boundary_points@[i])@ != point
    &&& first_match(d.effects@, effects_at(point)) matches Some(e) && !d.effects@[e].uncertain && d.effects@[e].empty
}

/// The positions, among the first `k`, of the definitions at a point whose
/// scope fact was read from the pattern.
pub open spec fn pattern_definitions(
    facts: Seq<LocalFact>,
    defs: Seq<LocalDefinition>,
    point: Seq<char>,
    pattern: NodeKeyView,
    k: nat,
) -> Seq<usize>
    decreases k,
{
    if k == 0 {
        Seq::empty()
    } else {
        let def = defs[k - 1];
        pattern_definitions(facts, defs, point, pattern, (k - 1) as nat) + if def.point@ == point && (first_match(
            facts,
            local_fact_is(def.source_fact@),
        ) matches Some(fi) && facts[fi].node@ == pattern) {
            seq![(k - 1) as usize]
        } else {
            Seq::empty()
        }
    }
}

/// The positions, among the first `k`, of the accesses of a symbol.
pub open spec fn symbol_accesses(accs: Seq<LocalAccess>, symbol: Seq<char>, k: nat) -> Seq<usize>
    decreases k,
{
    if k == 0 {
        Seq::empty()
    } else {
        symbol_accesses(accs, symbol, (k - 1) as nat) + if accs[k - 1].symbol matches Some(sy) && sy@ == symbol {
            seq![(k - 1) as usize]
        } else {
            Seq::empty()
        }
    }
}

/// The data-flow graph of a dependence graph, when both are complete,
/// certain and eligible for every cleanup; `Err` when it is missing.
pub open spec fn graph_data(p: LocalProjection, gi: int) -> Result<Option<int>, ()> {
    let g = p.graphs@[gi];
    match first_match(p.data@, data_key_is(g.data_flow_graph@)) {
        None => Err(()),
        Some(di) => {
            let d = p.data@[di];
            if !g.complete || g.has_gaps || !d.complete || (exists|i: int|
                0 <= i < d.effects@.len() && (#[trigger] d.effects@[i]).uncertain) || (exists|i: int|
                0 <= i < d.accesses@.len() && (#[trigger] d.accesses@[i]).uncertain) || !g.temporary.eligible
                || !g.expression.eligible || !g.dead_local.eligible {
                Ok(None)
            } else {
                Ok(Some(di))
            }
        },
    }
}

#[derive(Clone, Copy, Debug, PartialEq, Eq)]
pub enum LocalSiteKind {
    /// An unused literal statement.
    Literal,
    /// A literal local that nothing reads.
    DeadLocal,
    /// A temporary read once, in the next statement.
    Temporary,
}

/// A cleanup site, by positions: the dependence graph, its data-flow graph
/// and the root node; the statement; for a local, its value and
/// definition; for a temporary, its access, the use's syntax node and the
/// use's dependence node. Positions a kind does not use are zero.
#[derive(Clone, Copy, Debug)]
pub struct LocalSite {
    pub kind: LocalSiteKind,
    pub graph: usize,
    pub data: usize,
    pub root: usize,
    pub statement: usize,
    pub value: usize,
    pub definition: usize,
    pub access: usize,
    pub use_node: usize,
    pub use_root: usize,
}

pub open spec fn site_of(
    kind: LocalSiteKind,
    gi: int,
    di: int,
    ni: int,
    st: int,
    value: int,
    def: int,
    acc: int,
    un: int,
    ur: int,
) -> LocalSite {
    LocalSite {
        kind,
        graph: gi as usize,
        data: di as usize,
        root: ni as usize,
        statement: st as usize,
        value: value as usize,
        definition: def as usize,
        access: acc as usize,
        use_node: un as usize,
        use_root: ur as usize,
    }
}

/// The use of a temporary, once its one read is known: the use's syntax
/// node, its statement must follow the `let` directly, and nothing may
/// hide the use; then the use's dependence node. `Err` when a fact, syntax
/// node or dependence node is missing.
pub open spec fn temporary_use(p: LocalProjection, gi: int, di: int, ni: int, v: int, value: int, def: int, acc: int) -> Result<Option<LocalSite>, ()> {
    let a = p.data@[di].accesses@[acc];
    match first_match(p.facts@, local_fact_is(a.reference@)) {
        None => Err(()),
        Some(fi) => match first_match(p.syntax@, syntax_key_is(p.facts@[fi].node@)) {
            None => Err(()),
            Some(un) => match body_child_of(p.syntax@, un, p.syntax@.len()) {
                Err(_) => Err(()),
                Ok(None) => Ok(None),
                Ok(Some(us)) => if p.syntax@[un].kind@ != "identifier"@ {
                    Ok(None)
                } else {
                    match adjacent_of(p.syntax@, v, us) {
                        Err(_) => Err(()),
                        Ok(false) => Ok(None),
                        Ok(true) => match use_hidden(p.syntax@, un, us, p.syntax@.len()) {
                            Err(_) => Err(()),
                            Ok(true) => Ok(None),
                            Ok(false) => match first_match(p.graphs@[gi].nodes@, node_at_point(a.point@)) {
                                None => Err(()),
                                Some(ur) => Ok(Some(site_of(LocalSiteKind::Temporary, gi, di, ni, v, value, def, acc, un, ur))),
                            },
                        },
                    }
                },
            },
        },
    }
}

/// The site of a simple local: removed when nothing reads it and its value
/// is a closed literal; inlined when one read, reached only by this
/// definition, uses it and its value is a closed expression.
pub open spec fn local_site(p: LocalProjection, gi: int, di: int, ni: int, v: int, pattern: int, value: int) -> Result<Option<LocalSite>, ()> {
    let d = p.data@[di];
    let point = p.graphs@[gi].nodes@[ni].point@;
    let defs = pattern_definitions(p.facts@, d.definitions@, point, p.syntax@[pattern].key@, d.definitions@.len());
    if defs.len() != 1 || !point_free(d, point, 1) {
        Ok(None)
    } else {
        let def = d.definitions@[defs[0] as int];
        let accs = symbol_accesses(d.accesses@, def.symbol@, d.accesses@.len());
        if accs.len() == 0 {
            match closed_literal(p.syntax@, value, p.syntax@.len()) {
                Err(_) => Err(()),
                Ok(true) => Ok(Some(site_of(LocalSiteKind::DeadLocal, gi, di, ni, v, value, defs[0] as int, 0, 0, 0))),
                Ok(false) => Ok(None),
            }
        } else if accs.len() != 1 {
            Ok(None)
        } else {
            match closed_expression(p.syntax@, value, p.syntax@.len()) {
                Err(_) => Err(()),
                Ok(false) => Ok(None),
                Ok(true) => {
                    let a = d.accesses@[accs[0] as int];
                    if !a.read || a.reaching@.len() != 1 || a.reaching@[0]@ != def.key@ {
                        Ok(None)
                    } else {
                        temporary_use(p, gi, di, ni, v, value, defs[0] as int, accs[0] as int)
                    }
                },
            }
        }
    }
}

/// The site a reachable dependence node yields, if any, from its Rust
/// syntax node: an unused literal statement at an otherwise empty point,
/// or a simple local. `Err` when its syntax node or a fact it needs is
/// missing.
pub open spec fn local_step(p: LocalProjection, gi: int, di: int, ni: int) -> Result<Option<LocalSite>, ()> {
    let root = p.graphs@[gi].nodes@[ni];
    if !root.reachable {
        Ok(None)
    } else {
        match root.source {
            None => Ok(None),
            Some(src) => match first_match(p.syntax@, syntax_key_is(src@)) {
                None => Err(()),
                Some(v) => if !p.syntax@[v].rust || p.syntax@[v].has_error {
                    Ok(None)
                } else {
                    match literal_statement_of(p.syntax@, v) {
                        Err(_) => Err(()),
                        Ok(lit) => if lit && point_free(p.data@[di], root.point@, 0) {
                            Ok(Some(site_of(LocalSiteKind::Literal, gi, di, ni, v, 0, 0, 0, 0, 0)))
                        } else {
                            match simple_local_of(p.syntax@, v) {
                                Err(_) => Err(()),
                                Ok(None) => Ok(None),
                                Ok(Some(pv)) => local_site(p, gi, di, ni, v, pv.0, pv.1),
                            }
                        },
                    }
                },
            },
        }
    }
}

pub open spec fn opt_site(o: Option<LocalSite>) -> Seq<LocalSite> {
    match o {
        Some(x) => seq![x],
        None => Seq::empty(),
    }
}

/// The sites of the first `k` nodes of a graph.
pub open spec fn scan_nodes(p: LocalProjection, gi: int, di: int, k: nat) -> Result<Seq<LocalSite>, ()>
    decreases k,
{
    if k == 0 {
        Ok(Seq::empty())
    } else {
        match scan_nodes(p, gi, di, (k - 1) as nat) {
            Err(_) => Err(()),
            Ok(sites) => match local_step(p, gi, di, k - 1) {
                Err(_) => Err(()),
                Ok(o) => Ok(sites + opt_site(o)),
            },
        }
    }
}

/// The sites of the first `k` graphs.
pub open spec fn scan_graphs(p: LocalProjection, k: nat) -> Result<Seq<LocalSite>, ()>
    decreases k,
{
    if k == 0 {
        Ok(Seq::empty())
    } else {
        match scan_graphs(p, (k - 1) as nat) {
            Err(_) => Err(()),
            Ok(sites) => match graph_data(p, k - 1) {
                Err(_) => Err(()),
                Ok(None) => Ok(sites),
                Ok(Some(di)) => match scan_nodes(p, k - 1, di, p.graphs@[k - 1].nodes@.len()) {
                    Err(_) => Err(()),
                    Ok(more) => Ok(sites + more),
                },
            },
        }
    }
}

/// The cleanup sites of a projection, graph by graph and node by node.
pub open spec fn local_sites_of(p: LocalProjection) -> Result<Seq<LocalSite>, ()> {
    scan_graphs(p, p.graphs@.len())
}

/// A site names positions of the projection that its kind uses.
pub open spec fn local_site_ok(p: LocalProjection, site: LocalSite) -> bool {
    &&& site.graph < p.graphs@.len()
    &&& site.data < p.data@.len()
    &&& site.root < p.graphs@[site.graph as int].nodes@.len()
    &&& site.statement < p.syntax@.len()
    &&& site.kind != LocalSiteKind::Literal ==> site.value < p.syntax@.len() && site.definition
        < p.data@[site.data as int].definitions@.len()
    &&& site.kind == LocalSiteKind::Temporary ==> site.access < p.data@[site.data as int].accesses@.len() && site.use_node
        < p.syntax@.len() && site.use_root < p.graphs@[site.graph as int].nodes@.len()
}

fn find_data(data: &Vec<LocalData>, key: &str) -> (r: Option<usize>)
    ensures
        r is None ==> first_match(data@, data_key_is(key@)) is None,
        r matches Some(i) ==> first_match(data@, data_key_is(key@)) == Some(i as int) && i < data@.len(),
{
    let mut i: usize = 0;
    while i < data.len()
        invariant
            i <= data@.len(),
            forall|j: int| 0 <= j < i ==> !data_key_is(key@)(#[trigger] data@[j]),
        decreases data@.len() - i,
    {
        if compare_str(data[i].key.as_str(), key) == 0 {
            proof {
                lemma_first_match_at(data@, data_key_is(key@), i as int);
            }
            return Some(i);
        }
        i = i + 1;
    }
    proof {
        lemma_first_match_none(data@, data_key_is(key@));
    }
    None
}

fn find_fact(facts: &Vec<LocalFact>, key: &str) -> (r: Option<usize>)
    ensures
        r is None ==> first_match(facts@, local_fact_is(key@)) is None,
        r matches Some(i) ==> first_match(facts@, local_fact_is(key@)) == Some(i as int) && i < facts@.len(),
{
    let mut i: usize = 0;
    while i < facts.len()
        invariant
            i <= facts@.len(),
            forall|j: int| 0 <= j < i ==> !local_fact_is(key@)(#[trigger] facts@[j]),
        decreases facts@.len() - i,
    {
        if compare_str(facts[i].key.as_str(), key) == 0 {
            proof {
                lemma_first_match_at(facts@, local_fact_is(key@), i as int);
            }
            return Some(i);
        }
        i = i + 1;
    }
    proof {
        lemma_first_match_none(facts@, local_fact_is(key@));
    }
    None
}

fn find_node_at(nodes: &Vec<PdgNode>, point: &str) -> (r: Option<usize>)
    ensures
        r is None ==> first_match(nodes@, node_at_point(point@)) is None,
        r matches Some(i) ==> first_match(nodes@, node_at_point(point@)) == Some(i as int) && i < nodes@.len(),
{
    let mut i: usize = 0;
    while i < nodes.len()
        invariant
            i <= nodes@.len(),
            forall|j: int| 0 <= j < i ==> !node_at_point(point@)(#[trigger] nodes@[j]),
        decreases nodes@.len() - i,
    {
        if compare_str(nodes[i].point.as_str(), point) == 0 {
            proof {
                lemma_first_match_at(nodes@, node_at_point(point@), i as int);
            }
            return Some(i);
        }
        i = i + 1;
    }
    proof {
        lemma_first_match_none(nodes@, node_at_point(point@));
    }
    None
}

fn find_effects(effects: &Vec<PointEffects>, point: &str) -> (r: Option<usize>)
    ensures
        r is None ==> first_match(effects@, effects_at(point@)) is None,
        r matches Some(i) ==> first_match(effects@, effects_at(point@)) == Some(i as int) && i < effects@.len(),
{
    let mut i: usize = 0;
    while i < effects.len()
        invariant
            i <= effects@.len(),
            forall|j: int| 0 <= j < i ==> !effects_at(point@)(#[trigger] effects@[j]),
        decreases effects@.len() - i,
    {
        if compare_str(effects[i].point.as_str(), point) == 0 {
            proof {
                lemma_first_match_at(effects@, effects_at(point@), i as int);
            }
            return Some(i);
        }
        i = i + 1;
    }
    proof {
        lemma_first_match_none(effects@, effects_at(point@));
    }
    None
}

fn count_definitions_at(defs: &Vec<LocalDefinition>, point: &str) -> (r: usize)
    ensures
        r == definitions_at(defs@, point@),
{
    let mut n: usize = 0;
    let mut i: usize = 0;
    while i < defs.len()
        invariant
            i <= defs@.len(),
            n == definitions_at(defs@.subrange(0, i as int), point@),
            n <= i,
        decreases defs@.len() - i,
    {
        assert(defs@.subrange(0, i + 1).drop_last() =~= defs@.subrange(0, i as int));
        if compare_str(defs[i].point.as_str(), point) == 0 {
            n = n + 1;
        }
        i = i + 1;
    }
    assert(defs@.subrange(0, defs@.len() as int) =~= defs@);
    n
}

fn point_free_exec(d: &LocalData, point: &str, allowed: usize) -> (r: bool)
    ensures
        r == point_free(*d, point@, allowed as nat),
{
    if count_definitions_at(&d.definitions, point) != allowed {
        return false;
    }
    let mut i: usize = 0;
    while i < d.accesses.len()
        invariant
            i <= d.accesses@.len(),
            forall|j: int| 0 <= j < i ==> (#[trigger] d.accesses@[j]).point@ != point@,
        decreases d.accesses@.len() - i,
    {
        if compare_str(d.accesses[i].point.as_str(), point) == 0 {
            return false;
        }
        i = i + 1;
    }
    let mut b: usize = 0;
    while b < d.boundary_points.len()
        invariant
            b <= d.boundary_points@.len(),
            forall|j: int| 0 <= j < b ==> (#[trigger] d.boundary_points@[j])@ != point@,
        decreases d.boundary_points@.len() - b,
    {
        if compare_str(d.boundary_points[b].as_str(), point) == 0 {
            return false;
        }
        b = b + 1;
    }
    match find_effects(&d.effects, point) {
        None => false,
        Some(e) => !d.effects[e].uncertain && d.effects[e].empty,
    }
}

fn pattern_definitions_exec(facts: &Vec<LocalFact>, defs: &Vec<LocalDefinition>, point: &str, pattern: &NodeKey) -> (r: Vec<usize>)
    ensures
        r@ == pattern_definitions(facts@, defs@, point@, pattern@, defs@.len() as nat),
        forall|k: int| 0 <= k < r@.len() ==> (#[trigger] r@[k]) < defs@.len(),
{
    let mut out: Vec<usize> = Vec::new();
    let mut i: usize = 0;
    while i < defs.len()
        invariant
            i <= defs@.len(),
            out@ == pattern_definitions(facts@, defs@, point@, pattern@, i as nat),
            forall|k: int| 0 <= k < out@.len() ==> (#[trigger] out@[k]) < i,
        decreases defs@.len() - i,
    {
        let def = &defs[i];
        let mut hit = false;
        if compare_str(def.point.as_str(), point) == 0 {
            match find_fact(facts, def.source_fact.as_str()) {
                None => {},
                Some(fi) => {
                    hit = facts[fi].node.same_node(pattern);
                },
            }
        }
        let ghost before = out@;
        if hit {
            out.push(i);
        }
        assert(out@ =~= before + (if def.point@ == point@ && (first_match(facts@, local_fact_is(def.source_fact@)) matches Some(
            fi,
        ) && facts@[fi].node@ == pattern@) {
            seq![i]
        } else {
            Seq::<usize>::empty()
        }));
        i = i + 1;
    }
    out
}

fn symbol_accesses_exec(accs: &Vec<LocalAccess>, symbol: &str) -> (r: Vec<usize>)
    ensures
        r@ == symbol_accesses(accs@, symbol@, accs@.len() as nat),
        forall|k: int| 0 <= k < r@.len() ==> (#[trigger] r@[k]) < accs@.len(),
{
    let mut out: Vec<usize> = Vec::new();
    let mut i: usize = 0;
    while i < accs.len()
        invariant
            i <= accs@.len(),
            out@ == symbol_accesses(accs@, symbol@, i as nat),
            forall|k: int| 0 <= k < out@.len() ==> (#[trigger] out@[k]) < i,
        decreases accs@.len() - i,
    {
        let hit = match &accs[i].symbol {
            None => false,
            Some(sy) => compare_str(sy.as_str(), symbol) == 0,
        };
        let ghost before = out@;
        if hit {
            out.push(i);
        }
        assert(out@ =~= before + (if accs@[i as int].symbol matches Some(sy) && sy@ == symbol@ {
            seq![i]
        } else {
            Seq::<usize>::empty()
        }));
        i = i + 1;
    }
    out
}

#[verifier::loop_isolation(false)]
fn graph_data_exec(p: &LocalProjection, gi: usize) -> (r: Result<Option<usize>, ()>)
    requires
        gi < p.graphs@.len(),
    ensures
        match r {
            Err(_) => graph_data(*p, gi as int) is Err,
            Ok(None) => graph_data(*p, gi as int) == Ok::<Option<int>, ()>(None),
            Ok(Some(di)) => graph_data(*p, gi as int) == Ok::<Option<int>, ()>(Some(di as int)) && di < p.data@.len(),
        },
{
    let g = &p.graphs[gi];
    let di = match find_data(&p.data, g.data_flow_graph.as_str()) {
        None => {
            return Err(());
        },
        Some(di) => di,
    };
    let d = &p.data[di];
    if !g.complete || g.has_gaps || !d.complete || !g.temporary.eligible || !g.expression.eligible
        || !g.dead_local.eligible {
        return Ok(None);
    }
    let mut e: usize = 0;
    while e < d.effects.len()
        invariant
            e <= d.effects@.len(),
            forall|j: int| 0 <= j < e ==> !(#[trigger] d.effects@[j]).uncertain,
        decreases d.effects@.len() - e,
    {
        if d.effects[e].uncertain {
            return Ok(None);
        }
        e = e + 1;
    }
    let mut a: usize = 0;
    while a < d.accesses.len()
        invariant
            a <= d.accesses@.len(),
            forall|j: int| 0 <= j < a ==> !(#[trigger] d.accesses@[j]).uncertain,
        decreases d.accesses@.len() - a,
    {
        if d.accesses[a].uncertain {
            return Ok(None);
        }
        a = a + 1;
    }
    Ok(Some(di))
}

fn temporary_use_exec(
    p: &LocalProjection,
    gi: usize,
    di: usize,
    ni: usize,
    v: usize,
    value: usize,
    def: usize,
    acc: usize,
) -> (r: Result<Option<LocalSite>, ()>)
    requires
        gi < p.graphs@.len(),
        di < p.data@.len(),
        ni < p.graphs@[gi as int].nodes@.len(),
        v < p.syntax@.len(),
        value < p.syntax@.len(),
        def < p.data@[di as int].definitions@.len(),
        acc < p.data@[di as int].accesses@.len(),
    ensures
        r == temporary_use(*p, gi as int, di as int, ni as int, v as int, value as int, def as int, acc as int),
        r matches Ok(Some(site)) ==> local_site_ok(*p, site),
{
    let a = &p.data[di].accesses[acc];
    let fi = match find_fact(&p.facts, a.reference.as_str()) {
        None => {
            return Err(());
        },
        Some(fi) => fi,
    };
    let un = match find_syntax(&p.syntax, &p.facts[fi].node) {
        None => {
            return Err(());
        },
        Some(un) => un,
    };
    proof {
        lemma_first_match_found(p.syntax@, syntax_key_is(p.facts@[fi as int].node@));
    }
    let us = match body_child(&p.syntax, un, p.syntax.len())? {
        None => {
            return Ok(None);
        },
        Some(us) => us,
    };
    if compare_str(p.syntax[un].kind.as_str(), "identifier") != 0 {
        return Ok(None);
    }
    if !adjacent(&p.syntax, v, us)? {
        return Ok(None);
    }
    if use_hidden_exec(&p.syntax, un, us, p.syntax.len())? {
        return Ok(None);
    }
    match find_node_at(&p.graphs[gi].nodes, a.point.as_str()) {
        None => Err(()),
        Some(ur) => Ok(
            Some(
                LocalSite {
                    kind: LocalSiteKind::Temporary,
                    graph: gi,
                    data: di,
                    root: ni,
                    statement: v,
                    value,
                    definition: def,
                    access: acc,
                    use_node: un,
                    use_root: ur,
                },
            ),
        ),
    }
}

fn local_site_exec(p: &LocalProjection, gi: usize, di: usize, ni: usize, v: usize, pattern: usize, value: usize) -> (r: Result<
    Option<LocalSite>,
    (),
>)
    requires
        gi < p.graphs@.len(),
        di < p.data@.len(),
        ni < p.graphs@[gi as int].nodes@.len(),
        v < p.syntax@.len(),
        pattern < p.syntax@.len(),
        value < p.syntax@.len(),
    ensures
        r == local_site(*p, gi as int, di as int, ni as int, v as int, pattern as int, value as int),
        r matches Ok(Some(site)) ==> local_site_ok(*p, site),
{
    let d = &p.data[di];
    let point = p.graphs[gi].nodes[ni].point.as_str();
    let defs = pattern_definitions_exec(&p.facts, &d.definitions, point, &p.syntax[pattern].key);
    if defs.len() != 1 || !point_free_exec(d, point, 1) {
        return Ok(None);
    }
    let def = &d.definitions[defs[0]];
    let accs = symbol_accesses_exec(&d.accesses, def.symbol.as_str());
    if accs.len() == 0 {
        if closed_literal_exec(&p.syntax, value, p.syntax.len())? {
            return Ok(
                Some(
                    LocalSite {
                        kind: LocalSiteKind::DeadLocal,
                        graph: gi,
                        data: di,
                        root: ni,
                        statement: v,
                        value,
                        definition: defs[0],
                        access: 0,
                        use_node: 0,
                        use_root: 0,
                    },
                ),
            );
        }
        return Ok(None);
    }
    if accs.len() != 1 {
        return Ok(None);
    }
    if !closed_expression_exec(&p.syntax, value, p.syntax.len())? {
        return Ok(None);
    }
    let a = &d.accesses[accs[0]];
    if !a.read || a.reaching.len() != 1 || compare_str(a.reaching[0].as_str(), def.key.as_str()) != 0 {
        return Ok(None);
    }
    temporary_use_exec(p, gi, di, ni, v, value, defs[0], accs[0])
}

fn local_step_exec(p: &LocalProjection, gi: usize, di: usize, ni: usize) -> (r: Result<Option<LocalSite>, ()>)
    requires
        gi < p.graphs@.len(),
        di < p.data@.len(),
        ni < p.graphs@[gi as int].nodes@.len(),
    ensures
        r == local_step(*p, gi as int, di as int, ni as int),
        r matches Ok(Some(site)) ==> local_site_ok(*p, site),
{
    let root = &p.graphs[gi].nodes[ni];
    if !root.reachable {
        return Ok(None);
    }
    let src = match &root.source {
        None => {
            return Ok(None);
        },
        Some(s) => s,
    };
    let v = match find_syntax(&p.syntax, src) {
        None => {
            return Err(());
        },
        Some(v) => v,
    };
    proof {
        lemma_first_match_found(p.syntax@, syntax_key_is(src@));
    }
    if !p.syntax[v].rust || p.syntax[v].has_error {
        return Ok(None);
    }
    let lit = literal_statement(&p.syntax, v)?;
    if lit && point_free_exec(&p.data[di], root.point.as_str(), 0) {
        return Ok(
            Some(
                LocalSite {
                    kind: LocalSiteKind::Literal,
                    graph: gi,
                    data: di,
                    root: ni,
                    statement: v,
                    value: 0,
                    definition: 0,
                    access: 0,
                    use_node: 0,
                    use_root: 0,
                },
            ),
        );
    }
    match simple_local(&p.syntax, v)? {
        None => Ok(None),
        Some((pattern, value)) => local_site_exec(p, gi, di, ni, v, pattern, value),
    }
}

proof fn lemma_scan_nodes_err_stays(p: LocalProjection, gi: int, di: int, k: nat, m: nat)
    requires
        k <= m,
        scan_nodes(p, gi, di, k) is Err,
    ensures
        scan_nodes(p, gi, di, m) is Err,
    decreases m - k,
{
    if k < m {
        lemma_scan_nodes_err_stays(p, gi, di, k, (m - 1) as nat);
    }
}

proof fn lemma_scan_graphs_err_stays(p: LocalProjection, k: nat, m: nat)
    requires
        k <= m,
        scan_graphs(p, k) is Err,
    ensures
        scan_graphs(p, m) is Err,
    decreases m - k,
{
    if k < m {
        lemma_scan_graphs_err_stays(p, k, (m - 1) as nat);
    }
}

/// The cleanup sites of a projection, as `local_sites_of` gives them.
pub fn local_sites(p: &LocalProjection) -> (r: Result<Vec<LocalSite>, ()>)
    ensures
        r matches Ok(v) ==> local_sites_of(*p) == Ok::<Seq<LocalSite>, ()>(v@),
        r matches Ok(v) ==> forall|k: int| 0 <= k < v@.len() ==> local_site_ok(*p, #[trigger] v@[k]),
        r is Err ==> local_sites_of(*p) is Err,
{
    let mut sites: Vec<LocalSite> = Vec::new();
    let mut gi: usize = 0;
    while gi < p.graphs.len()
        invariant
            gi <= p.graphs@.len(),
            scan_graphs(*p, gi as nat) == Ok::<Seq<LocalSite>, ()>(sites@),
            forall|k: int| 0 <= k < sites@.len() ==> local_site_ok(*p, #[trigger] sites@[k]),
        decreases p.graphs@.len() - gi,
    {
        let ghost before = sites@;
        match graph_data_exec(p, gi) {
            Err(()) => {
                proof {
                    lemma_scan_graphs_err_stays(*p, (gi + 1) as nat, p.graphs@.len() as nat);
                }
                return Err(());
            },
            Ok(None) => {},
            Ok(Some(di)) => {
                let n = p.graphs[gi].nodes.len();
                let mut ni: usize = 0;
                let mut more: Vec<LocalSite> = Vec::new();
                while ni < n
                    invariant
                        gi < p.graphs@.len(),
                        di < p.data@.len(),
                        n == p.graphs@[gi as int].nodes@.len(),
                        ni <= n,
                        scan_nodes(*p, gi as int, di as int, ni as nat) == Ok::<Seq<LocalSite>, ()>(more@),
                        scan_graphs(*p, gi as nat) == Ok::<Seq<LocalSite>, ()>(before),
                        graph_data(*p, gi as int) == Ok::<Option<int>, ()>(Some(di as int)),
                        forall|k: int| 0 <= k < more@.len() ==> local_site_ok(*p, #[trigger] more@[k]),
                    decreases n - ni,
                {
                    let ghost prev = more@;
                    let step = local_step_exec(p, gi, di, ni);
                    match step {
                        Err(()) => {
                            proof {
                                lemma_scan_nodes_err_stays(*p, gi as int, di as int, (ni + 1) as nat, n as nat);
                                assert(scan_graphs(*p, (gi + 1) as nat) is Err);
                                lemma_scan_graphs_err_stays(*p, (gi + 1) as nat, p.graphs@.len() as nat);
                            }
                            return Err(());
                        },
                        Ok(Some(site)) => {
                            more.push(site);
                            assert(more@ =~= prev + opt_site(Some(site)));
                            assert forall|k: int| 0 <= k < more@.len() implies local_site_ok(*p, #[trigger] more@[k]) by {
                                if k < prev.len() {
                                    assert(more@[k] == prev[k]);
                                }
                            }
                        },
                        Ok(None) => {
                            assert(more@ =~= prev + opt_site(None));
                        },
                    }
                    ni = ni + 1;
                }
                let ghost m = more@;
                let mut j: usize = 0;
                while j < more.len()
                    invariant
                        j <= m.len(),
                        more@ == m,
                        sites@ == before + m.subrange(0, j as int),
                        forall|k: int| 0 <= k < m.len() ==> local_site_ok(*p, #[trigger] m[k]),
                        forall|k: int| 0 <= k < before.len() ==> local_site_ok(*p, #[trigger] before[k]),
                    decreases m.len() - j,
                {
                    sites.push(more[j]);
                    assert(sites@ =~= before + m.subrange(0, j + 1));
                    j = j + 1;
                }
                assert(m.subrange(0, m.len() as int) =~= m);
                assert forall|k: int| 0 <= k < sites@.len() implies local_site_ok(*p, #[trigger] sites@[k]) by {
                    if k < before.len() {
                        assert(sites@[k] == before[k]);
                    } else {
                        assert(sites@[k] == m[k - before.len()]);
                    }
                }
            },
        }
        gi = gi + 1;
    }
    Ok(sites)
}

/// The dependence graphs of a projection's callables: each graph's key,
/// node keys and edges, in order.
pub open spec fn local_views(deps: Seq<DependenceGraph>, graphs: Seq<LocalGraph>) -> bool {
    &&& deps.len() == graphs.len()
    &&& forall|i: int| 0 <= i < deps.len() ==> (#[trigger] deps[i]).key@ == graphs[i].key@ && deps[i].edges@
        == graphs[i].edges@ && deps[i].nodes@.len() == graphs[i].nodes@.len() && forall|k: int|
        0 <= k < deps[i].nodes@.len() ==> (#[trigger] deps[i].nodes@[k])@ == graphs[i].nodes@[k].key@
}

/// The dependence graphs of a projection as impact queries read them.
fn local_dependence_graphs(p: &LocalProjection) -> (r: Vec<DependenceGraph>)
    ensures
        local_views(r@, p.graphs@),
{
    let n = p.graphs.len();
    let mut out: Vec<DependenceGraph> = Vec::new();
    let mut i: usize = 0;
    while i < n
        invariant
            n == p.graphs@.len(),
            i <= n,
            out@.len() == i,
            forall|x: int| 0 <= x < i ==> (#[trigger] out@[x]).key@ == p.graphs@[x].key@ && out@[x].edges@
                == p.graphs@[x].edges@ && out@[x].nodes@.len() == p.graphs@[x].nodes@.len() && forall|k: int|
                0 <= k < out@[x].nodes@.len() ==> (#[trigger] out@[x].nodes@[k])@ == p.graphs@[x].nodes@[k].key@,
        decreases n - i,
    {
        let g = &p.graphs[i];
        let mut nodes: Vec<String> = Vec::new();
        let nn = g.nodes.len();
        let mut k: usize = 0;
        while k < nn
            invariant
                nn == g.nodes@.len(),
                k <= nn,
                nodes@.len() == k,
                forall|y: int| 0 <= y < k ==> (#[trigger] nodes@[y])@ == g.nodes@[y].key@,
            decreases nn - k,
        {
            nodes.push(g.nodes[k].key.clone());
            k = k + 1;
        }
        let mut edges: Vec<DependenceEdge> = Vec::new();
        let ne = g.edges.len();
        let mut e: usize = 0;
        while e < ne
            invariant
                ne == g.edges@.len(),
                e <= ne,
                edges@ == g.edges@.subrange(0, e as int),
            decreases ne - e,
        {
            edges.push(
                DependenceEdge {
                    key: g.edges[e].key.clone(),
                    from: g.edges[e].from.clone(),
                    to: g.edges[e].to.clone(),
                    flow: g.edges[e].flow,
                },
            );
            assert(edges@ =~= g.edges@.subrange(0, e + 1));
            e = e + 1;
        }
        assert(edges@ =~= g.edges@);
        out.push(DependenceGraph { key: g.key.clone(), nodes, edges });
        i = i + 1;
    }
    out
}

pub const POINT_DEF_USE_DETAIL: &'static str = "Complete exact def/use closes this point.";
pub const POINT_EFFECTS_DETAIL: &'static str = "Complete effects retain no boundary or effect at this point.";
pub const LITERAL_DETAIL: &'static str = "The direct reachable literal statement has no retained semantic output.";
pub const NO_REFS_DETAIL: &'static str = "The exact local definition has no retained symbol access.";
pub const CLOSED_LITERAL_DETAIL: &'static str = "The initializer is one closed primitive literal.";
pub const READ_DETAIL: &'static str = "The sole Read has exactly this reaching definition.";
pub const INITIALIZER_DETAIL: &'static str = "The initializer point has no other access, boundary, or effect.";
pub const ADJACENT_DETAIL: &'static str = "The sole use is in the immediately following body statement.";
pub const CLOSED_EXPRESSION_DETAIL: &'static str = "The initializer is a closed primitive expression.";
pub const LOCATION_DETAIL: &'static str = "Diagnostic and panic source locations require review.";
pub const PARTIAL_DETAIL: &'static str = "Local PDG/data coverage is Complete with no gap or uncertainty.";
pub const EFFECTFUL_DETAIL: &'static str = "The selected point has the required empty effect frontier.";
pub const BAD_SHAPE_DETAIL: &'static str =
    "The exact CST is direct, untyped, immutable, comment-free, and unrecovered.";
pub const REMOVE_RATIONALE: &'static str = "Remove the independent semantically empty statement.";
pub const DEFINITION_RATIONALE: &'static str = "Remove the temporary definition.";
pub const READ_RATIONALE: &'static str = "Replace the temporary symbol read.";
pub const INSERT_RATIONALE: &'static str = "Insert the exact parenthesized initializer.";

pub open spec fn data_view(d: LocalData, key: Seq<char>) -> GraphEntityView {
    GraphEntityView { layer: GraphEvidenceLayer::DataFlow, graph: d.key@, entity: key }
}

pub open spec fn control_view(g: LocalGraph, point: Seq<char>) -> GraphEntityView {
    GraphEntityView { layer: GraphEvidenceLayer::ControlFlow, graph: g.flow_graph@, entity: point }
}

/// The recipe and eligibility a site's kind calls for.
pub open spec fn recipe_for(kind: LocalSiteKind, temporary: TransformationRecipe, expression: TransformationRecipe, dead_local: TransformationRecipe) -> TransformationRecipe {
    match kind {
        LocalSiteKind::Literal => expression,
        LocalSiteKind::DeadLocal => dead_local,
        LocalSiteKind::Temporary => temporary,
    }
}

pub open spec fn eligibility_for(g: LocalGraph, kind: LocalSiteKind) -> GraphEligibilityDecision {
    match kind {
        LocalSiteKind::Literal => g.expression,
        LocalSiteKind::DeadLocal => g.dead_local,
        LocalSiteKind::Temporary => g.temporary,
    }
}

/// The dependence node a site's candidate targets: the use of a
/// temporary, the root otherwise.
pub open spec fn target_node(p: LocalProjection, site: LocalSite) -> PdgNode {
    let g = p.graphs@[site.graph as int];
    if site.kind == LocalSiteKind::Temporary {
        g.nodes@[site.use_root as int]
    } else {
        g.nodes@[site.root as int]
    }
}

/// The impact cone of a site: the answer of a bidirectional query around
/// its target node, of depth eight for a temporary and four otherwise.
pub open spec fn impact_depth(kind: LocalSiteKind) -> u32 {
    if kind == LocalSiteKind::Temporary {
        8
    } else {
        4
    }
}

pub open spec fn local_impact(p: LocalProjection, site: LocalSite, impact: ImpactCone) -> bool {
    exists|deps: Seq<DependenceGraph>|
        local_views(deps, p.graphs@) && #[trigger] crate::impact::impact_answer(
            deps,
            p.graphs@[site.graph as int].key@,
            target_node(p, site).key@,
            ImpactDirection::Bidirectional,
            impact_depth(site.kind),
            Ok(impact),
        )
}

/// The forbidden results every cleanup carries, on the root: partial
/// facts on its dependence node, effects on the data-flow graph, a bad
/// shape on its control point; all disproven.
pub open spec fn common_forbidden(rs: Seq<ConditionResult>, p: LocalProjection, site: LocalSite) -> bool {
    let g = p.graphs@[site.graph as int];
    let d = p.data@[site.data as int];
    let root = g.nodes@[site.root as int];
    &&& rs.len() == 3
    &&& single_result(rs[0], PARTIAL@, ProofState::Disproven, pdg_entity(g.key@, root.key@), PARTIAL_DETAIL@)
    &&& single_result(rs[1], EFFECTFUL@, ProofState::Disproven, data_view(d, d.key@), EFFECTFUL_DETAIL@)
    &&& single_result(rs[2], BAD_SHAPE@, ProofState::Disproven, control_view(g, root.point@), BAD_SHAPE_DETAIL@)
}

/// The required results of a removal: def/use and effects proven on the
/// root's data-flow point; for a literal statement its shape proven on
/// the root's control point; for a dead local the empty reference set on
/// the data-flow point and the closed literal on the control point.
pub open spec fn removal_required(rs: Seq<ConditionResult>, p: LocalProjection, site: LocalSite) -> bool {
    let g = p.graphs@[site.graph as int];
    let d = p.data@[site.data as int];
    let root = g.nodes@[site.root as int];
    let dp = data_view(d, root.data_flow_point@);
    let cp = control_view(g, root.point@);
    &&& single_result(rs[0], DEF_USE@, ProofState::Proven, dp, POINT_DEF_USE_DETAIL@)
    &&& single_result(rs[1], EFFECTS@, ProofState::Proven, dp, POINT_EFFECTS_DETAIL@)
    &&& if site.kind == LocalSiteKind::Literal {
        rs.len() == 3 && single_result(rs[2], LITERAL@, ProofState::Proven, cp, LITERAL_DETAIL@)
    } else {
        rs.len() == 4 && single_result(rs[2], NO_REFS@, ProofState::Proven, dp, NO_REFS_DETAIL@) && single_result(
            rs[3],
            CLOSED@,
            ProofState::Proven,
            cp,
            CLOSED_LITERAL_DETAIL@,
        )
    }
}

/// The draft of a cleanup: bound to the recipe of its kind, the
/// projection's identities and the graph's eligibility for that recipe;
/// the plans of the recipe and the common forbidden results. A removal
/// targets its statement through the root, removes the root and deletes
/// the statement, automatically at safe-auto. A temporary targets its use
/// through the use's node; proves the read, the initializer point, the
/// adjacent use and the closed initializer and leaves source locations
/// unknown; removes the definition and the read and modifies the use;
/// deletes the `let` and replaces the use by its parenthesized value; for
/// review at safe-with-precondition.
pub open spec fn is_local_draft(d: TransformationCandidateDraft, p: LocalProjection, site: LocalSite, recipe: TransformationRecipe) -> bool {
    let g = p.graphs@[site.graph as int];
    let data = p.data@[site.data as int];
    let root = g.nodes@[site.root as int];
    let statement = p.syntax@[site.statement as int];
    let statement_span = node_span(statement.key@);
    let target = target_node(p, site);
    &&& d.recipe.spec_id() == recipe.spec_id()
    &&& (recipe.wf() ==> d.recipe.wf())
    &&& d.source.project_snapshot@ == p.snapshot@
    &&& d.source.analysis@ == p.analysis@
    &&& d.source.program_dependence_projection@ == p.id@
    &&& d.target.entity@ == pdg_entity(g.key@, target.key@)
    &&& d.target.subtree_fingerprint is None
    &&& d.eligibility.consumer@ == eligibility_for(g, site.kind).consumer@
    &&& d.eligibility.required_layers@ == eligibility_for(g, site.kind).required_layers@
    &&& d.eligibility.eligible == eligibility_for(g, site.kind).eligible
    &&& common_forbidden(d.forbidden_results@, p, site)
    &&& steps_agree(d.validation_plan.steps@, recipe.spec_draft().validation_plan.steps@)
    &&& d.rollback_plan.strategy == recipe.spec_draft().rollback_plan.strategy
    &&& d.rollback_plan.require_revision_guards == recipe.spec_draft().rollback_plan.require_revision_guards
    &&& keys_agree(d.rollback_plan.validation_steps@, recipe.spec_draft().rollback_plan.validation_steps@)
    &&& if site.kind == LocalSiteKind::Temporary {
        let use_node = p.syntax@[site.use_node as int];
        let use_span = node_span(use_node.key@);
        let value = p.syntax@[site.value as int];
        let access = data.accesses@[site.access as int];
        let definition = data.definitions@[site.definition as int];
        let use_point = control_view(g, target.point@);
        let access_view = data_view(data, access.key@);
        &&& d.target.node@ == use_node.key@
        &&& d.target.span == use_span
        &&& d.required_results@.len() == 5
        &&& single_result(d.required_results@[0], DEF_USE@, ProofState::Proven, access_view, READ_DETAIL@)
        &&& single_result(d.required_results@[1], EFFECTS@, ProofState::Proven, data_view(data, root.data_flow_point@), INITIALIZER_DETAIL@)
        &&& single_result(d.required_results@[2], SINGLE_USE@, ProofState::Proven, use_point, ADJACENT_DETAIL@)
        &&& single_result(d.required_results@[3], CLOSED@, ProofState::Proven, control_view(g, root.point@), CLOSED_EXPRESSION_DETAIL@)
        &&& single_result(d.required_results@[4], LOCATION@, ProofState::Unknown, use_point, LOCATION_DETAIL@)
        &&& d.expected_delta.changes@.len() == 3
        &&& d.expected_delta.changes@[0].kind == GraphChangeKind::Remove
        &&& d.expected_delta.changes@[0].entity@ == data_view(data, definition.key@)
        &&& d.expected_delta.changes@[0].rationale@ == DEFINITION_RATIONALE@
        &&& d.expected_delta.changes@[1].kind == GraphChangeKind::Remove
        &&& d.expected_delta.changes@[1].entity@ == access_view
        &&& d.expected_delta.changes@[1].rationale@ == READ_RATIONALE@
        &&& d.expected_delta.changes@[2].kind == GraphChangeKind::Modify
        &&& d.expected_delta.changes@[2].entity@ == pdg_entity(g.key@, target.key@)
        &&& d.expected_delta.changes@[2].rationale@ == INSERT_RATIONALE@
        &&& d.edits@.len() == 2
        &&& d.edits@[0].target@ == statement.key@
        &&& d.edits@[0].span == statement_span
        &&& d.edits@[0].before@ == statement.text@
        &&& d.edits@[0].after@ == Seq::<char>::empty()
        &&& d.edits@[0].revision_guard@ == revision_guard_id(statement.key@.path, statement_span, statement.text@)
        &&& d.edits@[1].target@ == use_node.key@
        &&& d.edits@[1].span == use_span
        &&& d.edits@[1].before@ == use_node.text@
        &&& d.edits@[1].after@ == "("@ + value.text@ + ")"@
        &&& d.edits@[1].revision_guard@ == revision_guard_id(use_node.key@.path, use_span, use_node.text@)
        &&& d.safety == SafetyClass::SafeWithPrecondition
        &&& d.disposition == CandidateDisposition::ReviewRequired
    } else {
        &&& d.target.node@ == statement.key@
        &&& d.target.span == statement_span
        &&& removal_required(d.required_results@, p, site)
        &&& d.expected_delta.changes@.len() == 1
        &&& d.expected_delta.changes@[0].kind == GraphChangeKind::Remove
        &&& d.expected_delta.changes@[0].entity@ == pdg_entity(g.key@, root.key@)
        &&& d.expected_delta.changes@[0].rationale@ == REMOVE_RATIONALE@
        &&& d.edits@.len() == 1
        &&& d.edits@[0].target@ == statement.key@
        &&& d.edits@[0].span == statement_span
        &&& d.edits@[0].before@ == statement.text@
        &&& d.edits@[0].after@ == Seq::<char>::empty()
        &&& d.edits@[0].revision_guard@ == revision_guard_id(statement.key@.path, statement_span, statement.text@)
        &&& d.safety == SafetyClass::SafeAuto
        &&& d.disposition == CandidateDisposition::Automatic
    }
}

/// A candidate for a cleanup site: well formed, and its draft is, up to
/// the canonical order of its lists, the site's draft with its impact
/// cone.
#[verifier::opaque]
pub open spec fn local_candidate_for(c: TransformationCandidate, p: LocalProjection, site: LocalSite, recipe: TransformationRecipe) -> bool {
    &&& c.wf()
    &&& exists|d: TransformationCandidateDraft|
        #[trigger] is_local_draft(d, p, site, recipe) && candidate_arrangement(c.spec_draft(), d) && local_impact(p, site, d.impact)
}

/// The span of a syntax node, or `None` when its rows do not fit.
fn span_of(key: &NodeKey) -> (r: Option<Span>)
    ensures
        r is None <==> key.start_row >= usize::MAX || key.end_row >= usize::MAX,
        r matches Some(s) ==> s == node_span(key@),
{
    if key.start_row >= usize::MAX || key.end_row >= usize::MAX {
        return None;
    }
    Some(Span { start_line: key.start_row + 1, end_line: key.end_row + 1, start_byte: key.start_byte, end_byte: key.end_byte })
}

fn common_forbidden_exec(p: &LocalProjection, site: LocalSite) -> (r: Vec<ConditionResult>)
    requires
        local_site_ok(*p, site),
    ensures
        common_forbidden(r@, *p, site),
{
    let g = &p.graphs[site.graph];
    let d = &p.data[site.data];
    let root = &g.nodes[site.root];
    vec![
        plain_result(PARTIAL, ProofState::Disproven, entity(GraphEvidenceLayer::ProgramDependence, g.key.as_str(), root.key.as_str()), PARTIAL_DETAIL),
        plain_result(EFFECTFUL, ProofState::Disproven, entity(GraphEvidenceLayer::DataFlow, d.key.as_str(), d.key.as_str()), EFFECTFUL_DETAIL),
        plain_result(BAD_SHAPE, ProofState::Disproven, entity(GraphEvidenceLayer::ControlFlow, g.flow_graph.as_str(), root.point.as_str()), BAD_SHAPE_DETAIL),
    ]
}

/// When a cleanup site's candidate is owed: the rows of its statement, and
/// of the use for a temporary, fit, the impact query around its target
/// node can be answered, and every draft of the site is valid.
pub open spec fn local_owed(p: LocalProjection, deps: Seq<DependenceGraph>, site: LocalSite, recipe: TransformationRecipe) -> bool {
    &&& rows_fit(p.syntax@[site.statement as int].key@)
    &&& site.kind == LocalSiteKind::Temporary ==> rows_fit(p.syntax@[site.use_node as int].key@)
    &&& impact_found(deps, p.graphs@[site.graph as int].key@, target_node(p, site).key@, impact_depth(site.kind))
    &&& forall|d: TransformationCandidateDraft|
        #[trigger] is_local_draft(d, p, site, recipe) && local_impact(p, site, d.impact) ==> candidate_fields_valid(d)
}

/// The candidate of one cleanup site.
#[verifier::rlimit(60)]
fn local_candidate(
    p: &LocalProjection,
    recipe: &TransformationRecipe,
    deps: &Vec<DependenceGraph>,
    site: LocalSite,
) -> (r: Result<TransformationCandidate, LocalCleanupRecipeError>)
    requires
        local_site_ok(*p, site),
        local_views(deps@, p.graphs@),
    ensures
        r matches Ok(c) ==> local_candidate_for(c, *p, site, *recipe),
        local_owed(*p, deps@, site, *recipe) ==> r is Ok,
{
    let g = &p.graphs[site.graph];
    let data = &p.data[site.data];
    let root = &g.nodes[site.root];
    let statement = &p.syntax[site.statement];
    let temporary = match site.kind {
        LocalSiteKind::Temporary => true,
        _ => false,
    };
    let target = if temporary {
        &g.nodes[site.use_root]
    } else {
        root
    };
    let statement_span = match span_of(&statement.key) {
        Some(s) => s,
        None => {
            return Err(LocalCleanupRecipeError::Projection("retained node rows are out of range".to_owned()));
        },
    };
    let depth: u32 = if temporary {
        8
    } else {
        4
    };
    let impact = match program_dependence_impact_cone(deps, g.key.as_str(), target.key.as_str(), ImpactDirection::Bidirectional, depth) {
        Ok(c) => c,
        Err(e) => {
            return Err(LocalCleanupRecipeError::Impact(e));
        },
    };
    let eligibility = match site.kind {
        LocalSiteKind::Literal => &g.expression,
        LocalSiteKind::DeadLocal => &g.dead_local,
        LocalSiteKind::Temporary => &g.temporary,
    };
    let dk = data.key.as_str();
    let fk = g.flow_graph.as_str();
    let source = CandidateSource {
        project_snapshot: p.snapshot.clone(),
        analysis: p.analysis.clone(),
        program_dependence_projection: p.id.clone(),
    };
    let eligibility = GraphEligibilityDecision {
        consumer: eligibility.consumer.clone(),
        required_layers: copy_layers(eligibility.required_layers.as_slice()),
        eligible: eligibility.eligible,
    };
    let target_entity = entity(GraphEvidenceLayer::ProgramDependence, g.key.as_str(), target.key.as_str());
    let draft = if temporary {
        let use_node = &p.syntax[site.use_node];
        let value = &p.syntax[site.value];
        let access = &data.accesses[site.access];
        let definition = &data.definitions[site.definition];
        let use_span = match span_of(&use_node.key) {
            Some(s) => s,
            None => {
                return Err(LocalCleanupRecipeError::Projection("retained node rows are out of range".to_owned()));
            },
        };
        let mut after = String::new();
        string_append(&mut after, "(");
        string_append(&mut after, value.text.as_str());
        string_append(&mut after, ")");
        TransformationCandidateDraft {
            recipe: recipe.duplicate(),
            source,
            target: CandidateTarget { entity: target_entity.duplicate(), node: use_node.key.duplicate(), span: use_span, subtree_fingerprint: None },
            eligibility,
            required_results: vec![
                plain_result(DEF_USE, ProofState::Proven, entity(GraphEvidenceLayer::DataFlow, dk, access.key.as_str()), READ_DETAIL),
                plain_result(EFFECTS, ProofState::Proven, entity(GraphEvidenceLayer::DataFlow, dk, root.data_flow_point.as_str()), INITIALIZER_DETAIL),
                plain_result(SINGLE_USE, ProofState::Proven, entity(GraphEvidenceLayer::ControlFlow, fk, target.point.as_str()), ADJACENT_DETAIL),
                plain_result(CLOSED, ProofState::Proven, entity(GraphEvidenceLayer::ControlFlow, fk, root.point.as_str()), CLOSED_EXPRESSION_DETAIL),
                plain_result(LOCATION, ProofState::Unknown, entity(GraphEvidenceLayer::ControlFlow, fk, target.point.as_str()), LOCATION_DETAIL),
            ],
            forbidden_results: common_forbidden_exec(p, site),
            impact,
            expected_delta: ExpectedGraphDelta {
                changes: vec![
                    ExpectedGraphChange {
                        kind: GraphChangeKind::Remove,
                        entity: entity(GraphEvidenceLayer::DataFlow, dk, definition.key.as_str()),
                        rationale: DEFINITION_RATIONALE.to_owned(),
                    },
                    ExpectedGraphChange {
                        kind: GraphChangeKind::Remove,
                        entity: entity(GraphEvidenceLayer::DataFlow, dk, access.key.as_str()),
                        rationale: READ_RATIONALE.to_owned(),
                    },
                    ExpectedGraphChange { kind: GraphChangeKind::Modify, entity: target_entity, rationale: INSERT_RATIONALE.to_owned() },
                ],
            },
            edits: vec![
                TransformationEdit::exact_node_deletion(statement.key.duplicate(), statement_span, statement.text.clone()),
                TransformationEdit::exact_node_replacement(use_node.key.duplicate(), use_span, use_node.text.clone(), after),
            ],
            safety: SafetyClass::SafeWithPrecondition,
            disposition: CandidateDisposition::ReviewRequired,
            validation_plan: crate::recipe::duplicate_validation_plan(recipe.validation_plan()),
            rollback_plan: crate::recipe::duplicate_rollback_plan(recipe.rollback_plan()),
        }
    } else {
        let mut required = vec![
            plain_result(DEF_USE, ProofState::Proven, entity(GraphEvidenceLayer::DataFlow, dk, root.data_flow_point.as_str()), POINT_DEF_USE_DETAIL),
            plain_result(EFFECTS, ProofState::Proven, entity(GraphEvidenceLayer::DataFlow, dk, root.data_flow_point.as_str()), POINT_EFFECTS_DETAIL),
        ];
        match site.kind {
            LocalSiteKind::Literal => {
                required.push(plain_result(LITERAL, ProofState::Proven, entity(GraphEvidenceLayer::ControlFlow, fk, root.point.as_str()), LITERAL_DETAIL));
            },
            _ => {
                required.push(plain_result(NO_REFS, ProofState::Proven, entity(GraphEvidenceLayer::DataFlow, dk, root.data_flow_point.as_str()), NO_REFS_DETAIL));
                required.push(plain_result(CLOSED, ProofState::Proven, entity(GraphEvidenceLayer::ControlFlow, fk, root.point.as_str()), CLOSED_LITERAL_DETAIL));
            },
        }
        TransformationCandidateDraft {
            recipe: recipe.duplicate(),
            source,
            target: CandidateTarget { entity: target_entity.duplicate(), node: statement.key.duplicate(), span: statement_span, subtree_fingerprint: None },
            eligibility,
            required_results: required,
            forbidden_results: common_forbidden_exec(p, site),
            impact,
            expected_delta: ExpectedGraphDelta {
                changes: vec![ExpectedGraphChange { kind: GraphChangeKind::Remove, entity: target_entity, rationale: REMOVE_RATIONALE.to_owned() }],
            },
            edits: vec![TransformationEdit::exact_node_deletion(statement.key.duplicate(), statement_span, statement.text.clone())],
            safety: SafetyClass::SafeAuto,
            disposition: CandidateDisposition::Automatic,
            validation_plan: crate::recipe::duplicate_validation_plan(recipe.validation_plan()),
            rollback_plan: crate::recipe::duplicate_rollback_plan(recipe.rollback_plan()),
        }
    };
    let ghost original = draft;
    proof {
        assert(crate::impact::impact_answer(
            deps@,
            g.key@,
            target.key@,
            ImpactDirection::Bidirectional,
            impact_depth(site.kind),
            Ok(original.impact),
        ));
        assert(local_impact(*p, site, original.impact));
        assert(is_local_draft(original, *p, site, *recipe));
    }
    match TransformationCandidate::new(draft) {
        Ok(c) => {
            proof {
                reveal(local_candidate_for);
            }
            Ok(c)
        },
        Err(e) => Err(LocalCleanupRecipeError::Contract(e)),
    }
}

/// The candidates of a sequence of cleanup sites, one for one, each from
/// the recipe of its kind.
pub open spec fn candidates_for_locals(
    cs: Seq<TransformationCandidate>,
    p: LocalProjection,
    sites: Seq<LocalSite>,
    temporary: TransformationRecipe,
    expression: TransformationRecipe,
    dead_local: TransformationRecipe,
) -> bool {
    cs.len() == sites.len() && forall|k: int|
        0 <= k < cs.len() ==> #[trigger] local_candidate_for(cs[k], p, sites[k], recipe_for(sites[k].kind, temporary, expression, dead_local))
}

/// When the candidates of a projection are owed: its cleanup sites can be
/// found and, under the three cleanup recipes and the projection's
/// dependence graphs, the candidate of every site is owed.
pub open spec fn local_all_owed(p: LocalProjection) -> bool {
    &&& local_sites_of(p) is Ok
    &&& local_each_owed(p)
}

/// Under the three cleanup recipes and the projection's dependence graphs,
/// the candidate of every cleanup site is owed.
#[verifier::opaque]
pub open spec fn local_each_owed(p: LocalProjection) -> bool {
    forall|
        temporary: TransformationRecipe,
        expression: TransformationRecipe,
        dead_local: TransformationRecipe,
        deps: Seq<DependenceGraph>,
        k: int,
    |
        recipe_header(
            Ok(temporary),
            "rust-inline-exact-single-use-temporary"@,
            "1.0.0"@,
            TransformationFamily::FunctionExpression,
            SafetyClass::SafeWithPrecondition,
            cleanup_layers(),
        ) && recipe_header(
            Ok(expression),
            "rust-remove-unused-pure-literal-expression"@,
            "1.0.0"@,
            TransformationFamily::FunctionExpression,
            SafetyClass::SafeAuto,
            cleanup_layers(),
        ) && recipe_header(
            Ok(dead_local),
            "rust-remove-independent-unused-literal-local"@,
            "1.0.0"@,
            TransformationFamily::FunctionExpression,
            SafetyClass::SafeAuto,
            cleanup_layers(),
        ) && local_views(deps, p.graphs@) && 0 <= k < local_sites_of(p)->Ok_0.len() ==> #[trigger] local_owed(
            p,
            deps,
            local_sites_of(p)->Ok_0[k],
            recipe_for(local_sites_of(p)->Ok_0[k].kind, temporary, expression, dead_local),
        )
}

/// Finds, in every complete, certain and eligible callable of a
/// projection, the unused literal statements and unused literal locals,
/// proposed for automatic removal, and the temporaries read once in the
/// very next statement, proposed for inlining under review: one candidate
/// per site, ordered by candidate identity. A projection that lacks a
/// data-flow graph, syntax node, fact or dependence node a site refers to
/// is refused.
#[verifier::rlimit(100)]
pub fn detect_local_cleanup_candidates(p: &LocalProjection) -> (r: Result<Vec<TransformationCandidate>, LocalCleanupRecipeError>)
    ensures
        local_sites_of(*p) is Err ==> r matches Err(LocalCleanupRecipeError::Projection(_)),
        local_all_owed(*p) ==> r is Ok,
        r matches Ok(cs) ==> local_sites_of(*p) is Ok && keys_sorted(cs@) && exists|
            temporary: TransformationRecipe,
            expression: TransformationRecipe,
            dead_local: TransformationRecipe,
            unsorted: Seq<TransformationCandidate>,
        |
            #![trigger candidates_for_locals(unsorted, *p, local_sites_of(*p)->Ok_0, temporary, expression, dead_local)]
            recipe_header(
                Ok(temporary),
                "rust-inline-exact-single-use-temporary"@,
                "1.0.0"@,
                TransformationFamily::FunctionExpression,
                SafetyClass::SafeWithPrecondition,
                cleanup_layers(),
            ) && recipe_header(
                Ok(expression),
                "rust-remove-unused-pure-literal-expression"@,
                "1.0.0"@,
                TransformationFamily::FunctionExpression,
                SafetyClass::SafeAuto,
                cleanup_layers(),
            ) && recipe_header(
                Ok(dead_local),
                "rust-remove-independent-unused-literal-local"@,
                "1.0.0"@,
                TransformationFamily::FunctionExpression,
                SafetyClass::SafeAuto,
                cleanup_layers(),
            ) && candidates_for_locals(unsorted, *p, local_sites_of(*p)->Ok_0, temporary, expression, dead_local)
                && cs@.to_multiset() == unsorted.to_multiset(),
{
    let temporary = match inline_single_use_temporary_recipe() {
        Ok(t) => t,
        Err(x) => {
            return Err(LocalCleanupRecipeError::Contract(x));
        },
    };
    let expression = match remove_unused_pure_expression_recipe() {
        Ok(e) => e,
        Err(x) => {
            return Err(LocalCleanupRecipeError::Contract(x));
        },
    };
    let dead_local = match remove_independent_dead_local_recipe() {
        Ok(d) => d,
        Err(x) => {
            return Err(LocalCleanupRecipeError::Contract(x));
        },
    };
    let sites = match local_sites(p) {
        Ok(v) => v,
        Err(()) => {
            return Err(LocalCleanupRecipeError::Projection(
                "projection lacks a data-flow graph, syntax node, fact or node a cleanup refers to".to_owned(),
            ));
        },
    };
    let deps = local_dependence_graphs(p);
    let mut candidates: Vec<TransformationCandidate> = Vec::new();
    let n = sites.len();
    proof {
        if local_all_owed(*p) {
            assert forall|k: int| 0 <= k < n implies #[trigger] local_owed(*p, deps@, sites@[k], recipe_for(sites@[k].kind, temporary, expression, dead_local)) by {
                reveal(local_each_owed);
                assert(local_owed(*p, deps@, local_sites_of(*p)->Ok_0[k], recipe_for(local_sites_of(*p)->Ok_0[k].kind, temporary, expression, dead_local)));
            }
        }
    }
    let mut i: usize = 0;
    while i < n
        invariant
            n == sites@.len(),
            i <= n,
            local_sites_of(*p) == Ok::<Seq<LocalSite>, ()>(sites@),
            forall|k: int| 0 <= k < sites@.len() ==> local_site_ok(*p, #[trigger] sites@[k]),
            local_views(deps@, p.graphs@),
            candidates_for_locals(candidates@, *p, sites@.subrange(0, i as int), temporary, expression, dead_local),
            local_all_owed(*p) ==> forall|k: int| 0 <= k < n ==> #[trigger] local_owed(*p, deps@, sites@[k], recipe_for(sites@[k].kind, temporary, expression, dead_local)),
        decreases n - i,
    {
        let site = sites[i];
        let recipe = match site.kind {
            LocalSiteKind::Literal => &expression,
            LocalSiteKind::DeadLocal => &dead_local,
            LocalSiteKind::Temporary => &temporary,
        };
        proof {
            assert(*recipe == recipe_for(site.kind, temporary, expression, dead_local));
            if local_all_owed(*p) {
                assert(local_owed(*p, deps@, sites@[i as int], recipe_for(sites@[i as int].kind, temporary, expression, dead_local)));
            }
        }
        let c = local_candidate(p, recipe, &deps, site)?;
        let ghost before = candidates@;
        candidates.push(c);
        proof {
            let prefix = sites@.subrange(0, i + 1);
            assert forall|k: int| 0 <= k < candidates@.len() implies #[trigger] local_candidate_for(
                candidates@[k],
                *p,
                prefix[k],
                recipe_for(prefix[k].kind, temporary, expression, dead_local),
            ) by {
                if k < i {
                    assert(candidates@[k] == before[k]);
                    assert(prefix[k] == sites@.subrange(0, i as int)[k]);
                }
            }
        }
        i = i + 1;
    }
    let ghost unsorted = candidates@;
    assert(sites@.subrange(0, n as int) =~= sites@);
    let sorted = sort_by_key(candidates);
    proof {
        assert(candidates_for_locals(unsorted, *p, local_sites_of(*p)->Ok_0, temporary, expression, dead_local));
        assert(sorted@.to_multiset() == unsorted.to_multiset());
    }
    Ok(sorted)
}

} // verus!
