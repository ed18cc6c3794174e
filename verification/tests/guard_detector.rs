use deslop_recipes::candidate::{CandidateDisposition, GraphEligibilityDecision, TransformationCandidate};
use deslop_recipes::contract::ProofState;
use deslop_recipes::evidence::{CapabilitySupport, GraphChangeKind};
use deslop_recipes::impact::DependenceEdge;
use deslop_recipes::model::SafetyClass;
use deslop_recipes::recipes::branch::branch_graph_evidence;
use deslop_recipes::recipes::guard_clause::{
    guard_clause_inversion_recipe, GuardClauseRecipeError, REQUIRED_EXIT, REQUIRED_PST, REQUIRED_SCOPE,
};
use deslop_recipes::recipes::guard_detect::{detect_guard_clause_inversions, guard_shape, guard_sites, GuardKind};
use deslop_recipes::recipes::retained::{
    DataFlowGraph, FlowEdge, FlowEdgeKind, FlowGraph, FlowPoint, FlowPointKind, NonStructuredGraph, PdgGraph,
    PdgNode, RegionGraph, RegionRelation, RetainedProjection, SyntaxNode,
};
use deslop_recipes::target::NodeKey;

const THEN_GUARD: &str = "fn then_guard(flag: bool) {\n    if flag { return; } else { let _value = 1; }\n}\n";
const ELSE_GUARD: &str = "fn else_guard(flag: bool) {\n    if flag { let _value = 1; } else { return; }\n}\n";

fn digest(prefix: &str, fill: char) -> String {
    format!("{prefix}{}", fill.to_string().repeat(64))
}

fn key(start: usize, end: usize) -> NodeKey {
    NodeKey { path: "src/guards.rs".into(), start_byte: start, end_byte: end, start_row: 1, end_row: 1 }
}

/// The first occurrence of `needle` in `source` at or after `from`.
fn find(source: &str, needle: &str, from: usize) -> (usize, usize) {
    let start = from + source[from..].find(needle).unwrap();
    (start, start + needle.len())
}

fn node(source: &str, at: (usize, usize), kind: &str, field: Option<&str>, parent: Option<usize>, children: Vec<usize>) -> SyntaxNode {
    SyntaxNode {
        key: key(at.0, at.1),
        kind: kind.into(),
        rust: true,
        has_error: false,
        named: true,
        field: field.map(|f| f.to_string()),
        extra: false,
        parent,
        children,
        text: source[at.0..at.1].into(),
    }
}

/// The tree of `if flag { .. } else { .. }` as an expression statement, one
/// arm a `return`, the other one `let` statement.
fn syntax(source: &str, then_exits: bool) -> Vec<SyntaxNode> {
    let branch = find(source, "if flag", 0);
    let branch = (branch.0, find(source, "}\n", branch.0).1 - 1);
    let flag = find(source, "flag", branch.0 + 3);
    let then_block = (flag.1 + 1, find(source, "}", flag.1).1);
    let else_clause = (then_block.1 + 1, branch.1);
    let else_block = (else_clause.0 + 5, branch.1);
    let ret = find(source, "return", branch.0);
    let ret_stmt = (ret.0, ret.1 + 1);
    let value = find(source, "let _value = 1;", branch.0);
    let (exit_block, stay_block) = if then_exits { (3, 7) } else { (7, 3) };
    let mut nodes = vec![
        node(source, (branch.0, branch.1 + 1), "expression_statement", None, None, vec![1]),
        node(source, branch, "if_expression", None, Some(0), vec![2, 3, 6]),
        node(source, flag, "identifier", Some("condition"), Some(1), vec![]),
        node(source, then_block, "block", Some("consequence"), Some(1), vec![]),
        node(source, ret_stmt, "expression_statement", None, None, vec![5]),
        node(source, ret, "return_expression", None, Some(4), vec![]),
        node(source, else_clause, "else_clause", Some("alternative"), Some(1), vec![7]),
        node(source, else_block, "block", None, Some(6), vec![]),
        node(source, value, "let_declaration", None, None, vec![]),
    ];
    nodes[exit_block].children = vec![4];
    nodes[stay_block].children = vec![8];
    nodes[0].text = format!("{};", &source[branch.0..branch.1]);
    nodes
}

fn point(name: &str, source: Option<NodeKey>, kind: FlowPointKind) -> FlowPoint {
    FlowPoint { key: name.into(), source, kind, recovered: false }
}

fn edge(from: &str, to: &str, kind: FlowEdgeKind) -> FlowEdge {
    FlowEdge { from: from.into(), to: to.into(), exact: true, recovered_source: false, recovered_predicate: false, kind }
}

fn fact(name: &str, point: &str) -> RegionRelation {
    RegionRelation {
        key: name.into(),
        point: point.into(),
        reachable: true,
        dominated: true,
        exit_reachable: true,
        exit_post_dominates: true,
    }
}

fn projection_of(source: &str, then_exits: bool) -> RetainedProjection {
    let recipe = guard_clause_inversion_recipe().unwrap();
    let nodes = syntax(source, then_exits);
    let branch = nodes[1].key.clone();
    let (to_return, to_value) =
        if then_exits { (FlowEdgeKind::BranchTrue, FlowEdgeKind::BranchFalse) } else { (FlowEdgeKind::BranchFalse, FlowEdgeKind::BranchTrue) };
    RetainedProjection {
        id: digest("pj1_", 'c'),
        snapshot: digest("ps1_", 'a'),
        analysis: digest("pa1_", 'b'),
        flow_graphs: vec![FlowGraph {
            key: "cfg1".into(),
            points: vec![
                point("p_entry", None, FlowPointKind::OtherSynthetic),
                point("p_dispatch", Some(branch.clone()), FlowPointKind::BranchDispatch),
                point("p_return", Some(nodes[5].key.clone()), FlowPointKind::Syntax),
                point("p_value", Some(nodes[8].key.clone()), FlowPointKind::Syntax),
                point("p_merge", Some(branch.clone()), FlowPointKind::Merge),
                point("p_exit_dispatch", None, FlowPointKind::ExitDispatch),
                point("p_exit", None, FlowPointKind::OtherSynthetic),
            ],
            edges: vec![
                edge("p_entry", "p_dispatch", FlowEdgeKind::Other),
                edge("p_dispatch", "p_return", to_return),
                edge("p_dispatch", "p_value", to_value),
                edge("p_value", "p_merge", FlowEdgeKind::Other),
                edge("p_merge", "p_exit", FlowEdgeKind::Other),
                edge("p_return", "p_exit_dispatch", FlowEdgeKind::Return),
                edge("p_exit_dispatch", "p_exit", FlowEdgeKind::AbruptExit),
            ],
            exit: "p_exit".into(),
        }],
        region_graphs: vec![RegionGraph {
            key: "crg1".into(),
            flow_graph: "cfg1".into(),
            relations: vec![
                fact("r_dispatch", "p_dispatch"),
                fact("r_merge", "p_merge"),
                fact("r_return", "p_return"),
                fact("r_exit_dispatch", "p_exit_dispatch"),
            ],
            has_residuals: false,
            complete: true,
        }],
        syntax: nodes,
        non_structured_graphs: vec![NonStructuredGraph { key: "nsc1".into(), has_facts: false }],
        data_flow_graphs: vec![DataFlowGraph {
            key: "dfg1".into(),
            def_use_support: CapabilitySupport::Unknown,
            def_use_authority: None,
            effects_support: CapabilitySupport::Unknown,
            effects_authority: None,
        }],
        dependence_graphs: vec![PdgGraph {
            key: "pdg1".into(),
            nodes: vec![
                PdgNode {
                    key: "n_dispatch".into(),
                    reachable: true,
                    source: Some(branch),
                    point: "p_dispatch".into(),
                    region_point: "r_dispatch".into(),
                    data_flow_point: "d_dispatch".into(),
                },
                PdgNode {
                    key: "n_return".into(),
                    reachable: true,
                    source: None,
                    point: "p_return".into(),
                    region_point: "r_return".into(),
                    data_flow_point: "d_return".into(),
                },
            ],
            edges: vec![DependenceEdge { key: "e_n_dispatch_n_return".into(), from: "n_dispatch".into(), to: "n_return".into(), flow: true }],
            flow_graph: "cfg1".into(),
            region_graph: "crg1".into(),
            non_structured_graph: "nsc1".into(),
            data_flow_graph: "dfg1".into(),
            eligibility: GraphEligibilityDecision {
                consumer: recipe.id().into(),
                required_layers: recipe.required_layers().to_vec(),
                eligible: false,
            },
            local_pdg_support: CapabilitySupport::Unknown,
            local_pdg_authority: None,
        }],
    }
}

fn then_projection() -> RetainedProjection {
    projection_of(THEN_GUARD, true)
}

fn else_projection() -> RetainedProjection {
    projection_of(ELSE_GUARD, false)
}

fn check_review_candidate(candidate: &TransformationCandidate) {
    assert_eq!(candidate.recipe().name(), "rust-invert-guard-clause");
    assert_eq!(candidate.disposition(), CandidateDisposition::ReviewRequired);
    assert_eq!(candidate.safety(), SafetyClass::SafeWithPrecondition);
    assert!(candidate.required_results().iter().any(|item| item.condition == REQUIRED_EXIT && item.state == ProofState::Proven));
    assert!(candidate
        .required_results()
        .iter()
        .any(|item| item.condition == REQUIRED_PST && item.state == ProofState::Proven && item.evidence.len() == 4));
    assert!(candidate.required_results().iter().any(|item| {
        item.condition == REQUIRED_SCOPE
            && item.state == ProofState::Unknown
            && item.evidence[0].capability.as_deref() == Some("effects")
    }));
    assert!(candidate.validate().is_ok());
    assert_eq!(branch_graph_evidence(candidate).unwrap().after.changes.len(), 4);
}

#[test]
fn a_then_guard_becomes_an_early_return() {
    let found = detect_guard_clause_inversions(&then_projection()).unwrap();
    assert_eq!(found.len(), 1);
    let candidate = &found[0];
    check_review_candidate(candidate);
    assert_eq!(candidate.edits()[0].before, "if flag { return; } else { let _value = 1; }");
    assert_eq!(candidate.edits()[0].after, "if flag { return; } let _value = 1;");
    let changes = &candidate.expected_delta().changes;
    let root = changes.iter().find(|c| c.entity.entity == "n_dispatch").unwrap();
    assert_eq!(root.kind, GraphChangeKind::Modify);
    assert_eq!(root.rationale, "The dispatch becomes the exact then-guard with one retained abrupt arm.");
    assert!(changes.iter().any(|c| c.kind == GraphChangeKind::Preserve && c.entity.entity == "p_exit_dispatch"));
}

#[test]
fn an_else_guard_negates_its_predicate() {
    let found = detect_guard_clause_inversions(&else_projection()).unwrap();
    assert_eq!(found.len(), 1);
    check_review_candidate(&found[0]);
    assert_eq!(found[0].edits()[0].after, "if !(flag) { return; } let _value = 1;");
    assert!(found[0].expected_delta().changes.iter().any(|c| c.rationale.contains("inverted-else-guard")));
}

#[test]
fn guard_shapes_name_the_exiting_arm() {
    let then = guard_shape(&syntax(THEN_GUARD, true), 1).unwrap().unwrap();
    assert_eq!(then.kind, GuardKind::ThenTerminates);
    assert_eq!((then.predicate, then.guard_block, then.continuation_block, then.abrupt), (2, 3, 7, 5));
    let other = guard_shape(&syntax(ELSE_GUARD, false), 1).unwrap().unwrap();
    assert_eq!(other.kind, GuardKind::ElseTerminates);
    assert_eq!((other.guard_block, other.continuation_block), (7, 3));
    assert_eq!(GuardKind::ElseTerminates.name(), "inverted-else-guard");
}

#[test]
fn incomplete_regions_leave_the_boundary_unknown() {
    let mut p = then_projection();
    p.region_graphs[0].complete = false;
    let found = detect_guard_clause_inversions(&p).unwrap();
    assert!(found[0].required_results().iter().any(|r| r.condition == REQUIRED_PST && r.state == ProofState::Unknown));
}

#[test]
fn comments_let_conditions_and_tail_values_abstain() {
    let mut commented = then_projection();
    commented.syntax[1].text = "if flag { /* keep */ return; } else { let _value = 1; }".into();
    assert!(detect_guard_clause_inversions(&commented).unwrap().is_empty());
    let mut bound = then_projection();
    bound.syntax[2].kind = "let_condition".into();
    assert!(detect_guard_clause_inversions(&bound).unwrap().is_empty());
    let mut tail = then_projection();
    tail.syntax[8].text = "1".into();
    tail.syntax[8].kind = "integer_literal".into();
    assert!(detect_guard_clause_inversions(&tail).unwrap().is_empty());
}

#[test]
fn a_branch_used_as_a_value_abstains() {
    let mut p = then_projection();
    p.syntax[0].kind = "let_declaration".into();
    assert!(detect_guard_clause_inversions(&p).unwrap().is_empty());
}

#[test]
fn a_conservative_continuation_blocks_the_guard() {
    let mut p = then_projection();
    p.flow_graphs[0].edges[3].exact = false;
    assert!(detect_guard_clause_inversions(&p).unwrap().is_empty());
}

#[test]
fn a_return_that_misses_the_exit_dispatch_blocks_the_guard() {
    let mut p = then_projection();
    p.flow_graphs[0].edges[6].kind = FlowEdgeKind::Other;
    assert!(detect_guard_clause_inversions(&p).unwrap().is_empty());
}

#[test]
fn an_unreachable_merge_blocks_the_guard() {
    let mut p = then_projection();
    p.region_graphs[0].relations[1].exit_reachable = false;
    assert!(detect_guard_clause_inversions(&p).unwrap().is_empty());
}

#[test]
fn a_second_dispatch_of_the_same_guard_adds_nothing() {
    let mut p = then_projection();
    let branch = p.syntax[1].key.clone();
    p.flow_graphs[0].points.push(point("p_dispatch_again", Some(branch), FlowPointKind::BranchDispatch));
    assert_eq!(guard_sites(&p).unwrap().len(), 1);
    assert_eq!(detect_guard_clause_inversions(&p).unwrap().len(), 1);
}

#[test]
fn a_flow_graph_without_regions_is_refused() {
    let mut p = then_projection();
    p.region_graphs[0].flow_graph = "cfg2".into();
    let error = detect_guard_clause_inversions(&p).unwrap_err();
    assert!(matches!(error, GuardClauseRecipeError::Projection(_)));
}

#[test]
fn a_guard_dispatch_without_its_syntax_is_refused() {
    let mut p = then_projection();
    p.flow_graphs[0].points[1].source = Some(key(0, 2));
    assert!(matches!(detect_guard_clause_inversions(&p).unwrap_err(), GuardClauseRecipeError::Projection(_)));
}
