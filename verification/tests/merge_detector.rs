use deslop_recipes::candidate::{CandidateDisposition, GraphEligibilityDecision, TransformationCandidate};
use deslop_recipes::contract::ProofState;
use deslop_recipes::evidence::{CapabilitySupport, GraphChangeKind};
use deslop_recipes::impact::DependenceEdge;
use deslop_recipes::model::SafetyClass;
use deslop_recipes::recipes::branch::branch_graph_evidence;
use deslop_recipes::recipes::condition_merge::{
    adjacent_condition_merge_recipe, ConditionMergeRecipeError, CONDITION_EVALUATION_ORDER, CONDITION_EXCEPTION_ORDER,
};
use deslop_recipes::recipes::merge_detect::{detect_adjacent_condition_merges, merge_shape, merge_sites, MergeKind};
use deslop_recipes::recipes::retained::{
    DataFlowGraph, FlowEdge, FlowEdgeKind, FlowGraph, FlowPoint, FlowPointKind, NonStructuredGraph, PdgGraph, PdgNode, RetainedProjection,
    SyntaxNode,
};
use deslop_recipes::target::NodeKey;

const SOURCE: &str = "fn run(a: bool, b: bool) {\n    if a { if b { act(); } else { other(); } } else { other(); }\n    if c { act(); } else if d { act(); }\n}\n";

fn digest(prefix: &str, fill: char) -> String {
    format!("{prefix}{}", fill.to_string().repeat(64))
}

fn key(start: usize, end: usize) -> NodeKey {
    NodeKey { path: "src/conditions.rs".into(), start_byte: start, end_byte: end, start_row: 1, end_row: 1 }
}

fn node(start: usize, end: usize, kind: &str, field: Option<&str>, children: Vec<usize>) -> SyntaxNode {
    SyntaxNode {
        key: key(start, end),
        kind: kind.into(),
        rust: true,
        has_error: false,
        named: true,
        field: field.map(|f| f.to_string()),
        extra: false,
        parent: None,
        children,
        text: SOURCE[start..end].into(),
    }
}

fn syntax() -> Vec<SyntaxNode> {
    vec![
        node(31, 91, "if_expression", None, vec![1, 2, 10]),
        node(34, 35, "identifier", Some("condition"), vec![]),
        node(36, 73, "block", Some("consequence"), vec![3]),
        node(38, 71, "expression_statement", None, vec![4]),
        node(38, 71, "if_expression", None, vec![5, 6, 8]),
        node(41, 42, "identifier", Some("condition"), vec![]),
        node(43, 53, "block", Some("consequence"), vec![7]),
        node(45, 51, "expression_statement", None, vec![]),
        node(54, 71, "else_clause", Some("alternative"), vec![9]),
        node(59, 71, "block", None, vec![]),
        node(74, 91, "else_clause", Some("alternative"), vec![11]),
        node(79, 91, "block", None, vec![]),
        node(96, 132, "if_expression", None, vec![13, 14, 15]),
        node(99, 100, "identifier", Some("condition"), vec![]),
        node(101, 111, "block", Some("consequence"), vec![]),
        node(112, 132, "else_clause", Some("alternative"), vec![16]),
        node(117, 132, "if_expression", None, vec![17, 18]),
        node(120, 121, "identifier", Some("condition"), vec![]),
        node(122, 132, "block", Some("consequence"), vec![]),
    ]
}

fn dispatch(point: &str, source: NodeKey) -> FlowPoint {
    FlowPoint { key: point.into(), source: Some(source), kind: FlowPointKind::BranchDispatch, recovered: false }
}

fn edge(from: &str, to: &str, kind: FlowEdgeKind) -> FlowEdge {
    FlowEdge { from: from.into(), to: to.into(), exact: true, recovered_source: false, recovered_predicate: false, kind }
}

fn pdg_node(name: &str, point: &str, source: NodeKey) -> PdgNode {
    PdgNode {
        key: name.into(),
        reachable: true,
        source: Some(source),
        point: point.into(),
        region_point: format!("r_{point}"),
        data_flow_point: format!("d_{point}"),
    }
}

fn projection() -> RetainedProjection {
    let recipe = adjacent_condition_merge_recipe().unwrap();
    let nodes = syntax();
    let (a, b, c, d) = (nodes[0].key.clone(), nodes[4].key.clone(), nodes[12].key.clone(), nodes[16].key.clone());
    RetainedProjection {
        id: digest("pj1_", 'c'),
        snapshot: digest("ps1_", 'a'),
        analysis: digest("pa1_", 'b'),
        syntax: nodes,
        flow_graphs: vec![FlowGraph {
            key: "cfg1".into(),
            points: vec![
                FlowPoint { key: "p_entry".into(), source: None, kind: FlowPointKind::OtherSynthetic, recovered: false },
                dispatch("p_a", a.clone()),
                dispatch("p_b", b.clone()),
                dispatch("p_c", c.clone()),
                dispatch("p_d", d.clone()),
            ],
            edges: vec![
                edge("p_entry", "p_a", FlowEdgeKind::Other),
                edge("p_a", "p_b", FlowEdgeKind::BranchTrue),
                edge("p_a", "p_a_else", FlowEdgeKind::BranchFalse),
                edge("p_b", "p_act", FlowEdgeKind::BranchTrue),
                edge("p_b", "p_other", FlowEdgeKind::BranchFalse),
                edge("p_c", "p_act2", FlowEdgeKind::BranchTrue),
                edge("p_c", "p_d", FlowEdgeKind::BranchFalse),
                edge("p_d", "p_act2", FlowEdgeKind::BranchTrue),
                edge("p_d", "p_exit", FlowEdgeKind::BranchFalse),
            ],
            exit: "p_exit".into(),
        }],
        region_graphs: vec![],
        non_structured_graphs: vec![NonStructuredGraph { key: "nsc1".into(), has_facts: false }],
        data_flow_graphs: vec![DataFlowGraph {
            key: "dfg1".into(),
            def_use_support: CapabilitySupport::Unknown,
            def_use_authority: None,
            effects_support: CapabilitySupport::Unknown,
            effects_authority: None,
        }],
        dependence_graphs: vec![PdgGraph {
            key: "pdg1".into(),
            nodes: vec![
                pdg_node("n_a", "p_a", a),
                pdg_node("n_b", "p_b", b),
                pdg_node("n_c", "p_c", c),
                pdg_node("n_d", "p_d", d),
            ],
            edges: vec![
                DependenceEdge { key: "e_n_a_n_b".into(), from: "n_a".into(), to: "n_b".into(), flow: true },
                DependenceEdge { key: "e_n_c_n_d".into(), from: "n_c".into(), to: "n_d".into(), flow: true },
            ],
            flow_graph: "cfg1".into(),
            region_graph: "crg1".into(),
            non_structured_graph: "nsc1".into(),
            data_flow_graph: "dfg1".into(),
            eligibility: GraphEligibilityDecision {
                consumer: recipe.id().into(),
                required_layers: recipe.required_layers().to_vec(),
                eligible: false,
            },
            local_pdg_support: CapabilitySupport::Unknown,
            local_pdg_authority: None,
        }],
    }
}

fn replacements(candidates: &[TransformationCandidate]) -> Vec<String> {
    let mut all: Vec<String> = candidates.iter().map(|c| c.edits()[0].after.clone()).collect();
    all.sort();
    all
}

#[test]
fn nested_and_chained_conditions_yield_one_and_and_one_or_merge() {
    let candidates = detect_adjacent_condition_merges(&projection()).unwrap();
    assert_eq!(
        replacements(&candidates),
        vec!["if (a) && (b) { act(); } else { other(); }".to_string(), "if (c) || (d) { act(); }".to_string()]
    );
    for candidate in &candidates {
        assert_eq!(candidate.recipe().name(), "rust-merge-adjacent-conditions");
        assert_eq!(candidate.disposition(), CandidateDisposition::ReviewRequired);
        assert_eq!(candidate.safety(), SafetyClass::SafeWithPrecondition);
        assert!(!candidate.eligibility().eligible);
        assert!(candidate.required_results().iter().any(|result| {
            result.condition == CONDITION_EVALUATION_ORDER && result.state == ProofState::Proven && result.evidence.len() == 2
        }));
        assert!(candidate.required_results().iter().any(|result| {
            result.condition == CONDITION_EXCEPTION_ORDER
                && result.state == ProofState::Unknown
                && result.evidence[0].capability.as_deref() == Some("effects")
                && result.evidence[0].support == Some(CapabilitySupport::Unknown)
        }));
        let changes = &candidate.expected_delta().changes;
        assert_eq!(changes.len(), 2);
        assert!(changes.iter().any(|c| c.kind == GraphChangeKind::Remove));
        assert!(candidate.validate().is_ok());
        let evidence = branch_graph_evidence(candidate).unwrap();
        assert!(evidence.before.len() >= 2);
        assert_eq!(evidence.after.changes.len(), 2);
        assert!(!evidence.counter_evidence.is_empty());
    }
}

#[test]
fn the_and_merge_targets_the_outer_branch_and_removes_the_inner_dispatch() {
    let candidates = detect_adjacent_condition_merges(&projection()).unwrap();
    let and = candidates.iter().find(|c| c.edits()[0].after.contains("&&")).unwrap();
    assert_eq!(and.edits()[0].before, "if a { if b { act(); } else { other(); } } else { other(); }");
    assert_eq!((and.target().node.start_byte, and.target().node.end_byte), (31, 91));
    assert_eq!(and.target().span.start_line, 2);
    let delta = &and.expected_delta().changes;
    let modified = delta.iter().find(|c| c.kind == GraphChangeKind::Modify).unwrap();
    let removed = delta.iter().find(|c| c.kind == GraphChangeKind::Remove).unwrap();
    assert_eq!(modified.entity.entity, "n_a");
    assert_eq!(removed.entity.entity, "n_b");
}

#[test]
fn merge_shapes_name_their_kind() {
    let nodes = syntax();
    let and = merge_shape(&nodes, 0).unwrap().unwrap();
    assert_eq!(and.kind, MergeKind::AndSharedFallback);
    assert_eq!((and.inner, and.left, and.right, and.success, and.fallback), (4, 1, 5, 6, Some(11)));
    let or = merge_shape(&nodes, 12).unwrap().unwrap();
    assert_eq!(or.kind, MergeKind::OrSharedSuccess);
    assert_eq!(or.fallback, None);
    assert!(merge_shape(&nodes, 4).unwrap().is_none());
    assert_eq!(MergeKind::AndNoFallback.name(), "and-no-fallback");
    assert_eq!(MergeKind::OrSharedSuccess.operator(), "||");
}

#[test]
fn nested_branches_without_fallbacks_merge_by_and() {
    let mut p = projection();
    p.syntax[0].children = vec![1, 2];
    p.syntax[4].children = vec![5, 6];
    let candidates = detect_adjacent_condition_merges(&p).unwrap();
    assert!(replacements(&candidates).contains(&"if (a) && (b) { act(); }".to_string()));
}

#[test]
fn a_mismatched_fallback_leaves_only_the_or_merge() {
    let mut p = projection();
    p.syntax[9].text = "{ act(); }".into();
    let candidates = detect_adjacent_condition_merges(&p).unwrap();
    assert_eq!(replacements(&candidates), vec!["if (c) || (d) { act(); }".to_string()]);
}

#[test]
fn let_condition_and_comment_forms_abstain() {
    let mut p = projection();
    p.syntax[1].kind = "let_condition".into();
    p.syntax[12].text = "if c { /* preserve */ act(); } else if d { act(); }".into();
    assert!(detect_adjacent_condition_merges(&p).unwrap().is_empty());
}

#[test]
fn a_let_deep_inside_the_inner_condition_abstains() {
    let mut p = projection();
    p.syntax[17].children = vec![5];
    p.syntax[5].children = vec![1];
    p.syntax[1].kind = "let_chain".into();
    let candidates = detect_adjacent_condition_merges(&p).unwrap();
    assert!(candidates.is_empty());
}

#[test]
fn a_recovered_inner_dispatch_blocks_its_merge() {
    let mut p = projection();
    p.flow_graphs[0].points[2].recovered = true;
    let candidates = detect_adjacent_condition_merges(&p).unwrap();
    assert_eq!(replacements(&candidates), vec!["if (c) || (d) { act(); }".to_string()]);
}

#[test]
fn a_conservative_outer_edge_blocks_its_merge() {
    let mut p = projection();
    p.flow_graphs[0].edges[5].exact = false;
    let candidates = detect_adjacent_condition_merges(&p).unwrap();
    assert_eq!(replacements(&candidates), vec!["if (a) && (b) { act(); } else { other(); }".to_string()]);
}

#[test]
fn a_second_dispatch_of_a_claimed_branch_adds_nothing() {
    let mut p = projection();
    let a = p.syntax[0].key.clone();
    p.flow_graphs[0].points.push(dispatch("p_a_again", a));
    p.flow_graphs[0].edges.push(edge("p_a_again", "p_b", FlowEdgeKind::BranchTrue));
    p.flow_graphs[0].edges.push(edge("p_a_again", "p_a_else", FlowEdgeKind::BranchFalse));
    assert_eq!(merge_sites(&p).unwrap().len(), 2);
    assert_eq!(detect_adjacent_condition_merges(&p).unwrap().len(), 2);
}

#[test]
fn a_dispatch_without_its_syntax_is_refused() {
    let mut p = projection();
    p.flow_graphs[0].points[1].source = Some(key(0, 5));
    let error = detect_adjacent_condition_merges(&p).unwrap_err();
    assert!(matches!(error, ConditionMergeRecipeError::Projection(_)));
}
