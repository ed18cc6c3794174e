use deslop_recipes::candidate::{CandidateDisposition, GraphEligibilityDecision};
use deslop_recipes::contract::ProofState;
use deslop_recipes::evidence::CapabilitySupport;
use deslop_recipes::impact::DependenceEdge;
use deslop_recipes::model::SafetyClass;
use deslop_recipes::recipes::branch::{branch_graph_evidence, equivalent_branch_factoring_recipe, BranchRecipeError};
use deslop_recipes::recipes::branch_detect::{block_body, detect_equivalent_branch_fragments};
use deslop_recipes::recipes::retained::{
    DataFlowGraph, FlowEdge, FlowEdgeKind, FlowGraph, FlowPoint, FlowPointKind, NonStructuredGraph, PdgGraph, PdgNode, RetainedProjection,
    SyntaxNode,
};
use deslop_recipes::target::NodeKey;

const SOURCE: &str = "fn p(flag: bool) -> i32 {\n    if flag { side(); left() } else { side(); right() }\n}\n";

fn digest(prefix: &str, fill: char) -> String {
    format!("{prefix}{}", fill.to_string().repeat(64))
}

fn key(start: usize, end: usize) -> NodeKey {
    NodeKey { path: "src/lib.rs".into(), start_byte: start, end_byte: end, start_row: 1, end_row: 1 }
}

fn node(start: usize, end: usize, kind: &str, field: Option<&str>, named: bool, children: Vec<usize>) -> SyntaxNode {
    SyntaxNode {
        key: key(start, end),
        kind: kind.into(),
        rust: true,
        has_error: false,
        named,
        field: field.map(|f| f.to_string()),
        extra: false,
        parent: None,
        children,
        text: SOURCE[start..end].into(),
    }
}

fn syntax() -> Vec<SyntaxNode> {
    vec![
        node(30, 81, "if_expression", None, true, vec![9, 1, 2, 5]),
        node(33, 37, "identifier", Some("condition"), true, vec![]),
        node(38, 56, "block", Some("consequence"), true, vec![3, 4]),
        node(40, 47, "expression_statement", None, true, vec![]),
        node(48, 54, "call_expression", None, true, vec![]),
        node(57, 81, "else_clause", Some("alternative"), true, vec![6]),
        node(62, 81, "block", None, true, vec![7, 8]),
        node(64, 71, "expression_statement", None, true, vec![]),
        node(72, 79, "call_expression", None, true, vec![]),
        node(30, 32, "if", None, false, vec![]),
    ]
}

fn edge(from: &str, to: &str, kind: FlowEdgeKind) -> FlowEdge {
    FlowEdge {
        from: from.into(),
        to: to.into(),
        exact: true,
        recovered_source: false,
        recovered_predicate: false,
        kind,
    }
}

fn projection() -> RetainedProjection {
    let recipe = equivalent_branch_factoring_recipe().unwrap();
    RetainedProjection {
        id: digest("pj1_", 'c'),
        snapshot: digest("ps1_", 'a'),
        analysis: digest("pa1_", 'b'),
        syntax: syntax(),
        flow_graphs: vec![FlowGraph {
            key: "cfg1".into(),
            points: vec![
                FlowPoint { key: "p_entry".into(), source: None, kind: FlowPointKind::OtherSynthetic, recovered: false },
                FlowPoint { key: "p_dispatch".into(), source: Some(key(30, 81)), kind: FlowPointKind::BranchDispatch, recovered: false },
            ],
            edges: vec![
                edge("p_dispatch", "p_then", FlowEdgeKind::BranchTrue),
                edge("p_dispatch", "p_else", FlowEdgeKind::BranchFalse),
                edge("p_entry", "p_dispatch", FlowEdgeKind::Other),
            ],
            exit: "p_exit".into(),
        }],
        region_graphs: vec![],
        non_structured_graphs: vec![NonStructuredGraph { key: "nsc1".into(), has_facts: false }],
        data_flow_graphs: vec![DataFlowGraph {
            key: "dfg1".into(),
            def_use_support: CapabilitySupport::Unknown,
            def_use_authority: None,
            effects_support: CapabilitySupport::Unknown,
            effects_authority: None,
        }],
        dependence_graphs: vec![PdgGraph {
            key: "pdg1".into(),
            nodes: vec![
                PdgNode {
                    key: "n_dispatch".into(),
                    reachable: true,
                    source: Some(key(30, 81)),
                    point: "p_dispatch".into(),
                    region_point: "r_dispatch".into(),
                    data_flow_point: "d_dispatch".into(),
                },
                PdgNode {
                    key: "n_left".into(),
                    reachable: true,
                    source: Some(key(48, 54)),
                    point: "p_then".into(),
                    region_point: "r_then".into(),
                    data_flow_point: "d_then".into(),
                },
            ],
            edges: vec![DependenceEdge { key: "e_n_dispatch_n_left".into(), from: "n_dispatch".into(), to: "n_left".into(), flow: true }],
            flow_graph: "cfg1".into(),
            region_graph: "crg1".into(),
            non_structured_graph: "nsc1".into(),
            data_flow_graph: "dfg1".into(),
            eligibility: GraphEligibilityDecision {
                consumer: recipe.id().into(),
                required_layers: recipe.required_layers().to_vec(),
                eligible: false,
            },
            local_pdg_support: CapabilitySupport::Unknown,
            local_pdg_authority: None,
        }],
    }
}

#[test]
fn common_prefix_branch_yields_one_review_candidate() {
    let candidates = detect_equivalent_branch_fragments(&projection()).unwrap();
    assert_eq!(candidates.len(), 1);
    let c = &candidates[0];
    assert_eq!(c.recipe().name(), "rust-factor-equivalent-branch-fragments");
    assert_eq!(c.disposition(), CandidateDisposition::ReviewRequired);
    assert_eq!(c.safety(), SafetyClass::SafeWithPrecondition);
    assert!(!c.eligibility().eligible);
    assert_eq!(c.edits()[0].before, "if flag { side(); left() } else { side(); right() }");
    assert_eq!(
        c.edits()[0].after,
        "{ let __deslop_m5_condition = flag; side(); if __deslop_m5_condition { left() } else { right() } }"
    );
    assert!(c.required_results().iter().any(|r| {
        r.condition == "dependencies-preserved"
            && r.state == ProofState::Unknown
            && r.evidence[0].capability.as_deref() == Some("def-use")
            && r.evidence[0].support == Some(CapabilitySupport::Unknown)
    }));
    assert_eq!(c.expected_delta().changes[0].entity.entity, "n_dispatch");
    assert!(c.validate().is_ok());
    let evidence = branch_graph_evidence(c).unwrap();
    assert!(!evidence.before.is_empty());
    assert!(!evidence.after.changes.is_empty());
    assert!(!evidence.counter_evidence.is_empty());
}

#[test]
fn a_second_dispatch_of_the_same_branch_adds_nothing() {
    let mut p = projection();
    p.flow_graphs[0].points.push(FlowPoint {
        key: "p_dispatch_again".into(),
        source: Some(key(30, 81)),
        kind: FlowPointKind::BranchDispatch,
        recovered: false,
    });
    p.flow_graphs[0].edges.push(edge("p_dispatch_again", "p_then", FlowEdgeKind::BranchTrue));
    p.flow_graphs[0].edges.push(edge("p_dispatch_again", "p_else", FlowEdgeKind::BranchFalse));
    p.dependence_graphs[0].nodes[1].point = "p_dispatch_again".into();
    assert_eq!(detect_equivalent_branch_fragments(&p).unwrap().len(), 1);
}

#[test]
fn a_conservative_edge_blocks_the_branch() {
    let mut p = projection();
    p.flow_graphs[0].edges[1].exact = false;
    assert!(detect_equivalent_branch_fragments(&p).unwrap().is_empty());
}

#[test]
fn commented_branches_abstain() {
    let mut p = projection();
    p.syntax[0].text = "if flag { /* keep */ side(); left() } else { side(); right() }".into();
    assert!(detect_equivalent_branch_fragments(&p).unwrap().is_empty());
}

#[test]
fn equivalent_arms_factor_the_whole_branch() {
    let mut p = projection();
    p.syntax[8].kind = "call_expression".into();
    p.syntax[8].text = "left()".into();
    let candidates = detect_equivalent_branch_fragments(&p).unwrap();
    assert_eq!(candidates.len(), 1);
    assert_eq!(candidates[0].edits()[0].after, "{ if flag {} else {}; side(); left() }");
}

#[test]
fn non_structured_facts_leave_control_unknown() {
    let mut p = projection();
    p.non_structured_graphs[0].has_facts = true;
    let candidates = detect_equivalent_branch_fragments(&p).unwrap();
    assert!(candidates[0]
        .forbidden_results()
        .iter()
        .any(|r| r.condition == "non-structured-control" && r.state == ProofState::Unknown));
}

#[test]
fn a_missing_branch_node_is_an_inconsistent_projection() {
    let mut p = projection();
    p.flow_graphs[0].points[1].source = Some(key(0, 1));
    assert!(matches!(detect_equivalent_branch_fragments(&p), Err(BranchRecipeError::Projection(_))));
}

#[test]
fn block_bodies_are_trimmed_between_braces() {
    assert_eq!(block_body("{ side(); 1 }").as_deref(), Some("side(); 1"));
    assert_eq!(block_body("{}").as_deref(), Some(""));
    assert_eq!(block_body("{"), None);
    assert_eq!(block_body("side()"), None);
}
