use deslop_recipes::candidate::{CandidateDisposition, GraphEligibilityDecision};
use deslop_recipes::contract::ProofState;
use deslop_recipes::evidence::{CapabilitySupport, GraphChangeKind};
use deslop_recipes::impact::DependenceEdge;
use deslop_recipes::model::SafetyClass;
use deslop_recipes::recipes::branch::branch_graph_evidence;
use deslop_recipes::recipes::branch_terminal::{
    literal_dead_arm_recipe, TerminalBranchRecipeError, DEAD_COMPILE, DEAD_LITERAL,
};
use deslop_recipes::recipes::dead_arm_detect::{dead_arm_sites, dead_shape, detect_literal_dead_arms};
use deslop_recipes::recipes::retained::{
    DataFlowGraph, FlowEdge, FlowEdgeKind, FlowGraph, FlowPoint, FlowPointKind, NonStructuredGraph, PdgGraph,
    PdgNode, RetainedProjection, SyntaxNode,
};
use deslop_recipes::target::NodeKey;

const SOURCE: &str = "fn dead_true() -> i32 {\n    if true { 1 } else { 2 }\n}\n";

fn digest(prefix: &str, fill: char) -> String {
    format!("{prefix}{}", fill.to_string().repeat(64))
}

fn key(start: usize, end: usize) -> NodeKey {
    NodeKey { path: "src/dead.rs".into(), start_byte: start, end_byte: end, start_row: 1, end_row: 1 }
}

fn node(start: usize, end: usize, kind: &str, field: Option<&str>, children: Vec<usize>) -> SyntaxNode {
    SyntaxNode {
        key: key(start, end),
        kind: kind.into(),
        rust: true,
        has_error: false,
        named: true,
        field: field.map(|f| f.to_string()),
        extra: false,
        parent: None,
        children,
        text: SOURCE[start..end].into(),
    }
}

fn syntax() -> Vec<SyntaxNode> {
    vec![
        node(28, 52, "if_expression", None, vec![1, 2, 3]),
        node(31, 35, "boolean_literal", Some("condition"), vec![]),
        node(36, 41, "block", Some("consequence"), vec![]),
        node(42, 52, "else_clause", Some("alternative"), vec![4]),
        node(47, 52, "block", None, vec![]),
    ]
}

fn edge(from: &str, to: &str, kind: FlowEdgeKind) -> FlowEdge {
    FlowEdge { from: from.into(), to: to.into(), exact: true, recovered_source: false, recovered_predicate: false, kind }
}

fn pdg_node(name: &str, point: &str) -> PdgNode {
    PdgNode {
        key: name.into(),
        reachable: true,
        source: Some(key(28, 52)),
        point: point.into(),
        region_point: format!("r_{point}"),
        data_flow_point: format!("d_{point}"),
    }
}

fn projection() -> RetainedProjection {
    let recipe = literal_dead_arm_recipe().unwrap();
    RetainedProjection {
        id: digest("pj1_", 'c'),
        snapshot: digest("ps1_", 'a'),
        analysis: digest("pa1_", 'b'),
        syntax: syntax(),
        flow_graphs: vec![FlowGraph {
            key: "cfg1".into(),
            points: vec![
                FlowPoint { key: "p_entry".into(), source: None, kind: FlowPointKind::OtherSynthetic, recovered: false },
                FlowPoint { key: "p_dispatch".into(), source: Some(key(28, 52)), kind: FlowPointKind::BranchDispatch, recovered: false },
            ],
            edges: vec![
                edge("p_entry", "p_dispatch", FlowEdgeKind::Other),
                edge("p_dispatch", "p_one", FlowEdgeKind::BranchTrue),
                edge("p_dispatch", "p_two", FlowEdgeKind::BranchFalse),
            ],
            exit: "p_exit".into(),
        }],
        region_graphs: vec![],
        non_structured_graphs: vec![NonStructuredGraph { key: "nsc1".into(), has_facts: false }],
        data_flow_graphs: vec![DataFlowGraph {
            key: "dfg1".into(),
            def_use_support: CapabilitySupport::Unknown,
            def_use_authority: None,
            effects_support: CapabilitySupport::Unknown,
            effects_authority: None,
        }],
        dependence_graphs: vec![PdgGraph {
            key: "pdg1".into(),
            nodes: vec![pdg_node("n_dispatch", "p_dispatch"), pdg_node("n_one", "p_one")],
            edges: vec![DependenceEdge { key: "e_n_dispatch_n_one".into(), from: "n_dispatch".into(), to: "n_one".into(), flow: true }],
            flow_graph: "cfg1".into(),
            region_graph: "crg1".into(),
            non_structured_graph: "nsc1".into(),
            data_flow_graph: "dfg1".into(),
            eligibility: GraphEligibilityDecision {
                consumer: recipe.id().into(),
                required_layers: recipe.required_layers().to_vec(),
                eligible: false,
            },
            local_pdg_support: CapabilitySupport::Unknown,
            local_pdg_authority: None,
        }],
    }
}

#[test]
fn a_true_literal_keeps_the_consequence() {
    let found = detect_literal_dead_arms(&projection()).unwrap();
    assert_eq!(found.len(), 1);
    let c = &found[0];
    assert_eq!(c.recipe().name(), "rust-remove-literal-dead-arm");
    assert_eq!(c.disposition(), CandidateDisposition::ReviewRequired);
    assert_eq!(c.safety(), SafetyClass::SafeWithPrecondition);
    assert_eq!(c.edits()[0].before, "if true { 1 } else { 2 }");
    assert_eq!(c.edits()[0].after, "{ 1 }");
    let literal = c.required_results().iter().find(|r| r.condition == DEAD_LITERAL).unwrap();
    assert_eq!(literal.state, ProofState::Proven);
    assert!(literal.evidence.iter().any(|e| e.detail == "Exact predicate `true` selects only the True branch outcome."));
    assert!(c.required_results().iter().any(|r| r.condition == DEAD_COMPILE && r.state == ProofState::Unknown));
    let changes = &c.expected_delta().changes;
    assert!(changes.iter().any(|x| x.kind == GraphChangeKind::Remove && x.entity.entity == "p_two"));
    assert!(changes.iter().any(|x| x.kind == GraphChangeKind::Preserve && x.entity.entity == "p_one"));
    assert!(changes.iter().any(|x| x.kind == GraphChangeKind::Remove && x.entity.entity == "n_dispatch"));
    assert!(c.validate().is_ok());
    assert_eq!(branch_graph_evidence(c).unwrap().after.changes.len(), 3);
}

#[test]
fn a_false_literal_keeps_the_alternative() {
    let mut p = projection();
    p.syntax[1].text = "false".into();
    let found = detect_literal_dead_arms(&p).unwrap();
    assert_eq!(found[0].edits()[0].after, "{ 2 }");
    assert!(found[0].required_results()[0..]
        .iter()
        .flat_map(|r| r.evidence.iter())
        .any(|e| e.detail == "Exact predicate `false` selects only the False branch outcome."));
    let changes = &found[0].expected_delta().changes;
    assert!(changes.iter().any(|x| x.kind == GraphChangeKind::Remove && x.entity.entity == "p_one"));
}

#[test]
fn literal_shapes_select_the_literal_arm() {
    let nodes = syntax();
    let shape = dead_shape(&nodes, 0).unwrap().unwrap();
    assert_eq!((shape.predicate, shape.selected, shape.keeps_true), (1, 2, true));
    assert!(dead_shape(&nodes, 2).unwrap().is_none());
}

#[test]
fn a_macro_in_a_dead_arm_abstains() {
    let mut p = projection();
    p.syntax[4].children = vec![5];
    p.syntax.push(node(49, 50, "macro_invocation", None, vec![]));
    assert!(detect_literal_dead_arms(&p).unwrap().is_empty());
}

#[test]
fn a_dynamic_predicate_abstains() {
    let mut p = projection();
    p.syntax[1].kind = "identifier".into();
    assert!(detect_literal_dead_arms(&p).unwrap().is_empty());
}

#[test]
fn a_commented_literal_branch_abstains() {
    let mut p = projection();
    p.syntax[0].text = "if true { 1 } else { /* two */ 2 }".into();
    assert!(detect_literal_dead_arms(&p).unwrap().is_empty());
}

#[test]
fn each_dispatch_of_a_literal_branch_is_a_site() {
    let mut p = projection();
    p.flow_graphs[0].points.push(FlowPoint {
        key: "p_dispatch_again".into(),
        source: Some(key(28, 52)),
        kind: FlowPointKind::BranchDispatch,
        recovered: false,
    });
    p.flow_graphs[0].edges.push(edge("p_dispatch_again", "p_one", FlowEdgeKind::BranchTrue));
    p.flow_graphs[0].edges.push(edge("p_dispatch_again", "p_two", FlowEdgeKind::BranchFalse));
    p.dependence_graphs[0].nodes.push(pdg_node("n_again", "p_dispatch_again"));
    assert_eq!(dead_arm_sites(&p).unwrap().len(), 2);
    assert_eq!(detect_literal_dead_arms(&p).unwrap().len(), 2);
}

#[test]
fn a_literal_dispatch_without_its_syntax_is_refused() {
    let mut p = projection();
    p.flow_graphs[0].points[1].source = Some(key(0, 2));
    assert!(matches!(detect_literal_dead_arms(&p).unwrap_err(), TerminalBranchRecipeError::Projection(_)));
}
