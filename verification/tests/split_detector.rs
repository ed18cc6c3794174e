use deslop_recipes::candidate::{CandidateDisposition, GraphEligibilityDecision};
use deslop_recipes::contract::ProofState;
use deslop_recipes::evidence::{CapabilitySupport, GraphChangeKind};
use deslop_recipes::impact::DependenceEdge;
use deslop_recipes::model::SafetyClass;
use deslop_recipes::recipes::branch::branch_graph_evidence;
use deslop_recipes::recipes::branch_split::{
    independent_branch_split_recipe, BranchSplitRecipeError, FORBIDDEN_CROSSING, REQUIRED_SLICES,
};
use deslop_recipes::recipes::retained::{
    DataFlowGraph, FlowEdge, FlowEdgeKind, FlowGraph, FlowPoint, FlowPointKind, NonStructuredGraph, PdgGraph,
    PdgNode, RetainedProjection, SyntaxNode,
};
use deslop_recipes::recipes::slice::flow_slice;
use deslop_recipes::recipes::split_detect::{detect_independent_branch_splits, split_shape, split_sites};
use deslop_recipes::target::NodeKey;

const SOURCE: &str = "fn run(flag: bool) {\n    if flag { left(); right(); }\n}\n";

fn digest(prefix: &str, fill: char) -> String {
    format!("{prefix}{}", fill.to_string().repeat(64))
}

fn key(span: (usize, usize)) -> NodeKey {
    NodeKey { path: "src/split.rs".into(), start_byte: span.0, end_byte: span.1, start_row: 1, end_row: 1 }
}

fn at(needle: &str) -> (usize, usize) {
    let start = SOURCE.find(needle).unwrap();
    (start, start + needle.len())
}

fn node(span: (usize, usize), kind: &str, field: Option<&str>, children: Vec<usize>) -> SyntaxNode {
    SyntaxNode {
        key: key(span),
        kind: kind.into(),
        rust: true,
        has_error: false,
        named: true,
        field: field.map(|f| f.to_string()),
        extra: false,
        parent: None,
        children,
        text: SOURCE[span.0..span.1].into(),
    }
}

fn syntax() -> Vec<SyntaxNode> {
    vec![
        node(at("if flag { left(); right(); }"), "if_expression", None, vec![1, 2]),
        node((at("flag {").0, at("flag {").0 + 4), "identifier", Some("condition"), vec![]),
        node(at("{ left(); right(); }"), "block", Some("consequence"), vec![3, 5]),
        node(at("left();"), "expression_statement", None, vec![4]),
        node(at("left()"), "call_expression", None, vec![]),
        node(at("right();"), "expression_statement", None, vec![6]),
        node(at("right()"), "call_expression", None, vec![]),
    ]
}

fn edge(from: &str, to: &str, kind: FlowEdgeKind) -> FlowEdge {
    FlowEdge { from: from.into(), to: to.into(), exact: true, recovered_source: false, recovered_predicate: false, kind }
}

fn pdg_node(name: &str, point: &str, source: (usize, usize)) -> PdgNode {
    PdgNode {
        key: name.into(),
        reachable: true,
        source: Some(key(source)),
        point: point.into(),
        region_point: format!("r_{point}"),
        data_flow_point: format!("d_{point}"),
    }
}

fn dependence(name: &str, from: &str, to: &str, flow: bool) -> DependenceEdge {
    DependenceEdge { key: name.into(), from: from.into(), to: to.into(), flow }
}

fn projection() -> RetainedProjection {
    let recipe = independent_branch_split_recipe().unwrap();
    let left = at("left");
    RetainedProjection {
        id: digest("pj1_", 'c'),
        snapshot: digest("ps1_", 'a'),
        analysis: digest("pa1_", 'b'),
        syntax: syntax(),
        flow_graphs: vec![FlowGraph {
            key: "cfg1".into(),
            points: vec![FlowPoint {
                key: "p_dispatch".into(),
                source: Some(key(at("if flag { left(); right(); }"))),
                kind: FlowPointKind::BranchDispatch,
                recovered: false,
            }],
            edges: vec![
                edge("p_dispatch", "p_left", FlowEdgeKind::BranchTrue),
                edge("p_dispatch", "p_exit", FlowEdgeKind::BranchFalse),
            ],
            exit: "p_exit".into(),
        }],
        region_graphs: vec![],
        non_structured_graphs: vec![NonStructuredGraph { key: "nsc1".into(), has_facts: false }],
        data_flow_graphs: vec![DataFlowGraph {
            key: "dfg1".into(),
            def_use_support: CapabilitySupport::Unknown,
            def_use_authority: None,
            effects_support: CapabilitySupport::Unknown,
            effects_authority: None,
        }],
        dependence_graphs: vec![PdgGraph {
            key: "pdg1".into(),
            nodes: vec![
                pdg_node("n_dispatch", "p_dispatch", at("if flag { left(); right(); }")),
                pdg_node("n_left", "p_left", at("left()")),
                pdg_node("n_left_value", "p_left_value", (left.0, left.1)),
                pdg_node("n_right", "p_right", at("right()")),
            ],
            edges: vec![
                dependence("e_left", "n_dispatch", "n_left", false),
                dependence("e_right", "n_dispatch", "n_right", false),
                dependence("e_value", "n_left_value", "n_left", true),
            ],
            flow_graph: "cfg1".into(),
            region_graph: "crg1".into(),
            non_structured_graph: "nsc1".into(),
            data_flow_graph: "dfg1".into(),
            eligibility: GraphEligibilityDecision {
                consumer: recipe.id().into(),
                required_layers: recipe.required_layers().to_vec(),
                eligible: false,
            },
            local_pdg_support: CapabilitySupport::Unknown,
            local_pdg_authority: None,
        }],
    }
}

const AFTER: &str = "{ let __deslop_m57_condition = flag; if __deslop_m57_condition { left(); } if __deslop_m57_condition { right(); } }";

#[test]
fn candidate_retains_unknown_production_independence() {
    let found = detect_independent_branch_splits(&projection()).unwrap();
    assert_eq!(found.len(), 1);
    let c = &found[0];
    assert_eq!(c.recipe().name(), "rust-split-independent-branch-actions");
    assert_eq!(c.disposition(), CandidateDisposition::ReviewRequired);
    assert_eq!(c.safety(), SafetyClass::SafeWithPrecondition);
    assert_eq!(c.edits()[0].after, AFTER);
    let slices = c.required_results().iter().find(|r| r.condition == REQUIRED_SLICES).unwrap();
    assert_eq!(slices.state, ProofState::Unknown);
    let names: Vec<&str> = slices.evidence.iter().map(|e| e.entity.entity.as_str()).collect();
    assert_eq!(names, vec!["n_left", "n_left_value", "n_right"]);
    assert!(slices
        .evidence
        .iter()
        .any(|e| e.detail == "No crossing is retained, but unavailable DefUse/LocalPdg authority makes absence Unknown."));
    let crossing = c.forbidden_results().iter().find(|r| r.condition == FORBIDDEN_CROSSING).unwrap();
    assert_eq!(crossing.state, ProofState::Unknown);
    let changes = &c.expected_delta().changes;
    assert_eq!(changes.len(), 4);
    assert!(changes.iter().any(|x| x.kind == GraphChangeKind::Remove && x.entity.entity == "n_dispatch"));
    assert_eq!(changes.iter().filter(|x| x.kind == GraphChangeKind::Preserve).count(), 3);
    assert!(c.validate().is_ok());
    assert_eq!(branch_graph_evidence(c).unwrap().after.changes.len(), 4);
}

#[test]
fn complete_authority_proves_independence() {
    let mut p = projection();
    p.data_flow_graphs[0].def_use_support = CapabilitySupport::Provided;
    p.data_flow_graphs[0].def_use_authority = Some("adapter".into());
    p.dependence_graphs[0].local_pdg_support = CapabilitySupport::Provided;
    p.dependence_graphs[0].local_pdg_authority = Some("compiler".into());
    let found = detect_independent_branch_splits(&p).unwrap();
    let c = &found[0];
    assert!(c.required_results().iter().any(|r| r.condition == REQUIRED_SLICES && r.state == ProofState::Proven));
    assert!(c.forbidden_results().iter().any(|r| r.condition == FORBIDDEN_CROSSING && r.state == ProofState::Disproven));
}

#[test]
fn a_shared_flow_dependence_blocks_the_split() {
    let mut p = projection();
    p.dependence_graphs[0].edges.push(dependence("e_shared", "n_left_value", "n_right", true));
    assert!(detect_independent_branch_splits(&p).unwrap().is_empty());
}

#[test]
fn a_control_dependence_between_actions_does_not_block_the_split() {
    let mut p = projection();
    p.dependence_graphs[0].edges.push(dependence("e_order", "n_left", "n_right", false));
    assert_eq!(detect_independent_branch_splits(&p).unwrap().len(), 1);
}

#[test]
fn non_action_shapes_abstain() {
    let mut single = projection();
    single.syntax[2].children = vec![3];
    assert!(detect_independent_branch_splits(&single).unwrap().is_empty());
    let mut not_a_call = projection();
    not_a_call.syntax[6].kind = "macro_invocation".into();
    assert!(detect_independent_branch_splits(&not_a_call).unwrap().is_empty());
    let mut with_else = projection();
    with_else.syntax[0].children.push(7);
    with_else.syntax.push(node(at("{ left(); right(); }"), "else_clause", Some("alternative"), vec![]));
    assert!(detect_independent_branch_splits(&with_else).unwrap().is_empty());
    let mut named = projection();
    named.syntax[0].text = "if flag { __deslop_m57_condition(); right(); }".into();
    assert!(detect_independent_branch_splits(&named).unwrap().is_empty());
}

#[test]
fn an_action_without_dependence_nodes_abstains() {
    let mut p = projection();
    p.dependence_graphs[0].nodes.pop();
    assert!(detect_independent_branch_splits(&p).unwrap().is_empty());
}

#[test]
fn split_shapes_list_the_actions_in_order() {
    let (pred, acts) = split_shape(&syntax(), 0).unwrap().unwrap();
    assert_eq!(pred, 1);
    assert_eq!(acts, vec![3, 5]);
    assert_eq!(split_sites(&projection()).unwrap().len(), 1);
}

#[test]
fn flow_slices_follow_data_flow_both_ways_and_nothing_else() {
    let edges = vec![
        dependence("e1", "b", "a", true),
        dependence("e2", "b", "c", true),
        dependence("e3", "c", "d", false),
        dependence("e4", "x", "y", true),
    ];
    let slice = flow_slice(&edges, &vec!["a".to_string()]);
    assert_eq!(slice, vec!["a".to_string(), "b".to_string(), "c".to_string()]);
    assert_eq!(flow_slice(&edges, &vec!["d".to_string()]), vec!["d".to_string()]);
}

#[test]
fn a_split_dispatch_without_its_syntax_is_refused() {
    let mut p = projection();
    p.flow_graphs[0].points[0].source = Some(key((0, 2)));
    assert!(matches!(detect_independent_branch_splits(&p).unwrap_err(), BranchSplitRecipeError::Projection(_)));
}
