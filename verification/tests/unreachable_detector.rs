use deslop_recipes::candidate::{CandidateDisposition, GraphEligibilityDecision};
use deslop_recipes::evidence::{CapabilitySupport, GraphChangeKind};
use deslop_recipes::impact::DependenceEdge;
use deslop_recipes::model::{GraphEvidenceLayer, SafetyClass};
use deslop_recipes::recipes::retained::{
    DataFlowGraph, FlowGraph, FlowPoint, FlowPointKind, NonStructuredGraph, PdgGraph, PdgNode, RegionGraph, RegionRelation,
    RetainedProjection, SyntaxNode,
};
use deslop_recipes::recipes::unreachable::{
    detect_unreachable_literal_statements, unreachable_literal_statement_recipe, UnreachableRecipeError,
};
use deslop_recipes::project::{detect_projection_recipes, ProjectionDetectError};
use deslop_recipes::target::NodeKey;

// The retained graphs of `fn run() { return; 1; }`, with knobs for the
// recipe's negative fixtures.

fn digest(prefix: &str, fill: char) -> String {
    format!("{prefix}{}", fill.to_string().repeat(64))
}

fn key(start: usize, end: usize) -> NodeKey {
    NodeKey { path: "src/lib.rs".into(), start_byte: start, end_byte: end, start_row: 0, end_row: 0 }
}

fn syntax(child_kind: &str, text: &str) -> Vec<SyntaxNode> {
    vec![
        SyntaxNode {
            key: key(19, 21),
            kind: "expression_statement".into(),
            rust: true,
            has_error: false,
            named: true,
            field: None,
            extra: false,
            parent: None,
            children: vec![1, 2],
            text: text.into(),
        },
        SyntaxNode {
            key: key(19, 20),
            kind: child_kind.into(),
            rust: true,
            has_error: false,
            named: true,
            field: None,
            extra: false,
            parent: Some(0),
            children: vec![],
            text: "1".into(),
        },
        SyntaxNode {
            key: key(20, 21),
            kind: ";".into(),
            rust: true,
            has_error: false,
            named: false,
            field: None,
            extra: false,
            parent: Some(0),
            children: vec![],
            text: ";".into(),
        },
        SyntaxNode {
            key: key(11, 18),
            kind: "expression_statement".into(),
            rust: true,
            has_error: false,
            named: true,
            field: None,
            extra: false,
            parent: None,
            children: vec![],
            text: "return;".into(),
        },
    ]
}

struct Knobs {
    literal_reachable: bool,
    relation_reachable: bool,
    child_kind: &'static str,
    point_key: &'static str,
}

fn positive() -> Knobs {
    Knobs { literal_reachable: false, relation_reachable: false, child_kind: "integer_literal", point_key: "p_lit" }
}

fn projection(k: Knobs) -> RetainedProjection {
    let recipe = unreachable_literal_statement_recipe().unwrap();
    RetainedProjection {
        id: digest("pj1_", 'c'),
        snapshot: digest("ps1_", 'a'),
        analysis: digest("pa1_", 'b'),
        syntax: syntax(k.child_kind, "1;"),
        flow_graphs: vec![FlowGraph {
            key: "cfg1".into(),
            points: vec![
                FlowPoint { key: "p_entry".into(), source: None, kind: FlowPointKind::OtherSynthetic, recovered: false },
                FlowPoint { key: "p_return".into(), source: Some(key(11, 18)), kind: FlowPointKind::Syntax, recovered: false },
                FlowPoint { key: "p_lit".into(), source: Some(key(19, 20)), kind: FlowPointKind::Syntax, recovered: false },
            ],
            edges: vec![],
            exit: "p_exit".into(),
        }],
        region_graphs: vec![RegionGraph {
            key: "crg1".into(),
            flow_graph: "cfg1".into(),
            relations: vec![
                RegionRelation {
                    key: "r_return".into(),
                    point: "p_return".into(),
                    reachable: true,
                    dominated: true,
                    exit_reachable: true,
                    exit_post_dominates: true,
                },
                RegionRelation {
                    key: "r_lit".into(),
                    point: "p_lit".into(),
                    reachable: k.relation_reachable,
                    dominated: false,
                    exit_reachable: true,
                    exit_post_dominates: true,
                },
            ],
            has_residuals: false,
            complete: true,
        }],
        non_structured_graphs: vec![NonStructuredGraph { key: "nsc1".into(), has_facts: false }],
        data_flow_graphs: vec![DataFlowGraph {
            key: "dfg1".into(),
            def_use_support: CapabilitySupport::Unknown,
            def_use_authority: None,
            effects_support: CapabilitySupport::Unknown,
            effects_authority: None,
        }],
        dependence_graphs: vec![PdgGraph {
            key: "pdg1".into(),
            nodes: vec![
                PdgNode {
                    key: "n_return".into(),
                    reachable: true,
                    source: Some(key(11, 18)),
                    point: "p_return".into(),
                    region_point: "r_return".into(),
                    data_flow_point: "d_return".into(),
                },
                PdgNode {
                    key: "n_lit".into(),
                    reachable: k.literal_reachable,
                    source: Some(key(19, 20)),
                    point: k.point_key.into(),
                    region_point: "r_lit".into(),
                    data_flow_point: "d_lit".into(),
                },
            ],
            edges: vec![DependenceEdge { key: "e_n_return_n_lit".into(), from: "n_return".into(), to: "n_lit".into(), flow: true }],
            flow_graph: "cfg1".into(),
            region_graph: "crg1".into(),
            non_structured_graph: "nsc1".into(),
            data_flow_graph: "dfg1".into(),
            eligibility: GraphEligibilityDecision {
                consumer: recipe.id().into(),
                required_layers: recipe.required_layers().to_vec(),
                eligible: true,
            },
            local_pdg_support: CapabilitySupport::Unknown,
            local_pdg_authority: None,
        }],
    }
}

#[test]
fn literal_after_return_yields_one_guarded_automatic_candidate() {
    let candidates = detect_unreachable_literal_statements(&projection(positive())).unwrap();
    assert_eq!(candidates.len(), 1);
    let candidate = &candidates[0];
    assert_eq!(candidate.disposition(), CandidateDisposition::Automatic);
    assert_eq!(candidate.safety(), SafetyClass::SafeAuto);
    assert_eq!(candidate.recipe().name(), "rust-remove-unreachable-literal-statement");
    assert_eq!(candidate.edits().len(), 1);
    assert_eq!(candidate.edits()[0].before, "1;");
    assert_eq!(candidate.edits()[0].after, "");
    assert_eq!(candidate.edits()[0].target.start_byte, 19);
    assert_eq!(candidate.edits()[0].target.end_byte, 21);
    assert!(candidate.eligibility().eligible);
    let target = &candidate.target().entity;
    assert_eq!(target.layer, GraphEvidenceLayer::ProgramDependence);
    assert_eq!(target.graph, "pdg1");
    assert_eq!(target.entity, "n_lit");
    assert!(candidate
        .impact()
        .entities
        .iter()
        .any(|e| e.layer == target.layer && e.graph == target.graph && e.entity == target.entity));
    let changes = &candidate.expected_delta().changes;
    assert!(changes.iter().all(|change| change.kind == GraphChangeKind::Remove));
    let removed: Vec<(GraphEvidenceLayer, String)> =
        changes.iter().map(|c| (c.entity.layer, c.entity.entity.clone())).collect();
    assert!(removed.contains(&(GraphEvidenceLayer::ControlFlow, "p_lit".to_string())));
    assert!(removed.contains(&(GraphEvidenceLayer::ControlRegions, "r_lit".to_string())));
    assert!(removed.contains(&(GraphEvidenceLayer::DataFlow, "d_lit".to_string())));
    assert!(removed.contains(&(GraphEvidenceLayer::ProgramDependence, "n_lit".to_string())));
    assert!(!removed.contains(&(GraphEvidenceLayer::ProgramDependence, "n_return".to_string())));
    assert!(candidate.validate().is_ok());
}

#[test]
fn reachable_literal_yields_no_candidate() {
    let k = Knobs { literal_reachable: true, ..positive() };
    assert_eq!(detect_unreachable_literal_statements(&projection(k)).unwrap().len(), 0);
}

#[test]
fn call_after_return_yields_no_candidate() {
    let k = Knobs { child_kind: "call_expression", ..positive() };
    assert_eq!(detect_unreachable_literal_statements(&projection(k)).unwrap().len(), 0);
}

#[test]
fn literal_after_conditional_return_yields_no_candidate() {
    let k = Knobs { relation_reachable: true, ..positive() };
    assert_eq!(detect_unreachable_literal_statements(&projection(k)).unwrap().len(), 0);
}

#[test]
fn ineligible_graph_yields_no_candidate() {
    let mut p = projection(positive());
    p.dependence_graphs[0].eligibility.eligible = false;
    assert_eq!(detect_unreachable_literal_statements(&p).unwrap().len(), 0);
}

#[test]
fn missing_control_point_is_an_inconsistent_projection() {
    let k = Knobs { point_key: "p_missing", ..positive() };
    let error = detect_unreachable_literal_statements(&projection(k)).unwrap_err();
    assert!(matches!(error, UnreachableRecipeError::Projection(_)));
    assert!(error.message().starts_with("unreachable recipe received an inconsistent projection: "));
}

#[test]
fn projection_detection_returns_the_unreachable_candidate_alone() {
    let p = projection(positive());
    let alone = detect_unreachable_literal_statements(&p).unwrap();
    let all = detect_projection_recipes(&p).ok().unwrap();
    assert_eq!(all.len(), 1);
    assert_eq!(all[0].id(), alone[0].id());
}

#[test]
fn projection_detection_reports_which_detector_failed() {
    let k = Knobs { point_key: "p_missing", ..positive() };
    let error = detect_projection_recipes(&projection(k)).err().unwrap();
    assert!(matches!(error, ProjectionDetectError::Unreachable(UnreachableRecipeError::Projection(_))));
}
