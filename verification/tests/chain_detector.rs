use deslop_recipes::candidate::{CandidateDisposition, GraphEligibilityDecision};
use deslop_recipes::contract::ProofState;
use deslop_recipes::evidence::{CapabilitySupport, GraphChangeKind};
use deslop_recipes::impact::DependenceEdge;
use deslop_recipes::model::SafetyClass;
use deslop_recipes::recipes::branch::branch_graph_evidence;
use deslop_recipes::recipes::branch_terminal::{
    exhaustive_chain_to_match_recipe, TerminalBranchRecipeError, CHAIN_PST, CHAIN_SUBJECT,
};
use deslop_recipes::recipes::chain_detect::{chain_shape, chain_sites, detect_exhaustive_chain_matches};
use deslop_recipes::recipes::retained::{
    DataFlowGraph, FlowEdge, FlowEdgeKind, FlowGraph, FlowPoint, FlowPointKind, NonStructuredGraph, PdgGraph,
    PdgNode, RegionGraph, RegionRelation, RetainedProjection, SyntaxNode,
};
use deslop_recipes::target::NodeKey;

const SOURCE: &str =
    "fn dispatch(mode: Mode) -> i32 {\n    if mode == Mode::A { 1 } else if mode == Mode::B { 2 } else { 3 }\n}\n";

fn digest(prefix: &str, fill: char) -> String {
    format!("{prefix}{}", fill.to_string().repeat(64))
}

fn key(start: usize, end: usize) -> NodeKey {
    NodeKey { path: "src/chain.rs".into(), start_byte: start, end_byte: end, start_row: 1, end_row: 1 }
}

/// The span of the first `needle` at or after `from`.
fn at(needle: &str, from: usize) -> (usize, usize) {
    let start = from + SOURCE[from..].find(needle).unwrap();
    (start, start + needle.len())
}

fn node(span: (usize, usize), kind: &str, field: Option<&str>, named: bool, parent: Option<usize>, children: Vec<usize>) -> SyntaxNode {
    SyntaxNode {
        key: key(span.0, span.1),
        kind: kind.into(),
        rust: true,
        has_error: false,
        named,
        field: field.map(|f| f.to_string()),
        extra: false,
        parent,
        children,
        text: SOURCE[span.0..span.1].into(),
    }
}

fn syntax() -> Vec<SyntaxNode> {
    let outer = at("if mode == Mode::A { 1 } else if mode == Mode::B { 2 } else { 3 }", 0);
    let inner = at("if mode == Mode::B { 2 } else { 3 }", 0);
    let cond_a = at("mode == Mode::A", 0);
    let cond_b = at("mode == Mode::B", 0);
    vec![
        node(outer, "if_expression", None, true, None, vec![1, 5, 6]),
        node(cond_a, "binary_expression", Some("condition"), true, Some(0), vec![2, 3, 4]),
        node(at("mode", cond_a.0), "identifier", Some("left"), true, Some(1), vec![]),
        node(at("==", cond_a.0), "==", None, false, Some(1), vec![]),
        node(at("Mode::A", cond_a.0), "scoped_identifier", Some("right"), true, Some(1), vec![]),
        node(at("{ 1 }", 0), "block", Some("consequence"), true, Some(0), vec![]),
        node(at("else if mode == Mode::B { 2 } else { 3 }", 0), "else_clause", Some("alternative"), true, Some(0), vec![7]),
        node(inner, "if_expression", None, true, Some(6), vec![8, 12, 13]),
        node(cond_b, "binary_expression", Some("condition"), true, Some(7), vec![9, 10, 11]),
        node(at("mode", cond_b.0), "identifier", Some("left"), true, Some(8), vec![]),
        node(at("==", cond_b.0), "==", None, false, Some(8), vec![]),
        node(at("Mode::B", cond_b.0), "scoped_identifier", Some("right"), true, Some(8), vec![]),
        node(at("{ 2 }", 0), "block", Some("consequence"), true, Some(7), vec![]),
        node(at("else { 3 }", 0), "else_clause", Some("alternative"), true, Some(7), vec![14]),
        node(at("{ 3 }", 0), "block", None, true, Some(13), vec![]),
    ]
}

fn dispatch(name: &str, source: NodeKey) -> FlowPoint {
    FlowPoint { key: name.into(), source: Some(source), kind: FlowPointKind::BranchDispatch, recovered: false }
}

fn edge(from: &str, to: &str, kind: FlowEdgeKind) -> FlowEdge {
    FlowEdge { from: from.into(), to: to.into(), exact: true, recovered_source: false, recovered_predicate: false, kind }
}

fn fact(name: &str, point: &str) -> RegionRelation {
    RegionRelation {
        key: name.into(),
        point: point.into(),
        reachable: true,
        dominated: true,
        exit_reachable: true,
        exit_post_dominates: true,
    }
}

fn pdg_node(name: &str, point: &str) -> PdgNode {
    PdgNode {
        key: name.into(),
        reachable: true,
        source: None,
        point: point.into(),
        region_point: format!("r_{point}"),
        data_flow_point: format!("d_{point}"),
    }
}

fn projection() -> RetainedProjection {
    let recipe = exhaustive_chain_to_match_recipe().unwrap();
    let nodes = syntax();
    let (outer, inner) = (nodes[0].key.clone(), nodes[7].key.clone());
    RetainedProjection {
        id: digest("pj1_", 'c'),
        snapshot: digest("ps1_", 'a'),
        analysis: digest("pa1_", 'b'),
        syntax: nodes,
        flow_graphs: vec![FlowGraph {
            key: "cfg1".into(),
            points: vec![dispatch("p_a", outer), dispatch("p_b", inner)],
            edges: vec![
                edge("p_a", "p_one", FlowEdgeKind::BranchTrue),
                edge("p_a", "p_b", FlowEdgeKind::BranchFalse),
                edge("p_b", "p_two", FlowEdgeKind::BranchTrue),
                edge("p_b", "p_three", FlowEdgeKind::BranchFalse),
            ],
            exit: "p_exit".into(),
        }],
        region_graphs: vec![RegionGraph {
            key: "crg1".into(),
            flow_graph: "cfg1".into(),
            relations: vec![fact("r_a", "p_a"), fact("r_b", "p_b")],
            has_residuals: false,
            complete: true,
        }],
        non_structured_graphs: vec![NonStructuredGraph { key: "nsc1".into(), has_facts: false }],
        data_flow_graphs: vec![DataFlowGraph {
            key: "dfg1".into(),
            def_use_support: CapabilitySupport::Unknown,
            def_use_authority: None,
            effects_support: CapabilitySupport::Unknown,
            effects_authority: None,
        }],
        dependence_graphs: vec![PdgGraph {
            key: "pdg1".into(),
            nodes: vec![pdg_node("n_a", "p_a"), pdg_node("n_b", "p_b")],
            edges: vec![DependenceEdge { key: "e_n_a_n_b".into(), from: "n_a".into(), to: "n_b".into(), flow: true }],
            flow_graph: "cfg1".into(),
            region_graph: "crg1".into(),
            non_structured_graph: "nsc1".into(),
            data_flow_graph: "dfg1".into(),
            eligibility: GraphEligibilityDecision {
                consumer: recipe.id().into(),
                required_layers: recipe.required_layers().to_vec(),
                eligible: false,
            },
            local_pdg_support: CapabilitySupport::Unknown,
            local_pdg_authority: None,
        }],
    }
}

#[test]
fn an_exhaustive_chain_becomes_an_exact_wildcard_match() {
    let found = detect_exhaustive_chain_matches(&projection()).unwrap();
    assert_eq!(found.len(), 1);
    let c = &found[0];
    assert_eq!(c.recipe().name(), "rust-convert-exhaustive-chain-to-match");
    assert_eq!(c.disposition(), CandidateDisposition::ReviewRequired);
    assert_eq!(c.safety(), SafetyClass::SafeWithPrecondition);
    assert_eq!(c.edits()[0].after, "match mode { Mode::A => { 1 }, Mode::B => { 2 }, _ => { 3 } }");
    let subject = c.required_results().iter().find(|r| r.condition == CHAIN_SUBJECT).unwrap();
    assert_eq!(subject.evidence.len(), 2);
    assert!(c.required_results().iter().any(|r| r.condition == CHAIN_PST && r.state == ProofState::Proven && r.evidence.len() == 2));
    let changes = &c.expected_delta().changes;
    assert_eq!(changes.len(), 4);
    assert!(changes.iter().any(|x| x.kind == GraphChangeKind::Modify && x.entity.entity == "n_a"));
    assert!(changes.iter().any(|x| x.kind == GraphChangeKind::Remove && x.entity.entity == "n_b"));
    assert_eq!(changes.iter().filter(|x| x.kind == GraphChangeKind::Preserve).count(), 2);
    assert!(c.validate().is_ok());
    assert_eq!(branch_graph_evidence(c).unwrap().after.changes.len(), 4);
}

#[test]
fn chain_shapes_list_their_cases_and_fallback() {
    let nodes = syntax();
    let (cases, fallback) = chain_shape(&nodes, 0).unwrap().unwrap();
    assert_eq!(cases.len(), 2);
    assert_eq!((cases[0].branch, cases[0].subject, cases[0].pattern, cases[0].body), (0, 2, 4, 5));
    assert_eq!((cases[1].branch, cases[1].pattern), (7, 11));
    assert_eq!(fallback, 14);
    assert_eq!(chain_sites(&projection()).unwrap().len(), 1);
}

#[test]
fn a_reversed_comparison_takes_the_identifier_as_subject() {
    let mut p = projection();
    p.syntax[2].kind = "scoped_identifier".into();
    p.syntax[2].text = "Mode::A".into();
    p.syntax[4].kind = "identifier".into();
    p.syntax[4].text = "mode".into();
    let found = detect_exhaustive_chain_matches(&p).unwrap();
    assert_eq!(found[0].edits()[0].after, "match mode { Mode::A => { 1 }, Mode::B => { 2 }, _ => { 3 } }");
}

#[test]
fn a_chain_without_a_final_else_abstains() {
    let mut p = projection();
    p.syntax[7].children = vec![8, 12];
    assert!(detect_exhaustive_chain_matches(&p).unwrap().is_empty());
}

#[test]
fn duplicate_patterns_abstain() {
    let mut p = projection();
    p.syntax[11].text = "Mode::A".into();
    assert!(detect_exhaustive_chain_matches(&p).unwrap().is_empty());
}

#[test]
fn different_subjects_abstain() {
    let mut p = projection();
    p.syntax[9].text = "other".into();
    assert!(detect_exhaustive_chain_matches(&p).unwrap().is_empty());
}

#[test]
fn a_macro_inside_a_chain_abstains() {
    let mut p = projection();
    p.syntax[12].children = vec![15];
    p.syntax.push(node(at("2", 60), "macro_invocation", None, true, Some(12), vec![]));
    assert!(detect_exhaustive_chain_matches(&p).unwrap().is_empty());
}

#[test]
fn a_single_comparison_is_no_chain() {
    let mut p = projection();
    p.syntax[6].children = vec![14];
    assert!(detect_exhaustive_chain_matches(&p).unwrap().is_empty());
}

#[test]
fn a_conservative_inner_dispatch_blocks_the_chain() {
    let mut p = projection();
    p.flow_graphs[0].edges[3].exact = false;
    assert!(detect_exhaustive_chain_matches(&p).unwrap().is_empty());
}

#[test]
fn incomplete_regions_leave_the_chain_nesting_unknown() {
    let mut p = projection();
    p.region_graphs[0].complete = false;
    let found = detect_exhaustive_chain_matches(&p).unwrap();
    assert!(found[0].required_results().iter().any(|r| r.condition == CHAIN_PST && r.state == ProofState::Unknown));
}

#[test]
fn a_chain_graph_without_regions_is_refused() {
    let mut p = projection();
    p.region_graphs.clear();
    assert!(matches!(detect_exhaustive_chain_matches(&p).unwrap_err(), TerminalBranchRecipeError::Projection(_)));
}
