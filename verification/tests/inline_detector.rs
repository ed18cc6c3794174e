use deslop_recipes::candidate::{CandidateDisposition, GraphEligibilityDecision, TransformationCandidate};
use deslop_recipes::contract::ProofState;
use deslop_recipes::evidence::GraphChangeKind;
use deslop_recipes::impact::DependenceEdge;
use deslop_recipes::model::{GraphEvidenceLayer, SafetyClass};
use deslop_recipes::recipes::inline_detect::{
    detect_inline_single_use_helpers, inline_shape, inline_sites, CallSite, CallableData, CallableGraph, DataAccess,
    DataEffect, PreferredCandidate, ResolutionResult, ScopeNode, SystemProjection,
};
use deslop_recipes::recipes::inline_helper::{
    inline_single_use_helper_recipe, InlineHelperRecipeError, FORBIDDEN_BOUNDARY, REQUIRED_BINDING,
    REQUIRED_FRAME_REVIEW, REQUIRED_SCOPE,
};
use deslop_recipes::recipes::retained::{PdgNode, SyntaxNode};
use deslop_recipes::target::NodeKey;

const PATH: &str = "fixture.inliners";

fn digest(prefix: &str, fill: char) -> String {
    format!("{prefix}{}", fill.to_string().repeat(64))
}

fn rows(source: &str, byte: usize) -> usize {
    source[..byte].matches('\n').count()
}

fn key(source: &str, at: (usize, usize)) -> NodeKey {
    NodeKey { path: PATH.into(), start_byte: at.0, end_byte: at.1, start_row: rows(source, at.0), end_row: rows(source, at.1) }
}

/// The first occurrence of `needle` in `source` at or after `from`.
fn find(source: &str, needle: &str, from: usize) -> (usize, usize) {
    let start = from + source[from..].find(needle).unwrap();
    (start, start + needle.len())
}

/// Adds a named node under `parent` and gives back its position.
fn add(
    nodes: &mut Vec<SyntaxNode>,
    source: &str,
    at: (usize, usize),
    kind: &str,
    field: Option<&str>,
    parent: Option<usize>,
) -> usize {
    let index = nodes.len();
    nodes.push(SyntaxNode {
        key: key(source, at),
        kind: kind.into(),
        rust: true,
        has_error: false,
        named: true,
        field: field.map(|f| f.to_string()),
        extra: false,
        parent,
        children: vec![],
        text: source[at.0..at.1].into(),
    });
    if let Some(p) = parent {
        nodes[p].children.push(index);
    }
    index
}

struct Fixture {
    source: String,
    system: SystemProjection,
    helper: usize,
    calls: Vec<usize>,
}

fn pdg_node(name: &str, source: NodeKey) -> PdgNode {
    PdgNode {
        key: name.into(),
        reachable: true,
        source: Some(source),
        point: format!("p_{name}"),
        region_point: format!("r_{name}"),
        data_flow_point: format!("d_{name}"),
    }
}

fn resolution(name: &str) -> ResolutionResult {
    ResolutionResult {
        key: name.into(),
        unique: true,
        complete: true,
        preferred: Some(PreferredCandidate { unique: true, endpoints: vec![Some("fact_helper".into())] }),
    }
}

/// The system facts of a file with one helper, a function `run` that calls
/// it `call_count` times and may also read it as a value, and `main`.
fn fixture(call_count: usize, public: bool, value_reference: bool) -> Fixture {
    assert!((1..=2).contains(&call_count));
    let calls = "    helper();\n".repeat(call_count);
    let value_use = if value_reference { "    let _function_value = helper;\n" } else { "" };
    let source = format!(
        "{}fn helper() {{\n    1 + 2;\n}}\nfn run() {{\n{value_use}{calls}}}\nfn main() {{ run(); println!(\"ok\"); }}\n",
        if public { "pub " } else { "" }
    );
    let s = source.as_str();
    let mut nodes: Vec<SyntaxNode> = Vec::new();
    let file = add(&mut nodes, s, (0, s.len()), "source_file", None, None);
    let helper_start = if public { find(s, "pub fn helper", 0).0 } else { find(s, "fn helper", 0).0 };
    let helper_end = find(s, "}\n", helper_start).0 + 1;
    let helper = add(&mut nodes, s, (helper_start, helper_end), "function_item", None, Some(file));
    if public {
        add(&mut nodes, s, find(s, "pub", 0), "visibility_modifier", None, Some(helper));
    }
    add(&mut nodes, s, find(s, "helper", helper_start), "identifier", Some("name"), Some(helper));
    add(&mut nodes, s, find(s, "()", helper_start), "parameters", Some("parameters"), Some(helper));
    let helper_body = add(&mut nodes, s, (find(s, "{", helper_start).0, helper_end), "block", Some("body"), Some(helper));
    let statement = add(&mut nodes, s, find(s, "1 + 2;", helper_start), "expression_statement", None, Some(helper_body));
    let binary = add(&mut nodes, s, find(s, "1 + 2", helper_start), "binary_expression", None, Some(statement));
    let run_start = find(s, "fn run", 0).0;
    let run_end = find(s, "\n}\n", run_start).0 + 2;
    let run = add(&mut nodes, s, (run_start, run_end), "function_item", None, Some(file));
    add(&mut nodes, s, find(s, "run", run_start + 3), "identifier", Some("name"), Some(run));
    add(&mut nodes, s, find(s, "()", run_start), "parameters", Some("parameters"), Some(run));
    let run_body = add(&mut nodes, s, (find(s, "{", run_start).0, run_end), "block", Some("body"), Some(run));
    let mut read = None;
    if value_reference {
        let binding = add(&mut nodes, s, find(s, "let _function_value = helper;", run_start), "let_declaration", None, Some(run_body));
        let at = find(s, "helper;", run_start);
        read = Some(add(&mut nodes, s, (at.0, at.0 + 6), "identifier", Some("value"), Some(binding)));
    }
    let mut call_nodes = Vec::new();
    let mut from = run_start;
    for _ in 0..call_count {
        let at = find(s, "helper();", from);
        from = at.1;
        let statement = add(&mut nodes, s, at, "expression_statement", None, Some(run_body));
        let call = add(&mut nodes, s, (at.0, at.0 + 8), "call_expression", None, Some(statement));
        add(&mut nodes, s, (at.0, at.0 + 6), "identifier", Some("function"), Some(call));
        add(&mut nodes, s, (at.0 + 6, at.0 + 8), "arguments", Some("arguments"), Some(call));
        call_nodes.push(call);
    }
    let main_start = find(s, "fn main", 0).0;
    add(&mut nodes, s, (main_start, s.len() - 1), "function_item", None, Some(file));

    let mut run_nodes = Vec::new();
    let mut accesses = Vec::new();
    let mut results = Vec::new();
    if let Some(read) = read {
        run_nodes.push(pdg_node("n_read", nodes[read].key.clone()));
        accesses.push(DataAccess { key: "a_read".into(), call: false, resolution: "res_read".into(), point: "p_n_read".into() });
        results.push(resolution("res_read"));
    }
    let mut sites = Vec::new();
    for (i, call) in call_nodes.iter().enumerate() {
        let name = format!("n_call_{i}");
        run_nodes.push(pdg_node(&name, nodes[*call].key.clone()));
        accesses.push(DataAccess {
            key: format!("a_call_{i}"),
            call: true,
            resolution: format!("res_call_{i}"),
            point: format!("p_{name}"),
        });
        results.push(resolution(&format!("res_call_{i}")));
        sites.push(CallSite {
            key: format!("call_{i}"),
            caller: "pdg_run".into(),
            callee: Some("pdg_helper".into()),
            uncertain: false,
            has_parameter_bindings: false,
            has_output_bindings: false,
            call: format!("a_call_{i}"),
            call_node: name,
        });
    }
    let run_edges = run_nodes
        .windows(2)
        .map(|pair| DependenceEdge {
            key: format!("e_{}_{}", pair[0].key, pair[1].key),
            from: pair[0].key.clone(),
            to: pair[1].key.clone(),
            flow: false,
        })
        .collect();
    let recipe = inline_single_use_helper_recipe().unwrap();
    let system = SystemProjection {
        id: digest("sd1_", 'd'),
        snapshot: digest("ps1_", 'a'),
        analysis: digest("pa1_", 'b'),
        program: digest("pj1_", 'c'),
        complete: true,
        has_gaps: false,
        calls: sites,
        graphs: vec![
            CallableGraph {
                key: "pdg_helper".into(),
                owner: nodes[helper].key.clone(),
                flow_graph: "cfg_helper".into(),
                data_flow_graph: "dfg_helper".into(),
                nodes: vec![pdg_node("n_binary", nodes[binary].key.clone())],
                edges: vec![],
            },
            CallableGraph {
                key: "pdg_run".into(),
                owner: nodes[run].key.clone(),
                flow_graph: "cfg_run".into(),
                data_flow_graph: "dfg_run".into(),
                nodes: run_nodes,
                edges: run_edges,
            },
        ],
        data: vec![
            CallableData {
                key: "dfg_helper".into(),
                complete: true,
                flow_graph: "cfg_helper".into(),
                accesses: vec![],
                has_definitions: false,
                has_boundaries: false,
                effects: vec![DataEffect { key: "eff_binary".into(), beyond_return: false }],
            },
            CallableData {
                key: "dfg_run".into(),
                complete: true,
                flow_graph: "cfg_run".into(),
                accesses,
                has_definitions: false,
                has_boundaries: false,
                effects: vec![],
            },
        ],
        results,
        facts: vec![ScopeNode { key: "fact_helper".into(), node: nodes[helper].key.clone() }],
        syntax: nodes,
        eligibility: GraphEligibilityDecision {
            consumer: recipe.id().into(),
            required_layers: recipe.required_layers().to_vec(),
            eligible: true,
        },
    };
    Fixture { source, system, helper, calls: call_nodes }
}

fn apply_edits(source: &str, candidate: &TransformationCandidate) -> String {
    let mut output = source.to_string();
    let mut edits = candidate.edits().iter().collect::<Vec<_>>();
    edits.sort_by_key(|edit| std::cmp::Reverse(edit.span.start_byte));
    for edit in edits {
        assert_eq!(&output[edit.span.start_byte..edit.span.end_byte], edit.before);
        output.replace_range(edit.span.start_byte..edit.span.end_byte, &edit.after);
    }
    output
}

#[test]
fn complete_exact_single_use_emits_atomic_behavior_preserving_inline() {
    let fixture = fixture(1, false, false);
    let candidates = detect_inline_single_use_helpers(&fixture.system).unwrap();
    assert_eq!(candidates.len(), 1);
    let candidate = &candidates[0];
    assert_eq!(candidate.recipe().name(), "rust-inline-exact-single-use-helper");
    assert_eq!(candidate.edits().len(), 2);
    assert_eq!(candidate.disposition(), CandidateDisposition::ReviewRequired);
    let rewritten = apply_edits(&fixture.source, candidate);
    assert!(!rewritten.contains("fn helper"));
    assert!(rewritten.contains("{\n    1 + 2;\n}"));
    assert_eq!(rewritten, "\nfn run() {\n    {\n    1 + 2;\n}\n}\nfn main() { run(); println!(\"ok\"); }\n");
}

#[test]
fn second_exact_call_and_public_boundary_fail_closed() {
    assert!(detect_inline_single_use_helpers(&fixture(2, false, false).system).unwrap().is_empty());
    assert!(detect_inline_single_use_helpers(&fixture(1, true, false).system).unwrap().is_empty());
    assert!(detect_inline_single_use_helpers(&fixture(1, false, true).system).unwrap().is_empty());
}

#[test]
fn an_inline_carries_exact_evidence_and_review() {
    let fixture = fixture(1, false, false);
    let candidate = &detect_inline_single_use_helpers(&fixture.system).unwrap()[0];
    assert!(candidate.validate().is_ok());
    assert_eq!(candidate.safety(), SafetyClass::SafeWithPrecondition);
    assert_eq!(candidate.target().entity.layer, GraphEvidenceLayer::ProgramDependence);
    assert_eq!(candidate.target().entity.graph, "pdg_run");
    assert_eq!(candidate.target().entity.entity, "n_call_0");
    assert_eq!(candidate.target().node.start_byte, fixture.source.find("helper();").unwrap());
    let binding = candidate.required_results().iter().find(|r| r.condition == REQUIRED_BINDING).unwrap();
    assert_eq!(binding.state, ProofState::Proven);
    assert_eq!(binding.evidence[0].entity.layer, GraphEvidenceLayer::SystemDependence);
    assert_eq!(binding.evidence[0].entity.entity, "call_0");
    let frame = candidate.required_results().iter().find(|r| r.condition == REQUIRED_FRAME_REVIEW).unwrap();
    assert_eq!(frame.state, ProofState::Unknown);
    let scope = candidate.required_results().iter().find(|r| r.condition == REQUIRED_SCOPE).unwrap();
    assert_eq!((scope.evidence[0].entity.graph.as_str(), scope.evidence[0].entity.entity.as_str()), ("cfg_run", "p_n_call_0"));
    assert_eq!(candidate.required_results().len(), 6);
    assert_eq!(candidate.forbidden_results().len(), 3);
    assert!(candidate.forbidden_results().iter().all(|r| r.state == ProofState::Disproven));
    let boundary = candidate.forbidden_results().iter().find(|r| r.condition == FORBIDDEN_BOUNDARY).unwrap();
    assert_eq!((boundary.evidence[0].entity.graph.as_str(), boundary.evidence[0].entity.entity.as_str()), ("cfg_helper", "cfg_helper"));
    let changes = &candidate.expected_delta().changes;
    assert_eq!(changes.len(), 3);
    assert!(changes.iter().any(|c| c.kind == GraphChangeKind::Remove && c.entity.entity == "call_0"));
    assert!(changes.iter().any(|c| c.kind == GraphChangeKind::Remove && c.entity.entity == "pdg_helper"));
    assert!(changes.iter().any(|c| c.kind == GraphChangeKind::Modify && c.entity.entity == "pdg_run"));
    assert_eq!(candidate.impact().query.maximum_depth, 12);
    assert!(candidate.impact().entities.iter().any(|e| e.entity == "n_call_0"));
}

#[test]
fn the_site_names_the_call_statement_and_the_helper_body() {
    let fixture = fixture(1, false, false);
    let sites = inline_sites(&fixture.system).unwrap();
    assert_eq!(sites.len(), 1);
    assert_eq!(sites[0].helper, fixture.helper);
    assert_eq!(sites[0].call_expression, fixture.calls[0]);
    let shape = inline_shape(&fixture.system.syntax, fixture.calls[0], fixture.helper).unwrap().unwrap();
    assert_eq!(fixture.system.syntax[shape.0].text, "helper();");
    assert_eq!(fixture.system.syntax[shape.1].text, "{\n    1 + 2;\n}");
}

#[test]
fn incomplete_system_facts_abstain() {
    let mut open = fixture(1, false, false).system;
    open.complete = false;
    assert!(detect_inline_single_use_helpers(&open).unwrap().is_empty());
    let mut gaps = fixture(1, false, false).system;
    gaps.has_gaps = true;
    assert!(detect_inline_single_use_helpers(&gaps).unwrap().is_empty());
    let mut partial = fixture(1, false, false).system;
    partial.results[0].complete = false;
    assert!(detect_inline_single_use_helpers(&partial).unwrap().is_empty());
    let mut data = fixture(1, false, false).system;
    data.data[1].complete = false;
    assert!(detect_inline_single_use_helpers(&data).unwrap().is_empty());
    let mut uncounted = fixture(1, false, false).system;
    uncounted.data[1].accesses[0].call = false;
    assert!(detect_inline_single_use_helpers(&uncounted).unwrap().is_empty());
}

#[test]
fn uncertain_bound_or_recursive_calls_abstain() {
    let mut uncertain = fixture(1, false, false).system;
    uncertain.calls[0].uncertain = true;
    assert!(detect_inline_single_use_helpers(&uncertain).unwrap().is_empty());
    let mut bound = fixture(1, false, false).system;
    bound.calls[0].has_parameter_bindings = true;
    assert!(detect_inline_single_use_helpers(&bound).unwrap().is_empty());
    let mut unresolved = fixture(1, false, false).system;
    unresolved.calls[0].callee = None;
    assert!(detect_inline_single_use_helpers(&unresolved).unwrap().is_empty());
}

#[test]
fn helper_effects_attributes_and_qualifiers_abstain() {
    let mut effects = fixture(1, false, false).system;
    effects.data[0].effects[0].beyond_return = true;
    assert!(detect_inline_single_use_helpers(&effects).unwrap().is_empty());
    let mut qualified = fixture(1, false, false);
    let helper = qualified.helper;
    qualified.system.syntax[helper].text = format!("async {}", qualified.system.syntax[helper].text);
    assert!(detect_inline_single_use_helpers(&qualified.system).unwrap().is_empty());
    let mut forbidden = fixture(1, false, false).system;
    let binary = forbidden.syntax.iter().position(|n| n.kind == "binary_expression").unwrap();
    forbidden.syntax[binary].kind = "macro_invocation".into();
    assert!(detect_inline_single_use_helpers(&forbidden).unwrap().is_empty());
}

#[test]
fn a_comment_attached_to_the_helper_abstains() {
    let mut fixture = fixture(1, false, false);
    let helper = fixture.helper;
    let comment_key = NodeKey { path: PATH.into(), start_byte: 0, end_byte: 0, start_row: 0, end_row: 0 };
    let comment = fixture.system.syntax.len();
    fixture.system.syntax.push(SyntaxNode {
        key: comment_key,
        kind: "line_comment".into(),
        rust: true,
        has_error: false,
        named: true,
        field: None,
        extra: true,
        parent: Some(0),
        children: vec![],
        text: String::new(),
    });
    fixture.system.syntax[0].children.insert(0, comment);
    assert_eq!(fixture.system.syntax[helper].parent, Some(0));
    assert!(detect_inline_single_use_helpers(&fixture.system).unwrap().is_empty());
}

#[test]
fn a_data_flow_graph_without_its_dependence_graph_is_refused() {
    let mut p = fixture(1, false, false).system;
    p.graphs[1].data_flow_graph = "dfg_elsewhere".into();
    assert!(matches!(detect_inline_single_use_helpers(&p).unwrap_err(), InlineHelperRecipeError::Projection(_)));
}

#[test]
fn a_call_without_its_dependence_node_is_refused() {
    let mut p = fixture(1, false, false).system;
    p.calls[0].call_node = "n_missing".into();
    assert!(matches!(detect_inline_single_use_helpers(&p).unwrap_err(), InlineHelperRecipeError::Projection(_)));
    let mut q = fixture(1, false, false).system;
    q.calls[0].call = "a_missing".into();
    assert!(matches!(detect_inline_single_use_helpers(&q).unwrap_err(), InlineHelperRecipeError::Projection(_)));
}
