use std::collections::BTreeMap;

use deslop_recipes::candidate::{CandidateDisposition, GraphEligibilityDecision, TransformationCandidate};
use deslop_recipes::contract::ProofState;
use deslop_recipes::evidence::GraphChangeKind;
use deslop_recipes::impact::DependenceEdge;
use deslop_recipes::model::SafetyClass;
use deslop_recipes::recipes::local_cleanup::{
    inline_single_use_temporary_recipe, remove_independent_dead_local_recipe, remove_unused_pure_expression_recipe,
    LocalCleanupRecipeError, CLOSED, LOCATION, NO_REFS,
};
use deslop_recipes::recipes::local_detect::{
    closed_expression_exec, detect_local_cleanup_candidates, local_sites, simple_local, LocalAccess, LocalData,
    LocalDefinition, LocalFact, LocalGraph, LocalProjection, LocalSiteKind, PointEffects,
};
use deslop_recipes::recipes::retained::{PdgNode, SyntaxNode};
use deslop_recipes::target::NodeKey;

const PATH: &str = "fixture.inliners";
const SOURCE: &str = "fn run() -> i32 {\n    let temporary = 1 + 2;\n    let result = temporary * 3;\n    99;\n    let unused = 7;\n    let live = 5;\n    let first = live;\n    let second = live;\n    let typed: i32 = 11;\n    1 + 2;\n    result + first + second\n}\nfn main() { println!(\"{}\", run()); }\n";

fn digest(prefix: &str, fill: char) -> String {
    format!("{prefix}{}", fill.to_string().repeat(64))
}

fn key(at: (usize, usize)) -> NodeKey {
    let rows = |b: usize| SOURCE[..b].matches('\n').count();
    NodeKey { path: PATH.into(), start_byte: at.0, end_byte: at.1, start_row: rows(at.0), end_row: rows(at.1) }
}

fn find(needle: &str, from: usize) -> (usize, usize) {
    let start = from + SOURCE[from..].find(needle).unwrap();
    (start, start + needle.len())
}

fn add(nodes: &mut Vec<SyntaxNode>, at: (usize, usize), kind: &str, field: Option<&str>, parent: Option<usize>) -> usize {
    let index = nodes.len();
    nodes.push(SyntaxNode {
        key: key(at),
        kind: kind.into(),
        rust: true,
        has_error: false,
        named: true,
        field: field.map(|f| f.to_string()),
        extra: false,
        parent,
        children: vec![],
        text: SOURCE[at.0..at.1].into(),
    });
    if let Some(p) = parent {
        nodes[p].children.push(index);
    }
    index
}

struct Fixture {
    projection: LocalProjection,
    /// The body statements, in order.
    statements: Vec<usize>,
    /// The pattern identifier of each local, by name.
    patterns: BTreeMap<&'static str, usize>,
    /// Each use of a local: its name, identifier and statement index.
    uses: Vec<(&'static str, usize, usize)>,
}

fn binary_of_literals(nodes: &mut Vec<SyntaxNode>, at: (usize, usize), field: Option<&str>, parent: usize) -> usize {
    let b = add(nodes, at, "binary_expression", field, Some(parent));
    add(nodes, (at.0, at.0 + 1), "integer_literal", Some("left"), Some(b));
    add(nodes, (at.1 - 1, at.1), "integer_literal", Some("right"), Some(b));
    b
}

fn syntax() -> (Vec<SyntaxNode>, Vec<usize>, BTreeMap<&'static str, usize>, Vec<(&'static str, usize, usize)>) {
    let mut n: Vec<SyntaxNode> = Vec::new();
    let file = add(&mut n, (0, SOURCE.len()), "source_file", None, None);
    let run_end = find("\n}\n", 0).0 + 2;
    let run = add(&mut n, (0, run_end), "function_item", None, Some(file));
    add(&mut n, find("run", 0), "identifier", Some("name"), Some(run));
    add(&mut n, find("()", 0), "parameters", Some("parameters"), Some(run));
    add(&mut n, find("i32", 0), "primitive_type", Some("return_type"), Some(run));
    let body = add(&mut n, (find("{", 0).0, run_end), "block", Some("body"), Some(run));
    let mut statements = Vec::new();
    let mut patterns = BTreeMap::new();
    let mut uses = Vec::new();
    let locals: [(&'static str, &str); 7] = [
        ("temporary", "1 + 2"),
        ("result", "temporary * 3"),
        ("unused", "7"),
        ("live", "5"),
        ("first", "live"),
        ("second", "live"),
        ("typed", "11"),
    ];
    let mut from = 0;
    for (name, value) in locals {
        if name == "unused" {
            let at = find("99;", from);
            let st = add(&mut n, at, "expression_statement", None, Some(body));
            add(&mut n, (at.0, at.0 + 2), "integer_literal", None, Some(st));
            statements.push(st);
        }
        let line = find(&format!("let {name}"), from);
        let end = find(";", line.0).1;
        from = end;
        let st = add(&mut n, (line.0, end), "let_declaration", None, Some(body));
        let index = statements.len();
        statements.push(st);
        patterns.insert(name, add(&mut n, (line.0 + 4, line.0 + 4 + name.len()), "identifier", Some("pattern"), Some(st)));
        if name == "typed" {
            add(&mut n, find("i32", line.0), "primitive_type", Some("type"), Some(st));
        }
        let v = find(value, find("= ", line.0).1);
        match value {
            "1 + 2" => {
                binary_of_literals(&mut n, v, Some("value"), st);
            },
            "temporary * 3" => {
                let b = add(&mut n, v, "binary_expression", Some("value"), Some(st));
                let id = add(&mut n, (v.0, v.0 + 9), "identifier", Some("left"), Some(b));
                add(&mut n, (v.1 - 1, v.1), "integer_literal", Some("right"), Some(b));
                uses.push(("temporary", id, index));
            },
            "live" => {
                let id = add(&mut n, v, "identifier", Some("value"), Some(st));
                uses.push(("live", id, index));
            },
            _ => {
                add(&mut n, v, "integer_literal", Some("value"), Some(st));
            },
        }
    }
    let at = find("1 + 2;", from);
    let st = add(&mut n, at, "expression_statement", None, Some(body));
    binary_of_literals(&mut n, (at.0, at.1 - 1), None, st);
    statements.push(st);
    let tail = find("result + first + second", from);
    let outer = add(&mut n, tail, "binary_expression", None, Some(body));
    let inner = add(&mut n, (tail.0, tail.0 + 14), "binary_expression", Some("left"), Some(outer));
    let result = add(&mut n, (tail.0, tail.0 + 6), "identifier", Some("left"), Some(inner));
    let first = add(&mut n, (tail.0 + 9, tail.0 + 14), "identifier", Some("right"), Some(inner));
    let second = add(&mut n, (tail.1 - 6, tail.1), "identifier", Some("right"), Some(outer));
    let tail_index = statements.len();
    statements.push(outer);
    uses.push(("result", result, tail_index));
    uses.push(("first", first, tail_index));
    uses.push(("second", second, tail_index));
    let main = find("fn main", 0);
    add(&mut n, (main.0, SOURCE.len() - 1), "function_item", None, Some(file));
    (n, statements, patterns, uses)
}

fn eligible(recipe: &deslop_recipes::recipe::TransformationRecipe) -> GraphEligibilityDecision {
    GraphEligibilityDecision { consumer: recipe.id().into(), required_layers: recipe.required_layers().to_vec(), eligible: true }
}

fn fixture() -> Fixture {
    let (syntax, statements, patterns, uses) = syntax();
    let point = |i: usize| format!("p_{i}");
    let nodes = statements
        .iter()
        .enumerate()
        .map(|(i, st)| PdgNode {
            key: format!("n_{i}"),
            reachable: true,
            source: Some(syntax[*st].key.clone()),
            point: point(i),
            region_point: format!("r_{i}"),
            data_flow_point: format!("d_{i}"),
        })
        .collect::<Vec<_>>();
    let statement_of = |name: &str| statements.iter().position(|st| syntax[*st].children.contains(&patterns[name])).unwrap();
    let mut definitions = Vec::new();
    let mut facts = Vec::new();
    for (name, pattern) in &patterns {
        definitions.push(LocalDefinition {
            key: format!("def_{name}"),
            point: point(statement_of(name)),
            source_fact: format!("bind_{name}"),
            symbol: format!("sym_{name}"),
        });
        facts.push(LocalFact { key: format!("bind_{name}"), node: syntax[*pattern].key.clone() });
    }
    let mut accesses = Vec::new();
    let mut edges = Vec::new();
    for (k, (name, id, statement)) in uses.iter().enumerate() {
        accesses.push(LocalAccess {
            key: format!("acc_{k}"),
            point: point(*statement),
            symbol: Some(format!("sym_{name}")),
            read: true,
            reaching: vec![format!("def_{name}")],
            reference: format!("ref_{k}"),
            uncertain: false,
        });
        facts.push(LocalFact { key: format!("ref_{k}"), node: syntax[*id].key.clone() });
        edges.push(DependenceEdge {
            key: format!("e_{k}"),
            from: format!("n_{}", statement_of(name)),
            to: format!("n_{statement}"),
            flow: true,
        });
    }
    let effects = (0..statements.len()).map(|i| PointEffects { point: point(i), uncertain: false, empty: true }).collect();
    let projection = LocalProjection {
        id: digest("pj1_", 'c'),
        snapshot: digest("ps1_", 'a'),
        analysis: digest("pa1_", 'b'),
        syntax,
        facts,
        data: vec![LocalData {
            key: "dfg_run".into(),
            complete: true,
            definitions,
            accesses,
            boundary_points: vec![],
            effects,
        }],
        graphs: vec![LocalGraph {
            key: "pdg_run".into(),
            complete: true,
            has_gaps: false,
            flow_graph: "cfg_run".into(),
            data_flow_graph: "dfg_run".into(),
            nodes,
            edges,
            temporary: eligible(&inline_single_use_temporary_recipe().unwrap()),
            expression: eligible(&remove_unused_pure_expression_recipe().unwrap()),
            dead_local: eligible(&remove_independent_dead_local_recipe().unwrap()),
        }],
    };
    Fixture { projection, statements, patterns, uses }
}

fn apply_all(source: &str, candidates: &[TransformationCandidate]) -> String {
    let mut output = source.to_string();
    let mut edits = candidates.iter().flat_map(|candidate| candidate.edits()).collect::<Vec<_>>();
    edits.sort_by_key(|edit| std::cmp::Reverse(edit.span.start_byte));
    for edit in edits {
        assert_eq!(&output[edit.span.start_byte..edit.span.end_byte], edit.before);
        output.replace_range(edit.span.start_byte..edit.span.end_byte, &edit.after);
    }
    output
}

#[test]
fn complete_fixture_emits_three_disjoint_behavior_preserving_cleanups() {
    let fixture = fixture();
    let candidates = detect_local_cleanup_candidates(&fixture.projection).unwrap();
    assert_eq!(candidates.len(), 3);
    let by_name = candidates.iter().map(|candidate| (candidate.recipe().name(), candidate)).collect::<BTreeMap<_, _>>();
    assert_eq!(by_name.len(), 3);
    assert_eq!(by_name["rust-inline-exact-single-use-temporary"].disposition(), CandidateDisposition::ReviewRequired);
    for name in ["rust-remove-unused-pure-literal-expression", "rust-remove-independent-unused-literal-local"] {
        assert_eq!(by_name[name].disposition(), CandidateDisposition::Automatic);
    }
    let rewritten = apply_all(SOURCE, &candidates);
    assert!(!rewritten.contains("let temporary"));
    assert!(!rewritten.contains("99;"));
    assert!(!rewritten.contains("let unused"));
    assert!(rewritten.contains("let result = (1 + 2) * 3;"));
    assert!(rewritten.contains("let typed: i32 = 11;"));
    assert!(rewritten.contains("1 + 2;"));
}

#[test]
fn the_sites_come_in_node_order_with_their_kinds() {
    let fixture = fixture();
    let sites = local_sites(&fixture.projection).unwrap();
    let kinds = sites.iter().map(|s| (s.kind, s.root)).collect::<Vec<_>>();
    assert_eq!(kinds, vec![(LocalSiteKind::Temporary, 0), (LocalSiteKind::Literal, 2), (LocalSiteKind::DeadLocal, 3)]);
    assert_eq!(sites[0].use_root, 1);
    assert_eq!(sites[0].use_node, fixture.uses[0].1);
}

#[test]
fn the_temporary_inline_carries_exact_evidence() {
    let fixture = fixture();
    let candidates = detect_local_cleanup_candidates(&fixture.projection).unwrap();
    let inline = candidates.iter().find(|c| c.recipe().name() == "rust-inline-exact-single-use-temporary").unwrap();
    assert!(inline.validate().is_ok());
    assert_eq!(inline.safety(), SafetyClass::SafeWithPrecondition);
    assert_eq!(inline.target().entity.entity, "n_1");
    let use_key = &fixture.projection.syntax[fixture.uses[0].1].key;
    assert_eq!((inline.target().node.start_byte, inline.target().node.end_byte), (use_key.start_byte, use_key.end_byte));
    assert_eq!(inline.required_results().len(), 5);
    let location = inline.required_results().iter().find(|r| r.condition == LOCATION).unwrap();
    assert_eq!(location.state, ProofState::Unknown);
    assert_eq!(location.evidence[0].entity.entity, "p_1");
    let closed = inline.required_results().iter().find(|r| r.condition == CLOSED).unwrap();
    assert_eq!(closed.evidence[0].entity.entity, "p_0");
    assert!(inline.forbidden_results().iter().all(|r| r.state == ProofState::Disproven));
    let changes = &inline.expected_delta().changes;
    assert!(changes.iter().any(|c| c.kind == GraphChangeKind::Remove && c.entity.entity == "def_temporary"));
    assert!(changes.iter().any(|c| c.kind == GraphChangeKind::Remove && c.entity.entity == "acc_0"));
    assert!(changes.iter().any(|c| c.kind == GraphChangeKind::Modify && c.entity.entity == "n_1"));
    assert_eq!(inline.impact().query.maximum_depth, 8);
    let edit = inline.edits().iter().find(|e| !e.after.is_empty()).unwrap();
    assert_eq!((edit.before.as_str(), edit.after.as_str()), ("temporary", "(1 + 2)"));
}

#[test]
fn the_removals_are_automatic_and_shallow() {
    let fixture = fixture();
    let candidates = detect_local_cleanup_candidates(&fixture.projection).unwrap();
    let dead = candidates.iter().find(|c| c.recipe().name() == "rust-remove-independent-unused-literal-local").unwrap();
    assert_eq!(dead.safety(), SafetyClass::SafeAuto);
    assert_eq!(dead.required_results().len(), 4);
    let no_refs = dead.required_results().iter().find(|r| r.condition == NO_REFS).unwrap();
    assert_eq!(no_refs.evidence[0].entity.entity, "d_3");
    assert_eq!(dead.edits()[0].before, "let unused = 7;");
    assert_eq!(dead.impact().query.maximum_depth, 4);
    let literal = candidates.iter().find(|c| c.recipe().name() == "rust-remove-unused-pure-literal-expression").unwrap();
    assert_eq!(literal.required_results().len(), 3);
    assert_eq!(literal.edits()[0].before, "99;");
    assert_eq!(literal.expected_delta().changes[0].entity.entity, "n_2");
}

#[test]
fn typed_locals_and_closed_expressions_are_read_exactly() {
    let fixture = fixture();
    let syntax = &fixture.projection.syntax;
    let typed = fixture.statements[7];
    assert_eq!(simple_local(syntax, typed).unwrap(), None);
    let temporary = fixture.statements[0];
    let (pattern, value) = simple_local(syntax, temporary).unwrap().unwrap();
    assert_eq!(pattern, fixture.patterns["temporary"]);
    assert_eq!(closed_expression_exec(syntax, value, syntax.len()), Ok(true));
    let result = fixture.statements[1];
    let (_, value) = simple_local(syntax, result).unwrap().unwrap();
    assert_eq!(closed_expression_exec(syntax, value, syntax.len()), Ok(false));
}

#[test]
fn incomplete_uncertain_or_ineligible_graphs_abstain() {
    let mut open = fixture().projection;
    open.graphs[0].complete = false;
    assert!(detect_local_cleanup_candidates(&open).unwrap().is_empty());
    let mut gaps = fixture().projection;
    gaps.graphs[0].has_gaps = true;
    assert!(detect_local_cleanup_candidates(&gaps).unwrap().is_empty());
    let mut uncertain = fixture().projection;
    uncertain.data[0].accesses[2].uncertain = true;
    assert!(detect_local_cleanup_candidates(&uncertain).unwrap().is_empty());
    let mut ineligible = fixture().projection;
    ineligible.graphs[0].dead_local.eligible = false;
    assert!(detect_local_cleanup_candidates(&ineligible).unwrap().is_empty());
}

#[test]
fn effects_a_second_read_and_a_macro_block_single_cleanups() {
    let mut effects = fixture().projection;
    effects.data[0].effects[2].empty = false;
    assert_eq!(detect_local_cleanup_candidates(&effects).unwrap().len(), 2);
    let mut second_read = fixture().projection;
    let mut extra = second_read.data[0].accesses[0].clone();
    extra.key = "acc_extra".into();
    extra.point = "p_9".into();
    second_read.data[0].accesses.push(extra);
    let found = detect_local_cleanup_candidates(&second_read).unwrap();
    assert_eq!(found.len(), 2);
    assert!(found.iter().all(|c| c.disposition() == CandidateDisposition::Automatic));
    let mut hidden = fixture();
    let use_parent = hidden.projection.syntax[hidden.uses[0].1].parent.unwrap();
    hidden.projection.syntax[use_parent].kind = "macro_invocation".into();
    assert_eq!(detect_local_cleanup_candidates(&hidden.projection).unwrap().len(), 2);
}

#[test]
fn a_missing_data_flow_graph_or_syntax_node_is_refused() {
    let mut p = fixture().projection;
    p.graphs[0].data_flow_graph = "dfg_elsewhere".into();
    assert!(matches!(detect_local_cleanup_candidates(&p).unwrap_err(), LocalCleanupRecipeError::Projection(_)));
    let mut q = fixture().projection;
    q.graphs[0].nodes[4].source = Some(key((1, 1)));
    assert!(matches!(detect_local_cleanup_candidates(&q).unwrap_err(), LocalCleanupRecipeError::Projection(_)));
    let mut r = fixture().projection;
    r.facts.retain(|f| f.key != "ref_0");
    assert!(matches!(detect_local_cleanup_candidates(&r).unwrap_err(), LocalCleanupRecipeError::Projection(_)));
}
