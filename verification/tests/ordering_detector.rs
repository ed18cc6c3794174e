use deslop_recipes::candidate::{CandidateDisposition, GraphEligibilityDecision};
use deslop_recipes::evidence::CapabilitySupport;
use deslop_recipes::model::SafetyClass;
use deslop_recipes::recipes::block_order::{block_rewrite, runs, BlockItem};
use deslop_recipes::recipes::ordering::{
    hoisted_private_function_order_recipe, simple_import_order_recipe, OrderingRecipeError,
};
use deslop_recipes::recipes::ordering_detect::detect_ordering_candidates;
use deslop_recipes::recipes::ordering_scope::{
    NameNode, OrderingProjection, ResolutionRecord, ScopeFact, ScopeFactData, SourceFile, TopLevelItem,
};
use deslop_recipes::target::NodeKey;

const SOURCE: &str =
    "use std::fmt;\nuse std::collections::BTreeMap;\n\nfn zebra() -> i32 { alpha() + 1 }\nfn alpha() -> i32 { 1 }\n";

fn digest(prefix: &str, fill: char) -> String {
    format!("{prefix}{}", fill.to_string().repeat(64))
}

fn key(start: usize, end: usize, start_row: usize, end_row: usize) -> NodeKey {
    NodeKey { path: "src/lib.rs".into(), start_byte: start, end_byte: end, start_row, end_row }
}

fn fact(key_name: &str, node: NodeKey, data: ScopeFactData, capability: &str) -> ScopeFact {
    ScopeFact {
        key: key_name.into(),
        node,
        data,
        capability: capability.into(),
        support: CapabilitySupport::Provided,
        authority: Some("adapter".into()),
        complete: true,
        recovered: false,
    }
}

fn item(kind: &str, start: usize, end: usize, row: usize, name: Option<(usize, usize)>) -> TopLevelItem {
    TopLevelItem {
        key: key(start, end, row, row),
        kind: kind.into(),
        text: SOURCE[start..end].into(),
        clean: true,
        name: name.map(|(a, b)| NameNode { key: key(a, b, row, row), text: SOURCE[a..b].into() }),
    }
}

fn eligibility(import: bool) -> GraphEligibilityDecision {
    let recipe = if import {
        simple_import_order_recipe().unwrap()
    } else {
        hoisted_private_function_order_recipe().unwrap()
    };
    GraphEligibilityDecision {
        consumer: recipe.id().into(),
        required_layers: recipe.required_layers().to_vec(),
        eligible: true,
    }
}

fn function_facts(name: &str, node: NodeKey) -> Vec<ScopeFact> {
    vec![
        fact(
            &format!("decl-{name}"),
            node.clone(),
            ScopeFactData::Declaration { scope: "file".into(), private: true, hoisted: true },
            "lexical-scopes",
        ),
        fact(
            &format!("def-{name}"),
            node.clone(),
            ScopeFactData::Definition { declaration: format!("decl-{name}"), function: true },
            "lexical-scopes",
        ),
        fact(
            &format!("bind-{name}"),
            node,
            ScopeFactData::Binding { definition: Some(format!("def-{name}")), hoisted: true },
            "lexical-scopes",
        ),
    ]
}

fn projection() -> OrderingProjection {
    let children = vec![
        item("use_declaration", 0, 13, 0, None),
        item("use_declaration", 14, 45, 1, None),
        item("function_item", 47, 80, 3, Some((50, 55))),
        item("function_item", 81, 104, 4, Some((84, 89))),
    ];
    let mut facts = vec![
        fact("file", key(0, 105, 0, 5), ScopeFactData::FileScope, "lexical-scopes"),
        fact(
            "import-fmt",
            key(0, 13, 0, 0),
            ScopeFactData::Import { scope: "file".into(), simple: true, conditional: false },
            "imports-exports",
        ),
        fact(
            "import-map",
            key(14, 45, 1, 1),
            ScopeFactData::Import { scope: "file".into(), simple: true, conditional: false },
            "imports-exports",
        ),
    ];
    facts.extend(function_facts("zebra", key(50, 55, 3, 3)));
    facts.extend(function_facts("alpha", key(84, 89, 4, 4)));
    OrderingProjection {
        id: digest("pj1_", 'c'),
        snapshot: digest("ps1_", 'a'),
        analysis: digest("pa1_", 'b'),
        scope_graph: "scopes".into(),
        resolution_graph: "resolution".into(),
        facts,
        results: vec![ResolutionRecord {
            key: "use-alpha".into(),
            unique: true,
            complete: true,
            has_authority: true,
            source_facts: vec!["decl-zebra".into()],
            preferred_endpoints: vec!["def-alpha".into()],
        }],
        files: vec![SourceFile { key: key(0, 105, 0, 5), text: SOURCE.into(), rust: true, has_error: false, children }],
        import_eligibility: eligibility(true),
        function_eligibility: eligibility(false),
    }
}

fn names(p: &OrderingProjection) -> Vec<String> {
    let mut names: Vec<String> =
        detect_ordering_candidates(p).unwrap().iter().map(|c| c.recipe().name().to_string()).collect();
    names.sort();
    names
}

#[test]
fn complete_fixture_emits_both_orderings() {
    let candidates = detect_ordering_candidates(&projection()).unwrap();
    assert_eq!(candidates.len(), 2);
    assert!(candidates[0].id() < candidates[1].id());
    let imports = candidates.iter().find(|c| c.recipe().name() == "rust-sort-simple-import-block").unwrap();
    let functions =
        candidates.iter().find(|c| c.recipe().name() == "rust-sort-hoisted-private-function-block").unwrap();
    for c in [imports, functions] {
        assert_eq!(c.disposition(), CandidateDisposition::ReviewRequired);
        assert_eq!(c.safety(), SafetyClass::SafeWithPrecondition);
        assert_eq!(c.target().entity.entity, "file");
        assert_eq!(c.edits().len(), 1);
        assert!(c.validate().is_ok());
    }
    assert_eq!(imports.edits()[0].before, "use std::fmt;\nuse std::collections::BTreeMap;");
    assert_eq!(imports.edits()[0].after, "use std::collections::BTreeMap;\nuse std::fmt;");
    assert_eq!(imports.edits()[0].span.start_byte, 0);
    assert_eq!(imports.edits()[0].span.end_byte, 45);
    assert_eq!(imports.edits()[0].span.start_line, 1);
    assert_eq!(imports.edits()[0].span.end_line, 2);
    assert_eq!(functions.edits()[0].before, "fn zebra() -> i32 { alpha() + 1 }\nfn alpha() -> i32 { 1 }");
    assert_eq!(functions.edits()[0].after, "fn alpha() -> i32 { 1 }\nfn zebra() -> i32 { alpha() + 1 }");
    let cone: Vec<String> = functions.impact().entities.iter().map(|e| e.entity.clone()).collect();
    for expected in ["file", "resolution", "decl-zebra", "def-zebra", "decl-alpha", "def-alpha", "use-alpha"] {
        assert!(cone.contains(&expected.to_string()), "{expected} missing from {cone:?}");
    }
    assert!(!cone.contains(&"bind-alpha".to_string()));
    let import_cone: Vec<String> = imports.impact().entities.iter().map(|e| e.entity.clone()).collect();
    assert!(!import_cone.contains(&"use-alpha".to_string()));
    assert_eq!(functions.required_results()[0].evidence.len(), 4);
}

#[test]
fn already_ordered_blocks_emit_nothing() {
    let mut p = projection();
    let children = &mut p.files[0].children;
    children[0].text = "use std::alloc;".into();
    children[2].name.as_mut().unwrap().text = "alpha".into();
    children[3].name.as_mut().unwrap().text = "zebra".into();
    assert!(detect_ordering_candidates(&p).unwrap().is_empty());
}

#[test]
fn partial_authority_blocks_every_ordering() {
    let mut p = projection();
    for f in p.facts.iter_mut() {
        f.complete = false;
    }
    assert!(detect_ordering_candidates(&p).unwrap().is_empty());
}

#[test]
fn conditional_import_blocks_only_the_import_ordering() {
    let mut p = projection();
    p.facts[1].data = ScopeFactData::Import { scope: "file".into(), simple: true, conditional: true };
    assert_eq!(names(&p), vec!["rust-sort-hoisted-private-function-block".to_string()]);
}

#[test]
fn public_function_blocks_only_the_function_ordering() {
    let mut p = projection();
    p.facts[3].data = ScopeFactData::Declaration { scope: "file".into(), private: false, hoisted: true };
    assert_eq!(names(&p), vec!["rust-sort-simple-import-block".to_string()]);
}

#[test]
fn unsettled_resolution_blocks_only_the_function_ordering() {
    let mut p = projection();
    p.results[0].unique = false;
    assert_eq!(names(&p), vec!["rust-sort-simple-import-block".to_string()]);
}

#[test]
fn exported_import_and_shadowed_function_abstain() {
    let mut p = projection();
    let node = p.facts[1].node.clone();
    p.facts.push(fact("export-fmt", node, ScopeFactData::Export { local_target: None }, "imports-exports"));
    p.facts.push(fact(
        "shadow",
        key(0, 0, 0, 0),
        ScopeFactData::Shadowing { shadowing: "decl-alpha".into(), shadowed: "outer".into() },
        "lexical-scopes",
    ));
    assert!(detect_ordering_candidates(&p).unwrap().is_empty());
}

#[test]
fn dynamic_boundary_over_the_file_blocks_every_ordering() {
    let mut p = projection();
    p.facts.push(fact(
        "dynamic",
        key(0, 0, 0, 0),
        ScopeFactData::DynamicBoundary { scopes: vec!["file".into()] },
        "lexical-scopes",
    ));
    assert!(detect_ordering_candidates(&p).unwrap().is_empty());
}

#[test]
fn an_item_between_blocks_splits_the_runs() {
    let mut p = projection();
    p.files[0].children[1].clean = false;
    assert_eq!(names(&p), vec!["rust-sort-hoisted-private-function-block".to_string()]);
}

#[test]
fn ineligible_recipe_emits_nothing_of_its_kind() {
    let mut p = projection();
    p.function_eligibility.eligible = false;
    assert_eq!(names(&p), vec!["rust-sort-simple-import-block".to_string()]);
}

#[test]
fn block_outside_its_source_is_an_inconsistent_projection() {
    let mut p = projection();
    p.files[0].text = "use std::fmt;".into();
    let error = detect_ordering_candidates(&p).unwrap_err();
    assert!(matches!(&error, OrderingRecipeError::Projection(m) if m == "ordering span escapes source"));
}

#[test]
fn runs_are_maximal_stretches_of_two_or_more() {
    assert_eq!(runs(&vec![true, true, false, true, false, true, true, true]), vec![(0, 2), (5, 8)]);
    assert_eq!(runs(&vec![true]), vec![]);
    assert_eq!(runs(&vec![false, true, true]), vec![(1, 3)]);
}

#[test]
fn block_rewrite_keeps_gaps_in_place() {
    let source = "b;\n\na;  c;";
    let item = |key: &str, start: usize, end: usize| BlockItem {
        key: key.into(),
        text: source[start..end].into(),
        start_byte: start,
        end_byte: end,
        start_row: 0,
        end_row: 0,
    };
    let items = vec![item("b", 0, 2), item("a", 4, 6), item("c", 8, 10)];
    let w = block_rewrite(source, items).unwrap().unwrap();
    assert_eq!(w.before, "b;\n\na;  c;");
    assert_eq!(w.after, "a;\n\nb;  c;");
    let duplicate = vec![item("a", 0, 2), item("a", 4, 6)];
    assert!(matches!(block_rewrite(source, duplicate), Ok(None)));
}
