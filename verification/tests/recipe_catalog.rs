use std::collections::BTreeSet;

use deslop_recipes::contract::{
    FixtureExpectation, RecipeContractError, RecipeFixtureRole, RollbackStrategy, TransformationFamily,
};
use deslop_recipes::impact::ImpactQueryError;
use deslop_recipes::model::{GraphEvidenceLayer, SafetyClass};
use deslop_recipes::recipe::TransformationRecipe;
use deslop_recipes::recipes::branch::{equivalent_branch_factoring_recipe, BranchRecipeError};
use deslop_recipes::recipes::branch_split::independent_branch_split_recipe;
use deslop_recipes::recipes::branch_terminal::{exhaustive_chain_to_match_recipe, literal_dead_arm_recipe};
use deslop_recipes::recipes::catalog::enabled_rust_recipe_catalog;
use deslop_recipes::recipes::condition_merge::adjacent_condition_merge_recipe;
use deslop_recipes::recipes::extract_method::extract_method_recipe;
use deslop_recipes::recipes::guard_clause::guard_clause_inversion_recipe;
use deslop_recipes::recipes::inline_helper::inline_single_use_helper_recipe;
use deslop_recipes::recipes::local_cleanup::{
    inline_single_use_temporary_recipe, remove_independent_dead_local_recipe,
    remove_unused_pure_expression_recipe,
};
use deslop_recipes::recipes::ordering::{
    hoisted_private_function_order_recipe, simple_import_order_recipe, OrderingRecipeError,
};
use deslop_recipes::recipes::unreachable::{unreachable_literal_statement_recipe, UnreachableRecipeError};

const SAFE_AUTO_RECIPES: [&str; 3] = [
    "rust-remove-independent-unused-literal-local",
    "rust-remove-unreachable-literal-statement",
    "rust-remove-unused-pure-literal-expression",
];

fn roles(recipe: &TransformationRecipe) -> Vec<RecipeFixtureRole> {
    recipe.fixtures().iter().map(|fixture| fixture.role).collect()
}

fn four_roles() -> Vec<RecipeFixtureRole> {
    vec![
        RecipeFixtureRole::Positive,
        RecipeFixtureRole::NoOp,
        RecipeFixtureRole::MinimalCounterexample,
        RecipeFixtureRole::AdversarialNearMiss,
    ]
}

#[test]
fn recipe_freezes_the_four_required_fixture_roles() {
    let recipe = equivalent_branch_factoring_recipe().unwrap();
    assert_eq!(recipe.family(), TransformationFamily::BranchControl);
    assert_eq!(recipe.maximum_safety(), SafetyClass::SafeWithPrecondition);
    assert_eq!(recipe.fixtures().len(), 4);
    assert_eq!(roles(&recipe), four_roles());
}

#[test]
fn recipes_freeze_four_roles_and_review_authority() {
    for recipe in [literal_dead_arm_recipe().unwrap(), exhaustive_chain_to_match_recipe().unwrap()] {
        assert_eq!(recipe.fixtures().len(), 4);
        assert_eq!(recipe.maximum_safety(), SafetyClass::SafeWithPrecondition);
        assert!(recipe.required_layers().contains(&GraphEvidenceLayer::ProgramDependence));
    }
}

#[test]
fn recipe_freezes_four_roles_and_semantic_layers() {
    let recipe = adjacent_condition_merge_recipe().unwrap();
    assert_eq!(recipe.family(), TransformationFamily::BranchControl);
    assert_eq!(recipe.maximum_safety(), SafetyClass::SafeWithPrecondition);
    assert_eq!(recipe.fixtures().len(), 4);
    assert_eq!(roles(&recipe), four_roles());
    assert!(recipe.required_layers().contains(&GraphEvidenceLayer::DataFlow));
    assert!(recipe.required_layers().contains(&GraphEvidenceLayer::ProgramDependence));
}

#[test]
fn recipe_declares_exact_four_role_contract() {
    let recipe = extract_method_recipe().unwrap();
    assert_eq!(recipe.family(), TransformationFamily::FunctionExpression);
    assert_eq!(recipe.fixtures().len(), 4);
    let found = roles(&recipe).into_iter().map(|role| format!("{role:?}")).collect::<BTreeSet<_>>();
    let expected = four_roles().into_iter().map(|role| format!("{role:?}")).collect::<BTreeSet<_>>();
    assert_eq!(found, expected);
}

#[test]
fn recipe_freezes_four_roles_and_pst_boundary() {
    let recipe = guard_clause_inversion_recipe().unwrap();
    assert_eq!(recipe.fixtures().len(), 4);
    assert!(recipe.required_layers().contains(&GraphEvidenceLayer::ControlRegions));
    assert_eq!(recipe.maximum_safety(), SafetyClass::SafeWithPrecondition);
}

#[test]
fn recipe_contracts_are_review_gated_and_scope_resolution_bound() {
    for recipe in [simple_import_order_recipe().unwrap(), hoisted_private_function_order_recipe().unwrap()] {
        assert_eq!(recipe.family(), TransformationFamily::DependencyModule);
        assert_eq!(recipe.maximum_safety(), SafetyClass::SafeWithPrecondition);
        assert_eq!(
            recipe.required_layers(),
            [GraphEvidenceLayer::ScopeGraph, GraphEvidenceLayer::Resolution]
        );
        assert_eq!(recipe.fixtures().len(), 4);
    }
}

#[test]
fn safe_auto_frontier_is_exact_and_counterexample_fixtures_are_mandatory() {
    let catalog = enabled_rust_recipe_catalog().unwrap();
    let safe_auto = catalog
        .iter()
        .filter(|recipe| recipe.maximum_safety() == SafetyClass::SafeAuto)
        .map(|recipe| recipe.name())
        .collect::<Vec<_>>();
    assert_eq!(safe_auto, SAFE_AUTO_RECIPES);
    for recipe in catalog.iter().filter(|recipe| SAFE_AUTO_RECIPES.contains(&recipe.name())) {
        assert_eq!(recipe.fixtures()[2].expectation, FixtureExpectation::NoCandidate);
        assert_eq!(recipe.fixtures()[3].expectation, FixtureExpectation::NoCandidate);
    }
}

#[test]
fn enabled_catalog_is_sorted_unique_and_closes_every_contract() {
    let catalog = enabled_rust_recipe_catalog().unwrap();
    assert_eq!(catalog.len(), 14);
    let names = catalog.iter().map(|recipe| recipe.name()).collect::<Vec<_>>();
    let mut sorted = names.clone();
    sorted.sort();
    assert_eq!(names, sorted);
    assert_eq!(names.iter().collect::<BTreeSet<_>>().len(), catalog.len());
    assert_eq!(catalog.iter().map(|recipe| recipe.id()).collect::<BTreeSet<_>>().len(), catalog.len());

    for recipe in &catalog {
        assert!(!recipe.required_layers().is_empty(), "{}", recipe.name());
        assert!(!recipe.required_conditions().is_empty(), "{}", recipe.name());
        assert_eq!(roles(recipe), four_roles(), "{}", recipe.name());
        assert!(matches!(
            recipe.fixtures()[0].expectation,
            FixtureExpectation::Candidate | FixtureExpectation::ReviewRequired
        ));
        let required = recipe
            .validation_plan()
            .steps
            .iter()
            .filter(|step| step.required)
            .map(|step| step.key.as_str())
            .collect::<BTreeSet<_>>();
        assert!(!required.is_empty(), "{}", recipe.name());
        assert_eq!(recipe.rollback_plan().strategy, RollbackStrategy::ReverseExactEdits);
        assert!(recipe.rollback_plan().require_revision_guards);
        assert!(required.iter().all(|key| {
            recipe.rollback_plan().validation_steps.iter().any(|rollback_key| rollback_key == key)
        }));
        assert!(recipe.validate().is_ok(), "{}", recipe.name());
    }
}

#[test]
fn every_catalog_builder_matches_its_catalog_entry() {
    let catalog = enabled_rust_recipe_catalog().unwrap();
    let built = [
        unreachable_literal_statement_recipe().unwrap(),
        equivalent_branch_factoring_recipe().unwrap(),
        adjacent_condition_merge_recipe().unwrap(),
        independent_branch_split_recipe().unwrap(),
        guard_clause_inversion_recipe().unwrap(),
        literal_dead_arm_recipe().unwrap(),
        exhaustive_chain_to_match_recipe().unwrap(),
        extract_method_recipe().unwrap(),
        inline_single_use_temporary_recipe().unwrap(),
        remove_unused_pure_expression_recipe().unwrap(),
        remove_independent_dead_local_recipe().unwrap(),
        simple_import_order_recipe().unwrap(),
        hoisted_private_function_order_recipe().unwrap(),
        inline_single_use_helper_recipe().unwrap(),
    ];
    for recipe in &built {
        let entry = catalog.iter().find(|entry| entry.name() == recipe.name()).unwrap();
        assert_eq!(entry.id(), recipe.id());
        assert_eq!(entry.version(), recipe.version());
    }
}

#[test]
fn recipe_identity_depends_on_its_content() {
    let a = literal_dead_arm_recipe().unwrap();
    let b = exhaustive_chain_to_match_recipe().unwrap();
    assert_ne!(a.id(), b.id());
    assert!(a.id().starts_with("rcp1_"));
    assert_eq!(a.id(), literal_dead_arm_recipe().unwrap().id());
}

#[test]
fn detector_errors_carry_their_messages() {
    assert_eq!(
        BranchRecipeError::Eligibility("x".into()).message(),
        "branch recipe graph eligibility failed: x"
    );
    assert_eq!(
        UnreachableRecipeError::Projection("y".into()).message(),
        "unreachable recipe received an inconsistent projection: y"
    );
    assert_eq!(
        UnreachableRecipeError::Impact(ImpactQueryError::ZeroDepth).message(),
        "impact query maximum depth must be positive"
    );
    assert_eq!(
        OrderingRecipeError::Contract(RecipeContractError::Invalid("z".into())).message(),
        "invalid transformation contract: z"
    );
    assert_eq!(
        OrderingRecipeError::Projection("p".into()).message(),
        "ordering projection is inconsistent: p"
    );
}
