use deslop_recipes::contract::{
    FixtureExpectation, RecipeCondition, RecipeContractError, RecipeFixture, RecipeFixtureRole,
    RollbackPlan, RollbackStrategy, TransformationFamily, ValidationPlan, ValidationStep,
    ValidationStepKind,
};
use deslop_recipes::model::{GraphEvidenceLayer, SafetyClass};
use deslop_recipes::recipe::{TransformationRecipe, TransformationRecipeDraft};

fn recipe_draft() -> TransformationRecipeDraft {
    TransformationRecipeDraft {
        name: "remove-unreachable-statement".into(),
        version: "1.0.0".into(),
        family: TransformationFamily::CloneCeremonyDeadCode,
        required_layers: vec![GraphEvidenceLayer::ControlFlow],
        required_conditions: vec![RecipeCondition {
            key: "entry-unreachable".into(),
            description: "The retained control point is unreachable from callable entry.".into(),
            layer: GraphEvidenceLayer::ControlFlow,
        }],
        forbidden_conditions: vec![RecipeCondition {
            key: "conservative-control".into(),
            description: "The retained path contains conservative control evidence.".into(),
            layer: GraphEvidenceLayer::ControlFlow,
        }],
        maximum_safety: SafetyClass::SafeWithPrecondition,
        validation_plan: ValidationPlan {
            steps: vec![
                ValidationStep {
                    key: "parse".into(),
                    kind: ValidationStepKind::Parse,
                    description: "Parse the exact edited source.".into(),
                    command: None,
                    required: true,
                },
                ValidationStep {
                    key: "graph-delta".into(),
                    kind: ValidationStepKind::GraphDelta,
                    description: "Compare the actual and expected graph delta.".into(),
                    command: None,
                    required: true,
                },
            ],
        },
        rollback_plan: RollbackPlan {
            strategy: RollbackStrategy::ReverseExactEdits,
            require_revision_guards: true,
            validation_steps: vec!["parse".into(), "graph-delta".into()],
        },
        fixtures: vec![
            RecipeFixture {
                role: RecipeFixtureRole::AdversarialNearMiss,
                name: "reachable-after-conditional".into(),
                expectation: FixtureExpectation::NoCandidate,
                description: "A syntactically later statement remains reachable.".into(),
            },
            RecipeFixture {
                role: RecipeFixtureRole::Positive,
                name: "literal-after-return".into(),
                expectation: FixtureExpectation::Candidate,
                description: "An exact unreachable expression statement is removable.".into(),
            },
            RecipeFixture {
                role: RecipeFixtureRole::MinimalCounterexample,
                name: "referenced-declaration".into(),
                expectation: FixtureExpectation::ReviewRequired,
                description: "An unreachable declaration still participates in name resolution."
                    .into(),
            },
            RecipeFixture {
                role: RecipeFixtureRole::NoOp,
                name: "all-reachable".into(),
                expectation: FixtureExpectation::NoCandidate,
                description: "Every retained statement is entry-reachable.".into(),
            },
        ],
    }
}

fn recipe() -> TransformationRecipe {
    TransformationRecipe::new(recipe_draft()).unwrap()
}

fn json_of(recipe: &TransformationRecipe) -> String {
    let mut out = String::new();
    recipe.write_json(&mut out);
    out
}

#[test]
fn recipe_wire_is_canonical_content_bound_and_round_trips() {
    let recipe = recipe();
    let bytes = json_of(&recipe);
    let decoded = TransformationRecipe::from_wire(recipe.to_wire()).unwrap();

    assert_eq!(json_of(&decoded), bytes);
    assert_eq!(decoded.id(), recipe.id());
    assert_eq!(recipe.fixtures()[0].role, RecipeFixtureRole::Positive);
    assert_eq!(recipe.fixtures()[3].role, RecipeFixtureRole::AdversarialNearMiss);

    let mut changed = recipe_draft();
    changed.version = "1.0.1".into();
    assert_ne!(TransformationRecipe::new(changed).unwrap().id(), recipe.id());
}

#[test]
fn recipe_wire_rejects_stale_identity_unknown_fields_and_noncanonical_order() {
    let mut stale = recipe().to_wire();
    stale.draft.version = "1.0.1".into();
    assert!(TransformationRecipe::from_wire(stale).is_err());

    let mut reordered = recipe().to_wire();
    reordered.draft.fixtures.swap(0, 1);
    assert!(TransformationRecipe::from_wire(reordered).is_err());
}

#[test]
fn recipe_requires_dependency_closed_layers_and_exact_fixture_roles() {
    let mut unclosed = recipe_draft();
    unclosed.required_layers = vec![GraphEvidenceLayer::ProgramDependence];
    unclosed.required_conditions[0].layer = GraphEvidenceLayer::ProgramDependence;
    unclosed.forbidden_conditions[0].layer = GraphEvidenceLayer::ProgramDependence;
    assert!(TransformationRecipe::new(unclosed).is_err());

    let mut missing_role = recipe_draft();
    missing_role.fixtures.pop();
    assert!(TransformationRecipe::new(missing_role).is_err());

    let mut contradictory = recipe_draft();
    contradictory.fixtures[1].expectation = FixtureExpectation::NoCandidate;
    assert!(TransformationRecipe::new(contradictory).is_err());
}

#[test]
fn recipe_arrangement_does_not_change_identity() {
    let canonical = recipe();
    let mut shuffled = recipe_draft();
    shuffled.fixtures.reverse();
    shuffled.validation_plan.steps.reverse();
    let rebuilt = TransformationRecipe::new(shuffled).unwrap();
    assert_eq!(rebuilt.id(), canonical.id());
    assert_eq!(json_of(&rebuilt), json_of(&canonical));
}

#[test]
fn recipe_identity_has_prefix_and_lowercase_digest() {
    let recipe = recipe();
    let id = recipe.id();
    assert!(id.starts_with("rcp1_"));
    assert_eq!(id.len(), 5 + 64);
    assert!(id[5..].chars().all(|c| c.is_ascii_digit() || ('a'..='f').contains(&c)));
    assert!(recipe.validate().is_ok());
}

#[test]
fn recipe_errors_are_invalid_with_messages() {
    let mut empty_name = recipe_draft();
    empty_name.name = " padded".into();
    match TransformationRecipe::new(empty_name) {
        Err(RecipeContractError::Invalid(detail)) => assert!(!detail.is_empty()),
        other => panic!("unexpected {other:?}"),
    }
    let error = RecipeContractError::Identity("x".into());
    assert_eq!(error.message(), "transformation identity failed: x");
    let error = RecipeContractError::Invalid("y".into());
    assert_eq!(error.message(), "invalid transformation contract: y");
}

#[test]
fn recipe_json_starts_with_schema_and_identity() {
    let recipe = recipe();
    let json = json_of(&recipe);
    let expected_prefix = format!(
        "{{\"schema\":\"deslop.transformation-recipe/1\",\"id\":\"{}\",\"name\":\"remove-unreachable-statement\"",
        recipe.id()
    );
    assert!(json.starts_with(&expected_prefix), "{json}");
    assert!(json.ends_with('}'));
}

#[test]
fn rollback_that_names_a_missing_step_is_refused() {
    let mut draft = recipe_draft();
    draft.rollback_plan.validation_steps = vec!["parse".into(), "unknown-step".into()];
    assert!(TransformationRecipe::new(draft).is_err());
    let mut partial = recipe_draft();
    partial.rollback_plan.validation_steps = vec!["parse".into()];
    assert!(TransformationRecipe::new(partial).is_ok());
}

#[test]
fn condition_required_and_forbidden_is_refused() {
    let mut draft = recipe_draft();
    draft.forbidden_conditions[0].key = "entry-unreachable".into();
    assert!(TransformationRecipe::new(draft).is_err());
}
