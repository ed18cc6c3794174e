//! Merging of nested conditions into one short-circuit condition.

use vstd::prelude::*;
use crate::contract::{
    contract_error_message, labeled_message,
    FixtureExpectation, RecipeContractError, RecipeFixtureRole, RollbackPlan, RollbackStrategy,
    TransformationFamily, ValidationPlan, ValidationStep, ValidationStepKind,
};
use crate::impact::{impact_error_message, ImpactQueryError};
use crate::model::{GraphEvidenceLayer, SafetyClass};
use crate::recipe::{recipe_draft_sound, TransformationRecipe, TransformationRecipeDraft};
use super::{build_recipe, condition, fixture, lemma_ranked_layers_canonical, recipe_header, validation};
use crate::text::is_canonical_text;
use super::condition_is;
use super::fixture_is;
use super::step_is;
use crate::recipe::canonical_arrangement;

verus! {

pub const CONDITION_TRUTH_EQUIVALENT: &'static str = "short-circuit-truth-equivalent";
pub const CONDITION_EVALUATION_ORDER: &'static str = "left-to-right-evaluation-count";
pub const CONDITION_BODIES_EXACT: &'static str = "branch-bodies-exact";
pub const CONDITION_EXCEPTION_ORDER: &'static str = "exception-suspension-order-preserved";
pub const FORBIDDEN_UNCERTAIN_CONTROL: &'static str = "recovered-or-conservative-control";
pub const FORBIDDEN_BINDING_SCOPE: &'static str = "condition-binding-scope-change";
pub const FORBIDDEN_EFFECT_DIVERGENCE: &'static str = "effect-or-exception-divergence";
pub const FORBIDDEN_NON_STRUCTURED: &'static str = "non-structured-control";

/// The draft of the rust-merge-adjacent-conditions recipe: its name, version, family,
/// maximum safety, layers, conditions, plans and fixtures, in order.
pub open spec fn adjacent_condition_merge_recipe_draft(d: TransformationRecipeDraft) -> bool {
    &&& d.name@ == "rust-merge-adjacent-conditions"@
    &&& d.version@ == "1.0.0"@
    &&& d.family == TransformationFamily::BranchControl
    &&& d.maximum_safety == SafetyClass::SafeWithPrecondition
    &&& d.required_layers@ == seq![GraphEvidenceLayer::ControlFlow, GraphEvidenceLayer::ControlRegions, GraphEvidenceLayer::NonStructuredControl, GraphEvidenceLayer::DataFlow, GraphEvidenceLayer::ProgramDependence]
    &&& d.required_conditions@.len() == 4
    &&& condition_is(d.required_conditions@[0], CONDITION_TRUTH_EQUIVALENT@, "The nested branch truth table is exactly equivalent to Rust && or || short-circuiting."@, GraphEvidenceLayer::ControlFlow)
    &&& condition_is(d.required_conditions@[1], CONDITION_EVALUATION_ORDER@, "The right predicate remains conditional and both predicates retain left-to-right evaluation count."@, GraphEvidenceLayer::ControlFlow)
    &&& condition_is(d.required_conditions@[2], CONDITION_BODIES_EXACT@, "Success and fallback bodies are retained byte-exact at equivalent outcomes."@, GraphEvidenceLayer::ControlFlow)
    &&& condition_is(d.required_conditions@[3], CONDITION_EXCEPTION_ORDER@, "Complete effect evidence proves panic, exception, abrupt-exit, and suspension behavior is preserved."@, GraphEvidenceLayer::DataFlow)
    &&& d.forbidden_conditions@.len() == 4
    &&& condition_is(d.forbidden_conditions@[0], FORBIDDEN_UNCERTAIN_CONTROL@, "Recovered syntax or a conservative edge participates in either branch."@, GraphEvidenceLayer::ControlFlow)
    &&& condition_is(d.forbidden_conditions@[1], FORBIDDEN_BINDING_SCOPE@, "A let condition or let chain binds a name whose scope would change after merging."@, GraphEvidenceLayer::ControlFlow)
    &&& condition_is(d.forbidden_conditions@[2], FORBIDDEN_EFFECT_DIVERGENCE@, "Merging changes effect, panic, exception, abrupt-exit, or suspension order."@, GraphEvidenceLayer::DataFlow)
    &&& condition_is(d.forbidden_conditions@[3], FORBIDDEN_NON_STRUCTURED@, "A non-structured control fact participates in the callable."@, GraphEvidenceLayer::NonStructuredControl)
    &&& d.validation_plan.steps@.len() == 4
    &&& step_is(d.validation_plan.steps@[0], "build"@, ValidationStepKind::Build, "Build the project after the guarded short-circuit replacement."@)
    &&& step_is(d.validation_plan.steps@[1], "graph-delta"@, ValidationStepKind::GraphDelta, "Rebuild graph evidence and verify two dispatches collapse to one."@)
    &&& step_is(d.validation_plan.steps@[2], "parse"@, ValidationStepKind::Parse, "Parse the exact retained source after replacement."@)
    &&& step_is(d.validation_plan.steps@[3], "test"@, ValidationStepKind::Test, "Run project tests before accepting the review candidate."@)
    &&& d.rollback_plan.strategy == RollbackStrategy::ReverseExactEdits
    &&& d.rollback_plan.require_revision_guards == true
    &&& d.rollback_plan.validation_steps@.len() == 4
    &&& d.rollback_plan.validation_steps@[0]@ == "build"@
    &&& d.rollback_plan.validation_steps@[1]@ == "graph-delta"@
    &&& d.rollback_plan.validation_steps@[2]@ == "parse"@
    &&& d.rollback_plan.validation_steps@[3]@ == "test"@
    &&& d.fixtures@.len() == 4
    &&& fixture_is(d.fixtures@[0], RecipeFixtureRole::Positive, "nested-and"@, FixtureExpectation::Candidate, "A nested if with no fallback becomes one && condition."@)
    &&& fixture_is(d.fixtures@[1], RecipeFixtureRole::NoOp, "different-fallbacks"@, FixtureExpectation::NoCandidate, "Different nested and outer fallbacks cannot be collapsed."@)
    &&& fixture_is(d.fixtures@[2], RecipeFixtureRole::MinimalCounterexample, "effectful-right-predicate"@, FixtureExpectation::ReviewRequired, "The right predicate remains short-circuited but lacks production effect authority."@)
    &&& fixture_is(d.fixtures@[3], RecipeFixtureRole::AdversarialNearMiss, "let-binding-condition"@, FixtureExpectation::NoCandidate, "A condition binding cannot cross the merged condition scope boundary."@)
}

pub fn adjacent_condition_merge_recipe() -> (r: Result<TransformationRecipe, RecipeContractError>)
    ensures
        r matches Ok(x) ==> exists|d: TransformationRecipeDraft| adjacent_condition_merge_recipe_draft(d) && canonical_arrangement(x.spec_draft(), d),
        r is Ok,
        recipe_header(
            r,
            "rust-merge-adjacent-conditions"@,
            "1.0.0"@,
            TransformationFamily::BranchControl,
            SafetyClass::SafeWithPrecondition,
            seq![GraphEvidenceLayer::ControlFlow, GraphEvidenceLayer::ControlRegions, GraphEvidenceLayer::NonStructuredControl, GraphEvidenceLayer::DataFlow, GraphEvidenceLayer::ProgramDependence],
        ),
{
    let required_layers = vec![
            GraphEvidenceLayer::ControlFlow,
            GraphEvidenceLayer::ControlRegions,
            GraphEvidenceLayer::NonStructuredControl,
            GraphEvidenceLayer::DataFlow,
            GraphEvidenceLayer::ProgramDependence,
        ];
    proof {
        lemma_ranked_layers_canonical(required_layers@);
    }
    let draft = TransformationRecipeDraft {
        name: "rust-merge-adjacent-conditions".to_owned(),
        version: "1.0.0".to_owned(),
        family: TransformationFamily::BranchControl,
        required_layers,
        required_conditions: vec![
            condition(
                CONDITION_TRUTH_EQUIVALENT,
                "The nested branch truth table is exactly equivalent to Rust && or || short-circuiting.",
                GraphEvidenceLayer::ControlFlow,
            ),
            condition(
                CONDITION_EVALUATION_ORDER,
                "The right predicate remains conditional and both predicates retain left-to-right evaluation count.",
                GraphEvidenceLayer::ControlFlow,
            ),
            condition(
                CONDITION_BODIES_EXACT,
                "Success and fallback bodies are retained byte-exact at equivalent outcomes.",
                GraphEvidenceLayer::ControlFlow,
            ),
            condition(
                CONDITION_EXCEPTION_ORDER,
                "Complete effect evidence proves panic, exception, abrupt-exit, and suspension behavior is preserved.",
                GraphEvidenceLayer::DataFlow,
            ),
        ],
        forbidden_conditions: vec![
            condition(
                FORBIDDEN_UNCERTAIN_CONTROL,
                "Recovered syntax or a conservative edge participates in either branch.",
                GraphEvidenceLayer::ControlFlow,
            ),
            condition(
                FORBIDDEN_BINDING_SCOPE,
                "A let condition or let chain binds a name whose scope would change after merging.",
                GraphEvidenceLayer::ControlFlow,
            ),
            condition(
                FORBIDDEN_EFFECT_DIVERGENCE,
                "Merging changes effect, panic, exception, abrupt-exit, or suspension order.",
                GraphEvidenceLayer::DataFlow,
            ),
            condition(
                FORBIDDEN_NON_STRUCTURED,
                "A non-structured control fact participates in the callable.",
                GraphEvidenceLayer::NonStructuredControl,
            ),
        ],
        maximum_safety: SafetyClass::SafeWithPrecondition,
        validation_plan: ValidationPlan {
            steps: vec![
                ValidationStep {
                    key: "build".to_owned(),
                    kind: ValidationStepKind::Build,
                    description: "Build the project after the guarded short-circuit replacement."
                        .to_owned(),
                    command: None,
                    required: true,
                },
                ValidationStep {
                    key: "graph-delta".to_owned(),
                    kind: ValidationStepKind::GraphDelta,
                    description:
                        "Rebuild graph evidence and verify two dispatches collapse to one.".to_owned(),
                    command: None,
                    required: true,
                },
                ValidationStep {
                    key: "parse".to_owned(),
                    kind: ValidationStepKind::Parse,
                    description: "Parse the exact retained source after replacement.".to_owned(),
                    command: None,
                    required: true,
                },
                ValidationStep {
                    key: "test".to_owned(),
                    kind: ValidationStepKind::Test,
                    description: "Run project tests before accepting the review candidate.".to_owned(),
                    command: None,
                    required: true,
                },
            ],
        },
        rollback_plan: RollbackPlan {
            strategy: RollbackStrategy::ReverseExactEdits,
            require_revision_guards: true,
            validation_steps: vec![
                "build".to_owned(),
                "graph-delta".to_owned(),
                "parse".to_owned(),
                "test".to_owned(),
            ],
        },
        fixtures: vec![
            fixture(
                RecipeFixtureRole::Positive,
                "nested-and",
                FixtureExpectation::Candidate,
                "A nested if with no fallback becomes one && condition.",
            ),
            fixture(
                RecipeFixtureRole::NoOp,
                "different-fallbacks",
                FixtureExpectation::NoCandidate,
                "Different nested and outer fallbacks cannot be collapsed.",
            ),
            fixture(
                RecipeFixtureRole::MinimalCounterexample,
                "effectful-right-predicate",
                FixtureExpectation::ReviewRequired,
                "The right predicate remains short-circuited but lacks production effect authority.",
            ),
            fixture(
                RecipeFixtureRole::AdversarialNearMiss,
                "let-binding-condition",
                FixtureExpectation::NoCandidate,
                "A condition binding cannot cross the merged condition scope boundary.",
            ),
        ],
    };
    proof {
        reveal_strlit("1.0.0");
        reveal_strlit("A condition binding cannot cross the merged condition scope boundary.");
        reveal_strlit("A let condition or let chain binds a name whose scope would change after merging.");
        reveal_strlit("A nested if with no fallback becomes one && condition.");
        reveal_strlit("A non-structured control fact participates in the callable.");
        reveal_strlit("Build the project after the guarded short-circuit replacement.");
        reveal_strlit("Complete effect evidence proves panic, exception, abrupt-exit, and suspension behavior is preserved.");
        reveal_strlit("Different nested and outer fallbacks cannot be collapsed.");
        reveal_strlit("Merging changes effect, panic, exception, abrupt-exit, or suspension order.");
        reveal_strlit("Parse the exact retained source after replacement.");
        reveal_strlit("Rebuild graph evidence and verify two dispatches collapse to one.");
        reveal_strlit("Recovered syntax or a conservative edge participates in either branch.");
        reveal_strlit("Run project tests before accepting the review candidate.");
        reveal_strlit("Success and fallback bodies are retained byte-exact at equivalent outcomes.");
        reveal_strlit("The nested branch truth table is exactly equivalent to Rust && or || short-circuiting.");
        reveal_strlit("The right predicate remains conditional and both predicates retain left-to-right evaluation count.");
        reveal_strlit("The right predicate remains short-circuited but lacks production effect authority.");
        reveal_strlit("branch-bodies-exact");
        reveal_strlit("build");
        reveal_strlit("condition-binding-scope-change");
        reveal_strlit("different-fallbacks");
        reveal_strlit("effect-or-exception-divergence");
        reveal_strlit("effectful-right-predicate");
        reveal_strlit("exception-suspension-order-preserved");
        reveal_strlit("graph-delta");
        reveal_strlit("left-to-right-evaluation-count");
        reveal_strlit("let-binding-condition");
        reveal_strlit("nested-and");
        reveal_strlit("non-structured-control");
        reveal_strlit("parse");
        reveal_strlit("recovered-or-conservative-control");
        reveal_strlit("rust-merge-adjacent-conditions");
        reveal_strlit("short-circuit-truth-equivalent");
        reveal_strlit("test");
        assert forall|i: int| 0 <= i < draft.required_conditions@.len() implies is_canonical_text((#[trigger] draft.required_conditions@[i]).key@) && is_canonical_text(draft.required_conditions@[i].description@) by {
            if i == 0 {} else if i == 1 {} else if i == 2 {} else if i == 3 {} else if i == 4 {} else if i == 5 {} else if i == 6 {} else if i == 7 {} else if i == 8 {} else if i == 9 {} else if i == 10 {} else if i == 11 {}
        }
        assert forall|i: int, j: int| 0 <= i < j < draft.required_conditions@.len() implies (#[trigger] draft.required_conditions@[i]).key@ != (#[trigger] draft.required_conditions@[j]).key@ by {
            if i == 0 { if j == 1 {} else if j == 2 {} else if j == 3 {} else if j == 4 {} else if j == 5 {} else if j == 6 {} else if j == 7 {} else if j == 8 {} else if j == 9 {} else if j == 10 {} else if j == 11 {} } else if i == 1 { if j == 2 {} else if j == 3 {} else if j == 4 {} else if j == 5 {} else if j == 6 {} else if j == 7 {} else if j == 8 {} else if j == 9 {} else if j == 10 {} else if j == 11 {} } else if i == 2 { if j == 3 {} else if j == 4 {} else if j == 5 {} else if j == 6 {} else if j == 7 {} else if j == 8 {} else if j == 9 {} else if j == 10 {} else if j == 11 {} } else if i == 3 { if j == 4 {} else if j == 5 {} else if j == 6 {} else if j == 7 {} else if j == 8 {} else if j == 9 {} else if j == 10 {} else if j == 11 {} } else if i == 4 { if j == 5 {} else if j == 6 {} else if j == 7 {} else if j == 8 {} else if j == 9 {} else if j == 10 {} else if j == 11 {} } else if i == 5 { if j == 6 {} else if j == 7 {} else if j == 8 {} else if j == 9 {} else if j == 10 {} else if j == 11 {} } else if i == 6 { if j == 7 {} else if j == 8 {} else if j == 9 {} else if j == 10 {} else if j == 11 {} } else if i == 7 { if j == 8 {} else if j == 9 {} else if j == 10 {} else if j == 11 {} } else if i == 8 { if j == 9 {} else if j == 10 {} else if j == 11 {} } else if i == 9 { if j == 10 {} else if j == 11 {} } else if i == 10 { if j == 11 {} }
        }
        assert forall|i: int| 0 <= i < draft.forbidden_conditions@.len() implies is_canonical_text((#[trigger] draft.forbidden_conditions@[i]).key@) && is_canonical_text(draft.forbidden_conditions@[i].description@) by {
            if i == 0 {} else if i == 1 {} else if i == 2 {} else if i == 3 {} else if i == 4 {} else if i == 5 {}
        }
        assert forall|i: int, j: int| 0 <= i < j < draft.forbidden_conditions@.len() implies (#[trigger] draft.forbidden_conditions@[i]).key@ != (#[trigger] draft.forbidden_conditions@[j]).key@ by {
            if i == 0 { if j == 1 {} else if j == 2 {} else if j == 3 {} else if j == 4 {} else if j == 5 {} } else if i == 1 { if j == 2 {} else if j == 3 {} else if j == 4 {} else if j == 5 {} } else if i == 2 { if j == 3 {} else if j == 4 {} else if j == 5 {} } else if i == 3 { if j == 4 {} else if j == 5 {} } else if i == 4 { if j == 5 {} }
        }
        assert forall|i: int| 0 <= i < draft.validation_plan.steps@.len() implies crate::contract::step_valid(#[trigger] draft.validation_plan.steps@[i]) by {
            if i == 0 {} else if i == 1 {} else if i == 2 {} else if i == 3 {} else if i == 4 {} else if i == 5 {}
        }
        assert forall|i: int, j: int| 0 <= i < j < draft.validation_plan.steps@.len() implies (#[trigger] draft.validation_plan.steps@[i]).key@ != (#[trigger] draft.validation_plan.steps@[j]).key@ by {
            if i == 0 { if j == 1 {} else if j == 2 {} else if j == 3 {} else if j == 4 {} else if j == 5 {} } else if i == 1 { if j == 2 {} else if j == 3 {} else if j == 4 {} else if j == 5 {} } else if i == 2 { if j == 3 {} else if j == 4 {} else if j == 5 {} } else if i == 3 { if j == 4 {} else if j == 5 {} } else if i == 4 { if j == 5 {} }
        }
        assert(adjacent_condition_merge_recipe_draft(draft));
        assert(recipe_draft_sound(draft));
    }
    build_recipe(draft)
}


/// Why adjacent-condition merging failed: a recipe contract, an impact query, graph
/// eligibility, or an inconsistent projection.
#[derive(Clone, Debug)]
pub enum ConditionMergeRecipeError {
    Contract(RecipeContractError),
    Impact(ImpactQueryError),
    Eligibility(String),
    Projection(String),
}

pub open spec fn condition_merge_recipe_error_message(e: ConditionMergeRecipeError) -> Seq<char> {
    match e {
        ConditionMergeRecipeError::Contract(c) => contract_error_message(c),
        ConditionMergeRecipeError::Impact(e) => impact_error_message(e),
        ConditionMergeRecipeError::Eligibility(d) => "adjacent-condition recipe graph eligibility failed: "@ + d@,
        ConditionMergeRecipeError::Projection(d) => "adjacent-condition recipe received an inconsistent projection: "@ + d@,
    }
}

impl ConditionMergeRecipeError {
    /// The message of the error.
    pub fn message(&self) -> (m: String)
        ensures
            m@ == condition_merge_recipe_error_message(*self),
    {
        match self {
            ConditionMergeRecipeError::Contract(e) => e.message(),
            ConditionMergeRecipeError::Impact(e) => e.message(),
            ConditionMergeRecipeError::Eligibility(d) => labeled_message("adjacent-condition recipe graph eligibility failed: ", d.as_str()),
            ConditionMergeRecipeError::Projection(d) => labeled_message("adjacent-condition recipe received an inconsistent projection: ", d.as_str()),
        }
    }
}

} // verus!
