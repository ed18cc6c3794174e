//! Inversion of a branch into a guard clause with an exact early exit.

use vstd::prelude::*;
use crate::contract::{
    contract_error_message, labeled_message,
    FixtureExpectation, RecipeContractError, RecipeFixtureRole, RollbackPlan, RollbackStrategy,
    TransformationFamily, ValidationPlan, ValidationStep, ValidationStepKind,
};
use crate::impact::{impact_error_message, ImpactQueryError};
use crate::model::{GraphEvidenceLayer, SafetyClass};
use crate::recipe::{recipe_draft_sound, TransformationRecipe, TransformationRecipeDraft};
use super::{build_recipe, condition, fixture, lemma_ranked_layers_canonical, recipe_header, validation};
use crate::text::is_canonical_text;
use super::condition_is;
use super::fixture_is;
use super::step_is;
use crate::recipe::canonical_arrangement;

verus! {

pub const REQUIRED_EXIT: &'static str = "guard-arm-abrupt-exit-exact";
pub const REQUIRED_PST: &'static str = "pst-continuation-boundary-exact";
pub const REQUIRED_PREDICATE: &'static str = "predicate-count-and-polarity-preserved";
pub const REQUIRED_SCOPE: &'static str = "continuation-scope-and-effects-preserved";
pub const FORBIDDEN_CONTROL: &'static str = "recovered-or-conservative-control";
pub const FORBIDDEN_BINDING: &'static str = "binding-lifetime-or-drop-change";
pub const FORBIDDEN_EFFECT: &'static str = "effect-exception-or-suspension-change";
pub const FORBIDDEN_NON_STRUCTURED: &'static str = "non-structured-control";

/// The draft of the rust-invert-guard-clause recipe: its name, version, family,
/// maximum safety, layers, conditions, plans and fixtures, in order.
pub open spec fn guard_clause_inversion_recipe_draft(d: TransformationRecipeDraft) -> bool {
    &&& d.name@ == "rust-invert-guard-clause"@
    &&& d.version@ == "1.0.0"@
    &&& d.family == TransformationFamily::BranchControl
    &&& d.maximum_safety == SafetyClass::SafeWithPrecondition
    &&& d.required_layers@ == seq![GraphEvidenceLayer::ControlFlow, GraphEvidenceLayer::ControlRegions, GraphEvidenceLayer::NonStructuredControl, GraphEvidenceLayer::DataFlow, GraphEvidenceLayer::ProgramDependence]
    &&& d.required_conditions@.len() == 4
    &&& condition_is(d.required_conditions@[0], REQUIRED_EXIT@, "One exact branch arm consists of a direct abrupt exit."@, GraphEvidenceLayer::ControlFlow)
    &&& condition_is(d.required_conditions@[1], REQUIRED_PST@, "Complete PST facts prove the other arm reaches the branch continuation boundary."@, GraphEvidenceLayer::ControlRegions)
    &&& condition_is(d.required_conditions@[2], REQUIRED_PREDICATE@, "The predicate is evaluated once with exactly the required polarity."@, GraphEvidenceLayer::ControlFlow)
    &&& condition_is(d.required_conditions@[3], REQUIRED_SCOPE@, "Complete def/use and effect evidence proves flattening the continuation block preserves semantics."@, GraphEvidenceLayer::DataFlow)
    &&& d.forbidden_conditions@.len() == 4
    &&& condition_is(d.forbidden_conditions@[0], FORBIDDEN_CONTROL@, "Recovered syntax or conservative control participates in either path."@, GraphEvidenceLayer::ControlFlow)
    &&& condition_is(d.forbidden_conditions@[1], FORBIDDEN_BINDING@, "Moving the continuation changes binding visibility, borrow extent, lifetime, or drop timing."@, GraphEvidenceLayer::DataFlow)
    &&& condition_is(d.forbidden_conditions@[2], FORBIDDEN_EFFECT@, "Inversion changes effect, exception, panic, abrupt-exit, or suspension order."@, GraphEvidenceLayer::DataFlow)
    &&& condition_is(d.forbidden_conditions@[3], FORBIDDEN_NON_STRUCTURED@, "Non-structured control participates in the callable."@, GraphEvidenceLayer::NonStructuredControl)
    &&& d.validation_plan.steps@.len() == 4
    &&& step_is(d.validation_plan.steps@[0], "build"@, ValidationStepKind::Build, "Build after flattening the guarded continuation."@)
    &&& step_is(d.validation_plan.steps@[1], "graph-delta"@, ValidationStepKind::GraphDelta, "Rebuild CFG/PST/PDG evidence and compare the guard boundary."@)
    &&& step_is(d.validation_plan.steps@[2], "parse"@, ValidationStepKind::Parse, "Parse the exact guard-clause replacement."@)
    &&& step_is(d.validation_plan.steps@[3], "test"@, ValidationStepKind::Test, "Run project tests before accepting the review candidate."@)
    &&& d.rollback_plan.strategy == RollbackStrategy::ReverseExactEdits
    &&& d.rollback_plan.require_revision_guards == true
    &&& d.rollback_plan.validation_steps@.len() == 4
    &&& d.rollback_plan.validation_steps@[0]@ == "build"@
    &&& d.rollback_plan.validation_steps@[1]@ == "graph-delta"@
    &&& d.rollback_plan.validation_steps@[2]@ == "parse"@
    &&& d.rollback_plan.validation_steps@[3]@ == "test"@
    &&& d.fixtures@.len() == 4
    &&& fixture_is(d.fixtures@[0], RecipeFixtureRole::Positive, "direct-return-guard"@, FixtureExpectation::Candidate, "A direct returning arm guards a statement-only continuation."@)
    &&& fixture_is(d.fixtures@[1], RecipeFixtureRole::NoOp, "both-arms-continue"@, FixtureExpectation::NoCandidate, "Neither arm has an exact abrupt exit."@)
    &&& fixture_is(d.fixtures@[2], RecipeFixtureRole::MinimalCounterexample, "unknown-flattened-scope"@, FixtureExpectation::ReviewRequired, "PST control is exact but production DefUse and Effects authority is unavailable."@)
    &&& fixture_is(d.fixtures@[3], RecipeFixtureRole::AdversarialNearMiss, "tail-valued-if"@, FixtureExpectation::NoCandidate, "A value-producing tail if cannot be flattened as a statement guard."@)
}

pub fn guard_clause_inversion_recipe() -> (r: Result<TransformationRecipe, RecipeContractError>)
    ensures
        r matches Ok(x) ==> exists|d: TransformationRecipeDraft| guard_clause_inversion_recipe_draft(d) && canonical_arrangement(x.spec_draft(), d),
        r is Ok,
        recipe_header(
            r,
            "rust-invert-guard-clause"@,
            "1.0.0"@,
            TransformationFamily::BranchControl,
            SafetyClass::SafeWithPrecondition,
            seq![GraphEvidenceLayer::ControlFlow, GraphEvidenceLayer::ControlRegions, GraphEvidenceLayer::NonStructuredControl, GraphEvidenceLayer::DataFlow, GraphEvidenceLayer::ProgramDependence],
        ),
{
    let required_layers = vec![
            GraphEvidenceLayer::ControlFlow,
            GraphEvidenceLayer::ControlRegions,
            GraphEvidenceLayer::NonStructuredControl,
            GraphEvidenceLayer::DataFlow,
            GraphEvidenceLayer::ProgramDependence,
        ];
    proof {
        lemma_ranked_layers_canonical(required_layers@);
    }
    let draft = TransformationRecipeDraft {
        name: "rust-invert-guard-clause".to_owned(),
        version: "1.0.0".to_owned(),
        family: TransformationFamily::BranchControl,
        required_layers,
        required_conditions: vec![
            condition(
                REQUIRED_EXIT,
                "One exact branch arm consists of a direct abrupt exit.",
                GraphEvidenceLayer::ControlFlow,
            ),
            condition(
                REQUIRED_PST,
                "Complete PST facts prove the other arm reaches the branch continuation boundary.",
                GraphEvidenceLayer::ControlRegions,
            ),
            condition(
                REQUIRED_PREDICATE,
                "The predicate is evaluated once with exactly the required polarity.",
                GraphEvidenceLayer::ControlFlow,
            ),
            condition(
                REQUIRED_SCOPE,
                "Complete def/use and effect evidence proves flattening the continuation block preserves semantics.",
                GraphEvidenceLayer::DataFlow,
            ),
        ],
        forbidden_conditions: vec![
            condition(
                FORBIDDEN_CONTROL,
                "Recovered syntax or conservative control participates in either path.",
                GraphEvidenceLayer::ControlFlow,
            ),
            condition(
                FORBIDDEN_BINDING,
                "Moving the continuation changes binding visibility, borrow extent, lifetime, or drop timing.",
                GraphEvidenceLayer::DataFlow,
            ),
            condition(
                FORBIDDEN_EFFECT,
                "Inversion changes effect, exception, panic, abrupt-exit, or suspension order.",
                GraphEvidenceLayer::DataFlow,
            ),
            condition(
                FORBIDDEN_NON_STRUCTURED,
                "Non-structured control participates in the callable.",
                GraphEvidenceLayer::NonStructuredControl,
            ),
        ],
        maximum_safety: SafetyClass::SafeWithPrecondition,
        validation_plan: ValidationPlan {
            steps: vec![
                validation(
                    "build",
                    ValidationStepKind::Build,
                    "Build after flattening the guarded continuation.",
                ),
                validation(
                    "graph-delta",
                    ValidationStepKind::GraphDelta,
                    "Rebuild CFG/PST/PDG evidence and compare the guard boundary.",
                ),
                validation(
                    "parse",
                    ValidationStepKind::Parse,
                    "Parse the exact guard-clause replacement.",
                ),
                validation(
                    "test",
                    ValidationStepKind::Test,
                    "Run project tests before accepting the review candidate.",
                ),
            ],
        },
        rollback_plan: RollbackPlan {
            strategy: RollbackStrategy::ReverseExactEdits,
            require_revision_guards: true,
            validation_steps: vec![
                "build".to_owned(),
                "graph-delta".to_owned(),
                "parse".to_owned(),
                "test".to_owned(),
            ],
        },
        fixtures: vec![
            fixture(
                RecipeFixtureRole::Positive,
                "direct-return-guard",
                FixtureExpectation::Candidate,
                "A direct returning arm guards a statement-only continuation.",
            ),
            fixture(
                RecipeFixtureRole::NoOp,
                "both-arms-continue",
                FixtureExpectation::NoCandidate,
                "Neither arm has an exact abrupt exit.",
            ),
            fixture(
                RecipeFixtureRole::MinimalCounterexample,
                "unknown-flattened-scope",
                FixtureExpectation::ReviewRequired,
                "PST control is exact but production DefUse and Effects authority is unavailable.",
            ),
            fixture(
                RecipeFixtureRole::AdversarialNearMiss,
                "tail-valued-if",
                FixtureExpectation::NoCandidate,
                "A value-producing tail if cannot be flattened as a statement guard.",
            ),
        ],
    };
    proof {
        reveal_strlit("1.0.0");
        reveal_strlit("A direct returning arm guards a statement-only continuation.");
        reveal_strlit("A value-producing tail if cannot be flattened as a statement guard.");
        reveal_strlit("Build after flattening the guarded continuation.");
        reveal_strlit("Complete PST facts prove the other arm reaches the branch continuation boundary.");
        reveal_strlit("Complete def/use and effect evidence proves flattening the continuation block preserves semantics.");
        reveal_strlit("Inversion changes effect, exception, panic, abrupt-exit, or suspension order.");
        reveal_strlit("Moving the continuation changes binding visibility, borrow extent, lifetime, or drop timing.");
        reveal_strlit("Neither arm has an exact abrupt exit.");
        reveal_strlit("Non-structured control participates in the callable.");
        reveal_strlit("One exact branch arm consists of a direct abrupt exit.");
        reveal_strlit("PST control is exact but production DefUse and Effects authority is unavailable.");
        reveal_strlit("Parse the exact guard-clause replacement.");
        reveal_strlit("Rebuild CFG/PST/PDG evidence and compare the guard boundary.");
        reveal_strlit("Recovered syntax or conservative control participates in either path.");
        reveal_strlit("Run project tests before accepting the review candidate.");
        reveal_strlit("The predicate is evaluated once with exactly the required polarity.");
        reveal_strlit("binding-lifetime-or-drop-change");
        reveal_strlit("both-arms-continue");
        reveal_strlit("build");
        reveal_strlit("continuation-scope-and-effects-preserved");
        reveal_strlit("direct-return-guard");
        reveal_strlit("effect-exception-or-suspension-change");
        reveal_strlit("graph-delta");
        reveal_strlit("guard-arm-abrupt-exit-exact");
        reveal_strlit("non-structured-control");
        reveal_strlit("parse");
        reveal_strlit("predicate-count-and-polarity-preserved");
        reveal_strlit("pst-continuation-boundary-exact");
        reveal_strlit("recovered-or-conservative-control");
        reveal_strlit("rust-invert-guard-clause");
        reveal_strlit("tail-valued-if");
        reveal_strlit("test");
        reveal_strlit("unknown-flattened-scope");
        assert forall|i: int| 0 <= i < draft.required_conditions@.len() implies is_canonical_text((#[trigger] draft.required_conditions@[i]).key@) && is_canonical_text(draft.required_conditions@[i].description@) by {
            if i == 0 {} else if i == 1 {} else if i == 2 {} else if i == 3 {} else if i == 4 {} else if i == 5 {} else if i == 6 {} else if i == 7 {} else if i == 8 {} else if i == 9 {} else if i == 10 {} else if i == 11 {}
        }
        assert forall|i: int, j: int| 0 <= i < j < draft.required_conditions@.len() implies (#[trigger] draft.required_conditions@[i]).key@ != (#[trigger] draft.required_conditions@[j]).key@ by {
            if i == 0 { if j == 1 {} else if j == 2 {} else if j == 3 {} else if j == 4 {} else if j == 5 {} else if j == 6 {} else if j == 7 {} else if j == 8 {} else if j == 9 {} else if j == 10 {} else if j == 11 {} } else if i == 1 { if j == 2 {} else if j == 3 {} else if j == 4 {} else if j == 5 {} else if j == 6 {} else if j == 7 {} else if j == 8 {} else if j == 9 {} else if j == 10 {} else if j == 11 {} } else if i == 2 { if j == 3 {} else if j == 4 {} else if j == 5 {} else if j == 6 {} else if j == 7 {} else if j == 8 {} else if j == 9 {} else if j == 10 {} else if j == 11 {} } else if i == 3 { if j == 4 {} else if j == 5 {} else if j == 6 {} else if j == 7 {} else if j == 8 {} else if j == 9 {} else if j == 10 {} else if j == 11 {} } else if i == 4 { if j == 5 {} else if j == 6 {} else if j == 7 {} else if j == 8 {} else if j == 9 {} else if j == 10 {} else if j == 11 {} } else if i == 5 { if j == 6 {} else if j == 7 {} else if j == 8 {} else if j == 9 {} else if j == 10 {} else if j == 11 {} } else if i == 6 { if j == 7 {} else if j == 8 {} else if j == 9 {} else if j == 10 {} else if j == 11 {} } else if i == 7 { if j == 8 {} else if j == 9 {} else if j == 10 {} else if j == 11 {} } else if i == 8 { if j == 9 {} else if j == 10 {} else if j == 11 {} } else if i == 9 { if j == 10 {} else if j == 11 {} } else if i == 10 { if j == 11 {} }
        }
        assert forall|i: int| 0 <= i < draft.forbidden_conditions@.len() implies is_canonical_text((#[trigger] draft.forbidden_conditions@[i]).key@) && is_canonical_text(draft.forbidden_conditions@[i].description@) by {
            if i == 0 {} else if i == 1 {} else if i == 2 {} else if i == 3 {} else if i == 4 {} else if i == 5 {}
        }
        assert forall|i: int, j: int| 0 <= i < j < draft.forbidden_conditions@.len() implies (#[trigger] draft.forbidden_conditions@[i]).key@ != (#[trigger] draft.forbidden_conditions@[j]).key@ by {
            if i == 0 { if j == 1 {} else if j == 2 {} else if j == 3 {} else if j == 4 {} else if j == 5 {} } else if i == 1 { if j == 2 {} else if j == 3 {} else if j == 4 {} else if j == 5 {} } else if i == 2 { if j == 3 {} else if j == 4 {} else if j == 5 {} } else if i == 3 { if j == 4 {} else if j == 5 {} } else if i == 4 { if j == 5 {} }
        }
        assert forall|i: int| 0 <= i < draft.validation_plan.steps@.len() implies crate::contract::step_valid(#[trigger] draft.validation_plan.steps@[i]) by {
            if i == 0 {} else if i == 1 {} else if i == 2 {} else if i == 3 {} else if i == 4 {} else if i == 5 {}
        }
        assert forall|i: int, j: int| 0 <= i < j < draft.validation_plan.steps@.len() implies (#[trigger] draft.validation_plan.steps@[i]).key@ != (#[trigger] draft.validation_plan.steps@[j]).key@ by {
            if i == 0 { if j == 1 {} else if j == 2 {} else if j == 3 {} else if j == 4 {} else if j == 5 {} } else if i == 1 { if j == 2 {} else if j == 3 {} else if j == 4 {} else if j == 5 {} } else if i == 2 { if j == 3 {} else if j == 4 {} else if j == 5 {} } else if i == 3 { if j == 4 {} else if j == 5 {} } else if i == 4 { if j == 5 {} }
        }
        assert(guard_clause_inversion_recipe_draft(draft));
        assert(recipe_draft_sound(draft));
    }
    build_recipe(draft)
}


/// Why guard-clause inversion failed: a recipe contract, an impact query, graph
/// eligibility, or an inconsistent projection.
#[derive(Clone, Debug)]
pub enum GuardClauseRecipeError {
    Contract(RecipeContractError),
    Impact(ImpactQueryError),
    Eligibility(String),
    Projection(String),
}

pub open spec fn guard_clause_recipe_error_message(e: GuardClauseRecipeError) -> Seq<char> {
    match e {
        GuardClauseRecipeError::Contract(c) => contract_error_message(c),
        GuardClauseRecipeError::Impact(e) => impact_error_message(e),
        GuardClauseRecipeError::Eligibility(d) => "guard-clause graph eligibility failed: "@ + d@,
        GuardClauseRecipeError::Projection(d) => "guard-clause recipe received an inconsistent projection: "@ + d@,
    }
}

impl GuardClauseRecipeError {
    /// The message of the error.
    pub fn message(&self) -> (m: String)
        ensures
            m@ == guard_clause_recipe_error_message(*self),
    {
        match self {
            GuardClauseRecipeError::Contract(e) => e.message(),
            GuardClauseRecipeError::Impact(e) => e.message(),
            GuardClauseRecipeError::Eligibility(d) => labeled_message("guard-clause graph eligibility failed: ", d.as_str()),
            GuardClauseRecipeError::Projection(d) => labeled_message("guard-clause recipe received an inconsistent projection: ", d.as_str()),
        }
    }
}

} // verus!
