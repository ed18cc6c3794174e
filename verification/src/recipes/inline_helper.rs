//! Inlining of an exact single-use helper function.

use vstd::prelude::*;
use crate::contract::{
    contract_error_message, labeled_message,
    FixtureExpectation, RecipeContractError, RecipeFixtureRole, RollbackPlan, RollbackStrategy,
    TransformationFamily, ValidationPlan, ValidationStep, ValidationStepKind,
};
use crate::impact::{impact_error_message, ImpactQueryError};
use crate::model::{GraphEvidenceLayer, SafetyClass};
use crate::text::is_canonical_text;
use crate::recipe::{recipe_draft_sound, TransformationRecipe, TransformationRecipeDraft};
use super::{build_recipe, condition, fixture, lemma_ranked_layers_canonical, recipe_header, validation};
use super::condition_is;
use super::fixture_is;
use super::step_is;
use crate::recipe::canonical_arrangement;

verus! {

pub const REQUIRED_BINDING: &'static str = "exact-local-call-binding";
pub const REQUIRED_SINGLE_USE: &'static str = "complete-single-use-reference-frontier";
pub const REQUIRED_SHAPE: &'static str = "exact-zero-parameter-unit-helper";
pub const REQUIRED_SCOPE: &'static str = "block-scope-and-evaluation-order-preserved";
pub const REQUIRED_EFFECTS: &'static str = "complete-inline-effect-frontier";
pub const REQUIRED_FRAME_REVIEW: &'static str = "call-frame-observations-reviewed";
pub const FORBIDDEN_EXTRA_USE: &'static str = "additional-call-or-value-reference";
pub const FORBIDDEN_SUBSTITUTION: &'static str = "parameter-output-or-ownership-substitution";
pub const FORBIDDEN_BOUNDARY: &'static str = "public-generic-async-abrupt-or-opaque-boundary";

/// The draft of the rust-inline-exact-single-use-helper recipe: its name, version, family,
/// maximum safety, layers, conditions, plans and fixtures, in order.
pub open spec fn inline_single_use_helper_recipe_draft(d: TransformationRecipeDraft) -> bool {
    &&& d.name@ == "rust-inline-exact-single-use-helper"@
    &&& d.version@ == "1.0.0"@
    &&& d.family == TransformationFamily::FunctionExpression
    &&& d.maximum_safety == SafetyClass::SafeWithPrecondition
    &&& d.required_layers@ == seq![GraphEvidenceLayer::ControlFlow, GraphEvidenceLayer::ControlRegions, GraphEvidenceLayer::NonStructuredControl, GraphEvidenceLayer::DataFlow, GraphEvidenceLayer::ProgramDependence, GraphEvidenceLayer::SystemDependence]
    &&& d.required_conditions@.len() == 6
    &&& condition_is(d.required_conditions@[0], REQUIRED_BINDING@, "Complete Unique semantic resolution binds the call to one exact local callable owner."@, GraphEvidenceLayer::SystemDependence)
    &&& condition_is(d.required_conditions@[1], REQUIRED_SINGLE_USE@, "Complete call and reference enumeration proves the helper has exactly one use."@, GraphEvidenceLayer::SystemDependence)
    &&& condition_is(d.required_conditions@[2], REQUIRED_SHAPE@, "The helper is private, synchronous, unit-returning, and needs no substitution."@, GraphEvidenceLayer::DataFlow)
    &&& condition_is(d.required_conditions@[3], REQUIRED_SCOPE@, "Replacing the call statement with the exact helper block preserves order and temporary scope."@, GraphEvidenceLayer::ControlFlow)
    &&& condition_is(d.required_conditions@[4], REQUIRED_EFFECTS@, "Complete retained effects and outputs cross no parameter, return, or hidden state binding."@, GraphEvidenceLayer::DataFlow)
    &&& condition_is(d.required_conditions@[5], REQUIRED_FRAME_REVIEW@, "Removal of a call frame, caller location, and panic/backtrace observations requires review."@, GraphEvidenceLayer::DataFlow)
    &&& d.forbidden_conditions@.len() == 3
    &&& condition_is(d.forbidden_conditions@[0], FORBIDDEN_EXTRA_USE@, "The helper has another call or function-value reference."@, GraphEvidenceLayer::SystemDependence)
    &&& condition_is(d.forbidden_conditions@[1], FORBIDDEN_SUBSTITUTION@, "Inlining requires parameter, output, ownership, or evaluation substitution."@, GraphEvidenceLayer::DataFlow)
    &&& condition_is(d.forbidden_conditions@[2], FORBIDDEN_BOUNDARY@, "The helper crosses a public, generic, async, unsafe, abrupt, macro, closure, or recovered boundary."@, GraphEvidenceLayer::ControlFlow)
    &&& d.validation_plan.steps@.len() == 4
    &&& step_is(d.validation_plan.steps@[0], "build"@, ValidationStepKind::Build, "Build after deleting the helper and inlining its exact block."@)
    &&& step_is(d.validation_plan.steps@[1], "graph-delta"@, ValidationStepKind::GraphDelta, "Rebuild and verify removal of the call/callee boundary with retained body effects."@)
    &&& step_is(d.validation_plan.steps@[2], "parse"@, ValidationStepKind::Parse, "Parse both exact edits as one atomic transaction."@)
    &&& step_is(d.validation_plan.steps@[3], "test"@, ValidationStepKind::Test, "Run project tests before accepting the inline."@)
    &&& d.rollback_plan.strategy == RollbackStrategy::ReverseExactEdits
    &&& d.rollback_plan.require_revision_guards == true
    &&& d.rollback_plan.validation_steps@.len() == 4
    &&& d.rollback_plan.validation_steps@[0]@ == "build"@
    &&& d.rollback_plan.validation_steps@[1]@ == "graph-delta"@
    &&& d.rollback_plan.validation_steps@[2]@ == "parse"@
    &&& d.rollback_plan.validation_steps@[3]@ == "test"@
    &&& d.fixtures@.len() == 4
    &&& fixture_is(d.fixtures@[0], RecipeFixtureRole::Positive, "one-exact-local-call"@, FixtureExpectation::Candidate, "One private zero-parameter unit helper has one exact call and reference."@)
    &&& fixture_is(d.fixtures@[1], RecipeFixtureRole::NoOp, "two-exact-calls"@, FixtureExpectation::NoCandidate, "A second call keeps the helper abstraction live."@)
    &&& fixture_is(d.fixtures@[2], RecipeFixtureRole::MinimalCounterexample, "function-value-reference"@, FixtureExpectation::NoCandidate, "A non-call reference makes the use count greater than one."@)
    &&& fixture_is(d.fixtures@[3], RecipeFixtureRole::AdversarialNearMiss, "same-spelling-without-unique-binding"@, FixtureExpectation::NoCandidate, "Spelling without Complete Unique resolution cannot bind a callee."@)
}

pub fn inline_single_use_helper_recipe() -> (r: Result<TransformationRecipe, RecipeContractError>)
    ensures
        r matches Ok(x) ==> exists|d: TransformationRecipeDraft| inline_single_use_helper_recipe_draft(d) && canonical_arrangement(x.spec_draft(), d),
        r is Ok,
        recipe_header(
            r,
            "rust-inline-exact-single-use-helper"@,
            "1.0.0"@,
            TransformationFamily::FunctionExpression,
            SafetyClass::SafeWithPrecondition,
            seq![GraphEvidenceLayer::ControlFlow, GraphEvidenceLayer::ControlRegions, GraphEvidenceLayer::NonStructuredControl, GraphEvidenceLayer::DataFlow, GraphEvidenceLayer::ProgramDependence, GraphEvidenceLayer::SystemDependence],
        ),
{
    let required_layers = vec![
            GraphEvidenceLayer::ControlFlow,
            GraphEvidenceLayer::ControlRegions,
            GraphEvidenceLayer::NonStructuredControl,
            GraphEvidenceLayer::DataFlow,
            GraphEvidenceLayer::ProgramDependence,
            GraphEvidenceLayer::SystemDependence,
        ];
    proof {
        lemma_ranked_layers_canonical(required_layers@);
    }
    let draft = TransformationRecipeDraft {
        name: "rust-inline-exact-single-use-helper".to_owned(),
        version: "1.0.0".to_owned(),
        family: TransformationFamily::FunctionExpression,
        required_layers,
        required_conditions: vec![
            condition(
                REQUIRED_BINDING,
                "Complete Unique semantic resolution binds the call to one exact local callable owner.",
                GraphEvidenceLayer::SystemDependence,
            ),
            condition(
                REQUIRED_SINGLE_USE,
                "Complete call and reference enumeration proves the helper has exactly one use.",
                GraphEvidenceLayer::SystemDependence,
            ),
            condition(
                REQUIRED_SHAPE,
                "The helper is private, synchronous, unit-returning, and needs no substitution.",
                GraphEvidenceLayer::DataFlow,
            ),
            condition(
                REQUIRED_SCOPE,
                "Replacing the call statement with the exact helper block preserves order and temporary scope.",
                GraphEvidenceLayer::ControlFlow,
            ),
            condition(
                REQUIRED_EFFECTS,
                "Complete retained effects and outputs cross no parameter, return, or hidden state binding.",
                GraphEvidenceLayer::DataFlow,
            ),
            condition(
                REQUIRED_FRAME_REVIEW,
                "Removal of a call frame, caller location, and panic/backtrace observations requires review.",
                GraphEvidenceLayer::DataFlow,
            ),
        ],
        forbidden_conditions: vec![
            condition(
                FORBIDDEN_EXTRA_USE,
                "The helper has another call or function-value reference.",
                GraphEvidenceLayer::SystemDependence,
            ),
            condition(
                FORBIDDEN_SUBSTITUTION,
                "Inlining requires parameter, output, ownership, or evaluation substitution.",
                GraphEvidenceLayer::DataFlow,
            ),
            condition(
                FORBIDDEN_BOUNDARY,
                "The helper crosses a public, generic, async, unsafe, abrupt, macro, closure, or recovered boundary.",
                GraphEvidenceLayer::ControlFlow,
            ),
        ],
        maximum_safety: SafetyClass::SafeWithPrecondition,
        validation_plan: ValidationPlan {
            steps: vec![
                validation(
                    "build",
                    ValidationStepKind::Build,
                    "Build after deleting the helper and inlining its exact block.",
                ),
                validation(
                    "graph-delta",
                    ValidationStepKind::GraphDelta,
                    "Rebuild and verify removal of the call/callee boundary with retained body effects.",
                ),
                validation(
                    "parse",
                    ValidationStepKind::Parse,
                    "Parse both exact edits as one atomic transaction.",
                ),
                validation(
                    "test",
                    ValidationStepKind::Test,
                    "Run project tests before accepting the inline.",
                ),
            ],
        },
        rollback_plan: RollbackPlan {
            strategy: RollbackStrategy::ReverseExactEdits,
            require_revision_guards: true,
            validation_steps: vec![
                "build".to_owned(),
                "graph-delta".to_owned(),
                "parse".to_owned(),
                "test".to_owned(),
            ],
        },
        fixtures: vec![
            fixture(
                RecipeFixtureRole::Positive,
                "one-exact-local-call",
                FixtureExpectation::Candidate,
                "One private zero-parameter unit helper has one exact call and reference.",
            ),
            fixture(
                RecipeFixtureRole::NoOp,
                "two-exact-calls",
                FixtureExpectation::NoCandidate,
                "A second call keeps the helper abstraction live.",
            ),
            fixture(
                RecipeFixtureRole::MinimalCounterexample,
                "function-value-reference",
                FixtureExpectation::NoCandidate,
                "A non-call reference makes the use count greater than one.",
            ),
            fixture(
                RecipeFixtureRole::AdversarialNearMiss,
                "same-spelling-without-unique-binding",
                FixtureExpectation::NoCandidate,
                "Spelling without Complete Unique resolution cannot bind a callee.",
            ),
        ],
    };
    proof {
        reveal_strlit("1.0.0");
        reveal_strlit("A non-call reference makes the use count greater than one.");
        reveal_strlit("A second call keeps the helper abstraction live.");
        reveal_strlit("Build after deleting the helper and inlining its exact block.");
        reveal_strlit("Complete Unique semantic resolution binds the call to one exact local callable owner.");
        reveal_strlit("Complete call and reference enumeration proves the helper has exactly one use.");
        reveal_strlit("Complete retained effects and outputs cross no parameter, return, or hidden state binding.");
        reveal_strlit("Inlining requires parameter, output, ownership, or evaluation substitution.");
        reveal_strlit("One private zero-parameter unit helper has one exact call and reference.");
        reveal_strlit("Parse both exact edits as one atomic transaction.");
        reveal_strlit("Rebuild and verify removal of the call/callee boundary with retained body effects.");
        reveal_strlit("Removal of a call frame, caller location, and panic/backtrace observations requires review.");
        reveal_strlit("Replacing the call statement with the exact helper block preserves order and temporary scope.");
        reveal_strlit("Run project tests before accepting the inline.");
        reveal_strlit("Spelling without Complete Unique resolution cannot bind a callee.");
        reveal_strlit("The helper crosses a public, generic, async, unsafe, abrupt, macro, closure, or recovered boundary.");
        reveal_strlit("The helper has another call or function-value reference.");
        reveal_strlit("The helper is private, synchronous, unit-returning, and needs no substitution.");
        reveal_strlit("additional-call-or-value-reference");
        reveal_strlit("block-scope-and-evaluation-order-preserved");
        reveal_strlit("build");
        reveal_strlit("call-frame-observations-reviewed");
        reveal_strlit("complete-inline-effect-frontier");
        reveal_strlit("complete-single-use-reference-frontier");
        reveal_strlit("exact-local-call-binding");
        reveal_strlit("exact-zero-parameter-unit-helper");
        reveal_strlit("function-value-reference");
        reveal_strlit("graph-delta");
        reveal_strlit("one-exact-local-call");
        reveal_strlit("parameter-output-or-ownership-substitution");
        reveal_strlit("parse");
        reveal_strlit("public-generic-async-abrupt-or-opaque-boundary");
        reveal_strlit("rust-inline-exact-single-use-helper");
        reveal_strlit("same-spelling-without-unique-binding");
        reveal_strlit("test");
        reveal_strlit("two-exact-calls");
        assert forall|i: int| 0 <= i < draft.required_conditions@.len() implies is_canonical_text((#[trigger] draft.required_conditions@[i]).key@) && is_canonical_text(draft.required_conditions@[i].description@) by {
            if i == 0 {} else if i == 1 {} else if i == 2 {} else if i == 3 {} else if i == 4 {} else if i == 5 {} else if i == 6 {} else if i == 7 {} else if i == 8 {} else if i == 9 {} else if i == 10 {} else if i == 11 {}
        }
        assert forall|i: int, j: int| 0 <= i < j < draft.required_conditions@.len() implies (#[trigger] draft.required_conditions@[i]).key@ != (#[trigger] draft.required_conditions@[j]).key@ by {
            if i == 0 { if j == 1 {} else if j == 2 {} else if j == 3 {} else if j == 4 {} else if j == 5 {} else if j == 6 {} else if j == 7 {} else if j == 8 {} else if j == 9 {} else if j == 10 {} else if j == 11 {} } else if i == 1 { if j == 2 {} else if j == 3 {} else if j == 4 {} else if j == 5 {} else if j == 6 {} else if j == 7 {} else if j == 8 {} else if j == 9 {} else if j == 10 {} else if j == 11 {} } else if i == 2 { if j == 3 {} else if j == 4 {} else if j == 5 {} else if j == 6 {} else if j == 7 {} else if j == 8 {} else if j == 9 {} else if j == 10 {} else if j == 11 {} } else if i == 3 { if j == 4 {} else if j == 5 {} else if j == 6 {} else if j == 7 {} else if j == 8 {} else if j == 9 {} else if j == 10 {} else if j == 11 {} } else if i == 4 { if j == 5 {} else if j == 6 {} else if j == 7 {} else if j == 8 {} else if j == 9 {} else if j == 10 {} else if j == 11 {} } else if i == 5 { if j == 6 {} else if j == 7 {} else if j == 8 {} else if j == 9 {} else if j == 10 {} else if j == 11 {} } else if i == 6 { if j == 7 {} else if j == 8 {} else if j == 9 {} else if j == 10 {} else if j == 11 {} } else if i == 7 { if j == 8 {} else if j == 9 {} else if j == 10 {} else if j == 11 {} } else if i == 8 { if j == 9 {} else if j == 10 {} else if j == 11 {} } else if i == 9 { if j == 10 {} else if j == 11 {} } else if i == 10 { if j == 11 {} }
        }
        assert forall|i: int| 0 <= i < draft.forbidden_conditions@.len() implies is_canonical_text((#[trigger] draft.forbidden_conditions@[i]).key@) && is_canonical_text(draft.forbidden_conditions@[i].description@) by {
            if i == 0 {} else if i == 1 {} else if i == 2 {} else if i == 3 {} else if i == 4 {} else if i == 5 {}
        }
        assert forall|i: int, j: int| 0 <= i < j < draft.forbidden_conditions@.len() implies (#[trigger] draft.forbidden_conditions@[i]).key@ != (#[trigger] draft.forbidden_conditions@[j]).key@ by {
            if i == 0 { if j == 1 {} else if j == 2 {} else if j == 3 {} else if j == 4 {} else if j == 5 {} } else if i == 1 { if j == 2 {} else if j == 3 {} else if j == 4 {} else if j == 5 {} } else if i == 2 { if j == 3 {} else if j == 4 {} else if j == 5 {} } else if i == 3 { if j == 4 {} else if j == 5 {} } else if i == 4 { if j == 5 {} }
        }
        assert forall|i: int| 0 <= i < draft.validation_plan.steps@.len() implies crate::contract::step_valid(#[trigger] draft.validation_plan.steps@[i]) by {
            if i == 0 {} else if i == 1 {} else if i == 2 {} else if i == 3 {} else if i == 4 {} else if i == 5 {}
        }
        assert forall|i: int, j: int| 0 <= i < j < draft.validation_plan.steps@.len() implies (#[trigger] draft.validation_plan.steps@[i]).key@ != (#[trigger] draft.validation_plan.steps@[j]).key@ by {
            if i == 0 { if j == 1 {} else if j == 2 {} else if j == 3 {} else if j == 4 {} else if j == 5 {} } else if i == 1 { if j == 2 {} else if j == 3 {} else if j == 4 {} else if j == 5 {} } else if i == 2 { if j == 3 {} else if j == 4 {} else if j == 5 {} } else if i == 3 { if j == 4 {} else if j == 5 {} } else if i == 4 { if j == 5 {} }
        }
        assert(inline_single_use_helper_recipe_draft(draft));
        assert(recipe_draft_sound(draft));
    }
    build_recipe(draft)
}


/// Why helper inlining failed: a recipe contract, an impact query, graph
/// eligibility, or an inconsistent projection.
#[derive(Clone, Debug)]
pub enum InlineHelperRecipeError {
    Contract(RecipeContractError),
    Impact(ImpactQueryError),
    Eligibility(String),
    Projection(String),
}

pub open spec fn inline_helper_recipe_error_message(e: InlineHelperRecipeError) -> Seq<char> {
    match e {
        InlineHelperRecipeError::Contract(c) => contract_error_message(c),
        InlineHelperRecipeError::Impact(e) => impact_error_message(e),
        InlineHelperRecipeError::Eligibility(d) => "inline-helper graph eligibility failed: "@ + d@,
        InlineHelperRecipeError::Projection(d) => "inline-helper recipe received an inconsistent projection: "@ + d@,
    }
}

impl InlineHelperRecipeError {
    /// The message of the error.
    pub fn message(&self) -> (m: String)
        ensures
            m@ == inline_helper_recipe_error_message(*self),
    {
        match self {
            InlineHelperRecipeError::Contract(e) => e.message(),
            InlineHelperRecipeError::Impact(e) => e.message(),
            InlineHelperRecipeError::Eligibility(d) => labeled_message("inline-helper graph eligibility failed: ", d.as_str()),
            InlineHelperRecipeError::Projection(d) => labeled_message("inline-helper recipe received an inconsistent projection: ", d.as_str()),
        }
    }
}

} // verus!
