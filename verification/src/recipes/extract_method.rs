//! Extraction of a single-entry single-exit branch into a helper method.

use vstd::prelude::*;
use crate::contract::{
    contract_error_message, labeled_message,
    FixtureExpectation, RecipeContractError, RecipeFixtureRole, RollbackPlan, RollbackStrategy,
    TransformationFamily, ValidationPlan, ValidationStep, ValidationStepKind,
};
use crate::impact::{impact_error_message, ImpactQueryError};
use crate::model::{GraphEvidenceLayer, SafetyClass};
use crate::recipe::{recipe_draft_sound, TransformationRecipe, TransformationRecipeDraft};
use super::{build_recipe, condition, fixture, lemma_ranked_layers_canonical, recipe_header, validation};
use crate::text::is_canonical_text;
use super::condition_is;
use super::fixture_is;
use super::step_is;
use crate::recipe::canonical_arrangement;

verus! {

pub const REQUIRED_SESE: &'static str = "complete-sese-region";
pub const REQUIRED_SLICE: &'static str = "complete-computation-object-state-slice";
pub const REQUIRED_SIGNATURE: &'static str = "exact-bounded-helper-signature";
pub const REQUIRED_INPUTS: &'static str = "exact-extraction-inputs";
pub const REQUIRED_OUTPUTS: &'static str = "exact-extraction-outputs";
pub const REQUIRED_MUTATIONS: &'static str = "exact-extraction-mutation-frontier";
pub const REQUIRED_EXITS: &'static str = "exact-extraction-exits";
pub const REQUIRED_EXCEPTIONS: &'static str = "exact-extraction-exceptions";
pub const REQUIRED_CAPTURES: &'static str = "exact-extraction-captures";
pub const REQUIRED_ASYNC_OWNERSHIP: &'static str = "exact-extraction-async-ownership";
pub const REQUIRED_EFFECTS: &'static str = "call-boundary-effects-reviewed";
pub const FORBIDDEN_ABRUPT: &'static str = "abrupt-or-suspending-exit";
pub const FORBIDDEN_SCOPE: &'static str = "unmodelled-local-or-owned-input";
pub const FORBIDDEN_NON_STRUCTURED: &'static str = "non-structured-control-intersection";
pub const FORBIDDEN_COLLISION: &'static str = "helper-name-collision";

/// The draft of the rust-extract-sese-branch-method recipe: its name, version, family,
/// maximum safety, layers, conditions, plans and fixtures, in order.
pub open spec fn extract_method_recipe_draft(d: TransformationRecipeDraft) -> bool {
    &&& d.name@ == "rust-extract-sese-branch-method"@
    &&& d.version@ == "2.0.0"@
    &&& d.family == TransformationFamily::FunctionExpression
    &&& d.maximum_safety == SafetyClass::SafeWithPrecondition
    &&& d.required_layers@ == seq![GraphEvidenceLayer::ControlFlow, GraphEvidenceLayer::ControlRegions, GraphEvidenceLayer::NonStructuredControl, GraphEvidenceLayer::DataFlow, GraphEvidenceLayer::ProgramDependence]
    &&& d.required_conditions@.len() == 11
    &&& condition_is(d.required_conditions@[0], REQUIRED_SESE@, "The selected direct-body branch is a retained complete single-entry/single-exit region."@, GraphEvidenceLayer::ControlRegions)
    &&& condition_is(d.required_conditions@[1], REQUIRED_SLICE@, "The computation and object-state slice is closed under authoritative local dependence facts."@, GraphEvidenceLayer::ProgramDependence)
    &&& condition_is(d.required_conditions@[2], REQUIRED_SIGNATURE@, "The bounded helper signature contains exact used primitive/reference inputs and optional typed output."@, GraphEvidenceLayer::DataFlow)
    &&& condition_is(d.required_conditions@[3], REQUIRED_INPUTS@, "Every used parameter or prior local crosses the helper boundary exactly once with its stored type."@, GraphEvidenceLayer::DataFlow)
    &&& condition_is(d.required_conditions@[4], REQUIRED_OUTPUTS@, "The extraction has unit output or one exact explicitly typed returned initializer."@, GraphEvidenceLayer::DataFlow)
    &&& condition_is(d.required_conditions@[5], REQUIRED_MUTATIONS@, "Mutable reborrows and direct syntactic writes are retained explicitly."@, GraphEvidenceLayer::DataFlow)
    &&& condition_is(d.required_conditions@[6], REQUIRED_EXITS@, "No abrupt exit crosses the new callable boundary."@, GraphEvidenceLayer::ControlFlow)
    &&& condition_is(d.required_conditions@[7], REQUIRED_EXCEPTIONS@, "Exceptional behavior is retained from complete typed effect evidence."@, GraphEvidenceLayer::DataFlow)
    &&& condition_is(d.required_conditions@[8], REQUIRED_CAPTURES@, "The free helper has no implicit capture outside its explicit input frontier."@, GraphEvidenceLayer::DataFlow)
    &&& condition_is(d.required_conditions@[9], REQUIRED_ASYNC_OWNERSHIP@, "The helper is synchronous and every value is copied, borrowed, reborrowed, or returned explicitly."@, GraphEvidenceLayer::DataFlow)
    &&& condition_is(d.required_conditions@[10], REQUIRED_EFFECTS@, "Moving the region across a call boundary is accepted only after effect review."@, GraphEvidenceLayer::DataFlow)
    &&& d.forbidden_conditions@.len() == 4
    &&& condition_is(d.forbidden_conditions@[0], FORBIDDEN_ABRUPT@, "The region contains a return, break, continue, try, await, yield, or other callable-boundary exit."@, GraphEvidenceLayer::ControlFlow)
    &&& condition_is(d.forbidden_conditions@[1], FORBIDDEN_SCOPE@, "The region depends on a prior local, receiver, generic, capture, or owned value."@, GraphEvidenceLayer::DataFlow)
    &&& condition_is(d.forbidden_conditions@[2], FORBIDDEN_NON_STRUCTURED@, "A retained non-structured control fact intersects the region."@, GraphEvidenceLayer::NonStructuredControl)
    &&& condition_is(d.forbidden_conditions@[3], FORBIDDEN_COLLISION@, "The generated private helper name already exists in the source file."@, GraphEvidenceLayer::ControlFlow)
    &&& d.validation_plan.steps@.len() == 4
    &&& step_is(d.validation_plan.steps@[0], "build"@, ValidationStepKind::Build, "Build the extracted helper and call site."@)
    &&& step_is(d.validation_plan.steps@[1], "graph-delta"@, ValidationStepKind::GraphDelta, "Rebuild and compare the selected SESE region and dependence slice."@)
    &&& step_is(d.validation_plan.steps@[2], "parse"@, ValidationStepKind::Parse, "Parse the exact multi-function replacement."@)
    &&& step_is(d.validation_plan.steps@[3], "test"@, ValidationStepKind::Test, "Run project tests before accepting the extraction."@)
    &&& d.rollback_plan.strategy == RollbackStrategy::ReverseExactEdits
    &&& d.rollback_plan.require_revision_guards == true
    &&& d.rollback_plan.validation_steps@.len() == 4
    &&& d.rollback_plan.validation_steps@[0]@ == "build"@
    &&& d.rollback_plan.validation_steps@[1]@ == "graph-delta"@
    &&& d.rollback_plan.validation_steps@[2]@ == "parse"@
    &&& d.rollback_plan.validation_steps@[3]@ == "test"@
    &&& d.fixtures@.len() == 4
    &&& fixture_is(d.fixtures@[0], RecipeFixtureRole::Positive, "direct-branch-with-reference-state"@, FixtureExpectation::Candidate, "A direct branch over primitive/reference parameters has an exact helper transaction."@)
    &&& fixture_is(d.fixtures@[1], RecipeFixtureRole::NoOp, "no-direct-branch-region"@, FixtureExpectation::NoCandidate, "A callable without a direct branch has no extraction unit."@)
    &&& fixture_is(d.fixtures@[2], RecipeFixtureRole::MinimalCounterexample, "production-defuse-unknown"@, FixtureExpectation::ReviewRequired, "The exact edit remains review-only while production slice authority is incomplete."@)
    &&& fixture_is(d.fixtures@[3], RecipeFixtureRole::AdversarialNearMiss, "branch-reads-untyped-prior-local"@, FixtureExpectation::NoCandidate, "A used prior local without an exact type cannot enter the helper signature."@)
}

pub fn extract_method_recipe() -> (r: Result<TransformationRecipe, RecipeContractError>)
    ensures
        r matches Ok(x) ==> exists|d: TransformationRecipeDraft| extract_method_recipe_draft(d) && canonical_arrangement(x.spec_draft(), d),
        r is Ok,
        recipe_header(
            r,
            "rust-extract-sese-branch-method"@,
            "2.0.0"@,
            TransformationFamily::FunctionExpression,
            SafetyClass::SafeWithPrecondition,
            seq![GraphEvidenceLayer::ControlFlow, GraphEvidenceLayer::ControlRegions, GraphEvidenceLayer::NonStructuredControl, GraphEvidenceLayer::DataFlow, GraphEvidenceLayer::ProgramDependence],
        ),
{
    let required_layers = vec![
            GraphEvidenceLayer::ControlFlow,
            GraphEvidenceLayer::ControlRegions,
            GraphEvidenceLayer::NonStructuredControl,
            GraphEvidenceLayer::DataFlow,
            GraphEvidenceLayer::ProgramDependence,
        ];
    proof {
        lemma_ranked_layers_canonical(required_layers@);
    }
    let draft = TransformationRecipeDraft {
        name: "rust-extract-sese-branch-method".to_owned(),
        version: "2.0.0".to_owned(),
        family: TransformationFamily::FunctionExpression,
        required_layers,
        required_conditions: vec![
            condition(
                REQUIRED_SESE,
                "The selected direct-body branch is a retained complete single-entry/single-exit region.",
                GraphEvidenceLayer::ControlRegions,
            ),
            condition(
                REQUIRED_SLICE,
                "The computation and object-state slice is closed under authoritative local dependence facts.",
                GraphEvidenceLayer::ProgramDependence,
            ),
            condition(
                REQUIRED_SIGNATURE,
                "The bounded helper signature contains exact used primitive/reference inputs and optional typed output.",
                GraphEvidenceLayer::DataFlow,
            ),
            condition(
                REQUIRED_INPUTS,
                "Every used parameter or prior local crosses the helper boundary exactly once with its stored type.",
                GraphEvidenceLayer::DataFlow,
            ),
            condition(
                REQUIRED_OUTPUTS,
                "The extraction has unit output or one exact explicitly typed returned initializer.",
                GraphEvidenceLayer::DataFlow,
            ),
            condition(
                REQUIRED_MUTATIONS,
                "Mutable reborrows and direct syntactic writes are retained explicitly.",
                GraphEvidenceLayer::DataFlow,
            ),
            condition(
                REQUIRED_EXITS,
                "No abrupt exit crosses the new callable boundary.",
                GraphEvidenceLayer::ControlFlow,
            ),
            condition(
                REQUIRED_EXCEPTIONS,
                "Exceptional behavior is retained from complete typed effect evidence.",
                GraphEvidenceLayer::DataFlow,
            ),
            condition(
                REQUIRED_CAPTURES,
                "The free helper has no implicit capture outside its explicit input frontier.",
                GraphEvidenceLayer::DataFlow,
            ),
            condition(
                REQUIRED_ASYNC_OWNERSHIP,
                "The helper is synchronous and every value is copied, borrowed, reborrowed, or returned explicitly.",
                GraphEvidenceLayer::DataFlow,
            ),
            condition(
                REQUIRED_EFFECTS,
                "Moving the region across a call boundary is accepted only after effect review.",
                GraphEvidenceLayer::DataFlow,
            ),
        ],
        forbidden_conditions: vec![
            condition(
                FORBIDDEN_ABRUPT,
                "The region contains a return, break, continue, try, await, yield, or other callable-boundary exit.",
                GraphEvidenceLayer::ControlFlow,
            ),
            condition(
                FORBIDDEN_SCOPE,
                "The region depends on a prior local, receiver, generic, capture, or owned value.",
                GraphEvidenceLayer::DataFlow,
            ),
            condition(
                FORBIDDEN_NON_STRUCTURED,
                "A retained non-structured control fact intersects the region.",
                GraphEvidenceLayer::NonStructuredControl,
            ),
            condition(
                FORBIDDEN_COLLISION,
                "The generated private helper name already exists in the source file.",
                GraphEvidenceLayer::ControlFlow,
            ),
        ],
        maximum_safety: SafetyClass::SafeWithPrecondition,
        validation_plan: ValidationPlan {
            steps: vec![
                validation(
                    "build",
                    ValidationStepKind::Build,
                    "Build the extracted helper and call site.",
                ),
                validation(
                    "graph-delta",
                    ValidationStepKind::GraphDelta,
                    "Rebuild and compare the selected SESE region and dependence slice.",
                ),
                validation(
                    "parse",
                    ValidationStepKind::Parse,
                    "Parse the exact multi-function replacement.",
                ),
                validation(
                    "test",
                    ValidationStepKind::Test,
                    "Run project tests before accepting the extraction.",
                ),
            ],
        },
        rollback_plan: RollbackPlan {
            strategy: RollbackStrategy::ReverseExactEdits,
            require_revision_guards: true,
            validation_steps: vec![
                "build".to_owned(),
                "graph-delta".to_owned(),
                "parse".to_owned(),
                "test".to_owned(),
            ],
        },
        fixtures: vec![
            fixture(
                RecipeFixtureRole::Positive,
                "direct-branch-with-reference-state",
                FixtureExpectation::Candidate,
                "A direct branch over primitive/reference parameters has an exact helper transaction.",
            ),
            fixture(
                RecipeFixtureRole::NoOp,
                "no-direct-branch-region",
                FixtureExpectation::NoCandidate,
                "A callable without a direct branch has no extraction unit.",
            ),
            fixture(
                RecipeFixtureRole::MinimalCounterexample,
                "production-defuse-unknown",
                FixtureExpectation::ReviewRequired,
                "The exact edit remains review-only while production slice authority is incomplete.",
            ),
            fixture(
                RecipeFixtureRole::AdversarialNearMiss,
                "branch-reads-untyped-prior-local",
                FixtureExpectation::NoCandidate,
                "A used prior local without an exact type cannot enter the helper signature.",
            ),
        ],
    };
    proof {
        reveal_strlit("2.0.0");
        reveal_strlit("A callable without a direct branch has no extraction unit.");
        reveal_strlit("A direct branch over primitive/reference parameters has an exact helper transaction.");
        reveal_strlit("A retained non-structured control fact intersects the region.");
        reveal_strlit("A used prior local without an exact type cannot enter the helper signature.");
        reveal_strlit("Build the extracted helper and call site.");
        reveal_strlit("Every used parameter or prior local crosses the helper boundary exactly once with its stored type.");
        reveal_strlit("Exceptional behavior is retained from complete typed effect evidence.");
        reveal_strlit("Moving the region across a call boundary is accepted only after effect review.");
        reveal_strlit("Mutable reborrows and direct syntactic writes are retained explicitly.");
        reveal_strlit("No abrupt exit crosses the new callable boundary.");
        reveal_strlit("Parse the exact multi-function replacement.");
        reveal_strlit("Rebuild and compare the selected SESE region and dependence slice.");
        reveal_strlit("Run project tests before accepting the extraction.");
        reveal_strlit("The bounded helper signature contains exact used primitive/reference inputs and optional typed output.");
        reveal_strlit("The computation and object-state slice is closed under authoritative local dependence facts.");
        reveal_strlit("The exact edit remains review-only while production slice authority is incomplete.");
        reveal_strlit("The extraction has unit output or one exact explicitly typed returned initializer.");
        reveal_strlit("The free helper has no implicit capture outside its explicit input frontier.");
        reveal_strlit("The generated private helper name already exists in the source file.");
        reveal_strlit("The helper is synchronous and every value is copied, borrowed, reborrowed, or returned explicitly.");
        reveal_strlit("The region contains a return, break, continue, try, await, yield, or other callable-boundary exit.");
        reveal_strlit("The region depends on a prior local, receiver, generic, capture, or owned value.");
        reveal_strlit("The selected direct-body branch is a retained complete single-entry/single-exit region.");
        reveal_strlit("abrupt-or-suspending-exit");
        reveal_strlit("branch-reads-untyped-prior-local");
        reveal_strlit("build");
        reveal_strlit("call-boundary-effects-reviewed");
        reveal_strlit("complete-computation-object-state-slice");
        reveal_strlit("complete-sese-region");
        reveal_strlit("direct-branch-with-reference-state");
        reveal_strlit("exact-bounded-helper-signature");
        reveal_strlit("exact-extraction-async-ownership");
        reveal_strlit("exact-extraction-captures");
        reveal_strlit("exact-extraction-exceptions");
        reveal_strlit("exact-extraction-exits");
        reveal_strlit("exact-extraction-inputs");
        reveal_strlit("exact-extraction-mutation-frontier");
        reveal_strlit("exact-extraction-outputs");
        reveal_strlit("graph-delta");
        reveal_strlit("helper-name-collision");
        reveal_strlit("no-direct-branch-region");
        reveal_strlit("non-structured-control-intersection");
        reveal_strlit("parse");
        reveal_strlit("production-defuse-unknown");
        reveal_strlit("rust-extract-sese-branch-method");
        reveal_strlit("test");
        reveal_strlit("unmodelled-local-or-owned-input");
        assert forall|i: int| 0 <= i < draft.required_conditions@.len() implies is_canonical_text((#[trigger] draft.required_conditions@[i]).key@) && is_canonical_text(draft.required_conditions@[i].description@) by {
            if i == 0 {} else if i == 1 {} else if i == 2 {} else if i == 3 {} else if i == 4 {} else if i == 5 {} else if i == 6 {} else if i == 7 {} else if i == 8 {} else if i == 9 {} else if i == 10 {} else if i == 11 {}
        }
        assert forall|i: int, j: int| 0 <= i < j < draft.required_conditions@.len() implies (#[trigger] draft.required_conditions@[i]).key@ != (#[trigger] draft.required_conditions@[j]).key@ by {
            if i == 0 { if j == 1 {} else if j == 2 {} else if j == 3 {} else if j == 4 {} else if j == 5 {} else if j == 6 {} else if j == 7 {} else if j == 8 {} else if j == 9 {} else if j == 10 {} else if j == 11 {} } else if i == 1 { if j == 2 {} else if j == 3 {} else if j == 4 {} else if j == 5 {} else if j == 6 {} else if j == 7 {} else if j == 8 {} else if j == 9 {} else if j == 10 {} else if j == 11 {} } else if i == 2 { if j == 3 {} else if j == 4 {} else if j == 5 {} else if j == 6 {} else if j == 7 {} else if j == 8 {} else if j == 9 {} else if j == 10 {} else if j == 11 {} } else if i == 3 { if j == 4 {} else if j == 5 {} else if j == 6 {} else if j == 7 {} else if j == 8 {} else if j == 9 {} else if j == 10 {} else if j == 11 {} } else if i == 4 { if j == 5 {} else if j == 6 {} else if j == 7 {} else if j == 8 {} else if j == 9 {} else if j == 10 {} else if j == 11 {} } else if i == 5 { if j == 6 {} else if j == 7 {} else if j == 8 {} else if j == 9 {} else if j == 10 {} else if j == 11 {} } else if i == 6 { if j == 7 {} else if j == 8 {} else if j == 9 {} else if j == 10 {} else if j == 11 {} } else if i == 7 { if j == 8 {} else if j == 9 {} else if j == 10 {} else if j == 11 {} } else if i == 8 { if j == 9 {} else if j == 10 {} else if j == 11 {} } else if i == 9 { if j == 10 {} else if j == 11 {} } else if i == 10 { if j == 11 {} }
        }
        assert forall|i: int| 0 <= i < draft.forbidden_conditions@.len() implies is_canonical_text((#[trigger] draft.forbidden_conditions@[i]).key@) && is_canonical_text(draft.forbidden_conditions@[i].description@) by {
            if i == 0 {} else if i == 1 {} else if i == 2 {} else if i == 3 {} else if i == 4 {} else if i == 5 {}
        }
        assert forall|i: int, j: int| 0 <= i < j < draft.forbidden_conditions@.len() implies (#[trigger] draft.forbidden_conditions@[i]).key@ != (#[trigger] draft.forbidden_conditions@[j]).key@ by {
            if i == 0 { if j == 1 {} else if j == 2 {} else if j == 3 {} else if j == 4 {} else if j == 5 {} } else if i == 1 { if j == 2 {} else if j == 3 {} else if j == 4 {} else if j == 5 {} } else if i == 2 { if j == 3 {} else if j == 4 {} else if j == 5 {} } else if i == 3 { if j == 4 {} else if j == 5 {} } else if i == 4 { if j == 5 {} }
        }
        assert forall|i: int| 0 <= i < draft.validation_plan.steps@.len() implies crate::contract::step_valid(#[trigger] draft.validation_plan.steps@[i]) by {
            if i == 0 {} else if i == 1 {} else if i == 2 {} else if i == 3 {} else if i == 4 {} else if i == 5 {}
        }
        assert forall|i: int, j: int| 0 <= i < j < draft.validation_plan.steps@.len() implies (#[trigger] draft.validation_plan.steps@[i]).key@ != (#[trigger] draft.validation_plan.steps@[j]).key@ by {
            if i == 0 { if j == 1 {} else if j == 2 {} else if j == 3 {} else if j == 4 {} else if j == 5 {} } else if i == 1 { if j == 2 {} else if j == 3 {} else if j == 4 {} else if j == 5 {} } else if i == 2 { if j == 3 {} else if j == 4 {} else if j == 5 {} } else if i == 3 { if j == 4 {} else if j == 5 {} } else if i == 4 { if j == 5 {} }
        }
        assert(extract_method_recipe_draft(draft));
        assert(recipe_draft_sound(draft));
    }
    build_recipe(draft)
}


/// Why method extraction failed: a recipe contract, an impact query, graph
/// eligibility, or an inconsistent projection.
#[derive(Clone, Debug)]
pub enum ExtractMethodRecipeError {
    Contract(RecipeContractError),
    Impact(ImpactQueryError),
    Eligibility(String),
    Projection(String),
}

pub open spec fn extract_method_recipe_error_message(e: ExtractMethodRecipeError) -> Seq<char> {
    match e {
        ExtractMethodRecipeError::Contract(c) => contract_error_message(c),
        ExtractMethodRecipeError::Impact(e) => impact_error_message(e),
        ExtractMethodRecipeError::Eligibility(d) => "extract-method graph eligibility failed: "@ + d@,
        ExtractMethodRecipeError::Projection(d) => "extract-method recipe received an inconsistent projection: "@ + d@,
    }
}

impl ExtractMethodRecipeError {
    /// The message of the error.
    pub fn message(&self) -> (m: String)
        ensures
            m@ == extract_method_recipe_error_message(*self),
    {
        match self {
            ExtractMethodRecipeError::Contract(e) => e.message(),
            ExtractMethodRecipeError::Impact(e) => e.message(),
            ExtractMethodRecipeError::Eligibility(d) => labeled_message("extract-method graph eligibility failed: ", d.as_str()),
            ExtractMethodRecipeError::Projection(d) => labeled_message("extract-method recipe received an inconsistent projection: ", d.as_str()),
        }
    }
}

} // verus!
