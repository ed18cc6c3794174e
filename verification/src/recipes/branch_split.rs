//! Splitting of a branch whose arms act on independent dependence slices.

use vstd::prelude::*;
use crate::contract::{
    contract_error_message, labeled_message,
    FixtureExpectation, RecipeContractError, RecipeFixtureRole, RollbackPlan, RollbackStrategy,
    TransformationFamily, ValidationPlan, ValidationStep, ValidationStepKind,
};
use crate::impact::{impact_error_message, ImpactQueryError};
use crate::model::{GraphEvidenceLayer, SafetyClass};
use crate::recipe::{recipe_draft_sound, TransformationRecipe, TransformationRecipeDraft};
use super::{build_recipe, condition, fixture, lemma_ranked_layers_canonical, recipe_header, validation};
use crate::text::is_canonical_text;
use super::condition_is;
use super::fixture_is;
use super::step_is;
use crate::recipe::canonical_arrangement;

verus! {

/// The name of the temporary that holds a split predicate.
pub const TEMP_NAME: &'static str = "__deslop_m57_condition";
pub const REQUIRED_ACTIONS: &'static str = "direct-action-statements";
pub const REQUIRED_SLICES: &'static str = "distinct-dependence-slices";
pub const REQUIRED_ORDER: &'static str = "predicate-count-and-action-order-retained";
pub const REQUIRED_EFFECTS: &'static str = "effect-and-drop-independence";
pub const FORBIDDEN_CROSSING: &'static str = "crossing-flow-dependence";
pub const FORBIDDEN_SCOPE: &'static str = "binding-scope-or-drop-change";
pub const FORBIDDEN_CONTROL: &'static str = "recovered-or-conservative-control";
pub const FORBIDDEN_NON_STRUCTURED: &'static str = "non-structured-control";

/// The draft of the rust-split-independent-branch-actions recipe: its name, version, family,
/// maximum safety, layers, conditions, plans and fixtures, in order.
pub open spec fn independent_branch_split_recipe_draft(d: TransformationRecipeDraft) -> bool {
    &&& d.name@ == "rust-split-independent-branch-actions"@
    &&& d.version@ == "1.0.0"@
    &&& d.family == TransformationFamily::BranchControl
    &&& d.maximum_safety == SafetyClass::SafeWithPrecondition
    &&& d.required_layers@ == seq![GraphEvidenceLayer::ControlFlow, GraphEvidenceLayer::ControlRegions, GraphEvidenceLayer::NonStructuredControl, GraphEvidenceLayer::DataFlow, GraphEvidenceLayer::ProgramDependence]
    &&& d.required_conditions@.len() == 4
    &&& condition_is(d.required_conditions@[0], REQUIRED_ACTIONS@, "The branch contains only two or more direct call statements."@, GraphEvidenceLayer::ControlFlow)
    &&& condition_is(d.required_conditions@[1], REQUIRED_SLICES@, "Each action belongs to a distinct complete flow-dependence slice."@, GraphEvidenceLayer::ProgramDependence)
    &&& condition_is(d.required_conditions@[2], REQUIRED_ORDER@, "Predicate count and action source order remain exact."@, GraphEvidenceLayer::ControlFlow)
    &&& condition_is(d.required_conditions@[3], REQUIRED_EFFECTS@, "Complete effect evidence proves action scopes and drop order independent."@, GraphEvidenceLayer::DataFlow)
    &&& d.forbidden_conditions@.len() == 4
    &&& condition_is(d.forbidden_conditions@[0], FORBIDDEN_CROSSING@, "A flow edge or transitive flow slice crosses two actions."@, GraphEvidenceLayer::ProgramDependence)
    &&& condition_is(d.forbidden_conditions@[1], FORBIDDEN_SCOPE@, "Splitting changes a binding, borrow, lifetime, or drop order."@, GraphEvidenceLayer::DataFlow)
    &&& condition_is(d.forbidden_conditions@[2], FORBIDDEN_CONTROL@, "Recovered syntax or conservative branch control participates."@, GraphEvidenceLayer::ControlFlow)
    &&& condition_is(d.forbidden_conditions@[3], FORBIDDEN_NON_STRUCTURED@, "Non-structured control participates in the callable."@, GraphEvidenceLayer::NonStructuredControl)
    &&& d.validation_plan.steps@.len() == 4
    &&& step_is(d.validation_plan.steps@[0], "build"@, ValidationStepKind::Build, "Build after the guarded branch split."@)
    &&& step_is(d.validation_plan.steps@[1], "graph-delta"@, ValidationStepKind::GraphDelta, "Rebuild and compare dispatch and slice changes."@)
    &&& step_is(d.validation_plan.steps@[2], "parse"@, ValidationStepKind::Parse, "Parse the exact replacement."@)
    &&& step_is(d.validation_plan.steps@[3], "test"@, ValidationStepKind::Test, "Run project tests before acceptance."@)
    &&& d.rollback_plan.strategy == RollbackStrategy::ReverseExactEdits
    &&& d.rollback_plan.require_revision_guards == true
    &&& d.rollback_plan.validation_steps@.len() == 4
    &&& d.rollback_plan.validation_steps@[0]@ == "build"@
    &&& d.rollback_plan.validation_steps@[1]@ == "graph-delta"@
    &&& d.rollback_plan.validation_steps@[2]@ == "parse"@
    &&& d.rollback_plan.validation_steps@[3]@ == "test"@
    &&& d.fixtures@.len() == 4
    &&& fixture_is(d.fixtures@[0], RecipeFixtureRole::Positive, "two-independent-actions"@, FixtureExpectation::Candidate, "Two actions have disjoint retained flow slices."@)
    &&& fixture_is(d.fixtures@[1], RecipeFixtureRole::NoOp, "single-action"@, FixtureExpectation::NoCandidate, "One action has nothing to split."@)
    &&& fixture_is(d.fixtures@[2], RecipeFixtureRole::MinimalCounterexample, "unknown-production-pdg"@, FixtureExpectation::ReviewRequired, "No crossing is retained but production LocalPdg is unavailable."@)
    &&& fixture_is(d.fixtures@[3], RecipeFixtureRole::AdversarialNearMiss, "binding-between-actions"@, FixtureExpectation::NoCandidate, "A declaration or crossing flow prevents splitting."@)
}

pub fn independent_branch_split_recipe() -> (r: Result<TransformationRecipe, RecipeContractError>)
    ensures
        r matches Ok(x) ==> exists|d: TransformationRecipeDraft| independent_branch_split_recipe_draft(d) && canonical_arrangement(x.spec_draft(), d),
        r is Ok,
        recipe_header(
            r,
            "rust-split-independent-branch-actions"@,
            "1.0.0"@,
            TransformationFamily::BranchControl,
            SafetyClass::SafeWithPrecondition,
            seq![GraphEvidenceLayer::ControlFlow, GraphEvidenceLayer::ControlRegions, GraphEvidenceLayer::NonStructuredControl, GraphEvidenceLayer::DataFlow, GraphEvidenceLayer::ProgramDependence],
        ),
{
    let required_layers = vec![
            GraphEvidenceLayer::ControlFlow,
            GraphEvidenceLayer::ControlRegions,
            GraphEvidenceLayer::NonStructuredControl,
            GraphEvidenceLayer::DataFlow,
            GraphEvidenceLayer::ProgramDependence,
        ];
    proof {
        lemma_ranked_layers_canonical(required_layers@);
    }
    let draft = TransformationRecipeDraft {
        name: "rust-split-independent-branch-actions".to_owned(),
        version: "1.0.0".to_owned(),
        family: TransformationFamily::BranchControl,
        required_layers,
        required_conditions: vec![
            condition(
                REQUIRED_ACTIONS,
                "The branch contains only two or more direct call statements.",
                GraphEvidenceLayer::ControlFlow,
            ),
            condition(
                REQUIRED_SLICES,
                "Each action belongs to a distinct complete flow-dependence slice.",
                GraphEvidenceLayer::ProgramDependence,
            ),
            condition(
                REQUIRED_ORDER,
                "Predicate count and action source order remain exact.",
                GraphEvidenceLayer::ControlFlow,
            ),
            condition(
                REQUIRED_EFFECTS,
                "Complete effect evidence proves action scopes and drop order independent.",
                GraphEvidenceLayer::DataFlow,
            ),
        ],
        forbidden_conditions: vec![
            condition(
                FORBIDDEN_CROSSING,
                "A flow edge or transitive flow slice crosses two actions.",
                GraphEvidenceLayer::ProgramDependence,
            ),
            condition(
                FORBIDDEN_SCOPE,
                "Splitting changes a binding, borrow, lifetime, or drop order.",
                GraphEvidenceLayer::DataFlow,
            ),
            condition(
                FORBIDDEN_CONTROL,
                "Recovered syntax or conservative branch control participates.",
                GraphEvidenceLayer::ControlFlow,
            ),
            condition(
                FORBIDDEN_NON_STRUCTURED,
                "Non-structured control participates in the callable.",
                GraphEvidenceLayer::NonStructuredControl,
            ),
        ],
        maximum_safety: SafetyClass::SafeWithPrecondition,
        validation_plan: ValidationPlan {
            steps: vec![
                validation(
                    "build",
                    ValidationStepKind::Build,
                    "Build after the guarded branch split.",
                ),
                validation(
                    "graph-delta",
                    ValidationStepKind::GraphDelta,
                    "Rebuild and compare dispatch and slice changes.",
                ),
                validation(
                    "parse",
                    ValidationStepKind::Parse,
                    "Parse the exact replacement.",
                ),
                validation(
                    "test",
                    ValidationStepKind::Test,
                    "Run project tests before acceptance.",
                ),
            ],
        },
        rollback_plan: RollbackPlan {
            strategy: RollbackStrategy::ReverseExactEdits,
            require_revision_guards: true,
            validation_steps: vec![
                "build".to_owned(),
                "graph-delta".to_owned(),
                "parse".to_owned(),
                "test".to_owned(),
            ],
        },
        fixtures: vec![
            fixture(
                RecipeFixtureRole::Positive,
                "two-independent-actions",
                FixtureExpectation::Candidate,
                "Two actions have disjoint retained flow slices.",
            ),
            fixture(
                RecipeFixtureRole::NoOp,
                "single-action",
                FixtureExpectation::NoCandidate,
                "One action has nothing to split.",
            ),
            fixture(
                RecipeFixtureRole::MinimalCounterexample,
                "unknown-production-pdg",
                FixtureExpectation::ReviewRequired,
                "No crossing is retained but production LocalPdg is unavailable.",
            ),
            fixture(
                RecipeFixtureRole::AdversarialNearMiss,
                "binding-between-actions",
                FixtureExpectation::NoCandidate,
                "A declaration or crossing flow prevents splitting.",
            ),
        ],
    };
    proof {
        reveal_strlit("1.0.0");
        reveal_strlit("A declaration or crossing flow prevents splitting.");
        reveal_strlit("A flow edge or transitive flow slice crosses two actions.");
        reveal_strlit("Build after the guarded branch split.");
        reveal_strlit("Complete effect evidence proves action scopes and drop order independent.");
        reveal_strlit("Each action belongs to a distinct complete flow-dependence slice.");
        reveal_strlit("No crossing is retained but production LocalPdg is unavailable.");
        reveal_strlit("Non-structured control participates in the callable.");
        reveal_strlit("One action has nothing to split.");
        reveal_strlit("Parse the exact replacement.");
        reveal_strlit("Predicate count and action source order remain exact.");
        reveal_strlit("Rebuild and compare dispatch and slice changes.");
        reveal_strlit("Recovered syntax or conservative branch control participates.");
        reveal_strlit("Run project tests before acceptance.");
        reveal_strlit("Splitting changes a binding, borrow, lifetime, or drop order.");
        reveal_strlit("The branch contains only two or more direct call statements.");
        reveal_strlit("Two actions have disjoint retained flow slices.");
        reveal_strlit("binding-between-actions");
        reveal_strlit("binding-scope-or-drop-change");
        reveal_strlit("build");
        reveal_strlit("crossing-flow-dependence");
        reveal_strlit("direct-action-statements");
        reveal_strlit("distinct-dependence-slices");
        reveal_strlit("effect-and-drop-independence");
        reveal_strlit("graph-delta");
        reveal_strlit("non-structured-control");
        reveal_strlit("parse");
        reveal_strlit("predicate-count-and-action-order-retained");
        reveal_strlit("recovered-or-conservative-control");
        reveal_strlit("rust-split-independent-branch-actions");
        reveal_strlit("single-action");
        reveal_strlit("test");
        reveal_strlit("two-independent-actions");
        reveal_strlit("unknown-production-pdg");
        assert forall|i: int| 0 <= i < draft.required_conditions@.len() implies is_canonical_text((#[trigger] draft.required_conditions@[i]).key@) && is_canonical_text(draft.required_conditions@[i].description@) by {
            if i == 0 {} else if i == 1 {} else if i == 2 {} else if i == 3 {} else if i == 4 {} else if i == 5 {} else if i == 6 {} else if i == 7 {} else if i == 8 {} else if i == 9 {} else if i == 10 {} else if i == 11 {}
        }
        assert forall|i: int, j: int| 0 <= i < j < draft.required_conditions@.len() implies (#[trigger] draft.required_conditions@[i]).key@ != (#[trigger] draft.required_conditions@[j]).key@ by {
            if i == 0 { if j == 1 {} else if j == 2 {} else if j == 3 {} else if j == 4 {} else if j == 5 {} else if j == 6 {} else if j == 7 {} else if j == 8 {} else if j == 9 {} else if j == 10 {} else if j == 11 {} } else if i == 1 { if j == 2 {} else if j == 3 {} else if j == 4 {} else if j == 5 {} else if j == 6 {} else if j == 7 {} else if j == 8 {} else if j == 9 {} else if j == 10 {} else if j == 11 {} } else if i == 2 { if j == 3 {} else if j == 4 {} else if j == 5 {} else if j == 6 {} else if j == 7 {} else if j == 8 {} else if j == 9 {} else if j == 10 {} else if j == 11 {} } else if i == 3 { if j == 4 {} else if j == 5 {} else if j == 6 {} else if j == 7 {} else if j == 8 {} else if j == 9 {} else if j == 10 {} else if j == 11 {} } else if i == 4 { if j == 5 {} else if j == 6 {} else if j == 7 {} else if j == 8 {} else if j == 9 {} else if j == 10 {} else if j == 11 {} } else if i == 5 { if j == 6 {} else if j == 7 {} else if j == 8 {} else if j == 9 {} else if j == 10 {} else if j == 11 {} } else if i == 6 { if j == 7 {} else if j == 8 {} else if j == 9 {} else if j == 10 {} else if j == 11 {} } else if i == 7 { if j == 8 {} else if j == 9 {} else if j == 10 {} else if j == 11 {} } else if i == 8 { if j == 9 {} else if j == 10 {} else if j == 11 {} } else if i == 9 { if j == 10 {} else if j == 11 {} } else if i == 10 { if j == 11 {} }
        }
        assert forall|i: int| 0 <= i < draft.forbidden_conditions@.len() implies is_canonical_text((#[trigger] draft.forbidden_conditions@[i]).key@) && is_canonical_text(draft.forbidden_conditions@[i].description@) by {
            if i == 0 {} else if i == 1 {} else if i == 2 {} else if i == 3 {} else if i == 4 {} else if i == 5 {}
        }
        assert forall|i: int, j: int| 0 <= i < j < draft.forbidden_conditions@.len() implies (#[trigger] draft.forbidden_conditions@[i]).key@ != (#[trigger] draft.forbidden_conditions@[j]).key@ by {
            if i == 0 { if j == 1 {} else if j == 2 {} else if j == 3 {} else if j == 4 {} else if j == 5 {} } else if i == 1 { if j == 2 {} else if j == 3 {} else if j == 4 {} else if j == 5 {} } else if i == 2 { if j == 3 {} else if j == 4 {} else if j == 5 {} } else if i == 3 { if j == 4 {} else if j == 5 {} } else if i == 4 { if j == 5 {} }
        }
        assert forall|i: int| 0 <= i < draft.validation_plan.steps@.len() implies crate::contract::step_valid(#[trigger] draft.validation_plan.steps@[i]) by {
            if i == 0 {} else if i == 1 {} else if i == 2 {} else if i == 3 {} else if i == 4 {} else if i == 5 {}
        }
        assert forall|i: int, j: int| 0 <= i < j < draft.validation_plan.steps@.len() implies (#[trigger] draft.validation_plan.steps@[i]).key@ != (#[trigger] draft.validation_plan.steps@[j]).key@ by {
            if i == 0 { if j == 1 {} else if j == 2 {} else if j == 3 {} else if j == 4 {} else if j == 5 {} } else if i == 1 { if j == 2 {} else if j == 3 {} else if j == 4 {} else if j == 5 {} } else if i == 2 { if j == 3 {} else if j == 4 {} else if j == 5 {} } else if i == 3 { if j == 4 {} else if j == 5 {} } else if i == 4 { if j == 5 {} }
        }
        assert(independent_branch_split_recipe_draft(draft));
        assert(recipe_draft_sound(draft));
    }
    build_recipe(draft)
}


/// Why independent branch splitting failed: a recipe contract, an impact query, graph
/// eligibility, or an inconsistent projection.
#[derive(Clone, Debug)]
pub enum BranchSplitRecipeError {
    Contract(RecipeContractError),
    Impact(ImpactQueryError),
    Eligibility(String),
    Projection(String),
}

pub open spec fn branch_split_recipe_error_message(e: BranchSplitRecipeError) -> Seq<char> {
    match e {
        BranchSplitRecipeError::Contract(c) => contract_error_message(c),
        BranchSplitRecipeError::Impact(e) => impact_error_message(e),
        BranchSplitRecipeError::Eligibility(d) => "branch-split graph eligibility failed: "@ + d@,
        BranchSplitRecipeError::Projection(d) => "branch-split recipe received an inconsistent projection: "@ + d@,
    }
}

impl BranchSplitRecipeError {
    /// The message of the error.
    pub fn message(&self) -> (m: String)
        ensures
            m@ == branch_split_recipe_error_message(*self),
    {
        match self {
            BranchSplitRecipeError::Contract(e) => e.message(),
            BranchSplitRecipeError::Impact(e) => e.message(),
            BranchSplitRecipeError::Eligibility(d) => labeled_message("branch-split graph eligibility failed: ", d.as_str()),
            BranchSplitRecipeError::Projection(d) => labeled_message("branch-split recipe received an inconsistent projection: ", d.as_str()),
        }
    }
}

} // verus!
