//! Removal of literal dead arms and conversion of exhaustive equality chains to match.

use vstd::prelude::*;
use crate::contract::{
    contract_error_message, labeled_message,
    FixtureExpectation, RecipeContractError, RecipeFixtureRole, RollbackPlan, RollbackStrategy,
    TransformationFamily, ValidationPlan, ValidationStep, ValidationStepKind,
};
use crate::impact::{impact_error_message, ImpactQueryError};
use crate::model::{GraphEvidenceLayer, SafetyClass};
use crate::recipe::{recipe_draft_sound, TransformationRecipe, TransformationRecipeDraft};
use super::{build_recipe, condition, fixture, lemma_ranked_layers_canonical, recipe_header, step_is, validation};
use crate::text::is_canonical_text;
use super::condition_is;
use super::fixture_is;
use crate::recipe::canonical_arrangement;

verus! {

pub const DEAD_LITERAL: &'static str = "literal-predicate-outcome-exact";
pub const DEAD_SELECTED: &'static str = "selected-arm-fragment-exact";
pub const DEAD_COMPILE: &'static str = "dead-arm-compile-effects-preserved";
pub const DEAD_CONTROL: &'static str = "recovered-or-conservative-control";
pub const DEAD_OPAQUE: &'static str = "removed-comment-attribute-or-macro";
pub const DEAD_NON_STRUCTURED: &'static str = "non-structured-control";
pub const CHAIN_SUBJECT: &'static str = "shared-subject-comparisons-exact";
pub const CHAIN_EXHAUSTIVE: &'static str = "explicit-fallback-exhaustive";
pub const CHAIN_REBUILD: &'static str = "match-dispatch-reconstructible";
pub const CHAIN_PST: &'static str = "chain-pst-nesting-retained";
pub const CHAIN_EQUALITY: &'static str = "equality-pattern-semantics-preserved";
pub const CHAIN_CONTROL: &'static str = "recovered-or-conservative-control";
pub const CHAIN_MOVE: &'static str = "subject-move-borrow-or-drop-change";
pub const CHAIN_EFFECT: &'static str = "comparison-effect-or-exception-change";
pub const CHAIN_NON_STRUCTURED: &'static str = "non-structured-control";

/// The draft of the rust-remove-literal-dead-arm recipe: its name, version, family,
/// maximum safety, layers, conditions, plans and fixtures, in order.
pub open spec fn literal_dead_arm_recipe_draft(d: TransformationRecipeDraft) -> bool {
    &&& d.name@ == "rust-remove-literal-dead-arm"@
    &&& d.version@ == "1.0.0"@
    &&& d.family == TransformationFamily::BranchControl
    &&& d.maximum_safety == SafetyClass::SafeWithPrecondition
    &&& d.required_layers@ == seq![GraphEvidenceLayer::ControlFlow, GraphEvidenceLayer::ControlRegions, GraphEvidenceLayer::NonStructuredControl, GraphEvidenceLayer::DataFlow, GraphEvidenceLayer::ProgramDependence]
    &&& d.required_conditions@.len() == 3
    &&& condition_is(d.required_conditions@[0], DEAD_LITERAL@, "An exact Rust boolean literal makes one branch outcome infeasible."@, GraphEvidenceLayer::ControlFlow)
    &&& condition_is(d.required_conditions@[1], DEAD_SELECTED@, "The selected arm is retained as one exact block expression."@, GraphEvidenceLayer::ControlFlow)
    &&& condition_is(d.required_conditions@[2], DEAD_COMPILE@, "Complete effect evidence proves deleting the unselected syntax has no compile-time behavior."@, GraphEvidenceLayer::DataFlow)
    &&& d.forbidden_conditions@.len() == 3
    &&& condition_is(d.forbidden_conditions@[0], DEAD_CONTROL@, "Recovered syntax or conservative dispatch control participates."@, GraphEvidenceLayer::ControlFlow)
    &&& condition_is(d.forbidden_conditions@[1], DEAD_OPAQUE@, "The removed arm contains a comment, attribute, or macro boundary."@, GraphEvidenceLayer::ControlFlow)
    &&& condition_is(d.forbidden_conditions@[2], DEAD_NON_STRUCTURED@, "Non-structured control participates in the callable."@, GraphEvidenceLayer::NonStructuredControl)
    &&& d.validation_plan.steps@.len() == 4
    &&& step_is(d.validation_plan.steps@[0], "build"@, ValidationStepKind::Build, "Build after the "@ + "dead-arm deletion"@ + "."@)
    &&& step_is(d.validation_plan.steps@[1], "graph-delta"@, ValidationStepKind::GraphDelta, "Rebuild and compare the "@ + "dead-arm deletion"@ + " graph delta."@)
    &&& step_is(d.validation_plan.steps@[2], "parse"@, ValidationStepKind::Parse, "Parse the exact replacement."@)
    &&& step_is(d.validation_plan.steps@[3], "test"@, ValidationStepKind::Test, "Run project tests before accepting the review candidate."@)
    &&& d.rollback_plan.strategy == RollbackStrategy::ReverseExactEdits
    &&& d.rollback_plan.require_revision_guards == true
    &&& d.rollback_plan.validation_steps@.len() == 4
    &&& d.rollback_plan.validation_steps@[0]@ == "build"@
    &&& d.rollback_plan.validation_steps@[1]@ == "graph-delta"@
    &&& d.rollback_plan.validation_steps@[2]@ == "parse"@
    &&& d.rollback_plan.validation_steps@[3]@ == "test"@
    &&& d.fixtures@.len() == 4
    &&& fixture_is(d.fixtures@[0], RecipeFixtureRole::Positive, "literal-true-arm"@, FixtureExpectation::Candidate, "An explicit true predicate selects the consequence block."@)
    &&& fixture_is(d.fixtures@[1], RecipeFixtureRole::NoOp, "dynamic-predicate"@, FixtureExpectation::NoCandidate, "A dynamic predicate does not prove either arm dead."@)
    &&& fixture_is(d.fixtures@[2], RecipeFixtureRole::MinimalCounterexample, "unknown-compile-effects"@, FixtureExpectation::ReviewRequired, "The runtime arm is exact but production compile/effect authority is unavailable."@)
    &&& fixture_is(d.fixtures@[3], RecipeFixtureRole::AdversarialNearMiss, "macro-in-dead-arm"@, FixtureExpectation::NoCandidate, "Macro or attributed syntax cannot be discarded as incidental dead text."@)
}

pub fn literal_dead_arm_recipe() -> (r: Result<TransformationRecipe, RecipeContractError>)
    ensures
        r matches Ok(x) ==> exists|d: TransformationRecipeDraft| literal_dead_arm_recipe_draft(d) && canonical_arrangement(x.spec_draft(), d),
        r is Ok,
        recipe_header(
            r,
            "rust-remove-literal-dead-arm"@,
            "1.0.0"@,
            TransformationFamily::BranchControl,
            SafetyClass::SafeWithPrecondition,
            seq![GraphEvidenceLayer::ControlFlow, GraphEvidenceLayer::ControlRegions, GraphEvidenceLayer::NonStructuredControl, GraphEvidenceLayer::DataFlow, GraphEvidenceLayer::ProgramDependence],
        ),
{
    let required_layers = vec![
            GraphEvidenceLayer::ControlFlow,
            GraphEvidenceLayer::ControlRegions,
            GraphEvidenceLayer::NonStructuredControl,
            GraphEvidenceLayer::DataFlow,
            GraphEvidenceLayer::ProgramDependence,
        ];
    proof {
        lemma_ranked_layers_canonical(required_layers@);
    }
    let draft = TransformationRecipeDraft {
        name: "rust-remove-literal-dead-arm".to_owned(),
        version: "1.0.0".to_owned(),
        family: TransformationFamily::BranchControl,
        required_layers,
        required_conditions: vec![
            condition(
                DEAD_LITERAL,
                "An exact Rust boolean literal makes one branch outcome infeasible.",
                GraphEvidenceLayer::ControlFlow,
            ),
            condition(
                DEAD_SELECTED,
                "The selected arm is retained as one exact block expression.",
                GraphEvidenceLayer::ControlFlow,
            ),
            condition(
                DEAD_COMPILE,
                "Complete effect evidence proves deleting the unselected syntax has no compile-time behavior.",
                GraphEvidenceLayer::DataFlow,
            ),
        ],
        forbidden_conditions: vec![
            condition(
                DEAD_CONTROL,
                "Recovered syntax or conservative dispatch control participates.",
                GraphEvidenceLayer::ControlFlow,
            ),
            condition(
                DEAD_OPAQUE,
                "The removed arm contains a comment, attribute, or macro boundary.",
                GraphEvidenceLayer::ControlFlow,
            ),
            condition(
                DEAD_NON_STRUCTURED,
                "Non-structured control participates in the callable.",
                GraphEvidenceLayer::NonStructuredControl,
            ),
        ],
        maximum_safety: SafetyClass::SafeWithPrecondition,
        validation_plan: branch_validation("dead-arm deletion"),
        rollback_plan: branch_rollback(),
        fixtures: vec![
            fixture(
                RecipeFixtureRole::Positive,
                "literal-true-arm",
                FixtureExpectation::Candidate,
                "An explicit true predicate selects the consequence block.",
            ),
            fixture(
                RecipeFixtureRole::NoOp,
                "dynamic-predicate",
                FixtureExpectation::NoCandidate,
                "A dynamic predicate does not prove either arm dead.",
            ),
            fixture(
                RecipeFixtureRole::MinimalCounterexample,
                "unknown-compile-effects",
                FixtureExpectation::ReviewRequired,
                "The runtime arm is exact but production compile/effect authority is unavailable.",
            ),
            fixture(
                RecipeFixtureRole::AdversarialNearMiss,
                "macro-in-dead-arm",
                FixtureExpectation::NoCandidate,
                "Macro or attributed syntax cannot be discarded as incidental dead text.",
            ),
        ],
    };
    proof {
        reveal_strlit(" graph delta.");
        reveal_strlit(".");
        reveal_strlit("1.0.0");
        reveal_strlit("A dynamic predicate does not prove either arm dead.");
        reveal_strlit("An exact Rust boolean literal makes one branch outcome infeasible.");
        reveal_strlit("An explicit true predicate selects the consequence block.");
        reveal_strlit("Build after the ");
        reveal_strlit("Complete effect evidence proves deleting the unselected syntax has no compile-time behavior.");
        reveal_strlit("Macro or attributed syntax cannot be discarded as incidental dead text.");
        reveal_strlit("Non-structured control participates in the callable.");
        reveal_strlit("Parse the exact replacement.");
        reveal_strlit("Rebuild and compare the ");
        reveal_strlit("Recovered syntax or conservative dispatch control participates.");
        reveal_strlit("Run project tests before accepting the review candidate.");
        reveal_strlit("The removed arm contains a comment, attribute, or macro boundary.");
        reveal_strlit("The runtime arm is exact but production compile/effect authority is unavailable.");
        reveal_strlit("The selected arm is retained as one exact block expression.");
        reveal_strlit("build");
        reveal_strlit("dead-arm deletion");
        reveal_strlit("dead-arm-compile-effects-preserved");
        reveal_strlit("dynamic-predicate");
        reveal_strlit("graph-delta");
        reveal_strlit("literal-predicate-outcome-exact");
        reveal_strlit("literal-true-arm");
        reveal_strlit("macro-in-dead-arm");
        reveal_strlit("non-structured-control");
        reveal_strlit("parse");
        reveal_strlit("recovered-or-conservative-control");
        reveal_strlit("removed-comment-attribute-or-macro");
        reveal_strlit("rust-remove-literal-dead-arm");
        reveal_strlit("selected-arm-fragment-exact");
        reveal_strlit("test");
        reveal_strlit("unknown-compile-effects");
        assert forall|i: int| 0 <= i < draft.required_conditions@.len() implies is_canonical_text((#[trigger] draft.required_conditions@[i]).key@) && is_canonical_text(draft.required_conditions@[i].description@) by {
            if i == 0 {} else if i == 1 {} else if i == 2 {} else if i == 3 {} else if i == 4 {} else if i == 5 {} else if i == 6 {} else if i == 7 {} else if i == 8 {} else if i == 9 {} else if i == 10 {} else if i == 11 {}
        }
        assert forall|i: int, j: int| 0 <= i < j < draft.required_conditions@.len() implies (#[trigger] draft.required_conditions@[i]).key@ != (#[trigger] draft.required_conditions@[j]).key@ by {
            if i == 0 { if j == 1 {} else if j == 2 {} else if j == 3 {} else if j == 4 {} else if j == 5 {} else if j == 6 {} else if j == 7 {} else if j == 8 {} else if j == 9 {} else if j == 10 {} else if j == 11 {} } else if i == 1 { if j == 2 {} else if j == 3 {} else if j == 4 {} else if j == 5 {} else if j == 6 {} else if j == 7 {} else if j == 8 {} else if j == 9 {} else if j == 10 {} else if j == 11 {} } else if i == 2 { if j == 3 {} else if j == 4 {} else if j == 5 {} else if j == 6 {} else if j == 7 {} else if j == 8 {} else if j == 9 {} else if j == 10 {} else if j == 11 {} } else if i == 3 { if j == 4 {} else if j == 5 {} else if j == 6 {} else if j == 7 {} else if j == 8 {} else if j == 9 {} else if j == 10 {} else if j == 11 {} } else if i == 4 { if j == 5 {} else if j == 6 {} else if j == 7 {} else if j == 8 {} else if j == 9 {} else if j == 10 {} else if j == 11 {} } else if i == 5 { if j == 6 {} else if j == 7 {} else if j == 8 {} else if j == 9 {} else if j == 10 {} else if j == 11 {} } else if i == 6 { if j == 7 {} else if j == 8 {} else if j == 9 {} else if j == 10 {} else if j == 11 {} } else if i == 7 { if j == 8 {} else if j == 9 {} else if j == 10 {} else if j == 11 {} } else if i == 8 { if j == 9 {} else if j == 10 {} else if j == 11 {} } else if i == 9 { if j == 10 {} else if j == 11 {} } else if i == 10 { if j == 11 {} }
        }
        assert forall|i: int| 0 <= i < draft.forbidden_conditions@.len() implies is_canonical_text((#[trigger] draft.forbidden_conditions@[i]).key@) && is_canonical_text(draft.forbidden_conditions@[i].description@) by {
            if i == 0 {} else if i == 1 {} else if i == 2 {} else if i == 3 {} else if i == 4 {} else if i == 5 {}
        }
        assert forall|i: int, j: int| 0 <= i < j < draft.forbidden_conditions@.len() implies (#[trigger] draft.forbidden_conditions@[i]).key@ != (#[trigger] draft.forbidden_conditions@[j]).key@ by {
            if i == 0 { if j == 1 {} else if j == 2 {} else if j == 3 {} else if j == 4 {} else if j == 5 {} } else if i == 1 { if j == 2 {} else if j == 3 {} else if j == 4 {} else if j == 5 {} } else if i == 2 { if j == 3 {} else if j == 4 {} else if j == 5 {} } else if i == 3 { if j == 4 {} else if j == 5 {} } else if i == 4 { if j == 5 {} }
        }
        assert forall|i: int| 0 <= i < draft.validation_plan.steps@.len() implies crate::contract::step_valid(#[trigger] draft.validation_plan.steps@[i]) by {
            if i == 0 {} else if i == 1 {} else if i == 2 {} else if i == 3 {} else if i == 4 {} else if i == 5 {}
        }
        assert forall|i: int, j: int| 0 <= i < j < draft.validation_plan.steps@.len() implies (#[trigger] draft.validation_plan.steps@[i]).key@ != (#[trigger] draft.validation_plan.steps@[j]).key@ by {
            if i == 0 { if j == 1 {} else if j == 2 {} else if j == 3 {} else if j == 4 {} else if j == 5 {} } else if i == 1 { if j == 2 {} else if j == 3 {} else if j == 4 {} else if j == 5 {} } else if i == 2 { if j == 3 {} else if j == 4 {} else if j == 5 {} } else if i == 3 { if j == 4 {} else if j == 5 {} } else if i == 4 { if j == 5 {} }
        }
        assert(literal_dead_arm_recipe_draft(draft));
        assert(recipe_draft_sound(draft));
    }
    build_recipe(draft)
}

/// The draft of the rust-convert-exhaustive-chain-to-match recipe: its name, version, family,
/// maximum safety, layers, conditions, plans and fixtures, in order.
pub open spec fn exhaustive_chain_to_match_recipe_draft(d: TransformationRecipeDraft) -> bool {
    &&& d.name@ == "rust-convert-exhaustive-chain-to-match"@
    &&& d.version@ == "1.0.0"@
    &&& d.family == TransformationFamily::BranchControl
    &&& d.maximum_safety == SafetyClass::SafeWithPrecondition
    &&& d.required_layers@ == seq![GraphEvidenceLayer::ControlFlow, GraphEvidenceLayer::ControlRegions, GraphEvidenceLayer::NonStructuredControl, GraphEvidenceLayer::DataFlow, GraphEvidenceLayer::ProgramDependence]
    &&& d.required_conditions@.len() == 5
    &&& condition_is(d.required_conditions@[0], CHAIN_SUBJECT@, "Every branch compares the same identifier to a distinct literal or qualified path."@, GraphEvidenceLayer::ControlFlow)
    &&& condition_is(d.required_conditions@[1], CHAIN_EXHAUSTIVE@, "An explicit final else block becomes the exact wildcard match arm."@, GraphEvidenceLayer::ControlFlow)
    &&& condition_is(d.required_conditions@[2], CHAIN_REBUILD@, "The generated unguarded final-wildcard match has exact retained CFG lowering."@, GraphEvidenceLayer::ControlFlow)
    &&& condition_is(d.required_conditions@[3], CHAIN_PST@, "PST facts retain the nested dispatch reachability boundary."@, GraphEvidenceLayer::ControlRegions)
    &&& condition_is(d.required_conditions@[4], CHAIN_EQUALITY@, "Complete semantic evidence proves equality tests and match patterns select identical values."@, GraphEvidenceLayer::DataFlow)
    &&& d.forbidden_conditions@.len() == 4
    &&& condition_is(d.forbidden_conditions@[0], CHAIN_CONTROL@, "Recovered syntax or conservative dispatch control participates."@, GraphEvidenceLayer::ControlFlow)
    &&& condition_is(d.forbidden_conditions@[1], CHAIN_MOVE@, "Evaluating the match subject once changes move, borrow, lifetime, or drop behavior."@, GraphEvidenceLayer::DataFlow)
    &&& condition_is(d.forbidden_conditions@[2], CHAIN_EFFECT@, "Replacing equality dispatch changes effects, panic, exception, or suspension behavior."@, GraphEvidenceLayer::DataFlow)
    &&& condition_is(d.forbidden_conditions@[3], CHAIN_NON_STRUCTURED@, "Non-structured control participates in the callable."@, GraphEvidenceLayer::NonStructuredControl)
    &&& d.validation_plan.steps@.len() == 4
    &&& step_is(d.validation_plan.steps@[0], "build"@, ValidationStepKind::Build, "Build after the "@ + "exhaustive match dispatch"@ + "."@)
    &&& step_is(d.validation_plan.steps@[1], "graph-delta"@, ValidationStepKind::GraphDelta, "Rebuild and compare the "@ + "exhaustive match dispatch"@ + " graph delta."@)
    &&& step_is(d.validation_plan.steps@[2], "parse"@, ValidationStepKind::Parse, "Parse the exact replacement."@)
    &&& step_is(d.validation_plan.steps@[3], "test"@, ValidationStepKind::Test, "Run project tests before accepting the review candidate."@)
    &&& d.rollback_plan.strategy == RollbackStrategy::ReverseExactEdits
    &&& d.rollback_plan.require_revision_guards == true
    &&& d.rollback_plan.validation_steps@.len() == 4
    &&& d.rollback_plan.validation_steps@[0]@ == "build"@
    &&& d.rollback_plan.validation_steps@[1]@ == "graph-delta"@
    &&& d.rollback_plan.validation_steps@[2]@ == "parse"@
    &&& d.rollback_plan.validation_steps@[3]@ == "test"@
    &&& d.fixtures@.len() == 4
    &&& fixture_is(d.fixtures@[0], RecipeFixtureRole::Positive, "qualified-enum-chain"@, FixtureExpectation::Candidate, "Two qualified-path comparisons and a fallback become a final-wildcard match."@)
    &&& fixture_is(d.fixtures@[1], RecipeFixtureRole::NoOp, "different-subjects"@, FixtureExpectation::NoCandidate, "Comparisons over different identifiers cannot share a match subject."@)
    &&& fixture_is(d.fixtures@[2], RecipeFixtureRole::MinimalCounterexample, "unknown-partialeq-semantics"@, FixtureExpectation::ReviewRequired, "Structural exhaustiveness is exact but equality/type semantics lack production authority."@)
    &&& fixture_is(d.fixtures@[3], RecipeFixtureRole::AdversarialNearMiss, "missing-final-fallback"@, FixtureExpectation::NoCandidate, "A chain without an explicit fallback has no syntax-level exhaustiveness proof."@)
}

pub fn exhaustive_chain_to_match_recipe() -> (r: Result<TransformationRecipe, RecipeContractError>)
    ensures
        r matches Ok(x) ==> exists|d: TransformationRecipeDraft| exhaustive_chain_to_match_recipe_draft(d) && canonical_arrangement(x.spec_draft(), d),
        r is Ok,
        recipe_header(
            r,
            "rust-convert-exhaustive-chain-to-match"@,
            "1.0.0"@,
            TransformationFamily::BranchControl,
            SafetyClass::SafeWithPrecondition,
            seq![GraphEvidenceLayer::ControlFlow, GraphEvidenceLayer::ControlRegions, GraphEvidenceLayer::NonStructuredControl, GraphEvidenceLayer::DataFlow, GraphEvidenceLayer::ProgramDependence],
        ),
{
    let required_layers = vec![
            GraphEvidenceLayer::ControlFlow,
            GraphEvidenceLayer::ControlRegions,
            GraphEvidenceLayer::NonStructuredControl,
            GraphEvidenceLayer::DataFlow,
            GraphEvidenceLayer::ProgramDependence,
        ];
    proof {
        lemma_ranked_layers_canonical(required_layers@);
    }
    let draft = TransformationRecipeDraft {
        name: "rust-convert-exhaustive-chain-to-match".to_owned(),
        version: "1.0.0".to_owned(),
        family: TransformationFamily::BranchControl,
        required_layers,
        required_conditions: vec![
            condition(
                CHAIN_SUBJECT,
                "Every branch compares the same identifier to a distinct literal or qualified path.",
                GraphEvidenceLayer::ControlFlow,
            ),
            condition(
                CHAIN_EXHAUSTIVE,
                "An explicit final else block becomes the exact wildcard match arm.",
                GraphEvidenceLayer::ControlFlow,
            ),
            condition(
                CHAIN_REBUILD,
                "The generated unguarded final-wildcard match has exact retained CFG lowering.",
                GraphEvidenceLayer::ControlFlow,
            ),
            condition(
                CHAIN_PST,
                "PST facts retain the nested dispatch reachability boundary.",
                GraphEvidenceLayer::ControlRegions,
            ),
            condition(
                CHAIN_EQUALITY,
                "Complete semantic evidence proves equality tests and match patterns select identical values.",
                GraphEvidenceLayer::DataFlow,
            ),
        ],
        forbidden_conditions: vec![
            condition(
                CHAIN_CONTROL,
                "Recovered syntax or conservative dispatch control participates.",
                GraphEvidenceLayer::ControlFlow,
            ),
            condition(
                CHAIN_MOVE,
                "Evaluating the match subject once changes move, borrow, lifetime, or drop behavior.",
                GraphEvidenceLayer::DataFlow,
            ),
            condition(
                CHAIN_EFFECT,
                "Replacing equality dispatch changes effects, panic, exception, or suspension behavior.",
                GraphEvidenceLayer::DataFlow,
            ),
            condition(
                CHAIN_NON_STRUCTURED,
                "Non-structured control participates in the callable.",
                GraphEvidenceLayer::NonStructuredControl,
            ),
        ],
        maximum_safety: SafetyClass::SafeWithPrecondition,
        validation_plan: branch_validation("exhaustive match dispatch"),
        rollback_plan: branch_rollback(),
        fixtures: vec![
            fixture(
                RecipeFixtureRole::Positive,
                "qualified-enum-chain",
                FixtureExpectation::Candidate,
                "Two qualified-path comparisons and a fallback become a final-wildcard match.",
            ),
            fixture(
                RecipeFixtureRole::NoOp,
                "different-subjects",
                FixtureExpectation::NoCandidate,
                "Comparisons over different identifiers cannot share a match subject.",
            ),
            fixture(
                RecipeFixtureRole::MinimalCounterexample,
                "unknown-partialeq-semantics",
                FixtureExpectation::ReviewRequired,
                "Structural exhaustiveness is exact but equality/type semantics lack production authority.",
            ),
            fixture(
                RecipeFixtureRole::AdversarialNearMiss,
                "missing-final-fallback",
                FixtureExpectation::NoCandidate,
                "A chain without an explicit fallback has no syntax-level exhaustiveness proof.",
            ),
        ],
    };
    proof {
        reveal_strlit(" graph delta.");
        reveal_strlit(".");
        reveal_strlit("1.0.0");
        reveal_strlit("A chain without an explicit fallback has no syntax-level exhaustiveness proof.");
        reveal_strlit("An explicit final else block becomes the exact wildcard match arm.");
        reveal_strlit("Build after the ");
        reveal_strlit("Comparisons over different identifiers cannot share a match subject.");
        reveal_strlit("Complete semantic evidence proves equality tests and match patterns select identical values.");
        reveal_strlit("Evaluating the match subject once changes move, borrow, lifetime, or drop behavior.");
        reveal_strlit("Every branch compares the same identifier to a distinct literal or qualified path.");
        reveal_strlit("Non-structured control participates in the callable.");
        reveal_strlit("PST facts retain the nested dispatch reachability boundary.");
        reveal_strlit("Parse the exact replacement.");
        reveal_strlit("Rebuild and compare the ");
        reveal_strlit("Recovered syntax or conservative dispatch control participates.");
        reveal_strlit("Replacing equality dispatch changes effects, panic, exception, or suspension behavior.");
        reveal_strlit("Run project tests before accepting the review candidate.");
        reveal_strlit("Structural exhaustiveness is exact but equality/type semantics lack production authority.");
        reveal_strlit("The generated unguarded final-wildcard match has exact retained CFG lowering.");
        reveal_strlit("Two qualified-path comparisons and a fallback become a final-wildcard match.");
        reveal_strlit("build");
        reveal_strlit("chain-pst-nesting-retained");
        reveal_strlit("comparison-effect-or-exception-change");
        reveal_strlit("different-subjects");
        reveal_strlit("equality-pattern-semantics-preserved");
        reveal_strlit("exhaustive match dispatch");
        reveal_strlit("explicit-fallback-exhaustive");
        reveal_strlit("graph-delta");
        reveal_strlit("match-dispatch-reconstructible");
        reveal_strlit("missing-final-fallback");
        reveal_strlit("non-structured-control");
        reveal_strlit("parse");
        reveal_strlit("qualified-enum-chain");
        reveal_strlit("recovered-or-conservative-control");
        reveal_strlit("rust-convert-exhaustive-chain-to-match");
        reveal_strlit("shared-subject-comparisons-exact");
        reveal_strlit("subject-move-borrow-or-drop-change");
        reveal_strlit("test");
        reveal_strlit("unknown-partialeq-semantics");
        assert forall|i: int| 0 <= i < draft.required_conditions@.len() implies is_canonical_text((#[trigger] draft.required_conditions@[i]).key@) && is_canonical_text(draft.required_conditions@[i].description@) by {
            if i == 0 {} else if i == 1 {} else if i == 2 {} else if i == 3 {} else if i == 4 {} else if i == 5 {} else if i == 6 {} else if i == 7 {} else if i == 8 {} else if i == 9 {} else if i == 10 {} else if i == 11 {}
        }
        assert forall|i: int, j: int| 0 <= i < j < draft.required_conditions@.len() implies (#[trigger] draft.required_conditions@[i]).key@ != (#[trigger] draft.required_conditions@[j]).key@ by {
            if i == 0 { if j == 1 {} else if j == 2 {} else if j == 3 {} else if j == 4 {} else if j == 5 {} else if j == 6 {} else if j == 7 {} else if j == 8 {} else if j == 9 {} else if j == 10 {} else if j == 11 {} } else if i == 1 { if j == 2 {} else if j == 3 {} else if j == 4 {} else if j == 5 {} else if j == 6 {} else if j == 7 {} else if j == 8 {} else if j == 9 {} else if j == 10 {} else if j == 11 {} } else if i == 2 { if j == 3 {} else if j == 4 {} else if j == 5 {} else if j == 6 {} else if j == 7 {} else if j == 8 {} else if j == 9 {} else if j == 10 {} else if j == 11 {} } else if i == 3 { if j == 4 {} else if j == 5 {} else if j == 6 {} else if j == 7 {} else if j == 8 {} else if j == 9 {} else if j == 10 {} else if j == 11 {} } else if i == 4 { if j == 5 {} else if j == 6 {} else if j == 7 {} else if j == 8 {} else if j == 9 {} else if j == 10 {} else if j == 11 {} } else if i == 5 { if j == 6 {} else if j == 7 {} else if j == 8 {} else if j == 9 {} else if j == 10 {} else if j == 11 {} } else if i == 6 { if j == 7 {} else if j == 8 {} else if j == 9 {} else if j == 10 {} else if j == 11 {} } else if i == 7 { if j == 8 {} else if j == 9 {} else if j == 10 {} else if j == 11 {} } else if i == 8 { if j == 9 {} else if j == 10 {} else if j == 11 {} } else if i == 9 { if j == 10 {} else if j == 11 {} } else if i == 10 { if j == 11 {} }
        }
        assert forall|i: int| 0 <= i < draft.forbidden_conditions@.len() implies is_canonical_text((#[trigger] draft.forbidden_conditions@[i]).key@) && is_canonical_text(draft.forbidden_conditions@[i].description@) by {
            if i == 0 {} else if i == 1 {} else if i == 2 {} else if i == 3 {} else if i == 4 {} else if i == 5 {}
        }
        assert forall|i: int, j: int| 0 <= i < j < draft.forbidden_conditions@.len() implies (#[trigger] draft.forbidden_conditions@[i]).key@ != (#[trigger] draft.forbidden_conditions@[j]).key@ by {
            if i == 0 { if j == 1 {} else if j == 2 {} else if j == 3 {} else if j == 4 {} else if j == 5 {} } else if i == 1 { if j == 2 {} else if j == 3 {} else if j == 4 {} else if j == 5 {} } else if i == 2 { if j == 3 {} else if j == 4 {} else if j == 5 {} } else if i == 3 { if j == 4 {} else if j == 5 {} } else if i == 4 { if j == 5 {} }
        }
        assert forall|i: int| 0 <= i < draft.validation_plan.steps@.len() implies crate::contract::step_valid(#[trigger] draft.validation_plan.steps@[i]) by {
            if i == 0 {} else if i == 1 {} else if i == 2 {} else if i == 3 {} else if i == 4 {} else if i == 5 {}
        }
        assert forall|i: int, j: int| 0 <= i < j < draft.validation_plan.steps@.len() implies (#[trigger] draft.validation_plan.steps@[i]).key@ != (#[trigger] draft.validation_plan.steps@[j]).key@ by {
            if i == 0 { if j == 1 {} else if j == 2 {} else if j == 3 {} else if j == 4 {} else if j == 5 {} } else if i == 1 { if j == 2 {} else if j == 3 {} else if j == 4 {} else if j == 5 {} } else if i == 2 { if j == 3 {} else if j == 4 {} else if j == 5 {} } else if i == 3 { if j == 4 {} else if j == 5 {} } else if i == 4 { if j == 5 {} }
        }
        assert(exhaustive_chain_to_match_recipe_draft(draft));
        assert(recipe_draft_sound(draft));
    }
    build_recipe(draft)
}

/// Build, graph delta, parse and test, the first two naming the rewrite.
fn branch_validation(noun: &str) -> (p: ValidationPlan)
    ensures
        p.steps@.len() == 4,
        step_is(p.steps@[0], "build"@, ValidationStepKind::Build, "Build after the "@ + noun@ + "."@),
        step_is(p.steps@[1], "graph-delta"@, ValidationStepKind::GraphDelta, "Rebuild and compare the "@ + noun@ + " graph delta."@),
        step_is(p.steps@[2], "parse"@, ValidationStepKind::Parse, "Parse the exact replacement."@),
        step_is(p.steps@[3], "test"@, ValidationStepKind::Test, "Run project tests before accepting the review candidate."@),
{
    let mut build = "Build after the ".to_owned();
    build.append(noun);
    build.append(".");
    let mut delta = "Rebuild and compare the ".to_owned();
    delta.append(noun);
    delta.append(" graph delta.");
    ValidationPlan {
        steps: vec![
            ValidationStep {
                key: "build".to_owned(),
                kind: ValidationStepKind::Build,
                description: build,
                command: None,
                required: true,
            },
            ValidationStep {
                key: "graph-delta".to_owned(),
                kind: ValidationStepKind::GraphDelta,
                description: delta,
                command: None,
                required: true,
            },
            validation("parse", ValidationStepKind::Parse, "Parse the exact replacement."),
            validation(
                "test",
                ValidationStepKind::Test,
                "Run project tests before accepting the review candidate.",
            ),
        ],
    }
}

/// Reverse the exact edits under revision guards, then build, check the
/// graph delta, parse and test.
fn branch_rollback() -> (p: RollbackPlan)
    ensures
        p.strategy == RollbackStrategy::ReverseExactEdits,
        p.require_revision_guards,
        p.validation_steps@.len() == 4,
        p.validation_steps@[0]@ == "build"@,
        p.validation_steps@[1]@ == "graph-delta"@,
        p.validation_steps@[2]@ == "parse"@,
        p.validation_steps@[3]@ == "test"@,
{
    RollbackPlan {
        strategy: RollbackStrategy::ReverseExactEdits,
        require_revision_guards: true,
        validation_steps: vec![
            "build".to_owned(),
            "graph-delta".to_owned(),
            "parse".to_owned(),
            "test".to_owned(),
        ],
    }
}


/// Why terminal-branch rewriting failed: a recipe contract, an impact query, graph
/// eligibility, or an inconsistent projection.
#[derive(Clone, Debug)]
pub enum TerminalBranchRecipeError {
    Contract(RecipeContractError),
    Impact(ImpactQueryError),
    Eligibility(String),
    Projection(String),
}

pub open spec fn terminal_branch_recipe_error_message(e: TerminalBranchRecipeError) -> Seq<char> {
    match e {
        TerminalBranchRecipeError::Contract(c) => contract_error_message(c),
        TerminalBranchRecipeError::Impact(e) => impact_error_message(e),
        TerminalBranchRecipeError::Eligibility(d) => "terminal-branch graph eligibility failed: "@ + d@,
        TerminalBranchRecipeError::Projection(d) => "terminal-branch recipe received an inconsistent projection: "@ + d@,
    }
}

impl TerminalBranchRecipeError {
    /// The message of the error.
    pub fn message(&self) -> (m: String)
        ensures
            m@ == terminal_branch_recipe_error_message(*self),
    {
        match self {
            TerminalBranchRecipeError::Contract(e) => e.message(),
            TerminalBranchRecipeError::Impact(e) => e.message(),
            TerminalBranchRecipeError::Eligibility(d) => labeled_message("terminal-branch graph eligibility failed: ", d.as_str()),
            TerminalBranchRecipeError::Projection(d) => labeled_message("terminal-branch recipe received an inconsistent projection: ", d.as_str()),
        }
    }
}

} // verus!
