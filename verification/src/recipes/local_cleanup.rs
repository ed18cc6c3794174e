//! Local cleanups: inlining a single-use temporary and removing unused literal expressions and locals.

use vstd::prelude::*;
use crate::contract::{
    contract_error_message, labeled_message,
    FixtureExpectation, RecipeContractError, RecipeFixture, RecipeFixtureRole, RollbackPlan,
    RollbackStrategy, TransformationFamily, ValidationPlan, ValidationStepKind,
};
use crate::impact::{impact_error_message, ImpactQueryError};
use crate::model::{GraphEvidenceLayer, SafetyClass};
use crate::recipe::{recipe_draft_sound, TransformationRecipe, TransformationRecipeDraft};
use crate::recipe::canonical_arrangement;
use super::{build_recipe, condition, condition_is, fixture, fixture_is, lemma_ranked_layers_canonical, recipe_header, step_is, validation};
use crate::text::is_canonical_text;

verus! {

pub const DEF_USE: &'static str = "complete-exact-def-use-frontier";
pub const EFFECTS: &'static str = "complete-empty-effect-frontier";
pub const SINGLE_USE: &'static str = "adjacent-single-read-use";
pub const CLOSED: &'static str = "closed-primitive-initializer";
pub const NO_REFS: &'static str = "complete-empty-reference-set";
pub const LITERAL: &'static str = "direct-unused-literal-expression";
pub const LOCATION: &'static str = "diagnostic-and-panic-location-reviewed";
pub const PARTIAL: &'static str = "partial-or-uncertain-semantic-frontier";
pub const EFFECTFUL: &'static str = "call-memory-drop-or-control-effect";
pub const BAD_SHAPE: &'static str = "typed-mutable-pattern-macro-or-recovered-shape";

#[derive(Clone, Copy)]
pub enum CleanupKind {
    InlineTemporary,
    RemoveExpression,
    RemoveDeadLocal,
}

spec fn cleanup_name(kind: CleanupKind) -> Seq<char> {
    match kind {
        CleanupKind::InlineTemporary => "rust-inline-exact-single-use-temporary"@,
        CleanupKind::RemoveExpression => "rust-remove-unused-pure-literal-expression"@,
        CleanupKind::RemoveDeadLocal => "rust-remove-independent-unused-literal-local"@,
    }
}

spec fn cleanup_safety(kind: CleanupKind) -> SafetyClass {
    match kind {
        CleanupKind::InlineTemporary => SafetyClass::SafeWithPrecondition,
        _ => SafetyClass::SafeAuto,
    }
}

/// The layers every local cleanup requires.
pub open spec fn cleanup_layers() -> Seq<GraphEvidenceLayer> {
    seq![
        GraphEvidenceLayer::ControlFlow,
        GraphEvidenceLayer::ControlRegions,
        GraphEvidenceLayer::NonStructuredControl,
        GraphEvidenceLayer::DataFlow,
        GraphEvidenceLayer::ProgramDependence,
    ]
}

pub fn inline_single_use_temporary_recipe() -> (r: Result<TransformationRecipe, RecipeContractError>)
    ensures
        r is Ok,
        recipe_header(
            r,
            "rust-inline-exact-single-use-temporary"@,
            "1.0.0"@,
            TransformationFamily::FunctionExpression,
            SafetyClass::SafeWithPrecondition,
            cleanup_layers(),
        ),
{
    cleanup_recipe(CleanupKind::InlineTemporary)
}

pub fn remove_unused_pure_expression_recipe() -> (r: Result<TransformationRecipe, RecipeContractError>)
    ensures
        r is Ok,
        recipe_header(
            r,
            "rust-remove-unused-pure-literal-expression"@,
            "1.0.0"@,
            TransformationFamily::FunctionExpression,
            SafetyClass::SafeAuto,
            cleanup_layers(),
        ),
{
    cleanup_recipe(CleanupKind::RemoveExpression)
}

pub fn remove_independent_dead_local_recipe() -> (r: Result<TransformationRecipe, RecipeContractError>)
    ensures
        r is Ok,
        recipe_header(
            r,
            "rust-remove-independent-unused-literal-local"@,
            "1.0.0"@,
            TransformationFamily::FunctionExpression,
            SafetyClass::SafeAuto,
            cleanup_layers(),
        ),
{
    cleanup_recipe(CleanupKind::RemoveDeadLocal)
}

fn cleanup_recipe(kind: CleanupKind) -> (r: Result<TransformationRecipe, RecipeContractError>)
    ensures
        r is Ok,
        recipe_header(
            r,
            cleanup_name(kind),
            "1.0.0"@,
            TransformationFamily::FunctionExpression,
            cleanup_safety(kind),
            cleanup_layers(),
        ),
{
    let (name, maximum_safety, required_conditions, fixtures) = match kind {
        CleanupKind::InlineTemporary => (
            "rust-inline-exact-single-use-temporary",
            SafetyClass::SafeWithPrecondition,
            vec![
                req(
                    DEF_USE,
                    "Complete def/use proves one definition and its only reaching read.",
                    GraphEvidenceLayer::DataFlow,
                ),
                req(
                    EFFECTS,
                    "The initializer point has a complete empty effect frontier.",
                    GraphEvidenceLayer::DataFlow,
                ),
                req(
                    SINGLE_USE,
                    "The sole use is in the immediately following direct-body statement.",
                    GraphEvidenceLayer::ControlFlow,
                ),
                req(
                    CLOSED,
                    "The immutable untyped initializer is a closed primitive expression.",
                    GraphEvidenceLayer::ControlFlow,
                ),
                req(
                    LOCATION,
                    "Diagnostic and panic source locations require review.",
                    GraphEvidenceLayer::ControlFlow,
                ),
            ],
            fixtures_for(kind),
        ),
        CleanupKind::RemoveExpression => (
            "rust-remove-unused-pure-literal-expression",
            SafetyClass::SafeAuto,
            vec![
                req(
                    DEF_USE,
                    "Complete def/use retains no definition or access at the expression.",
                    GraphEvidenceLayer::DataFlow,
                ),
                req(
                    EFFECTS,
                    "Complete effects retain no boundary or effect at the expression.",
                    GraphEvidenceLayer::DataFlow,
                ),
                req(
                    LITERAL,
                    "The reachable direct-body statement contains only a literal.",
                    GraphEvidenceLayer::ControlFlow,
                ),
            ],
            fixtures_for(kind),
        ),
        CleanupKind::RemoveDeadLocal => (
            "rust-remove-independent-unused-literal-local",
            SafetyClass::SafeAuto,
            vec![
                req(
                    DEF_USE,
                    "Complete def/use retains one exact local definition.",
                    GraphEvidenceLayer::DataFlow,
                ),
                req(
                    NO_REFS,
                    "The local symbol has no retained access.",
                    GraphEvidenceLayer::DataFlow,
                ),
                req(
                    EFFECTS,
                    "The literal initializer has an empty effect frontier.",
                    GraphEvidenceLayer::DataFlow,
                ),
                req(
                    CLOSED,
                    "The immutable untyped initializer is one closed literal.",
                    GraphEvidenceLayer::ControlFlow,
                ),
            ],
            fixtures_for(kind),
        ),
    };
    let required_layers = vec![
            GraphEvidenceLayer::ControlFlow,
            GraphEvidenceLayer::ControlRegions,
            GraphEvidenceLayer::NonStructuredControl,
            GraphEvidenceLayer::DataFlow,
            GraphEvidenceLayer::ProgramDependence,
        ];
    proof {
        lemma_ranked_layers_canonical(required_layers@);
    }
    let draft = TransformationRecipeDraft {
        name: name.to_owned(),
        version: "1.0.0".to_owned(),
        family: TransformationFamily::FunctionExpression,
        required_layers,
        required_conditions,
        forbidden_conditions: vec![
            condition(
                PARTIAL,
                "Partial or uncertain DefUse, Effects, or LocalPdg blocks cleanup.",
                GraphEvidenceLayer::ProgramDependence,
            ),
            condition(
                EFFECTFUL,
                "A call, memory, allocation, drop, or control effect blocks cleanup.",
                GraphEvidenceLayer::DataFlow,
            ),
            condition(
                BAD_SHAPE,
                "Typed, mutable, destructuring, macro, comment, or recovered syntax blocks cleanup.",
                GraphEvidenceLayer::ControlFlow,
            ),
        ],
        maximum_safety,
        validation_plan: validation_plan(),
        rollback_plan: rollback_plan(),
        fixtures,
    };
    proof {
        reveal_strlit("1.0.0");
        reveal_strlit("A call is not a removable literal.");
        reveal_strlit("A call, memory, allocation, drop, or control effect blocks cleanup.");
        reveal_strlit("A literal local has no retained use or effect.");
        reveal_strlit("A literal statement has no retained semantic output.");
        reveal_strlit("A read keeps the definition live.");
        reveal_strlit("A second read keeps the binding live.");
        reveal_strlit("An unused call result does not make the call removable.");
        reveal_strlit("Build the exact local cleanup.");
        reveal_strlit("Complete def/use proves one definition and its only reaching read.");
        reveal_strlit("Complete def/use retains no definition or access at the expression.");
        reveal_strlit("Complete def/use retains one exact local definition.");
        reveal_strlit("Complete effects retain no boundary or effect at the expression.");
        reveal_strlit("Diagnostic and panic source locations require review.");
        reveal_strlit("Evaluation cannot move across another statement.");
        reveal_strlit("Missing effects cannot prove purity.");
        reveal_strlit("One exact local reaches one adjacent read.");
        reveal_strlit("Panic-capable operators are not automatically deleted.");
        reveal_strlit("Parse the exact edit transaction.");
        reveal_strlit("Partial or uncertain DefUse, Effects, or LocalPdg blocks cleanup.");
        reveal_strlit("Run project tests after cleanup.");
        reveal_strlit("Spelling cannot replace exact definition identity.");
        reveal_strlit("The immutable untyped initializer is a closed primitive expression.");
        reveal_strlit("The immutable untyped initializer is one closed literal.");
        reveal_strlit("The initializer point has a complete empty effect frontier.");
        reveal_strlit("The literal initializer has an empty effect frontier.");
        reveal_strlit("The local symbol has no retained access.");
        reveal_strlit("The reachable direct-body statement contains only a literal.");
        reveal_strlit("The sole use is in the immediately following direct-body statement.");
        reveal_strlit("Type and pattern boundaries need stronger authority.");
        reveal_strlit("Typed, mutable, destructuring, macro, comment, or recovered syntax blocks cleanup.");
        reveal_strlit("Verify the expected def/use/effect delta.");
        reveal_strlit("adjacent-single-read-use");
        reveal_strlit("adjacent-single-use");
        reveal_strlit("build");
        reveal_strlit("call-initializer");
        reveal_strlit("call-memory-drop-or-control-effect");
        reveal_strlit("call-statement");
        reveal_strlit("closed-primitive-initializer");
        reveal_strlit("complete-empty-effect-frontier");
        reveal_strlit("complete-empty-reference-set");
        reveal_strlit("complete-exact-def-use-frontier");
        reveal_strlit("diagnostic-and-panic-location-reviewed");
        reveal_strlit("direct-unused-literal-expression");
        reveal_strlit("foreign-reaching-definition");
        reveal_strlit("graph-delta");
        reveal_strlit("intervening-statement");
        reveal_strlit("live-local");
        reveal_strlit("operator-statement");
        reveal_strlit("parse");
        reveal_strlit("partial-effects");
        reveal_strlit("partial-or-uncertain-semantic-frontier");
        reveal_strlit("rust-inline-exact-single-use-temporary");
        reveal_strlit("rust-remove-independent-unused-literal-local");
        reveal_strlit("rust-remove-unused-pure-literal-expression");
        reveal_strlit("test");
        reveal_strlit("two-reads");
        reveal_strlit("typed-mutable-pattern-macro-or-recovered-shape");
        reveal_strlit("typed-pattern");
        reveal_strlit("unused-literal");
        reveal_strlit("unused-literal-local");
        assert forall|i: int| 0 <= i < draft.required_conditions@.len() implies is_canonical_text((#[trigger] draft.required_conditions@[i]).key@) && is_canonical_text(draft.required_conditions@[i].description@) by {
            if i == 0 {} else if i == 1 {} else if i == 2 {} else if i == 3 {} else if i == 4 {} else if i == 5 {} else if i == 6 {} else if i == 7 {} else if i == 8 {} else if i == 9 {} else if i == 10 {} else if i == 11 {}
        }
        assert forall|i: int, j: int| 0 <= i < j < draft.required_conditions@.len() implies (#[trigger] draft.required_conditions@[i]).key@ != (#[trigger] draft.required_conditions@[j]).key@ by {
            if i == 0 { if j == 1 {} else if j == 2 {} else if j == 3 {} else if j == 4 {} else if j == 5 {} else if j == 6 {} else if j == 7 {} else if j == 8 {} else if j == 9 {} else if j == 10 {} else if j == 11 {} } else if i == 1 { if j == 2 {} else if j == 3 {} else if j == 4 {} else if j == 5 {} else if j == 6 {} else if j == 7 {} else if j == 8 {} else if j == 9 {} else if j == 10 {} else if j == 11 {} } else if i == 2 { if j == 3 {} else if j == 4 {} else if j == 5 {} else if j == 6 {} else if j == 7 {} else if j == 8 {} else if j == 9 {} else if j == 10 {} else if j == 11 {} } else if i == 3 { if j == 4 {} else if j == 5 {} else if j == 6 {} else if j == 7 {} else if j == 8 {} else if j == 9 {} else if j == 10 {} else if j == 11 {} } else if i == 4 { if j == 5 {} else if j == 6 {} else if j == 7 {} else if j == 8 {} else if j == 9 {} else if j == 10 {} else if j == 11 {} } else if i == 5 { if j == 6 {} else if j == 7 {} else if j == 8 {} else if j == 9 {} else if j == 10 {} else if j == 11 {} } else if i == 6 { if j == 7 {} else if j == 8 {} else if j == 9 {} else if j == 10 {} else if j == 11 {} } else if i == 7 { if j == 8 {} else if j == 9 {} else if j == 10 {} else if j == 11 {} } else if i == 8 { if j == 9 {} else if j == 10 {} else if j == 11 {} } else if i == 9 { if j == 10 {} else if j == 11 {} } else if i == 10 { if j == 11 {} }
        }
        assert forall|i: int| 0 <= i < draft.forbidden_conditions@.len() implies is_canonical_text((#[trigger] draft.forbidden_conditions@[i]).key@) && is_canonical_text(draft.forbidden_conditions@[i].description@) by {
            if i == 0 {} else if i == 1 {} else if i == 2 {} else if i == 3 {} else if i == 4 {} else if i == 5 {}
        }
        assert forall|i: int, j: int| 0 <= i < j < draft.forbidden_conditions@.len() implies (#[trigger] draft.forbidden_conditions@[i]).key@ != (#[trigger] draft.forbidden_conditions@[j]).key@ by {
            if i == 0 { if j == 1 {} else if j == 2 {} else if j == 3 {} else if j == 4 {} else if j == 5 {} } else if i == 1 { if j == 2 {} else if j == 3 {} else if j == 4 {} else if j == 5 {} } else if i == 2 { if j == 3 {} else if j == 4 {} else if j == 5 {} } else if i == 3 { if j == 4 {} else if j == 5 {} } else if i == 4 { if j == 5 {} }
        }
        assert forall|i: int| 0 <= i < draft.validation_plan.steps@.len() implies crate::contract::step_valid(#[trigger] draft.validation_plan.steps@[i]) by {
            if i == 0 {} else if i == 1 {} else if i == 2 {} else if i == 3 {} else if i == 4 {} else if i == 5 {}
        }
        assert forall|i: int, j: int| 0 <= i < j < draft.validation_plan.steps@.len() implies (#[trigger] draft.validation_plan.steps@[i]).key@ != (#[trigger] draft.validation_plan.steps@[j]).key@ by {
            if i == 0 { if j == 1 {} else if j == 2 {} else if j == 3 {} else if j == 4 {} else if j == 5 {} } else if i == 1 { if j == 2 {} else if j == 3 {} else if j == 4 {} else if j == 5 {} } else if i == 2 { if j == 3 {} else if j == 4 {} else if j == 5 {} } else if i == 3 { if j == 4 {} else if j == 5 {} } else if i == 4 { if j == 5 {} }
        }
        assert(recipe_draft_sound(draft));
    }
    build_recipe(draft)
}

/// The name and description of the fixture of a cleanup in a role: the
/// positive case, the no-op, the minimal counterexample and the
/// adversarial near miss, in that order.
pub open spec fn cleanup_fixture(kind: CleanupKind, role: int) -> (Seq<char>, Seq<char>) {
    match kind {
        CleanupKind::InlineTemporary => if role == 0 {
            ("adjacent-single-use"@, "One exact local reaches one adjacent read."@)
        } else if role == 1 {
            ("two-reads"@, "A second read keeps the binding live."@)
        } else if role == 2 {
            ("intervening-statement"@, "Evaluation cannot move across another statement."@)
        } else {
            ("foreign-reaching-definition"@, "Spelling cannot replace exact definition identity."@)
        },
        CleanupKind::RemoveExpression => if role == 0 {
            ("unused-literal"@, "A literal statement has no retained semantic output."@)
        } else if role == 1 {
            ("call-statement"@, "A call is not a removable literal."@)
        } else if role == 2 {
            ("operator-statement"@, "Panic-capable operators are not automatically deleted."@)
        } else {
            ("partial-effects"@, "Missing effects cannot prove purity."@)
        },
        CleanupKind::RemoveDeadLocal => if role == 0 {
            ("unused-literal-local"@, "A literal local has no retained use or effect."@)
        } else if role == 1 {
            ("live-local"@, "A read keeps the definition live."@)
        } else if role == 2 {
            ("call-initializer"@, "An unused call result does not make the call removable."@)
        } else {
            ("typed-pattern"@, "Type and pattern boundaries need stronger authority."@)
        },
    }
}

/// The four fixtures of a cleanup: one candidate for the positive case and
/// none for the no-op, the minimal counterexample and the near miss.
fn fixtures_for(kind: CleanupKind) -> (r: Vec<RecipeFixture>)
    ensures
        r@.len() == 4,
        fixture_is(r@[0], RecipeFixtureRole::Positive, cleanup_fixture(kind, 0).0, FixtureExpectation::Candidate, cleanup_fixture(kind, 0).1),
        fixture_is(r@[1], RecipeFixtureRole::NoOp, cleanup_fixture(kind, 1).0, FixtureExpectation::NoCandidate, cleanup_fixture(kind, 1).1),
        fixture_is(r@[2], RecipeFixtureRole::MinimalCounterexample, cleanup_fixture(kind, 2).0, FixtureExpectation::NoCandidate, cleanup_fixture(kind, 2).1),
        fixture_is(r@[3], RecipeFixtureRole::AdversarialNearMiss, cleanup_fixture(kind, 3).0, FixtureExpectation::NoCandidate, cleanup_fixture(kind, 3).1),
{
    let (positive, no_op, minimal, adversarial) = match kind {
        CleanupKind::InlineTemporary => (
            (
                "adjacent-single-use",
                "One exact local reaches one adjacent read.",
            ),
            ("two-reads", "A second read keeps the binding live."),
            (
                "intervening-statement",
                "Evaluation cannot move across another statement.",
            ),
            (
                "foreign-reaching-definition",
                "Spelling cannot replace exact definition identity.",
            ),
        ),
        CleanupKind::RemoveExpression => (
            (
                "unused-literal",
                "A literal statement has no retained semantic output.",
            ),
            ("call-statement", "A call is not a removable literal."),
            (
                "operator-statement",
                "Panic-capable operators are not automatically deleted.",
            ),
            ("partial-effects", "Missing effects cannot prove purity."),
        ),
        CleanupKind::RemoveDeadLocal => (
            (
                "unused-literal-local",
                "A literal local has no retained use or effect.",
            ),
            ("live-local", "A read keeps the definition live."),
            (
                "call-initializer",
                "An unused call result does not make the call removable.",
            ),
            (
                "typed-pattern",
                "Type and pattern boundaries need stronger authority.",
            ),
        ),
    };
    vec![
        fixture(
            RecipeFixtureRole::Positive,
            positive.0,
            FixtureExpectation::Candidate,
            positive.1,
        ),
        fixture(
            RecipeFixtureRole::NoOp,
            no_op.0,
            FixtureExpectation::NoCandidate,
            no_op.1,
        ),
        fixture(
            RecipeFixtureRole::MinimalCounterexample,
            minimal.0,
            FixtureExpectation::NoCandidate,
            minimal.1,
        ),
        fixture(
            RecipeFixtureRole::AdversarialNearMiss,
            adversarial.0,
            FixtureExpectation::NoCandidate,
            adversarial.1,
        ),
    ]
}

fn req(key: &str, description: &str, layer: GraphEvidenceLayer) -> (c: crate::contract::RecipeCondition)
    ensures
        c.key@ == key@,
        c.description@ == description@,
        c.layer == layer,
{
    condition(key, description, layer)
}

/// Build, graph delta, parse and test, in that order.
fn validation_plan() -> (r: ValidationPlan)
    ensures
        r.steps@.len() == 4,
        step_is(r.steps@[0], "build"@, ValidationStepKind::Build, "Build the exact local cleanup."@),
        step_is(r.steps@[1], "graph-delta"@, ValidationStepKind::GraphDelta, "Verify the expected def/use/effect delta."@),
        step_is(r.steps@[2], "parse"@, ValidationStepKind::Parse, "Parse the exact edit transaction."@),
        step_is(r.steps@[3], "test"@, ValidationStepKind::Test, "Run project tests after cleanup."@),
{
    ValidationPlan {
        steps: vec![
            validation(
                "build",
                ValidationStepKind::Build,
                "Build the exact local cleanup.",
            ),
            validation(
                "graph-delta",
                ValidationStepKind::GraphDelta,
                "Verify the expected def/use/effect delta.",
            ),
            validation(
                "parse",
                ValidationStepKind::Parse,
                "Parse the exact edit transaction.",
            ),
            validation(
                "test",
                ValidationStepKind::Test,
                "Run project tests after cleanup.",
            ),
        ],
    }
}

/// Reverse the exact edits under revision guards, then build, check the
/// graph delta, parse and test.
fn rollback_plan() -> (r: RollbackPlan)
    ensures
        r.strategy == RollbackStrategy::ReverseExactEdits,
        r.require_revision_guards,
        r.validation_steps@.len() == 4,
        r.validation_steps@[0]@ == "build"@,
        r.validation_steps@[1]@ == "graph-delta"@,
        r.validation_steps@[2]@ == "parse"@,
        r.validation_steps@[3]@ == "test"@,
{
    RollbackPlan {
        strategy: RollbackStrategy::ReverseExactEdits,
        require_revision_guards: true,
        validation_steps: vec![
            "build".to_owned(),
            "graph-delta".to_owned(),
            "parse".to_owned(),
            "test".to_owned(),
        ],
    }
}


/// Why local cleanup failed: a recipe contract, an impact query, graph
/// eligibility, or an inconsistent projection.
#[derive(Clone, Debug)]
pub enum LocalCleanupRecipeError {
    Contract(RecipeContractError),
    Impact(ImpactQueryError),
    Eligibility(String),
    Projection(String),
}

pub open spec fn local_cleanup_recipe_error_message(e: LocalCleanupRecipeError) -> Seq<char> {
    match e {
        LocalCleanupRecipeError::Contract(c) => contract_error_message(c),
        LocalCleanupRecipeError::Impact(e) => impact_error_message(e),
        LocalCleanupRecipeError::Eligibility(d) => "local-cleanup graph eligibility failed: "@ + d@,
        LocalCleanupRecipeError::Projection(d) => "local-cleanup projection is inconsistent: "@ + d@,
    }
}

impl LocalCleanupRecipeError {
    /// The message of the error.
    pub fn message(&self) -> (m: String)
        ensures
            m@ == local_cleanup_recipe_error_message(*self),
    {
        match self {
            LocalCleanupRecipeError::Contract(e) => e.message(),
            LocalCleanupRecipeError::Impact(e) => e.message(),
            LocalCleanupRecipeError::Eligibility(d) => labeled_message("local-cleanup graph eligibility failed: ", d.as_str()),
            LocalCleanupRecipeError::Projection(d) => labeled_message("local-cleanup projection is inconsistent: ", d.as_str()),
        }
    }
}

} // verus!
