//! Canonical ordering of simple import blocks and hoisted private function blocks.

use vstd::prelude::*;
use crate::contract::{
    contract_error_message, labeled_message,
    FixtureExpectation, RecipeContractError, RecipeFixture, RecipeFixtureRole, RollbackPlan,
    RollbackStrategy, TransformationFamily, ValidationPlan, ValidationStepKind,
};
use crate::model::{GraphEvidenceLayer, SafetyClass};
use crate::recipe::{recipe_draft_sound, TransformationRecipe, TransformationRecipeDraft};
use crate::recipe::canonical_arrangement;
use super::{build_recipe, condition, condition_is, fixture, fixture_is, lemma_ranked_layers_canonical, recipe_header, step_is, validation};
use crate::text::is_canonical_text;

verus! {

pub const COMPLETE_AUTHORITY: &'static str = "complete-scope-and-resolution-authority";
pub const SIMPLE_IMPORTS: &'static str = "simple-order-independent-imports";
pub const HOISTED_PRIVATE: &'static str = "hoisted-private-function-declarations";
pub const CONTIGUOUS: &'static str = "contiguous-top-level-block";
pub const UNIQUE_KEYS: &'static str = "distinct-canonical-order-keys";
pub const PARTIAL: &'static str = "partial-or-non-unique-semantic-evidence";
pub const ORDER_SENSITIVE: &'static str = "order-sensitive-import-or-declaration";
pub const TRIVIA_OR_MACRO: &'static str = "attached-trivia-attribute-macro-or-recovered-syntax";

/// The two kinds of block the ordering recipes sort.
#[derive(Clone, Copy, Debug, PartialEq, Eq, Structural)]
pub enum OrderingKind {
    Imports,
    Functions,
}

pub open spec fn ordering_name(kind: OrderingKind) -> Seq<char> {
    match kind {
        OrderingKind::Imports => "rust-sort-simple-import-block"@,
        OrderingKind::Functions => "rust-sort-hoisted-private-function-block"@,
    }
}

/// The draft of the rust-sort-simple-import-block recipe: its name, version, family,
/// maximum safety, layers, conditions, plans and fixtures, in order.
pub open spec fn simple_import_order_recipe_draft(d: TransformationRecipeDraft) -> bool {
    &&& d.name@ == "rust-sort-simple-import-block"@
    &&& d.version@ == "1.0.0"@
    &&& d.family == TransformationFamily::DependencyModule
    &&& d.maximum_safety == SafetyClass::SafeWithPrecondition
    &&& d.required_layers@ == seq![GraphEvidenceLayer::ScopeGraph, GraphEvidenceLayer::Resolution]
    &&& d.required_conditions@.len() == 4
    &&& condition_is(d.required_conditions@[0], COMPLETE_AUTHORITY@, "Scope and resolution evidence is complete and adapter-authoritative."@, GraphEvidenceLayer::ScopeGraph)
    &&& condition_is(d.required_conditions@[1], SIMPLE_IMPORTS@, "Every import is explicit/selective, unconditional, and non-side-effectful."@, GraphEvidenceLayer::ScopeGraph)
    &&& condition_is(d.required_conditions@[2], CONTIGUOUS@, "The selected nodes are direct contiguous top-level siblings."@, GraphEvidenceLayer::ScopeGraph)
    &&& condition_is(d.required_conditions@[3], UNIQUE_KEYS@, "Canonical order keys are distinct and change the block."@, GraphEvidenceLayer::ScopeGraph)
    &&& d.forbidden_conditions@.len() == 3
    &&& condition_is(d.forbidden_conditions@[0], PARTIAL@, "Partial, unknown, ambiguous, unresolved, or conflicting evidence blocks ordering."@, GraphEvidenceLayer::Resolution)
    &&& condition_is(d.forbidden_conditions@[1], ORDER_SENSITIVE@, "Side effects, conditions, exports, shadowing, dynamic scope, or non-hoisted timing block ordering."@, GraphEvidenceLayer::ScopeGraph)
    &&& condition_is(d.forbidden_conditions@[2], TRIVIA_OR_MACRO@, "Comments, attributes, macros, recovery, or observable source-location constructs block ordering."@, GraphEvidenceLayer::ScopeGraph)
    &&& d.validation_plan.steps@.len() == 5
    &&& step_is(d.validation_plan.steps@[0], "build"@, ValidationStepKind::Build, "Build the reordered Rust source."@)
    &&& step_is(d.validation_plan.steps@[1], "format"@, ValidationStepKind::Format, "Format without changing the semantic block contract."@)
    &&& step_is(d.validation_plan.steps@[2], "parse"@, ValidationStepKind::Parse, "Parse the exact reordered source."@)
    &&& step_is(d.validation_plan.steps@[3], "resolution-delta"@, ValidationStepKind::GraphDelta, "Rebuild and preserve terminal resolution endpoints."@)
    &&& step_is(d.validation_plan.steps@[4], "test"@, ValidationStepKind::Test, "Run project tests after ordering."@)
    &&& d.rollback_plan.strategy == RollbackStrategy::ReverseExactEdits
    &&& d.rollback_plan.require_revision_guards
    &&& d.rollback_plan.validation_steps@.len() == 5
    &&& d.rollback_plan.validation_steps@[0]@ == "build"@
    &&& d.rollback_plan.validation_steps@[1]@ == "format"@
    &&& d.rollback_plan.validation_steps@[2]@ == "parse"@
    &&& d.rollback_plan.validation_steps@[3]@ == "resolution-delta"@
    &&& d.rollback_plan.validation_steps@[4]@ == "test"@
    &&& d.fixtures@.len() == 4
    &&& fixture_is(d.fixtures@[0], RecipeFixtureRole::Positive, "unsorted-simple-imports"@, FixtureExpectation::Candidate, "Two exact simple imports are out of canonical order."@)
    &&& fixture_is(d.fixtures@[1], RecipeFixtureRole::NoOp, "already-ordered-imports"@, FixtureExpectation::NoCandidate, "Canonical import order is unchanged."@)
    &&& fixture_is(d.fixtures@[2], RecipeFixtureRole::MinimalCounterexample, "side-effect-or-conditional-import"@, FixtureExpectation::NoCandidate, "Order-sensitive import forms are not moved."@)
    &&& fixture_is(d.fixtures@[3], RecipeFixtureRole::AdversarialNearMiss, "partial-import-authority"@, FixtureExpectation::NoCandidate, "Spelling cannot replace complete import authority."@)
}

/// The draft of the rust-sort-hoisted-private-function-block recipe: its name, version, family,
/// maximum safety, layers, conditions, plans and fixtures, in order.
pub open spec fn hoisted_private_function_order_recipe_draft(d: TransformationRecipeDraft) -> bool {
    &&& d.name@ == "rust-sort-hoisted-private-function-block"@
    &&& d.version@ == "1.0.0"@
    &&& d.family == TransformationFamily::DependencyModule
    &&& d.maximum_safety == SafetyClass::SafeWithPrecondition
    &&& d.required_layers@ == seq![GraphEvidenceLayer::ScopeGraph, GraphEvidenceLayer::Resolution]
    &&& d.required_conditions@.len() == 4
    &&& condition_is(d.required_conditions@[0], COMPLETE_AUTHORITY@, "Scope and resolution evidence is complete and adapter-authoritative."@, GraphEvidenceLayer::ScopeGraph)
    &&& condition_is(d.required_conditions@[1], HOISTED_PRIVATE@, "Every declaration is a private hoisted plain Function with exact binding evidence."@, GraphEvidenceLayer::ScopeGraph)
    &&& condition_is(d.required_conditions@[2], CONTIGUOUS@, "The selected nodes are direct contiguous top-level siblings."@, GraphEvidenceLayer::ScopeGraph)
    &&& condition_is(d.required_conditions@[3], UNIQUE_KEYS@, "Canonical order keys are distinct and change the block."@, GraphEvidenceLayer::ScopeGraph)
    &&& d.forbidden_conditions@.len() == 3
    &&& condition_is(d.forbidden_conditions@[0], PARTIAL@, "Partial, unknown, ambiguous, unresolved, or conflicting evidence blocks ordering."@, GraphEvidenceLayer::Resolution)
    &&& condition_is(d.forbidden_conditions@[1], ORDER_SENSITIVE@, "Side effects, conditions, exports, shadowing, dynamic scope, or non-hoisted timing block ordering."@, GraphEvidenceLayer::ScopeGraph)
    &&& condition_is(d.forbidden_conditions@[2], TRIVIA_OR_MACRO@, "Comments, attributes, macros, recovery, or observable source-location constructs block ordering."@, GraphEvidenceLayer::ScopeGraph)
    &&& d.validation_plan.steps@.len() == 5
    &&& step_is(d.validation_plan.steps@[0], "build"@, ValidationStepKind::Build, "Build the reordered Rust source."@)
    &&& step_is(d.validation_plan.steps@[1], "format"@, ValidationStepKind::Format, "Format without changing the semantic block contract."@)
    &&& step_is(d.validation_plan.steps@[2], "parse"@, ValidationStepKind::Parse, "Parse the exact reordered source."@)
    &&& step_is(d.validation_plan.steps@[3], "resolution-delta"@, ValidationStepKind::GraphDelta, "Rebuild and preserve terminal resolution endpoints."@)
    &&& step_is(d.validation_plan.steps@[4], "test"@, ValidationStepKind::Test, "Run project tests after ordering."@)
    &&& d.rollback_plan.strategy == RollbackStrategy::ReverseExactEdits
    &&& d.rollback_plan.require_revision_guards
    &&& d.rollback_plan.validation_steps@.len() == 5
    &&& d.rollback_plan.validation_steps@[0]@ == "build"@
    &&& d.rollback_plan.validation_steps@[1]@ == "format"@
    &&& d.rollback_plan.validation_steps@[2]@ == "parse"@
    &&& d.rollback_plan.validation_steps@[3]@ == "resolution-delta"@
    &&& d.rollback_plan.validation_steps@[4]@ == "test"@
    &&& d.fixtures@.len() == 4
    &&& fixture_is(d.fixtures@[0], RecipeFixtureRole::Positive, "unsorted-hoisted-functions"@, FixtureExpectation::Candidate, "Two exact private hoisted functions are out of canonical order."@)
    &&& fixture_is(d.fixtures@[1], RecipeFixtureRole::NoOp, "already-ordered-functions"@, FixtureExpectation::NoCandidate, "Canonical declaration order is unchanged."@)
    &&& fixture_is(d.fixtures@[2], RecipeFixtureRole::MinimalCounterexample, "public-or-unhoisted-function"@, FixtureExpectation::NoCandidate, "API or order-sensitive declarations are not moved."@)
    &&& fixture_is(d.fixtures@[3], RecipeFixtureRole::AdversarialNearMiss, "macro-or-partial-resolution"@, FixtureExpectation::NoCandidate, "Macro/source-location behavior and partial bindings abstain."@)
}

pub fn simple_import_order_recipe() -> (r: Result<TransformationRecipe, RecipeContractError>)
    ensures
        r matches Ok(x) ==> exists|d: TransformationRecipeDraft| simple_import_order_recipe_draft(d) && canonical_arrangement(x.spec_draft(), d),
        r is Ok,
        recipe_header(
            r,
            "rust-sort-simple-import-block"@,
            "1.0.0"@,
            TransformationFamily::DependencyModule,
            SafetyClass::SafeWithPrecondition,
            seq![GraphEvidenceLayer::ScopeGraph, GraphEvidenceLayer::Resolution],
        ),
{
    ordering_recipe(OrderingKind::Imports)
}

pub fn hoisted_private_function_order_recipe() -> (r: Result<TransformationRecipe, RecipeContractError>)
    ensures
        r matches Ok(x) ==> exists|d: TransformationRecipeDraft| hoisted_private_function_order_recipe_draft(d) && canonical_arrangement(x.spec_draft(), d),
        r is Ok,
        recipe_header(
            r,
            "rust-sort-hoisted-private-function-block"@,
            "1.0.0"@,
            TransformationFamily::DependencyModule,
            SafetyClass::SafeWithPrecondition,
            seq![GraphEvidenceLayer::ScopeGraph, GraphEvidenceLayer::Resolution],
        ),
{
    ordering_recipe(OrderingKind::Functions)
}

fn ordering_recipe(kind: OrderingKind) -> (r: Result<TransformationRecipe, RecipeContractError>)
    ensures
        kind == OrderingKind::Imports ==> (r matches Ok(x) ==> exists|d: TransformationRecipeDraft| simple_import_order_recipe_draft(d) && canonical_arrangement(x.spec_draft(), d)),
        kind == OrderingKind::Functions ==> (r matches Ok(x) ==> exists|d: TransformationRecipeDraft| hoisted_private_function_order_recipe_draft(d) && canonical_arrangement(x.spec_draft(), d)),
        r is Ok,
        recipe_header(
            r,
            ordering_name(kind),
            "1.0.0"@,
            TransformationFamily::DependencyModule,
            SafetyClass::SafeWithPrecondition,
            seq![GraphEvidenceLayer::ScopeGraph, GraphEvidenceLayer::Resolution],
        ),
{
    let (name, required, fixtures) = match kind {
        OrderingKind::Imports => (
            "rust-sort-simple-import-block",
            condition(
                SIMPLE_IMPORTS,
                "Every import is explicit/selective, unconditional, and non-side-effectful.",
                GraphEvidenceLayer::ScopeGraph,
            ),
            vec![
                fixture(
                    RecipeFixtureRole::Positive,
                    "unsorted-simple-imports",
                    FixtureExpectation::Candidate,
                    "Two exact simple imports are out of canonical order.",
                ),
                fixture(
                    RecipeFixtureRole::NoOp,
                    "already-ordered-imports",
                    FixtureExpectation::NoCandidate,
                    "Canonical import order is unchanged.",
                ),
                fixture(
                    RecipeFixtureRole::MinimalCounterexample,
                    "side-effect-or-conditional-import",
                    FixtureExpectation::NoCandidate,
                    "Order-sensitive import forms are not moved.",
                ),
                fixture(
                    RecipeFixtureRole::AdversarialNearMiss,
                    "partial-import-authority",
                    FixtureExpectation::NoCandidate,
                    "Spelling cannot replace complete import authority.",
                ),
            ],
        ),
        OrderingKind::Functions => (
            "rust-sort-hoisted-private-function-block",
            condition(
                HOISTED_PRIVATE,
                "Every declaration is a private hoisted plain Function with exact binding evidence.",
                GraphEvidenceLayer::ScopeGraph,
            ),
            vec![
                fixture(
                    RecipeFixtureRole::Positive,
                    "unsorted-hoisted-functions",
                    FixtureExpectation::Candidate,
                    "Two exact private hoisted functions are out of canonical order.",
                ),
                fixture(
                    RecipeFixtureRole::NoOp,
                    "already-ordered-functions",
                    FixtureExpectation::NoCandidate,
                    "Canonical declaration order is unchanged.",
                ),
                fixture(
                    RecipeFixtureRole::MinimalCounterexample,
                    "public-or-unhoisted-function",
                    FixtureExpectation::NoCandidate,
                    "API or order-sensitive declarations are not moved.",
                ),
                fixture(
                    RecipeFixtureRole::AdversarialNearMiss,
                    "macro-or-partial-resolution",
                    FixtureExpectation::NoCandidate,
                    "Macro/source-location behavior and partial bindings abstain.",
                ),
            ],
        ),
    };
    let required_layers = vec![
            GraphEvidenceLayer::ScopeGraph,
            GraphEvidenceLayer::Resolution,
        ];
    proof {
        lemma_ranked_layers_canonical(required_layers@);
    }
    let draft = TransformationRecipeDraft {
        name: name.to_owned(),
        version: "1.0.0".to_owned(),
        family: TransformationFamily::DependencyModule,
        required_layers,
        required_conditions: vec![
            condition(
                COMPLETE_AUTHORITY,
                "Scope and resolution evidence is complete and adapter-authoritative.",
                GraphEvidenceLayer::ScopeGraph,
            ),
            required,
            condition(
                CONTIGUOUS,
                "The selected nodes are direct contiguous top-level siblings.",
                GraphEvidenceLayer::ScopeGraph,
            ),
            condition(
                UNIQUE_KEYS,
                "Canonical order keys are distinct and change the block.",
                GraphEvidenceLayer::ScopeGraph,
            ),
        ],
        forbidden_conditions: vec![
            condition(
                PARTIAL,
                "Partial, unknown, ambiguous, unresolved, or conflicting evidence blocks ordering.",
                GraphEvidenceLayer::Resolution,
            ),
            condition(
                ORDER_SENSITIVE,
                "Side effects, conditions, exports, shadowing, dynamic scope, or non-hoisted timing block ordering.",
                GraphEvidenceLayer::ScopeGraph,
            ),
            condition(
                TRIVIA_OR_MACRO,
                "Comments, attributes, macros, recovery, or observable source-location constructs block ordering.",
                GraphEvidenceLayer::ScopeGraph,
            ),
        ],
        maximum_safety: SafetyClass::SafeWithPrecondition,
        validation_plan: validation_plan(),
        rollback_plan: rollback_plan(),
        fixtures,
    };
    proof {
        reveal_strlit("1.0.0");
        reveal_strlit("API or order-sensitive declarations are not moved.");
        reveal_strlit("Build the reordered Rust source.");
        reveal_strlit("Canonical declaration order is unchanged.");
        reveal_strlit("Canonical import order is unchanged.");
        reveal_strlit("Canonical order keys are distinct and change the block.");
        reveal_strlit("Comments, attributes, macros, recovery, or observable source-location constructs block ordering.");
        reveal_strlit("Every declaration is a private hoisted plain Function with exact binding evidence.");
        reveal_strlit("Every import is explicit/selective, unconditional, and non-side-effectful.");
        reveal_strlit("Format without changing the semantic block contract.");
        reveal_strlit("Macro/source-location behavior and partial bindings abstain.");
        reveal_strlit("Order-sensitive import forms are not moved.");
        reveal_strlit("Parse the exact reordered source.");
        reveal_strlit("Partial, unknown, ambiguous, unresolved, or conflicting evidence blocks ordering.");
        reveal_strlit("Rebuild and preserve terminal resolution endpoints.");
        reveal_strlit("Run project tests after ordering.");
        reveal_strlit("Scope and resolution evidence is complete and adapter-authoritative.");
        reveal_strlit("Side effects, conditions, exports, shadowing, dynamic scope, or non-hoisted timing block ordering.");
        reveal_strlit("Spelling cannot replace complete import authority.");
        reveal_strlit("The selected nodes are direct contiguous top-level siblings.");
        reveal_strlit("Two exact private hoisted functions are out of canonical order.");
        reveal_strlit("Two exact simple imports are out of canonical order.");
        reveal_strlit("already-ordered-functions");
        reveal_strlit("already-ordered-imports");
        reveal_strlit("attached-trivia-attribute-macro-or-recovered-syntax");
        reveal_strlit("build");
        reveal_strlit("complete-scope-and-resolution-authority");
        reveal_strlit("contiguous-top-level-block");
        reveal_strlit("distinct-canonical-order-keys");
        reveal_strlit("format");
        reveal_strlit("hoisted-private-function-declarations");
        reveal_strlit("macro-or-partial-resolution");
        reveal_strlit("order-sensitive-import-or-declaration");
        reveal_strlit("parse");
        reveal_strlit("partial-import-authority");
        reveal_strlit("partial-or-non-unique-semantic-evidence");
        reveal_strlit("public-or-unhoisted-function");
        reveal_strlit("resolution-delta");
        reveal_strlit("rust-sort-hoisted-private-function-block");
        reveal_strlit("rust-sort-simple-import-block");
        reveal_strlit("side-effect-or-conditional-import");
        reveal_strlit("simple-order-independent-imports");
        reveal_strlit("test");
        reveal_strlit("unsorted-hoisted-functions");
        reveal_strlit("unsorted-simple-imports");
        assert forall|i: int| 0 <= i < draft.required_conditions@.len() implies is_canonical_text((#[trigger] draft.required_conditions@[i]).key@) && is_canonical_text(draft.required_conditions@[i].description@) by {
            if i == 0 {} else if i == 1 {} else if i == 2 {} else if i == 3 {} else if i == 4 {} else if i == 5 {} else if i == 6 {} else if i == 7 {} else if i == 8 {} else if i == 9 {} else if i == 10 {} else if i == 11 {}
        }
        assert forall|i: int, j: int| 0 <= i < j < draft.required_conditions@.len() implies (#[trigger] draft.required_conditions@[i]).key@ != (#[trigger] draft.required_conditions@[j]).key@ by {
            if i == 0 { if j == 1 {} else if j == 2 {} else if j == 3 {} else if j == 4 {} else if j == 5 {} else if j == 6 {} else if j == 7 {} else if j == 8 {} else if j == 9 {} else if j == 10 {} else if j == 11 {} } else if i == 1 { if j == 2 {} else if j == 3 {} else if j == 4 {} else if j == 5 {} else if j == 6 {} else if j == 7 {} else if j == 8 {} else if j == 9 {} else if j == 10 {} else if j == 11 {} } else if i == 2 { if j == 3 {} else if j == 4 {} else if j == 5 {} else if j == 6 {} else if j == 7 {} else if j == 8 {} else if j == 9 {} else if j == 10 {} else if j == 11 {} } else if i == 3 { if j == 4 {} else if j == 5 {} else if j == 6 {} else if j == 7 {} else if j == 8 {} else if j == 9 {} else if j == 10 {} else if j == 11 {} } else if i == 4 { if j == 5 {} else if j == 6 {} else if j == 7 {} else if j == 8 {} else if j == 9 {} else if j == 10 {} else if j == 11 {} } else if i == 5 { if j == 6 {} else if j == 7 {} else if j == 8 {} else if j == 9 {} else if j == 10 {} else if j == 11 {} } else if i == 6 { if j == 7 {} else if j == 8 {} else if j == 9 {} else if j == 10 {} else if j == 11 {} } else if i == 7 { if j == 8 {} else if j == 9 {} else if j == 10 {} else if j == 11 {} } else if i == 8 { if j == 9 {} else if j == 10 {} else if j == 11 {} } else if i == 9 { if j == 10 {} else if j == 11 {} } else if i == 10 { if j == 11 {} }
        }
        assert forall|i: int| 0 <= i < draft.forbidden_conditions@.len() implies is_canonical_text((#[trigger] draft.forbidden_conditions@[i]).key@) && is_canonical_text(draft.forbidden_conditions@[i].description@) by {
            if i == 0 {} else if i == 1 {} else if i == 2 {} else if i == 3 {} else if i == 4 {} else if i == 5 {}
        }
        assert forall|i: int, j: int| 0 <= i < j < draft.forbidden_conditions@.len() implies (#[trigger] draft.forbidden_conditions@[i]).key@ != (#[trigger] draft.forbidden_conditions@[j]).key@ by {
            if i == 0 { if j == 1 {} else if j == 2 {} else if j == 3 {} else if j == 4 {} else if j == 5 {} } else if i == 1 { if j == 2 {} else if j == 3 {} else if j == 4 {} else if j == 5 {} } else if i == 2 { if j == 3 {} else if j == 4 {} else if j == 5 {} } else if i == 3 { if j == 4 {} else if j == 5 {} } else if i == 4 { if j == 5 {} }
        }
        assert forall|i: int| 0 <= i < draft.validation_plan.steps@.len() implies crate::contract::step_valid(#[trigger] draft.validation_plan.steps@[i]) by {
            if i == 0 {} else if i == 1 {} else if i == 2 {} else if i == 3 {} else if i == 4 {} else if i == 5 {}
        }
        assert forall|i: int, j: int| 0 <= i < j < draft.validation_plan.steps@.len() implies (#[trigger] draft.validation_plan.steps@[i]).key@ != (#[trigger] draft.validation_plan.steps@[j]).key@ by {
            if i == 0 { if j == 1 {} else if j == 2 {} else if j == 3 {} else if j == 4 {} else if j == 5 {} } else if i == 1 { if j == 2 {} else if j == 3 {} else if j == 4 {} else if j == 5 {} } else if i == 2 { if j == 3 {} else if j == 4 {} else if j == 5 {} } else if i == 3 { if j == 4 {} else if j == 5 {} } else if i == 4 { if j == 5 {} }
        }
        if kind == OrderingKind::Imports {
            assert(simple_import_order_recipe_draft(draft));
        }
        if kind == OrderingKind::Functions {
            assert(hoisted_private_function_order_recipe_draft(draft));
        }
        assert(recipe_draft_sound(draft));
    }
    build_recipe(draft)
}

/// Build, format, parse, resolution delta and test, in that order.
fn validation_plan() -> (r: ValidationPlan)
    ensures
        r.steps@.len() == 5,
        step_is(r.steps@[0], "build"@, ValidationStepKind::Build, "Build the reordered Rust source."@),
        step_is(r.steps@[1], "format"@, ValidationStepKind::Format, "Format without changing the semantic block contract."@),
        step_is(r.steps@[2], "parse"@, ValidationStepKind::Parse, "Parse the exact reordered source."@),
        step_is(r.steps@[3], "resolution-delta"@, ValidationStepKind::GraphDelta, "Rebuild and preserve terminal resolution endpoints."@),
        step_is(r.steps@[4], "test"@, ValidationStepKind::Test, "Run project tests after ordering."@),
{
    ValidationPlan {
        steps: vec![
            validation(
                "build",
                ValidationStepKind::Build,
                "Build the reordered Rust source.",
            ),
            validation(
                "format",
                ValidationStepKind::Format,
                "Format without changing the semantic block contract.",
            ),
            validation(
                "parse",
                ValidationStepKind::Parse,
                "Parse the exact reordered source.",
            ),
            validation(
                "resolution-delta",
                ValidationStepKind::GraphDelta,
                "Rebuild and preserve terminal resolution endpoints.",
            ),
            validation(
                "test",
                ValidationStepKind::Test,
                "Run project tests after ordering.",
            ),
        ],
    }
}

/// Reverse the exact edits under revision guards, then build, format,
/// parse, check the resolution delta and test.
fn rollback_plan() -> (r: RollbackPlan)
    ensures
        r.strategy == RollbackStrategy::ReverseExactEdits,
        r.require_revision_guards,
        r.validation_steps@.len() == 5,
        r.validation_steps@[0]@ == "build"@,
        r.validation_steps@[1]@ == "format"@,
        r.validation_steps@[2]@ == "parse"@,
        r.validation_steps@[3]@ == "resolution-delta"@,
        r.validation_steps@[4]@ == "test"@,
{
    RollbackPlan {
        strategy: RollbackStrategy::ReverseExactEdits,
        require_revision_guards: true,
        validation_steps: vec![
            "build".to_owned(),
            "format".to_owned(),
            "parse".to_owned(),
            "resolution-delta".to_owned(),
            "test".to_owned(),
        ],
    }
}


/// Why declaration ordering failed: a recipe contract, an impact query, graph
/// eligibility, or an inconsistent projection.
#[derive(Clone, Debug)]
pub enum OrderingRecipeError {
    Contract(RecipeContractError),
    Eligibility(String),
    Projection(String),
}

pub open spec fn ordering_recipe_error_message(e: OrderingRecipeError) -> Seq<char> {
    match e {
        OrderingRecipeError::Contract(c) => contract_error_message(c),
        OrderingRecipeError::Eligibility(d) => "ordering graph eligibility failed: "@ + d@,
        OrderingRecipeError::Projection(d) => "ordering projection is inconsistent: "@ + d@,
    }
}

impl OrderingRecipeError {
    /// The message of the error.
    pub fn message(&self) -> (m: String)
        ensures
            m@ == ordering_recipe_error_message(*self),
    {
        match self {
            OrderingRecipeError::Contract(e) => e.message(),
            OrderingRecipeError::Eligibility(d) => labeled_message("ordering graph eligibility failed: ", d.as_str()),
            OrderingRecipeError::Projection(d) => labeled_message("ordering projection is inconsistent: ", d.as_str()),
        }
    }
}

} // verus!
