//! The enabled catalog of Rust transformation recipes.

pub mod block_order;
pub mod branch;
pub mod branch_detect;
pub mod catalog;
pub mod branch_split;
pub mod branch_terminal;
pub mod chain_detect;
pub mod condition_merge;
pub mod dead_arm_detect;
pub mod extract_method;
pub mod guard_clause;
pub mod guard_detect;
pub mod inline_helper;
pub mod inline_detect;
pub mod local_detect;
pub mod local_cleanup;
pub mod merge_detect;
pub mod retained;
pub mod site_laws;
pub mod slice;
pub mod split_detect;
pub mod ordering;
pub mod ordering_detect;
pub mod ordering_scope;
pub mod unreachable;

use vstd::prelude::*;
use crate::contract::{
    FixtureExpectation, RecipeCondition, RecipeContractError, RecipeFixture, RecipeFixtureRole,
    ValidationStep, ValidationStepKind,
};
use crate::model::GraphEvidenceLayer;
use crate::order::{keys_strictly_increasing, lemma_lex_single, lemma_sorted_arrangement_unique, Keyed};
use crate::recipe::{canonical_arrangement, recipe_draft_sound, recipe_fields_valid, TransformationRecipe, TransformationRecipeDraft};

verus! {

/// A condition with the given key, description and layer.
pub fn condition(key: &str, description: &str, layer: GraphEvidenceLayer) -> (c: RecipeCondition)
    ensures
        c.key@ == key@,
        c.description@ == description@,
        c.layer == layer,
{
    RecipeCondition { key: key.to_owned(), description: description.to_owned(), layer }
}

/// A fixture with the given role, name, expectation and description.
pub fn fixture(
    role: RecipeFixtureRole,
    name: &str,
    expectation: FixtureExpectation,
    description: &str,
) -> (f: RecipeFixture)
    ensures
        f.role == role,
        f.name@ == name@,
        f.expectation == expectation,
        f.description@ == description@,
{
    RecipeFixture { role, name: name.to_owned(), expectation, description: description.to_owned() }
}

/// A required validation step with no command.
pub fn validation(key: &str, kind: ValidationStepKind, description: &str) -> (s: ValidationStep)
    ensures
        s.key@ == key@,
        s.kind == kind,
        s.description@ == description@,
        s.command is None,
        s.required,
{
    ValidationStep {
        key: key.to_owned(),
        kind,
        description: description.to_owned(),
        command: None,
        required: true,
    }
}

/// A required validation step with the given key, kind and description,
/// and no command.
pub open spec fn step_is(s: ValidationStep, key: Seq<char>, kind: ValidationStepKind, description: Seq<char>) -> bool {
    &&& s.key@ == key
    &&& s.kind == kind
    &&& s.description@ == description
    &&& s.command is None
    &&& s.required
}

/// A condition with the given key, description and layer.
pub open spec fn condition_is(c: RecipeCondition, key: Seq<char>, description: Seq<char>, layer: GraphEvidenceLayer) -> bool {
    &&& c.key@ == key
    &&& c.description@ == description
    &&& c.layer == layer
}

/// A fixture with the given role, name, expectation and description.
pub open spec fn fixture_is(
    f: RecipeFixture,
    role: RecipeFixtureRole,
    name: Seq<char>,
    expectation: FixtureExpectation,
    description: Seq<char>,
) -> bool {
    &&& f.role == role
    &&& f.name@ == name
    &&& f.expectation == expectation
    &&& f.description@ == description
}

/// Layers listed in strictly increasing rank are in canonical order.
pub proof fn lemma_ranked_layers_canonical(layers: Seq<GraphEvidenceLayer>)
    requires
        forall|i: int| 0 <= i < layers.len() - 1 ==> (#[trigger] layers[i]).spec_rank()
            < layers[i + 1].spec_rank(),
    ensures
        keys_strictly_increasing(layers),
{
    assert forall|i: int| 0 <= i < layers.len() - 1 implies #[trigger] crate::order::key_lt_at(layers, i) by {
        lemma_lex_single(layers[i].spec_rank() as int, layers[i + 1].spec_rank() as int);
    }
}

/// What a recipe builder promises of a recipe it returns: the recipe is
/// well formed and carries the given name, version, family, maximum safety
/// and required layers.
pub open spec fn recipe_header(
    r: Result<TransformationRecipe, RecipeContractError>,
    name: Seq<char>,
    version: Seq<char>,
    family: crate::contract::TransformationFamily,
    safety: crate::model::SafetyClass,
    layers: Seq<GraphEvidenceLayer>,
) -> bool {
    r matches Ok(recipe) ==> {
        &&& recipe.wf()
        &&& recipe.spec_draft().name@ == name
        &&& recipe.spec_draft().version@ == version
        &&& recipe.spec_draft().family == family
        &&& recipe.spec_draft().maximum_safety == safety
        &&& recipe.spec_draft().required_layers@ == layers
    }
}

/// Builds a recipe from a draft whose layers are already canonical.
pub fn build_recipe(draft: TransformationRecipeDraft) -> (r: Result<TransformationRecipe, RecipeContractError>)
    requires
        keys_strictly_increasing(draft.required_layers@),
    ensures
        recipe_header(
            r,
            draft.name@,
            draft.version@,
            draft.family,
            draft.maximum_safety,
            draft.required_layers@,
        ),
        r matches Ok(recipe) ==> canonical_arrangement(recipe.spec_draft(), draft),
        r is Err <==> !(exists|c: TransformationRecipeDraft| canonical_arrangement(c, draft) && recipe_fields_valid(c)),
        r matches Err(e) ==> e is Invalid,
        recipe_draft_sound(draft) ==> r is Ok,
{
    let ghost d = draft;
    let r = TransformationRecipe::new(draft);
    proof {
        if r is Ok {
            lemma_sorted_arrangement_unique(d.required_layers@, r->Ok_0.spec_draft().required_layers@);
        }
    }
    r
}

} // verus!
