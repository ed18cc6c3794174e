//! The content-addressed transformation recipe: a draft is put in canonical
//! order, checked, and given the identity of its canonical JSON text.

use vstd::prelude::*;
use crate::contract::{
    conditions_valid, family_name, fixtures_valid, invalid, layers_valid, push_family_json,
    push_rollback_plan_json, push_validation_plan_json, rollback_plan_json, rollback_plan_valid,
    validate_conditions, validate_fixtures, validate_rollback_plan, validate_text,
    validate_validation_plan, validation_plan_json, validation_plan_valid, RecipeCondition,
    RecipeContractError, RecipeFixture, RollbackPlan, TransformationFamily, ValidationPlan,
    ValidationStep, RECIPE_ID_DOMAIN, TRANSFORMATION_RECIPE_SCHEMA,
};
use crate::identity::{derive_id, derived_id};
use crate::json::{
    json_array, json_items, json_str, push_json_list, push_json_str, string_append, string_push,
};
use crate::model::{
    dependency_closed, push_safety_json, safety_name, GraphEvidenceLayer, SafetyClass,
};
use crate::order::{
    compare_str, keys_distinct, keys_sorted, lemma_arranged_distinct_increasing, lemma_same_members,
    lemma_sorted_arrangement_unique, lemma_str_key_injective, sort_by_key, strictly_increasing, str_key, Keyed,
};
use crate::contract::{has_required_step, plan_has_key, step_valid, ValidationStepKind};
use crate::text::{is_canonical_text, is_lower_digest_id, digest_id_matches};

verus! {

/// A recipe as its author writes it, before canonical ordering.
#[derive(Clone, Debug)]
pub struct TransformationRecipeDraft {
    pub name: String,
    pub version: String,
    pub family: TransformationFamily,
    pub required_layers: Vec<GraphEvidenceLayer>,
    pub required_conditions: Vec<RecipeCondition>,
    pub forbidden_conditions: Vec<RecipeCondition>,
    pub maximum_safety: SafetyClass,
    pub validation_plan: ValidationPlan,
    pub rollback_plan: RollbackPlan,
    pub fixtures: Vec<RecipeFixture>,
}

/// Every field of a canonical draft passes its check, every condition is
/// checked on a required layer, at least one condition is required, and no
/// key is both required and forbidden.
pub open spec fn recipe_fields_valid(d: TransformationRecipeDraft) -> bool {
    &&& is_canonical_text(d.name@)
    &&& is_canonical_text(d.version@)
    &&& layers_valid(d.required_layers@)
    &&& conditions_valid(d.required_conditions@)
    &&& conditions_valid(d.forbidden_conditions@)
    &&& conditions_on_layers(d.required_conditions@, d.required_layers@)
    &&& conditions_on_layers(d.forbidden_conditions@, d.required_layers@)
    &&& d.required_conditions@.len() > 0
    &&& keys_disjoint(d.required_conditions@, d.forbidden_conditions@)
    &&& validation_plan_valid(d.validation_plan)
    &&& rollback_plan_valid(d.rollback_plan, d.validation_plan)
    &&& fixtures_valid(d.fixtures@)
}

pub open spec fn conditions_on_layers(
    conditions: Seq<RecipeCondition>,
    layers: Seq<GraphEvidenceLayer>,
) -> bool {
    forall|i: int| 0 <= i < conditions.len() ==> layers.contains((#[trigger] conditions[i]).layer)
}

pub open spec fn keys_disjoint(required: Seq<RecipeCondition>, forbidden: Seq<RecipeCondition>) -> bool {
    forall|i: int, j: int|
        0 <= i < forbidden.len() && 0 <= j < required.len() ==> (#[trigger] forbidden[i]).key@
            != (#[trigger] required[j]).key@
}

/// `c` holds the elements of `d` sorted by key.
pub open spec fn arranged<T: Keyed>(c: Seq<T>, d: Seq<T>) -> bool {
    c.to_multiset() == d.to_multiset() && keys_sorted(c)
}

/// `c` is `d` with every list sorted into canonical order.
pub open spec fn canonical_arrangement(c: TransformationRecipeDraft, d: TransformationRecipeDraft) -> bool {
    &&& c.name == d.name
    &&& c.version == d.version
    &&& c.family == d.family
    &&& c.maximum_safety == d.maximum_safety
    &&& arranged(c.required_layers@, d.required_layers@)
    &&& arranged(c.required_conditions@, d.required_conditions@)
    &&& arranged(c.forbidden_conditions@, d.forbidden_conditions@)
    &&& arranged(c.validation_plan.steps@, d.validation_plan.steps@)
    &&& c.rollback_plan.strategy == d.rollback_plan.strategy
    &&& c.rollback_plan.require_revision_guards == d.rollback_plan.require_revision_guards
    &&& arranged(c.rollback_plan.validation_steps@, d.rollback_plan.validation_steps@)
    &&& arranged(c.fixtures@, d.fixtures@)
}

/// The JSON text from which a recipe's identity is derived: an array of
/// the schema and every field of the canonical draft, in declared order.
pub open spec fn recipe_payload(d: TransformationRecipeDraft) -> Seq<char> {
    "["@ + json_str(TRANSFORMATION_RECIPE_SCHEMA@) + ","@ + json_str(d.name@) + ","@ + json_str(
        d.version@,
    ) + ","@ + json_str(family_name(d.family)) + ","@ + json_array(
        json_items(d.required_layers@),
    ) + ","@ + json_array(json_items(d.required_conditions@)) + ","@ + json_array(
        json_items(d.forbidden_conditions@),
    ) + ","@ + json_str(safety_name(d.maximum_safety)) + ","@ + validation_plan_json(
        d.validation_plan,
    ) + ","@ + rollback_plan_json(d.rollback_plan) + ","@ + json_array(json_items(d.fixtures@))
        + "]"@
}

/// The identity of a canonical draft.
pub open spec fn recipe_id(d: TransformationRecipeDraft) -> Seq<char> {
    derived_id(RECIPE_ID_DOMAIN@, "rcp1_"@, recipe_payload(d))
}

fn recipe_payload_text(d: &TransformationRecipeDraft) -> (r: String)
    ensures
        r@ == recipe_payload(*d),
{
    let mut out = String::new();
    string_push(&mut out, '[');
    push_json_str(&mut out, TRANSFORMATION_RECIPE_SCHEMA);
    string_push(&mut out, ',');
    push_json_str(&mut out, d.name.as_str());
    string_push(&mut out, ',');
    push_json_str(&mut out, d.version.as_str());
    string_push(&mut out, ',');
    push_family_json(&mut out, d.family);
    string_push(&mut out, ',');
    push_json_list(&mut out, &d.required_layers);
    string_push(&mut out, ',');
    push_json_list(&mut out, &d.required_conditions);
    string_push(&mut out, ',');
    push_json_list(&mut out, &d.forbidden_conditions);
    string_push(&mut out, ',');
    push_safety_json(&mut out, d.maximum_safety);
    string_push(&mut out, ',');
    push_validation_plan_json(&mut out, &d.validation_plan);
    string_push(&mut out, ',');
    push_rollback_plan_json(&mut out, &d.rollback_plan);
    string_push(&mut out, ',');
    push_json_list(&mut out, &d.fixtures);
    string_push(&mut out, ']');
    proof {
        reveal_strlit("[");
        reveal_strlit(",");
        reveal_strlit("]");
    }
    assert(out@ =~= recipe_payload(*d));
    out
}

/// The identity of a canonical draft.
pub fn derive_recipe_id(d: &TransformationRecipeDraft) -> (r: String)
    ensures
        r@ == recipe_id(*d),
        is_lower_digest_id(r@, "rcp1_"@),
{
    let payload = recipe_payload_text(d);
    derive_id(RECIPE_ID_DOMAIN, "rcp1_", payload.as_str())
}

fn conditions_on_required_layers(
    conditions: &Vec<RecipeCondition>,
    layers: &Vec<GraphEvidenceLayer>,
) -> (r: bool)
    ensures
        r == conditions_on_layers(conditions@, layers@),
{
    let n = conditions.len();
    let mut i: usize = 0;
    while i < n
        invariant
            n == conditions@.len(),
            i <= n,
            forall|k: int| 0 <= k < i ==> layers@.contains((#[trigger] conditions@[k]).layer),
        decreases n - i,
    {
        let layer = conditions[i].layer;
        let m = layers.len();
        let mut j: usize = 0;
        let mut found = false;
        while j < m && !found
            invariant
                m == layers@.len(),
                j <= m,
                found ==> layers@.contains(layer),
                !found ==> forall|k: int| 0 <= k < j ==> layers@[k] != layer,
            decreases m - j,
        {
            if layers[j] == layer {
                found = true;
            }
            j = j + 1;
        }
        if !found {
            assert(!layers@.contains(layer));
            return false;
        }
        i = i + 1;
    }
    true
}

fn forbidden_keys_disjoint(required: &Vec<RecipeCondition>, forbidden: &Vec<RecipeCondition>) -> (r:
    bool)
    ensures
        r == keys_disjoint(required@, forbidden@),
{
    let n = forbidden.len();
    let m = required.len();
    let mut i: usize = 0;
    while i < n
        invariant
            n == forbidden@.len(),
            m == required@.len(),
            i <= n,
            forall|a: int, b: int|
                0 <= a < i && 0 <= b < m ==> (#[trigger] forbidden@[a]).key@
                    != (#[trigger] required@[b]).key@,
        decreases n - i,
    {
        let mut j: usize = 0;
        while j < m
            invariant
                n == forbidden@.len(),
                m == required@.len(),
                i < n,
                j <= m,
                forall|b: int| 0 <= b < j ==> forbidden@[i as int].key@ != (#[trigger] required@[b]).key@,
            decreases m - j,
        {
            if compare_str(forbidden[i].key.as_str(), required[j].key.as_str()) == 0 {
                return false;
            }
            j = j + 1;
        }
        i = i + 1;
    }
    true
}

/// Checks the fields of a canonical draft, in the order the contract lists them.
pub fn validate_recipe_fields(d: &TransformationRecipeDraft) -> (r: Result<(), RecipeContractError>)
    ensures
        r is Ok <==> recipe_fields_valid(*d),
        r matches Err(e) ==> e is Invalid,
{
    validate_text("recipe name", d.name.as_str())?;
    validate_text("recipe version", d.version.as_str())?;
    if d.required_layers.len() == 0 || !strictly_increasing(&d.required_layers) {
        return Err(invalid("recipe graph layers must be canonical, nonempty, and distinct"));
    }
    if !dependency_closed(&d.required_layers) {
        return Err(invalid("recipe graph layers are not closed under their dependencies"));
    }
    validate_conditions("required conditions", &d.required_conditions)?;
    validate_conditions("forbidden conditions", &d.forbidden_conditions)?;
    if !conditions_on_required_layers(&d.required_conditions, &d.required_layers)
        || !conditions_on_required_layers(&d.forbidden_conditions, &d.required_layers) {
        return Err(invalid("recipe condition names a graph layer outside the requirements"));
    }
    if d.required_conditions.len() == 0 {
        return Err(invalid("a recipe requires at least one positive obligation"));
    }
    if !forbidden_keys_disjoint(&d.required_conditions, &d.forbidden_conditions) {
        return Err(invalid("required and forbidden condition keys overlap"));
    }
    validate_validation_plan(&d.validation_plan)?;
    validate_rollback_plan(&d.rollback_plan, &d.validation_plan)?;
    validate_fixtures(&d.fixtures)?;
    Ok(())
}

/// A checked, canonical and content-addressed transformation recipe.
#[derive(Clone, Debug)]
pub struct TransformationRecipe {
    schema: String,
    id: String,
    draft: TransformationRecipeDraft,
}

/// The parts of a recipe as they travel on the wire.
#[derive(Clone, Debug)]
pub struct TransformationRecipeWire {
    pub schema: String,
    pub id: String,
    pub draft: TransformationRecipeDraft,
}

/// A recipe read from the wire is accepted exactly when its schema is
/// current, its identity has the recipe form, its fields are canonical and
/// valid, and its identity is the one its fields derive.
pub open spec fn recipe_wire_accepted(
    schema: Seq<char>,
    id: Seq<char>,
    d: TransformationRecipeDraft,
) -> bool {
    &&& is_lower_digest_id(id, "rcp1_"@)
    &&& schema == TRANSFORMATION_RECIPE_SCHEMA@
    &&& recipe_fields_valid(d)
    &&& id == recipe_id(d)
}

impl TransformationRecipe {
    pub closed spec fn spec_schema(&self) -> Seq<char> {
        self.schema@
    }

    pub closed spec fn spec_id(&self) -> Seq<char> {
        self.id@
    }

    /// The canonical draft the recipe holds.
    pub closed spec fn spec_draft(&self) -> TransformationRecipeDraft {
        self.draft
    }

    /// The recipe's invariant: current schema, valid canonical fields, and
    /// the identity those fields derive.
    pub open spec fn wf(&self) -> bool {
        recipe_wire_accepted(self.spec_schema(), self.spec_id(), self.spec_draft())
    }

    /// Builds a recipe from a draft: sorts every list into canonical order,
    /// derives the identity, and checks the result.
    ///
    /// Succeeds exactly when some canonical arrangement of the draft is
    /// valid; the recipe then holds that arrangement.
    pub fn new(draft: TransformationRecipeDraft) -> (r: Result<TransformationRecipe, RecipeContractError>)
        ensures
            r matches Ok(recipe) ==> recipe.wf() && canonical_arrangement(recipe.spec_draft(), draft),
            r is Err <==> !(exists|c: TransformationRecipeDraft|
                canonical_arrangement(c, draft) && recipe_fields_valid(c)),
            r matches Err(e) ==> e is Invalid,
            recipe_draft_sound(draft) ==> r is Ok,
    {
        let ghost original = draft;
        let TransformationRecipeDraft {
            name,
            version,
            family,
            required_layers,
            required_conditions,
            forbidden_conditions,
            maximum_safety,
            validation_plan,
            rollback_plan,
            fixtures,
        } = draft;
        let ValidationPlan { steps } = validation_plan;
        let RollbackPlan { strategy, require_revision_guards, validation_steps } = rollback_plan;
        let canonical = TransformationRecipeDraft {
            name,
            version,
            family,
            required_layers: sort_by_key(required_layers),
            required_conditions: sort_by_key(required_conditions),
            forbidden_conditions: sort_by_key(forbidden_conditions),
            maximum_safety,
            validation_plan: ValidationPlan { steps: sort_by_key(steps) },
            rollback_plan: RollbackPlan {
                strategy,
                require_revision_guards,
                validation_steps: sort_by_key(validation_steps),
            },
            fixtures: sort_by_key(fixtures),
        };
        assert(canonical_arrangement(canonical, original));
        proof {
            if recipe_draft_sound(original) {
                lemma_sound_arrangement_valid(canonical, original);
            }
        }
        match validate_recipe_fields(&canonical) {
            Ok(()) => {},
            Err(e) => {
                proof {
                    assert forall|c: TransformationRecipeDraft|
                        canonical_arrangement(c, original) implies !recipe_fields_valid(c) by {
                        if recipe_fields_valid(c) {
                            lemma_valid_arrangement_unique(c, canonical, original);
                        }
                    }
                }
                return Err(e);
            },
        }
        let id = derive_recipe_id(&canonical);
        let schema = TRANSFORMATION_RECIPE_SCHEMA.to_owned();
        Ok(TransformationRecipe { schema, id, draft: canonical })
    }

    /// Accepts a recipe read from the wire: no reordering happens, so a
    /// stale identity or a noncanonical order is refused.
    pub fn from_wire(wire: TransformationRecipeWire) -> (r: Result<TransformationRecipe, RecipeContractError>)
        ensures
            r is Ok <==> recipe_wire_accepted(wire.schema@, wire.id@, wire.draft),
            r matches Ok(recipe) ==> recipe.spec_schema() == wire.schema@ && recipe.spec_id()
                == wire.id@ && recipe.spec_draft() == wire.draft,
            r matches Err(e) ==> e is Invalid,
    {
        if !digest_id_matches(wire.id.as_str(), "rcp1_", true) {
            return Err(invalid("identity must be canonical lowercase rcp1_<64-hex>"));
        }
        if compare_str(wire.schema.as_str(), TRANSFORMATION_RECIPE_SCHEMA) != 0 {
            return Err(invalid("unsupported transformation-recipe schema"));
        }
        validate_recipe_fields(&wire.draft)?;
        let expected = derive_recipe_id(&wire.draft);
        if compare_str(wire.id.as_str(), expected.as_str()) != 0 {
            return Err(invalid("transformation-recipe identity is stale"));
        }
        Ok(TransformationRecipe { schema: wire.schema, id: wire.id, draft: wire.draft })
    }

    /// Checks the recipe's invariant again.
    pub fn validate(&self) -> (r: Result<(), RecipeContractError>)
        ensures
            r is Ok <==> self.wf(),
            r matches Err(e) ==> e is Invalid,
    {
        if !digest_id_matches(self.id.as_str(), "rcp1_", true) {
            return Err(invalid("identity must be canonical lowercase rcp1_<64-hex>"));
        }
        if compare_str(self.schema.as_str(), TRANSFORMATION_RECIPE_SCHEMA) != 0 {
            return Err(invalid("unsupported transformation-recipe schema"));
        }
        validate_recipe_fields(&self.draft)?;
        let expected = derive_recipe_id(&self.draft);
        if compare_str(self.id.as_str(), expected.as_str()) != 0 {
            return Err(invalid("transformation-recipe identity is stale"));
        }
        Ok(())
    }

    /// A copy of the recipe.
    pub fn duplicate(&self) -> (r: TransformationRecipe)
        ensures
            r.spec_schema() == self.spec_schema(),
            r.spec_id() == self.spec_id(),
            drafts_agree(r.spec_draft(), self.spec_draft()),
            self.wf() ==> r.wf(),
    {
        let r = TransformationRecipe {
            schema: self.schema.clone(),
            id: self.id.clone(),
            draft: duplicate_draft(&self.draft),
        };
        assert(recipe_payload(r.draft) == recipe_payload(self.draft));
        r
    }

    /// The parts of the recipe for the wire.
    pub fn to_wire(&self) -> (w: TransformationRecipeWire)
        ensures
            w.schema@ == self.spec_schema(),
            w.id@ == self.spec_id(),
            drafts_agree(w.draft, self.spec_draft()),
    {
        TransformationRecipeWire {
            schema: self.schema.clone(),
            id: self.id.clone(),
            draft: duplicate_draft(&self.draft),
        }
    }

    pub fn schema(&self) -> (r: &str)
        ensures
            r@ == self.spec_schema(),
    {
        self.schema.as_str()
    }

    pub fn id(&self) -> (r: &str)
        ensures
            r@ == self.spec_id(),
    {
        self.id.as_str()
    }

    pub fn name(&self) -> (r: &str)
        ensures
            r@ == self.spec_draft().name@,
    {
        self.draft.name.as_str()
    }

    pub fn version(&self) -> (r: &str)
        ensures
            r@ == self.spec_draft().version@,
    {
        self.draft.version.as_str()
    }

    pub fn family(&self) -> (r: TransformationFamily)
        ensures
            r == self.spec_draft().family,
    {
        self.draft.family
    }

    pub fn required_layers(&self) -> (r: &[GraphEvidenceLayer])
        ensures
            r@ == self.spec_draft().required_layers@,
    {
        self.draft.required_layers.as_slice()
    }

    pub fn required_conditions(&self) -> (r: &[RecipeCondition])
        ensures
            r@ == self.spec_draft().required_conditions@,
    {
        self.draft.required_conditions.as_slice()
    }

    pub fn forbidden_conditions(&self) -> (r: &[RecipeCondition])
        ensures
            r@ == self.spec_draft().forbidden_conditions@,
    {
        self.draft.forbidden_conditions.as_slice()
    }

    pub fn maximum_safety(&self) -> (r: SafetyClass)
        ensures
            r == self.spec_draft().maximum_safety,
    {
        self.draft.maximum_safety
    }

    pub fn validation_plan(&self) -> (r: &ValidationPlan)
        ensures
            *r == self.spec_draft().validation_plan,
    {
        &self.draft.validation_plan
    }

    pub fn rollback_plan(&self) -> (r: &RollbackPlan)
        ensures
            *r == self.spec_draft().rollback_plan,
    {
        &self.draft.rollback_plan
    }

    pub fn fixtures(&self) -> (r: &[RecipeFixture])
        ensures
            r@ == self.spec_draft().fixtures@,
    {
        self.draft.fixtures.as_slice()
    }
}

/// A valid canonical arrangement of a draft is the one sorting produces.
/// Conditions with canonical texts and pairwise distinct keys, in any
/// order.
pub open spec fn conditions_sound(s: Seq<RecipeCondition>) -> bool {
    &&& forall|i: int|
        0 <= i < s.len() ==> is_canonical_text((#[trigger] s[i]).key@) && is_canonical_text(s[i].description@)
    &&& forall|i: int, j: int| 0 <= i < j < s.len() ==> (#[trigger] s[i]).key@ != (#[trigger] s[j]).key@
}

/// A nonempty plan of valid steps with distinct keys, in any order, that
/// includes required parse and graph-delta checks.
pub open spec fn steps_sound(plan: ValidationPlan) -> bool {
    let steps = plan.steps@;
    &&& steps.len() > 0
    &&& forall|i: int| 0 <= i < steps.len() ==> step_valid(#[trigger] steps[i])
    &&& forall|i: int, j: int| 0 <= i < j < steps.len() ==> (#[trigger] steps[i]).key@ != (#[trigger] steps[j]).key@
    &&& has_required_step(steps, ValidationStepKind::Parse)
    &&& has_required_step(steps, ValidationStepKind::GraphDelta)
}

/// A guarded rollback re-running a nonempty list of distinct canonical keys
/// of the plan, in any order.
pub open spec fn rollback_sound(rollback: RollbackPlan, plan: ValidationPlan) -> bool {
    let keys = rollback.validation_steps@;
    &&& rollback.require_revision_guards
    &&& keys.len() > 0
    &&& forall|i: int| 0 <= i < keys.len() ==> is_canonical_text((#[trigger] keys[i])@) && plan_has_key(plan, keys[i]@)
    &&& forall|i: int, j: int| 0 <= i < j < keys.len() ==> (#[trigger] keys[i])@ != (#[trigger] keys[j])@
}

/// A draft that is valid whatever the order of its condition, step and
/// rollback lists: its canonical arrangement is valid.
pub open spec fn recipe_draft_sound(d: TransformationRecipeDraft) -> bool {
    &&& is_canonical_text(d.name@)
    &&& is_canonical_text(d.version@)
    &&& layers_valid(d.required_layers@)
    &&& d.required_conditions@.len() > 0
    &&& conditions_sound(d.required_conditions@)
    &&& conditions_sound(d.forbidden_conditions@)
    &&& conditions_on_layers(d.required_conditions@, d.required_layers@)
    &&& conditions_on_layers(d.forbidden_conditions@, d.required_layers@)
    &&& keys_disjoint(d.required_conditions@, d.forbidden_conditions@)
    &&& steps_sound(d.validation_plan)
    &&& rollback_sound(d.rollback_plan, d.validation_plan)
    &&& fixtures_valid(d.fixtures@)
}

proof fn lemma_conditions_arranged(c: Seq<RecipeCondition>, d: Seq<RecipeCondition>)
    requires
        arranged(c, d),
        conditions_sound(d),
    ensures
        conditions_valid(c),
        c.len() == d.len(),
        forall|i: int| 0 <= i < c.len() ==> d.contains(#[trigger] c[i]),
{
    c.to_multiset_ensures();
    d.to_multiset_ensures();
    assert forall|i: int, j: int| 0 <= i < j < d.len() implies RecipeCondition::key(d[i]@) != RecipeCondition::key(
        d[j]@,
    ) by {
        lemma_str_key_injective(d[i].key@, d[j].key@);
    }
    assert(keys_distinct(d));
    lemma_arranged_distinct_increasing(c, d);
    assert forall|i: int| 0 <= i < c.len() implies d.contains(#[trigger] c[i]) by {
        assert(c.contains(c[i]));
        lemma_same_members(c, d, c[i]);
    }
}

proof fn lemma_steps_arranged(c: ValidationPlan, d: ValidationPlan)
    requires
        arranged(c.steps@, d.steps@),
        steps_sound(d),
    ensures
        validation_plan_valid(c),
        forall|k: Seq<char>| plan_has_key(d, k) ==> plan_has_key(c, k),
{
    let cs = c.steps@;
    let ds = d.steps@;
    cs.to_multiset_ensures();
    ds.to_multiset_ensures();
    assert forall|i: int, j: int| 0 <= i < j < ds.len() implies ValidationStep::key(ds[i]@) != ValidationStep::key(
        ds[j]@,
    ) by {
        lemma_str_key_injective(ds[i].key@, ds[j].key@);
    }
    lemma_arranged_distinct_increasing(cs, ds);
    assert forall|i: int| 0 <= i < cs.len() implies step_valid(#[trigger] cs[i]) by {
        assert(cs.contains(cs[i]));
        lemma_same_members(cs, ds, cs[i]);
    }
    assert forall|j: int| 0 <= j < ds.len() implies cs.contains(#[trigger] ds[j]) by {
        lemma_same_members(cs, ds, ds[j]);
    }
    let a = choose|j: int| 0 <= j < ds.len() && (#[trigger] ds[j]).required && ds[j].kind == ValidationStepKind::Parse;
    assert(cs.contains(ds[a]));
    let b = choose|j: int| 0 <= j < ds.len() && (#[trigger] ds[j]).required && ds[j].kind
        == ValidationStepKind::GraphDelta;
    assert(cs.contains(ds[b]));
    assert forall|k: Seq<char>| plan_has_key(d, k) implies plan_has_key(c, k) by {
        let j = choose|j: int| 0 <= j < ds.len() && (#[trigger] ds[j]).key@ == k;
        assert(cs.contains(ds[j]));
    }
}

proof fn lemma_rollback_arranged(c: RollbackPlan, d: RollbackPlan, cp: ValidationPlan, dp: ValidationPlan)
    requires
        arranged(c.validation_steps@, d.validation_steps@),
        c.require_revision_guards == d.require_revision_guards,
        rollback_sound(d, dp),
        forall|k: Seq<char>| plan_has_key(dp, k) ==> plan_has_key(cp, k),
    ensures
        rollback_plan_valid(c, cp),
{
    let cs = c.validation_steps@;
    let ds = d.validation_steps@;
    cs.to_multiset_ensures();
    ds.to_multiset_ensures();
    assert forall|i: int, j: int| 0 <= i < j < ds.len() implies String::key(ds[i]@) != String::key(ds[j]@) by {
        lemma_str_key_injective(ds[i]@, ds[j]@);
    }
    lemma_arranged_distinct_increasing(cs, ds);
    assert forall|i: int| 0 <= i < cs.len() implies is_canonical_text((#[trigger] cs[i])@) && plan_has_key(cp, cs[i]@) by {
        assert(cs.contains(cs[i]));
        lemma_same_members(cs, ds, cs[i]);
        let p = choose|p: int| 0 <= p < ds.len() && ds[p] == cs[i];
        assert(is_canonical_text(ds[p]@) && plan_has_key(dp, ds[p]@));
    }
}

/// The canonical arrangement of a sound draft is valid.
proof fn lemma_sound_arrangement_valid(c: TransformationRecipeDraft, d: TransformationRecipeDraft)
    requires
        canonical_arrangement(c, d),
        recipe_draft_sound(d),
    ensures
        recipe_fields_valid(c),
{
    lemma_sorted_arrangement_unique(d.required_layers@, c.required_layers@);
    assert(crate::order::keys_strictly_increasing(d.fixtures@)) by {
        assert forall|i: int| 0 <= i < d.fixtures@.len() - 1 implies #[trigger] crate::order::key_lt_at(d.fixtures@, i) by {
            crate::order::lemma_lex_single(
                crate::contract::role_rank(d.fixtures@[i].role) as int,
                crate::contract::role_rank(d.fixtures@[i + 1].role) as int,
            );
        }
    }
    lemma_sorted_arrangement_unique(d.fixtures@, c.fixtures@);
    lemma_conditions_arranged(c.required_conditions@, d.required_conditions@);
    lemma_conditions_arranged(c.forbidden_conditions@, d.forbidden_conditions@);
    let cr = c.required_conditions@;
    let cf = c.forbidden_conditions@;
    let dr = d.required_conditions@;
    let df = d.forbidden_conditions@;
    assert forall|i: int| 0 <= i < cr.len() implies c.required_layers@.contains((#[trigger] cr[i]).layer) by {
        assert(dr.contains(cr[i]));
        let p = choose|p: int| 0 <= p < dr.len() && dr[p] == cr[i];
        assert(d.required_layers@.contains(dr[p].layer));
    }
    assert forall|i: int| 0 <= i < cf.len() implies c.required_layers@.contains((#[trigger] cf[i]).layer) by {
        assert(df.contains(cf[i]));
        let p = choose|p: int| 0 <= p < df.len() && df[p] == cf[i];
        assert(d.required_layers@.contains(df[p].layer));
    }
    assert forall|i: int, j: int| 0 <= i < cf.len() && 0 <= j < cr.len() implies (#[trigger] cf[i]).key@
        != (#[trigger] cr[j]).key@ by {
        assert(df.contains(cf[i]));
        assert(dr.contains(cr[j]));
        let p = choose|p: int| 0 <= p < df.len() && df[p] == cf[i];
        let q = choose|q: int| 0 <= q < dr.len() && dr[q] == cr[j];
        assert(df[p].key@ != dr[q].key@);
    }
    lemma_steps_arranged(c.validation_plan, d.validation_plan);
    lemma_rollback_arranged(c.rollback_plan, d.rollback_plan, c.validation_plan, d.validation_plan);
}

proof fn lemma_valid_arrangement_unique(
    c: TransformationRecipeDraft,
    s: TransformationRecipeDraft,
    d: TransformationRecipeDraft,
)
    requires
        canonical_arrangement(c, d),
        canonical_arrangement(s, d),
        recipe_fields_valid(c),
    ensures
        recipe_fields_valid(s),
{
    lemma_sorted_arrangement_unique(c.required_layers@, s.required_layers@);
    lemma_sorted_arrangement_unique(c.required_conditions@, s.required_conditions@);
    lemma_sorted_arrangement_unique(c.forbidden_conditions@, s.forbidden_conditions@);
    lemma_sorted_arrangement_unique(c.validation_plan.steps@, s.validation_plan.steps@);
    lemma_sorted_arrangement_unique(
        c.rollback_plan.validation_steps@,
        s.rollback_plan.validation_steps@,
    );
    assert(fixtures_valid(c.fixtures@));
    assert(crate::order::keys_strictly_increasing(c.fixtures@)) by {
        assert forall|i: int| 0 <= i < c.fixtures@.len() - 1 implies #[trigger] crate::order::key_lt_at(c.fixtures@, i) by {
            crate::order::lemma_lex_single(
                crate::contract::role_rank(c.fixtures@[i].role) as int,
                crate::contract::role_rank(c.fixtures@[i + 1].role) as int,
            );
        }
    }
    lemma_sorted_arrangement_unique(c.fixtures@, s.fixtures@);
}

fn duplicate_conditions(v: &Vec<RecipeCondition>) -> (r: Vec<RecipeCondition>)
    ensures
        r@ == v@,
{
    let mut r: Vec<RecipeCondition> = Vec::new();
    let n = v.len();
    let mut i: usize = 0;
    while i < n
        invariant
            n == v@.len(),
            i <= n,
            r@ == v@.subrange(0, i as int),
        decreases n - i,
    {
        r.push(v[i].duplicate());
        assert(r@ =~= v@.subrange(0, i as int + 1));
        i = i + 1;
    }
    assert(v@.subrange(0, n as int) =~= v@);
    r
}

fn duplicate_fixtures(v: &Vec<RecipeFixture>) -> (r: Vec<RecipeFixture>)
    ensures
        r@ == v@,
{
    let mut r: Vec<RecipeFixture> = Vec::new();
    let n = v.len();
    let mut i: usize = 0;
    while i < n
        invariant
            n == v@.len(),
            i <= n,
            r@ == v@.subrange(0, i as int),
        decreases n - i,
    {
        r.push(v[i].duplicate());
        assert(r@ =~= v@.subrange(0, i as int + 1));
        i = i + 1;
    }
    assert(v@.subrange(0, n as int) =~= v@);
    r
}

fn duplicate_steps(v: &Vec<ValidationStep>) -> (r: Vec<ValidationStep>)
    ensures
        r@ == v@,
{
    let mut r: Vec<ValidationStep> = Vec::new();
    let n = v.len();
    let mut i: usize = 0;
    while i < n
        invariant
            n == v@.len(),
            i <= n,
            r@ == v@.subrange(0, i as int),
        decreases n - i,
    {
        r.push(v[i].duplicate());
        assert(r@ =~= v@.subrange(0, i as int + 1));
        i = i + 1;
    }
    assert(v@.subrange(0, n as int) =~= v@);
    r
}

pub fn duplicate_strings(v: &Vec<String>) -> (r: Vec<String>)
    ensures
        r@ == v@,
{
    let mut r: Vec<String> = Vec::new();
    let n = v.len();
    let mut i: usize = 0;
    while i < n
        invariant
            n == v@.len(),
            i <= n,
            r@ == v@.subrange(0, i as int),
        decreases n - i,
    {
        r.push(v[i].clone());
        assert(r@ =~= v@.subrange(0, i as int + 1));
        i = i + 1;
    }
    assert(v@.subrange(0, n as int) =~= v@);
    r
}

fn duplicate_layers(v: &Vec<GraphEvidenceLayer>) -> (r: Vec<GraphEvidenceLayer>)
    ensures
        r@ == v@,
{
    let mut r: Vec<GraphEvidenceLayer> = Vec::new();
    let n = v.len();
    let mut i: usize = 0;
    while i < n
        invariant
            n == v@.len(),
            i <= n,
            r@ == v@.subrange(0, i as int),
        decreases n - i,
    {
        r.push(v[i]);
        assert(r@ =~= v@.subrange(0, i as int + 1));
        i = i + 1;
    }
    assert(v@.subrange(0, n as int) =~= v@);
    r
}

pub fn duplicate_validation_plan(p: &ValidationPlan) -> (r: ValidationPlan)
    ensures
        r.steps@ == p.steps@,
{
    ValidationPlan { steps: duplicate_steps(&p.steps) }
}

pub fn duplicate_rollback_plan(p: &RollbackPlan) -> (r: RollbackPlan)
    ensures
        r.strategy == p.strategy,
        r.require_revision_guards == p.require_revision_guards,
        r.validation_steps@ == p.validation_steps@,
{
    RollbackPlan {
        strategy: p.strategy,
        require_revision_guards: p.require_revision_guards,
        validation_steps: duplicate_strings(&p.validation_steps),
    }
}

/// Two drafts hold the same texts, values and lists.
pub open spec fn drafts_agree(a: TransformationRecipeDraft, b: TransformationRecipeDraft) -> bool {
    &&& a.name == b.name
    &&& a.version == b.version
    &&& a.family == b.family
    &&& a.required_layers@ == b.required_layers@
    &&& a.required_conditions@ == b.required_conditions@
    &&& a.forbidden_conditions@ == b.forbidden_conditions@
    &&& a.maximum_safety == b.maximum_safety
    &&& a.validation_plan.steps@ == b.validation_plan.steps@
    &&& a.rollback_plan.strategy == b.rollback_plan.strategy
    &&& a.rollback_plan.require_revision_guards == b.rollback_plan.require_revision_guards
    &&& a.rollback_plan.validation_steps@ == b.rollback_plan.validation_steps@
    &&& a.fixtures@ == b.fixtures@
}

/// A copy of a draft with the same lists.
pub fn duplicate_draft(d: &TransformationRecipeDraft) -> (r: TransformationRecipeDraft)
    ensures
        drafts_agree(r, *d),
{
    let r = TransformationRecipeDraft {
        name: d.name.clone(),
        version: d.version.clone(),
        family: d.family,
        required_layers: duplicate_layers(&d.required_layers),
        required_conditions: duplicate_conditions(&d.required_conditions),
        forbidden_conditions: duplicate_conditions(&d.forbidden_conditions),
        maximum_safety: d.maximum_safety,
        validation_plan: duplicate_validation_plan(&d.validation_plan),
        rollback_plan: duplicate_rollback_plan(&d.rollback_plan),
        fixtures: duplicate_fixtures(&d.fixtures),
    };
    r
}

/// Two drafts hold the same content, whatever order their lists are in.
pub open spec fn same_content(a: TransformationRecipeDraft, b: TransformationRecipeDraft) -> bool {
    &&& a.name@ == b.name@
    &&& a.version@ == b.version@
    &&& a.family == b.family
    &&& a.maximum_safety == b.maximum_safety
    &&& a.required_layers@.to_multiset() == b.required_layers@.to_multiset()
    &&& a.required_conditions@.to_multiset() == b.required_conditions@.to_multiset()
    &&& a.forbidden_conditions@.to_multiset() == b.forbidden_conditions@.to_multiset()
    &&& a.validation_plan.steps@.to_multiset() == b.validation_plan.steps@.to_multiset()
    &&& a.rollback_plan.strategy == b.rollback_plan.strategy
    &&& a.rollback_plan.require_revision_guards == b.rollback_plan.require_revision_guards
    &&& a.rollback_plan.validation_steps@.to_multiset() == b.rollback_plan.validation_steps@.to_multiset()
    &&& a.fixtures@.to_multiset() == b.fixtures@.to_multiset()
}

/// The fixtures of a valid recipe are in strictly increasing role order.
proof fn lemma_valid_fixtures_strict(f: Seq<RecipeFixture>)
    requires
        fixtures_valid(f),
    ensures
        crate::order::keys_strictly_increasing(f),
{
    assert forall|i: int| 0 <= i < f.len() - 1 implies #[trigger] crate::order::key_lt_at(f, i) by {
        crate::order::lemma_lex_single(
            crate::contract::role_rank(f[i].role) as int,
            crate::contract::role_rank(f[i + 1].role) as int,
        );
    }
}

/// A recipe's identity and canonical fields depend only on the content of
/// its draft, never on the order in which the draft lists layers,
/// conditions, validation steps, rollback steps or fixtures.
pub proof fn lemma_recipe_identity_order_independent(
    d1: TransformationRecipeDraft,
    d2: TransformationRecipeDraft,
    r1: TransformationRecipe,
    r2: TransformationRecipe,
)
    requires
        same_content(d1, d2),
        r1.wf(),
        r2.wf(),
        canonical_arrangement(r1.spec_draft(), d1),
        canonical_arrangement(r2.spec_draft(), d2),
    ensures
        r1.spec_id() == r2.spec_id(),
        r1.spec_draft().required_layers@ == r2.spec_draft().required_layers@,
        r1.spec_draft().required_conditions@ == r2.spec_draft().required_conditions@,
        r1.spec_draft().forbidden_conditions@ == r2.spec_draft().forbidden_conditions@,
        r1.spec_draft().validation_plan.steps@ == r2.spec_draft().validation_plan.steps@,
        r1.spec_draft().rollback_plan.validation_steps@
            == r2.spec_draft().rollback_plan.validation_steps@,
        r1.spec_draft().fixtures@ == r2.spec_draft().fixtures@,
{
    let a = r1.spec_draft();
    let b = r2.spec_draft();
    lemma_sorted_arrangement_unique(a.required_layers@, b.required_layers@);
    lemma_sorted_arrangement_unique(a.required_conditions@, b.required_conditions@);
    lemma_sorted_arrangement_unique(a.forbidden_conditions@, b.forbidden_conditions@);
    lemma_sorted_arrangement_unique(a.validation_plan.steps@, b.validation_plan.steps@);
    lemma_sorted_arrangement_unique(
        a.rollback_plan.validation_steps@,
        b.rollback_plan.validation_steps@,
    );
    lemma_valid_fixtures_strict(a.fixtures@);
    lemma_sorted_arrangement_unique(a.fixtures@, b.fixtures@);
    assert(recipe_payload(a) == recipe_payload(b));
}

/// A recipe written to the wire is read back unchanged: every well-formed
/// recipe's parts are accepted by `from_wire`.
pub proof fn lemma_recipe_wire_round_trip(r: TransformationRecipe, w: TransformationRecipeWire)
    requires
        r.wf(),
        w.schema@ == r.spec_schema(),
        w.id@ == r.spec_id(),
        drafts_agree(w.draft, r.spec_draft()),
    ensures
        recipe_wire_accepted(w.schema@, w.id@, w.draft),
{
    assert(recipe_payload(w.draft) == recipe_payload(r.spec_draft()));
}

/// The JSON object of a recipe: its schema, identity and canonical fields.
pub open spec fn recipe_json(schema: Seq<char>, id: Seq<char>, d: TransformationRecipeDraft) -> Seq<char> {
    recipe_head_json(schema, id, d) + recipe_lists_json(d) + "}"@
}

pub open spec fn recipe_head_json(schema: Seq<char>, id: Seq<char>, d: TransformationRecipeDraft) -> Seq<char> {
    "{\"schema\":"@ + json_str(schema) + ",\"id\":"@ + json_str(id) + ",\"name\":"@ + json_str(
        d.name@,
    ) + ",\"version\":"@ + json_str(d.version@) + ",\"family\":"@ + json_str(family_name(d.family))
}

fn push_recipe_head_json(out: &mut String, schema: &str, id: &str, d: &TransformationRecipeDraft)
    ensures
        final(out)@ == old(out)@ + recipe_head_json(schema@, id@, *d),
{
    string_append(out, "{\"schema\":");
    push_json_str(out, schema);
    string_append(out, ",\"id\":");
    push_json_str(out, id);
    string_append(out, ",\"name\":");
    push_json_str(out, d.name.as_str());
    string_append(out, ",\"version\":");
    push_json_str(out, d.version.as_str());
    string_append(out, ",\"family\":");
    push_family_json(out, d.family);
    assert(final(out)@ =~= old(out)@ + recipe_head_json(schema@, id@, *d));
}

pub open spec fn recipe_lists_json(d: TransformationRecipeDraft) -> Seq<char> {
    ",\"required_layers\":"@ + json_array(json_items(d.required_layers@))
        + ",\"required_conditions\":"@ + json_array(json_items(d.required_conditions@))
        + ",\"forbidden_conditions\":"@ + json_array(json_items(d.forbidden_conditions@))
        + ",\"maximum_safety\":"@ + json_str(safety_name(d.maximum_safety))
        + ",\"validation_plan\":"@ + validation_plan_json(d.validation_plan)
        + ",\"rollback_plan\":"@ + rollback_plan_json(d.rollback_plan) + ",\"fixtures\":"@
        + json_array(json_items(d.fixtures@))
}

spec fn recipe_condition_lists_json(d: TransformationRecipeDraft) -> Seq<char> {
    ",\"required_layers\":"@ + json_array(json_items(d.required_layers@))
        + ",\"required_conditions\":"@ + json_array(json_items(d.required_conditions@))
        + ",\"forbidden_conditions\":"@ + json_array(json_items(d.forbidden_conditions@))
}

spec fn recipe_plan_lists_json(d: TransformationRecipeDraft) -> Seq<char> {
    ",\"maximum_safety\":"@ + json_str(safety_name(d.maximum_safety))
        + ",\"validation_plan\":"@ + validation_plan_json(d.validation_plan)
        + ",\"rollback_plan\":"@ + rollback_plan_json(d.rollback_plan) + ",\"fixtures\":"@
        + json_array(json_items(d.fixtures@))
}

fn push_recipe_condition_lists_json(out: &mut String, d: &TransformationRecipeDraft)
    ensures
        final(out)@ == old(out)@ + recipe_condition_lists_json(*d),
{
    string_append(out, ",\"required_layers\":");
    push_json_list(out, &d.required_layers);
    string_append(out, ",\"required_conditions\":");
    push_json_list(out, &d.required_conditions);
    string_append(out, ",\"forbidden_conditions\":");
    push_json_list(out, &d.forbidden_conditions);
    assert(final(out)@ =~= old(out)@ + recipe_condition_lists_json(*d));
}

fn push_recipe_plan_lists_json(out: &mut String, d: &TransformationRecipeDraft)
    ensures
        final(out)@ == old(out)@ + recipe_plan_lists_json(*d),
{
    string_append(out, ",\"maximum_safety\":");
    push_safety_json(out, d.maximum_safety);
    string_append(out, ",\"validation_plan\":");
    push_validation_plan_json(out, &d.validation_plan);
    string_append(out, ",\"rollback_plan\":");
    push_rollback_plan_json(out, &d.rollback_plan);
    string_append(out, ",\"fixtures\":");
    push_json_list(out, &d.fixtures);
    assert(final(out)@ =~= old(out)@ + recipe_plan_lists_json(*d));
}

#[verifier::rlimit(40)]
fn push_recipe_lists_json(out: &mut String, d: &TransformationRecipeDraft)
    ensures
        final(out)@ == old(out)@ + recipe_lists_json(*d),
{
    let ghost start = out@;
    let ghost conditions = recipe_condition_lists_json(*d);
    let ghost plans = recipe_plan_lists_json(*d);
    push_recipe_condition_lists_json(out, d);
    assert(out@ == start + conditions);
    push_recipe_plan_lists_json(out, d);
    assert(out@ == start + conditions + plans);
    assert(recipe_lists_json(*d) == conditions + plans);
    assert(start + conditions + plans =~= start + (conditions + plans));
}

impl TransformationRecipe {
    /// Appends the recipe's JSON object.
    pub fn write_json(&self, out: &mut String)
        ensures
            final(out)@ == old(out)@ + recipe_json(self.spec_schema(), self.spec_id(), self.spec_draft()),
    {
        push_recipe_head_json(out, self.schema.as_str(), self.id.as_str(), &self.draft);
        push_recipe_lists_json(out, &self.draft);
        string_append(out, "}");
        assert(final(out)@ =~= old(out)@ + recipe_json(self.spec_schema(), self.spec_id(), self.spec_draft()));
    }
}

} // verus!
