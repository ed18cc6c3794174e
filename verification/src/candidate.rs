//! The transformation candidate: one proposed, content-addressed rewrite of
//! a retained node, bound to its recipe, its graph evidence, its exact
//! guarded edits and the plans that validate and undo it.

use vstd::prelude::*;
use crate::contract::{
    invalid, rollback_plan_json, rollback_plan_valid, validate_rollback_plan,
    validate_validation_plan, validation_plan_json, validation_plan_valid, ProofState,
    RecipeContractError, RollbackPlan, ValidationPlan, ValidationStep,
    push_rollback_plan_json, push_validation_plan_json,
};
use crate::evidence::{
    contains_entity, delta_json, delta_valid, entity_in, impact_json, impact_valid,
    push_delta_json, push_impact_json, push_results_json, results_json, results_valid,
    validate_delta, validate_impact, validate_results, ConditionEvidence, ConditionResult,
    ExpectedGraphDelta, ImpactCone,
};
use crate::identity::{derive_id, derived_id};
use crate::json::{
    json_array, json_bool, json_items, json_str, push_json_bool, push_json_list, push_json_str,
    string_append, string_push,
};
use crate::model::{push_safety_json, safety_name, safety_rank, spec_safety_rank, SafetyClass, GraphEvidenceLayer};
use crate::order::{compare_str, keys_sorted, keys_strictly_increasing, sort_by_key, Keyed};
use crate::recipe::{arranged, recipe_json, TransformationRecipe};
use crate::target::{
    edits_valid, push_target_json, target_json, target_valid, validate_edits, validate_target,
    CandidateTarget, TransformationEdit,
};
use crate::text::{digest_id_matches, is_lower_digest_id};

verus! {

pub const TRANSFORMATION_CANDIDATE_SCHEMA: &'static str = "deslop.transformation-candidate/1";

pub const CANDIDATE_ID_DOMAIN: &'static str = "deslop.transformation-candidate-id/1";

/// The retained analysis a candidate was derived from.
#[derive(Clone, Debug)]
pub struct CandidateSource {
    pub project_snapshot: String,
    pub analysis: String,
    pub program_dependence_projection: String,
}

pub open spec fn source_json(s: CandidateSource) -> Seq<char> {
    "{\"project_snapshot\":"@ + json_str(s.project_snapshot@) + ",\"analysis\":"@ + json_str(
        s.analysis@,
    ) + ",\"program_dependence_projection\":"@ + json_str(s.program_dependence_projection@) + "}"@
}

fn push_source_json(out: &mut String, s: &CandidateSource)
    ensures
        final(out)@ == old(out)@ + source_json(*s),
{
    string_append(out, "{\"project_snapshot\":");
    push_json_str(out, s.project_snapshot.as_str());
    string_append(out, ",\"analysis\":");
    push_json_str(out, s.analysis.as_str());
    string_append(out, ",\"program_dependence_projection\":");
    push_json_str(out, s.program_dependence_projection.as_str());
    string_append(out, "}");
    assert(final(out)@ =~= old(out)@ + source_json(*s));
}

/// The source names its snapshot, analysis and projection by identity.
pub open spec fn source_valid(s: CandidateSource) -> bool {
    &&& is_lower_digest_id(s.project_snapshot@, "ps1_"@)
    &&& is_lower_digest_id(s.analysis@, "pa1_"@)
    &&& is_lower_digest_id(s.program_dependence_projection@, "pj1_"@)
}

/// The graph-eligibility decision a candidate's recipe received.
#[derive(Clone, Debug)]
pub struct GraphEligibilityDecision {
    pub consumer: String,
    pub required_layers: Vec<GraphEvidenceLayer>,
    pub eligible: bool,
}

pub open spec fn eligibility_json(e: GraphEligibilityDecision) -> Seq<char> {
    "{\"consumer\":"@ + json_str(e.consumer@) + ",\"required_layers\":"@ + json_array(
        json_items(e.required_layers@),
    ) + ",\"eligible\":"@ + json_bool(e.eligible) + "}"@
}

fn push_eligibility_json(out: &mut String, e: &GraphEligibilityDecision)
    ensures
        final(out)@ == old(out)@ + eligibility_json(*e),
{
    string_append(out, "{\"consumer\":");
    push_json_str(out, e.consumer.as_str());
    string_append(out, ",\"required_layers\":");
    push_json_list(out, &e.required_layers);
    string_append(out, ",\"eligible\":");
    push_json_bool(out, e.eligible);
    string_append(out, "}");
    assert(final(out)@ =~= old(out)@ + eligibility_json(*e));
}

/// Whether a candidate may be applied without review.
#[derive(Clone, Copy, Debug, PartialEq, Eq, Structural, Hash)]
pub enum CandidateDisposition {
    Automatic,
    ReviewRequired,
}

pub open spec fn disposition_name(d: CandidateDisposition) -> Seq<char> {
    match d {
        CandidateDisposition::Automatic => "automatic"@,
        CandidateDisposition::ReviewRequired => "review-required"@,
    }
}

/// A candidate as a detector assembles it, before canonical ordering.
#[derive(Clone, Debug)]
pub struct TransformationCandidateDraft {
    pub recipe: TransformationRecipe,
    pub source: CandidateSource,
    pub target: CandidateTarget,
    pub eligibility: GraphEligibilityDecision,
    pub required_results: Vec<ConditionResult>,
    pub forbidden_results: Vec<ConditionResult>,
    pub impact: ImpactCone,
    pub expected_delta: ExpectedGraphDelta,
    pub edits: Vec<TransformationEdit>,
    pub safety: SafetyClass,
    pub disposition: CandidateDisposition,
    pub validation_plan: ValidationPlan,
    pub rollback_plan: RollbackPlan,
}

/// Two lists of validation steps agree step by step.
pub open spec fn steps_agree(a: Seq<ValidationStep>, b: Seq<ValidationStep>) -> bool {
    a.len() == b.len() && forall|i: int| 0 <= i < a.len() ==> (#[trigger] a[i])@ == b[i]@
}

/// Two lists of step keys agree key by key.
pub open spec fn keys_agree(a: Seq<String>, b: Seq<String>) -> bool {
    a.len() == b.len() && forall|i: int| 0 <= i < a.len() ==> (#[trigger] a[i])@ == b[i]@
}

pub open spec fn all_in_state(results: Seq<ConditionResult>, state: ProofState) -> bool {
    forall|i: int| 0 <= i < results.len() ==> (#[trigger] results[i]).state == state
}

/// The candidate is bound to its valid recipe, names its sources by
/// identity, targets a valid node, and carries the eligibility decision of
/// exactly its recipe's requirements.
pub open spec fn candidate_binding_valid(c: TransformationCandidateDraft) -> bool {
    &&& c.recipe.wf()
    &&& source_valid(c.source)
    &&& target_valid(c.target)
    &&& c.eligibility.consumer@ == c.recipe.spec_id()
    &&& c.eligibility.required_layers@ == c.recipe.spec_draft().required_layers@
}

/// Results answer the recipe's conditions; the impact cone is valid and
/// holds the target; the expected delta is valid.
pub open spec fn candidate_evidence_valid(c: TransformationCandidateDraft) -> bool {
    &&& results_valid(c.required_results@, c.recipe.spec_draft().required_conditions@)
    &&& results_valid(c.forbidden_results@, c.recipe.spec_draft().forbidden_conditions@)
    &&& impact_valid(c.impact)
    &&& entity_in(c.target.entity@, c.impact.entities@)
    &&& delta_valid(c.expected_delta)
}

/// The edits are valid, nonempty, and one of them edits the target node.
pub open spec fn candidate_edits_valid(c: TransformationCandidateDraft) -> bool {
    &&& edits_valid(c.edits@)
    &&& c.edits@.len() > 0
    &&& exists|j: int| 0 <= j < c.edits@.len() && (#[trigger] c.edits@[j]).target@ == c.target.node@
}

/// The candidate claims no more safety than its recipe allows and carries
/// its recipe's own validation and rollback plans.
pub open spec fn candidate_plans_valid(c: TransformationCandidateDraft) -> bool {
    &&& spec_safety_rank(c.safety) >= spec_safety_rank(c.recipe.spec_draft().maximum_safety)
    &&& validation_plan_valid(c.validation_plan)
    &&& rollback_plan_valid(c.rollback_plan, c.validation_plan)
    &&& steps_agree(c.validation_plan.steps@, c.recipe.spec_draft().validation_plan.steps@)
    &&& c.rollback_plan.strategy == c.recipe.spec_draft().rollback_plan.strategy
    &&& c.rollback_plan.require_revision_guards == c.recipe.spec_draft().rollback_plan.require_revision_guards
    &&& keys_agree(c.rollback_plan.validation_steps@, c.recipe.spec_draft().rollback_plan.validation_steps@)
}

/// An automatic candidate is SafeAuto and graph-eligible, every required
/// obligation is proven, and every forbidden condition is disproven.
pub open spec fn candidate_authority_valid(c: TransformationCandidateDraft) -> bool {
    c.disposition == CandidateDisposition::Automatic ==> {
        &&& c.safety == SafetyClass::SafeAuto
        &&& c.eligibility.eligible
        &&& all_in_state(c.required_results@, ProofState::Proven)
        &&& all_in_state(c.forbidden_results@, ProofState::Disproven)
    }
}

pub open spec fn candidate_fields_valid(c: TransformationCandidateDraft) -> bool {
    &&& candidate_binding_valid(c)
    &&& candidate_evidence_valid(c)
    &&& candidate_edits_valid(c)
    &&& candidate_plans_valid(c)
    &&& candidate_authority_valid(c)
}

/// The JSON text from which a candidate's identity is derived: an array of
/// the schema and every field of the canonical draft, in declared order.
pub open spec fn candidate_payload(c: TransformationCandidateDraft) -> Seq<char> {
    "["@ + json_str(TRANSFORMATION_CANDIDATE_SCHEMA@) + ","@ + recipe_json(
        c.recipe.spec_schema(),
        c.recipe.spec_id(),
        c.recipe.spec_draft(),
    ) + ","@ + source_json(c.source) + ","@ + target_json(c.target) + ","@ + eligibility_json(
        c.eligibility,
    ) + ","@ + results_json(c.required_results@) + ","@ + results_json(c.forbidden_results@)
        + candidate_payload_tail(c) + "]"@
}

pub open spec fn candidate_payload_tail(c: TransformationCandidateDraft) -> Seq<char> {
    candidate_payload_changes(c) + candidate_payload_plans(c)
}

pub open spec fn candidate_payload_changes(c: TransformationCandidateDraft) -> Seq<char> {
    ","@ + impact_json(c.impact) + ","@ + delta_json(c.expected_delta) + ","@ + json_array(
        json_items(c.edits@),
    )
}

pub open spec fn candidate_payload_plans(c: TransformationCandidateDraft) -> Seq<char> {
    ","@ + json_str(safety_name(c.safety)) + ","@ + json_str(disposition_name(c.disposition))
        + ","@ + validation_plan_json(c.validation_plan) + ","@ + rollback_plan_json(c.rollback_plan)
}

/// The identity of a canonical candidate draft.
pub open spec fn candidate_id(c: TransformationCandidateDraft) -> Seq<char> {
    derived_id(CANDIDATE_ID_DOMAIN@, "tcn1_"@, candidate_payload(c))
}

fn push_payload_head(out: &mut String, c: &TransformationCandidateDraft)
    ensures
        final(out)@ == old(out)@ + "["@ + json_str(TRANSFORMATION_CANDIDATE_SCHEMA@) + ","@
            + recipe_json(c.recipe.spec_schema(), c.recipe.spec_id(), c.recipe.spec_draft()) + ","@
            + source_json(c.source) + ","@ + target_json(c.target) + ","@ + eligibility_json(
            c.eligibility,
        ),
{
    string_append(out, "[");
    push_json_str(out, TRANSFORMATION_CANDIDATE_SCHEMA);
    string_append(out, ",");
    c.recipe.write_json(out);
    string_append(out, ",");
    push_source_json(out, &c.source);
    string_append(out, ",");
    push_target_json(out, &c.target);
    string_append(out, ",");
    push_eligibility_json(out, &c.eligibility);
    assert(final(out)@ =~= old(out)@ + "["@ + json_str(TRANSFORMATION_CANDIDATE_SCHEMA@) + ","@
        + recipe_json(c.recipe.spec_schema(), c.recipe.spec_id(), c.recipe.spec_draft()) + ","@
        + source_json(c.source) + ","@ + target_json(c.target) + ","@ + eligibility_json(
        c.eligibility,
    ));
}

fn push_payload_tail(out: &mut String, c: &TransformationCandidateDraft)
    ensures
        final(out)@ == old(out)@ + candidate_payload_tail(*c),
{
    push_payload_changes(out, c);
    push_payload_plans(out, c);
    assert(final(out)@ =~= old(out)@ + candidate_payload_tail(*c));
}

#[verifier::rlimit(40)]
fn push_payload_changes(out: &mut String, c: &TransformationCandidateDraft)
    ensures
        final(out)@ == old(out)@ + candidate_payload_changes(*c),
{
    string_append(out, ",");
    push_impact_json(out, &c.impact);
    string_append(out, ",");
    push_delta_json(out, &c.expected_delta);
    string_append(out, ",");
    push_json_list(out, &c.edits);
    assert(final(out)@ =~= old(out)@ + candidate_payload_changes(*c));
}

#[verifier::rlimit(40)]
fn push_payload_plans(out: &mut String, c: &TransformationCandidateDraft)
    ensures
        final(out)@ == old(out)@ + candidate_payload_plans(*c),
{
    string_append(out, ",");
    push_safety_json(out, c.safety);
    string_append(out, ",");
    match c.disposition {
        CandidateDisposition::Automatic => push_json_str(out, "automatic"),
        CandidateDisposition::ReviewRequired => push_json_str(out, "review-required"),
    }
    string_append(out, ",");
    push_validation_plan_json(out, &c.validation_plan);
    string_append(out, ",");
    push_rollback_plan_json(out, &c.rollback_plan);
    assert(final(out)@ =~= old(out)@ + candidate_payload_plans(*c));
}

/// The identity of a canonical candidate draft.
pub fn derive_candidate_id(c: &TransformationCandidateDraft) -> (r: String)
    ensures
        r@ == candidate_id(*c),
        is_lower_digest_id(r@, "tcn1_"@),
{
    let mut out = String::new();
    push_payload_head(&mut out, c);
    string_append(&mut out, ",");
    push_results_json(&mut out, &c.required_results);
    string_append(&mut out, ",");
    push_results_json(&mut out, &c.forbidden_results);
    push_payload_tail(&mut out, c);
    string_append(&mut out, "]");
    assert(out@ =~= candidate_payload(*c));
    derive_id(CANDIDATE_ID_DOMAIN, "tcn1_", out.as_str())
}

fn same_steps(a: &Vec<ValidationStep>, b: &Vec<ValidationStep>) -> (r: bool)
    ensures
        r == steps_agree(a@, b@),
{
    let n = a.len();
    if n != b.len() {
        return false;
    }
    let mut i: usize = 0;
    while i < n
        invariant
            n == a@.len(),
            n == b@.len(),
            i <= n,
            forall|k: int| 0 <= k < i ==> (#[trigger] a@[k])@ == b@[k]@,
        decreases n - i,
    {
        let x = &a[i];
        let y = &b[i];
        let same_command = match (&x.command, &y.command) {
            (Some(p), Some(q)) => compare_str(p.as_str(), q.as_str()) == 0,
            (None, None) => true,
            _ => false,
        };
        if !(compare_str(x.key.as_str(), y.key.as_str()) == 0 && x.kind == y.kind && compare_str(
            x.description.as_str(),
            y.description.as_str(),
        ) == 0 && same_command && x.required == y.required) {
            assert(a@[i as int]@ != b@[i as int]@);
            return false;
        }
        assert(x@ == y@);
        i = i + 1;
    }
    true
}

fn same_keys(a: &Vec<String>, b: &Vec<String>) -> (r: bool)
    ensures
        r == keys_agree(a@, b@),
{
    let n = a.len();
    if n != b.len() {
        return false;
    }
    let mut i: usize = 0;
    while i < n
        invariant
            n == a@.len(),
            n == b@.len(),
            i <= n,
            forall|k: int| 0 <= k < i ==> (#[trigger] a@[k])@ == b@[k]@,
        decreases n - i,
    {
        if compare_str(a[i].as_str(), b[i].as_str()) != 0 {
            return false;
        }
        i = i + 1;
    }
    true
}

fn all_results_in(results: &Vec<ConditionResult>, state: ProofState) -> (r: bool)
    ensures
        r == all_in_state(results@, state),
{
    let n = results.len();
    let mut i: usize = 0;
    while i < n
        invariant
            n == results@.len(),
            i <= n,
            forall|k: int| 0 <= k < i ==> (#[trigger] results@[k]).state == state,
        decreases n - i,
    {
        if results[i].state != state {
            return false;
        }
        i = i + 1;
    }
    true
}

fn edits_target(edits: &Vec<TransformationEdit>, target: &CandidateTarget) -> (r: bool)
    ensures
        r == exists|j: int| 0 <= j < edits@.len() && (#[trigger] edits@[j]).target@ == target.node@,
{
    let n = edits.len();
    let mut i: usize = 0;
    while i < n
        invariant
            n == edits@.len(),
            i <= n,
            forall|k: int| 0 <= k < i ==> (#[trigger] edits@[k]).target@ != target.node@,
        decreases n - i,
    {
        if edits[i].target.same_node(&target.node) {
            return true;
        }
        i = i + 1;
    }
    false
}

fn validate_binding(c: &TransformationCandidateDraft) -> (r: Result<(), RecipeContractError>)
    ensures
        r is Ok <==> candidate_binding_valid(*c),
        r matches Err(e) ==> e is Invalid,
{
    c.recipe.validate()?;
    if !digest_id_matches(c.source.project_snapshot.as_str(), "ps1_", true)
        || !digest_id_matches(c.source.analysis.as_str(), "pa1_", true) || !digest_id_matches(
        c.source.program_dependence_projection.as_str(),
        "pj1_",
        true,
    ) {
        return Err(invalid("identity must be canonical lowercase <prefix><64-hex>"));
    }
    validate_target(&c.target)?;
    let layers = c.recipe.required_layers();
    let mut same_layers = c.eligibility.required_layers.len() == layers.len();
    if same_layers {
        let n = layers.len();
        let mut i: usize = 0;
        while i < n
            invariant
                n == layers@.len(),
                n == c.eligibility.required_layers@.len(),
                i <= n,
                same_layers ==> forall|k: int| 0 <= k < i ==> c.eligibility.required_layers@[k] == layers@[k],
                !same_layers ==> c.eligibility.required_layers@ != layers@,
            decreases n - i,
        {
            if c.eligibility.required_layers[i] != layers[i] {
                same_layers = false;
            }
            i = i + 1;
        }
        if same_layers {
            assert(c.eligibility.required_layers@ =~= layers@);
        }
    }
    if compare_str(c.eligibility.consumer.as_str(), c.recipe.id()) != 0 || !same_layers {
        return Err(invalid("candidate eligibility does not bind its exact recipe requirements"));
    }
    Ok(())
}

fn validate_candidate_evidence(c: &TransformationCandidateDraft) -> (r: Result<(), RecipeContractError>)
    ensures
        r is Ok <==> candidate_evidence_valid(*c),
        r matches Err(e) ==> e is Invalid,
{
    validate_results("required results", &c.required_results, c.recipe.required_conditions())?;
    validate_results("forbidden results", &c.forbidden_results, c.recipe.forbidden_conditions())?;
    validate_impact(&c.impact)?;
    if !contains_entity(&c.impact.entities, &c.target.entity) {
        return Err(invalid("candidate target is outside its computed impact cone"));
    }
    validate_delta(&c.expected_delta)
}

fn validate_candidate_edits(c: &TransformationCandidateDraft) -> (r: Result<(), RecipeContractError>)
    ensures
        r is Ok <==> candidate_edits_valid(*c),
        r matches Err(e) ==> e is Invalid,
{
    validate_edits(&c.edits)?;
    if c.edits.len() == 0 {
        return Err(invalid("a transformation candidate requires at least one exact edit"));
    }
    if !edits_target(&c.edits, &c.target) {
        return Err(invalid("candidate edits do not include the target node"));
    }
    Ok(())
}

fn validate_candidate_plans(c: &TransformationCandidateDraft) -> (r: Result<(), RecipeContractError>)
    ensures
        r is Ok <==> candidate_plans_valid(*c),
        r matches Err(e) ==> e is Invalid,
{
    if safety_rank(c.safety) < safety_rank(c.recipe.maximum_safety()) {
        return Err(invalid("candidate safety exceeds the recipe maximum"));
    }
    validate_validation_plan(&c.validation_plan)?;
    validate_rollback_plan(&c.rollback_plan, &c.validation_plan)?;
    let recipe_plan = c.recipe.validation_plan();
    let recipe_rollback = c.recipe.rollback_plan();
    if !same_steps(&c.validation_plan.steps, &recipe_plan.steps) || c.rollback_plan.strategy
        != recipe_rollback.strategy || c.rollback_plan.require_revision_guards
        != recipe_rollback.require_revision_guards || !same_keys(
        &c.rollback_plan.validation_steps,
        &recipe_rollback.validation_steps,
    ) {
        return Err(invalid("candidate validation or rollback plan diverges from its recipe"));
    }
    Ok(())
}

/// Checks every field of a canonical candidate draft, in the order the
/// contract lists them.
pub fn validate_candidate_fields(c: &TransformationCandidateDraft) -> (r: Result<(), RecipeContractError>)
    ensures
        r is Ok <==> candidate_fields_valid(*c),
        r matches Err(e) ==> e is Invalid,
{
    validate_binding(c)?;
    validate_candidate_evidence(c)?;
    validate_candidate_edits(c)?;
    validate_candidate_plans(c)?;
    if c.disposition == CandidateDisposition::Automatic {
        if c.safety != SafetyClass::SafeAuto || !c.eligibility.eligible {
            return Err(invalid("automatic candidate lacks SafeAuto graph eligibility"));
        }
        if !all_results_in(&c.required_results, ProofState::Proven) || !all_results_in(
            &c.forbidden_results,
            ProofState::Disproven,
        ) {
            return Err(
                invalid(
                    "automatic candidate has an unproven obligation or possible forbidden condition",
                ),
            );
        }
    }
    Ok(())
}

/// `e` is `d` with the evidence of each result sorted.
pub open spec fn evidence_sorted_from(e: Seq<ConditionResult>, d: Seq<ConditionResult>) -> bool {
    &&& e.len() == d.len()
    &&& forall|i: int|
        0 <= i < e.len() ==> (#[trigger] e[i]).condition == d[i].condition && e[i].state == d[i].state
            && arranged(e[i].evidence@, d[i].evidence@)
}

/// `c` holds the results of `d`, each with sorted evidence, sorted by condition.
pub open spec fn results_arranged(c: Seq<ConditionResult>, d: Seq<ConditionResult>) -> bool {
    exists|e: Seq<ConditionResult>| evidence_sorted_from(e, d) && arranged(c, e)
}

/// `c` is `d` with every list sorted into canonical order.
pub open spec fn candidate_arrangement(c: TransformationCandidateDraft, d: TransformationCandidateDraft) -> bool {
    &&& c.recipe == d.recipe
    &&& c.source == d.source
    &&& c.target == d.target
    &&& c.eligibility == d.eligibility
    &&& results_arranged(c.required_results@, d.required_results@)
    &&& results_arranged(c.forbidden_results@, d.forbidden_results@)
    &&& arranged(c.impact.query.roots@, d.impact.query.roots@)
    &&& c.impact.query.direction == d.impact.query.direction
    &&& arranged(c.impact.query.layers@, d.impact.query.layers@)
    &&& c.impact.query.maximum_depth == d.impact.query.maximum_depth
    &&& arranged(c.impact.entities@, d.impact.entities@)
    &&& c.impact.truncated == d.impact.truncated
    &&& arranged(c.expected_delta.changes@, d.expected_delta.changes@)
    &&& arranged(c.edits@, d.edits@)
    &&& c.safety == d.safety
    &&& c.disposition == d.disposition
    &&& arranged(c.validation_plan.steps@, d.validation_plan.steps@)
    &&& c.rollback_plan.strategy == d.rollback_plan.strategy
    &&& c.rollback_plan.require_revision_guards == d.rollback_plan.require_revision_guards
    &&& arranged(c.rollback_plan.validation_steps@, d.rollback_plan.validation_steps@)
}

fn canonical_results(rs: Vec<ConditionResult>) -> (r: Vec<ConditionResult>)
    ensures
        results_arranged(r@, rs@),
{
    let ghost d = rs@;
    let mut rest = rs;
    let mut e: Vec<ConditionResult> = Vec::new();
    while rest.len() > 0
        invariant
            e@.len() + rest@.len() == d.len(),
            rest@ == d.subrange(e@.len() as int, d.len() as int),
            forall|i: int|
                0 <= i < e@.len() ==> (#[trigger] e@[i]).condition == d[i].condition && e@[i].state
                    == d[i].state && arranged(e@[i].evidence@, d[i].evidence@),
        decreases rest@.len(),
    {
        let ghost k = e@.len() as int;
        let ghost before = rest@;
        let ConditionResult { condition, state, evidence } = rest.remove(0);
        assert(before[0] == d[k]);
        let sorted = sort_by_key(evidence);
        e.push(ConditionResult { condition, state, evidence: sorted });
        assert(rest@ =~= d.subrange(e@.len() as int, d.len() as int));
    }
    assert(evidence_sorted_from(e@, d));
    let c = sort_by_key(e);
    assert(arranged(c@, e@));
    c
}

/// A well-formed, content-addressed transformation candidate.
#[derive(Clone, Debug)]
pub struct TransformationCandidate {
    schema: String,
    id: String,
    draft: TransformationCandidateDraft,
}

impl View for TransformationCandidate {
    type V = TransformationCandidate;

    open spec fn view(&self) -> TransformationCandidate {
        *self
    }
}

impl Keyed for TransformationCandidate {
    /// Candidates are ordered by identity.
    open spec fn key(v: TransformationCandidate) -> Seq<int> {
        crate::order::str_key(v.spec_id())
    }

    fn precedes(&self, other: &Self) -> (r: bool) {
        compare_str(self.id.as_str(), other.id.as_str()) < 0
    }
}

/// A candidate read from the wire is accepted exactly when its identity has
/// the candidate form, its schema is current, its fields are canonical and
/// valid, and its identity is the one its fields derive.
pub open spec fn candidate_wire_accepted(
    schema: Seq<char>,
    id: Seq<char>,
    d: TransformationCandidateDraft,
) -> bool {
    &&& is_lower_digest_id(id, "tcn1_"@)
    &&& schema == TRANSFORMATION_CANDIDATE_SCHEMA@
    &&& candidate_fields_valid(d)
    &&& id == candidate_id(d)
}

/// The parts of a candidate as they travel on the wire.
#[derive(Clone, Debug)]
pub struct TransformationCandidateWire {
    pub schema: String,
    pub id: String,
    pub draft: TransformationCandidateDraft,
}

impl TransformationCandidate {
    pub closed spec fn spec_schema(&self) -> Seq<char> {
        self.schema@
    }

    pub closed spec fn spec_id(&self) -> Seq<char> {
        self.id@
    }

    pub closed spec fn spec_draft(&self) -> TransformationCandidateDraft {
        self.draft
    }

    /// The candidate's invariant.
    pub open spec fn wf(&self) -> bool {
        candidate_wire_accepted(self.spec_schema(), self.spec_id(), self.spec_draft())
    }

    /// Builds a candidate from a draft: sorts every list into canonical
    /// order, derives the identity, and checks the result. A draft that is
    /// already valid is accepted with its lists unchanged.
    pub fn new(draft: TransformationCandidateDraft) -> (r: Result<TransformationCandidate, RecipeContractError>)
        ensures
            r matches Ok(c) ==> c.wf() && candidate_arrangement(c.spec_draft(), draft),
            candidate_fields_valid(draft) ==> r is Ok,
            r matches Err(e) ==> e is Invalid,
    {
        let ghost original = draft;
        let TransformationCandidateDraft {
            recipe,
            source,
            target,
            eligibility,
            required_results,
            forbidden_results,
            impact,
            expected_delta,
            edits,
            safety,
            disposition,
            validation_plan,
            rollback_plan,
        } = draft;
        let ImpactCone { query, entities, truncated } = impact;
        let crate::evidence::ImpactConeQuery { roots, direction, layers, maximum_depth } = query;
        let ValidationPlan { steps } = validation_plan;
        let RollbackPlan { strategy, require_revision_guards, validation_steps } = rollback_plan;
        let canonical = TransformationCandidateDraft {
            recipe,
            source,
            target,
            eligibility,
            required_results: canonical_results(required_results),
            forbidden_results: canonical_results(forbidden_results),
            impact: ImpactCone {
                query: crate::evidence::ImpactConeQuery {
                    roots: sort_by_key(roots),
                    direction,
                    layers: sort_by_key(layers),
                    maximum_depth,
                },
                entities: sort_by_key(entities),
                truncated,
            },
            expected_delta: ExpectedGraphDelta { changes: sort_by_key(expected_delta.changes) },
            edits: sort_by_key(edits),
            safety,
            disposition,
            validation_plan: ValidationPlan { steps: sort_by_key(steps) },
            rollback_plan: RollbackPlan {
                strategy,
                require_revision_guards,
                validation_steps: sort_by_key(validation_steps),
            },
        };
        assert(candidate_arrangement(canonical, original));
        proof {
            if candidate_fields_valid(original) {
                lemma_valid_draft_kept(canonical, original);
            }
        }
        validate_candidate_fields(&canonical)?;
        let id = derive_candidate_id(&canonical);
        let schema = TRANSFORMATION_CANDIDATE_SCHEMA.to_owned();
        Ok(TransformationCandidate { schema, id, draft: canonical })
    }

    /// Accepts a candidate read from the wire; nothing is reordered, so a
    /// stale identity or a noncanonical order is refused.
    pub fn from_wire(wire: TransformationCandidateWire) -> (r: Result<TransformationCandidate, RecipeContractError>)
        ensures
            r is Ok <==> candidate_wire_accepted(wire.schema@, wire.id@, wire.draft),
            r matches Ok(c) ==> c.spec_schema() == wire.schema@ && c.spec_id() == wire.id@
                && c.spec_draft() == wire.draft,
            r matches Err(e) ==> e is Invalid,
    {
        if !digest_id_matches(wire.id.as_str(), "tcn1_", true) {
            return Err(invalid("identity must be canonical lowercase tcn1_<64-hex>"));
        }
        if compare_str(wire.schema.as_str(), TRANSFORMATION_CANDIDATE_SCHEMA) != 0 {
            return Err(invalid("unsupported transformation-candidate schema"));
        }
        validate_candidate_fields(&wire.draft)?;
        let expected = derive_candidate_id(&wire.draft);
        if compare_str(wire.id.as_str(), expected.as_str()) != 0 {
            return Err(invalid("transformation-candidate identity is stale"));
        }
        Ok(TransformationCandidate { schema: wire.schema, id: wire.id, draft: wire.draft })
    }

    /// Checks the candidate against every rule it was built under: its
    /// identity form, schema, fields and derived identity.
    pub fn validate(&self) -> (r: Result<(), RecipeContractError>)
        ensures
            r is Ok <==> self.wf(),
            r matches Err(e) ==> e is Invalid,
    {
        if !digest_id_matches(self.id.as_str(), "tcn1_", true) {
            return Err(invalid("identity must be canonical lowercase tcn1_<64-hex>"));
        }
        if compare_str(self.schema.as_str(), TRANSFORMATION_CANDIDATE_SCHEMA) != 0 {
            return Err(invalid("unsupported transformation-candidate schema"));
        }
        validate_candidate_fields(&self.draft)?;
        let expected = derive_candidate_id(&self.draft);
        if compare_str(self.id.as_str(), expected.as_str()) != 0 {
            return Err(invalid("transformation-candidate identity is stale"));
        }
        Ok(())
    }

    /// The parts of the candidate for the wire.
    pub fn into_wire(self) -> (w: TransformationCandidateWire)
        ensures
            w.schema@ == self.spec_schema(),
            w.id@ == self.spec_id(),
            w.draft == self.spec_draft(),
    {
        TransformationCandidateWire { schema: self.schema, id: self.id, draft: self.draft }
    }

    pub fn schema(&self) -> (r: &str)
        ensures
            r@ == self.spec_schema(),
    {
        self.schema.as_str()
    }

    pub fn id(&self) -> (r: &str)
        ensures
            r@ == self.spec_id(),
    {
        self.id.as_str()
    }

    pub fn recipe(&self) -> (r: &TransformationRecipe)
        ensures
            *r == self.spec_draft().recipe,
    {
        &self.draft.recipe
    }

    pub fn source(&self) -> (r: &CandidateSource)
        ensures
            *r == self.spec_draft().source,
    {
        &self.draft.source
    }

    pub fn target(&self) -> (r: &CandidateTarget)
        ensures
            *r == self.spec_draft().target,
    {
        &self.draft.target
    }

    pub fn eligibility(&self) -> (r: &GraphEligibilityDecision)
        ensures
            *r == self.spec_draft().eligibility,
    {
        &self.draft.eligibility
    }

    pub fn required_results(&self) -> (r: &[ConditionResult])
        ensures
            r@ == self.spec_draft().required_results@,
    {
        self.draft.required_results.as_slice()
    }

    pub fn forbidden_results(&self) -> (r: &[ConditionResult])
        ensures
            r@ == self.spec_draft().forbidden_results@,
    {
        self.draft.forbidden_results.as_slice()
    }

    pub fn impact(&self) -> (r: &ImpactCone)
        ensures
            *r == self.spec_draft().impact,
    {
        &self.draft.impact
    }

    pub fn expected_delta(&self) -> (r: &ExpectedGraphDelta)
        ensures
            *r == self.spec_draft().expected_delta,
    {
        &self.draft.expected_delta
    }

    pub fn edits(&self) -> (r: &[TransformationEdit])
        ensures
            r@ == self.spec_draft().edits@,
    {
        self.draft.edits.as_slice()
    }

    pub fn safety(&self) -> (r: SafetyClass)
        ensures
            r == self.spec_draft().safety,
    {
        self.draft.safety
    }

    pub fn disposition(&self) -> (r: CandidateDisposition)
        ensures
            r == self.spec_draft().disposition,
    {
        self.draft.disposition
    }

    pub fn validation_plan(&self) -> (r: &ValidationPlan)
        ensures
            *r == self.spec_draft().validation_plan,
    {
        &self.draft.validation_plan
    }

    pub fn rollback_plan(&self) -> (r: &RollbackPlan)
        ensures
            *r == self.spec_draft().rollback_plan,
    {
        &self.draft.rollback_plan
    }
}

/// Valid results answer strictly increasing conditions, so they are in
/// strictly increasing order themselves.
proof fn lemma_valid_results_strict(results: Seq<ConditionResult>, conditions: Seq<crate::contract::RecipeCondition>)
    requires
        results_valid(results, conditions),
        keys_strictly_increasing(conditions),
    ensures
        keys_strictly_increasing(results),
{
    assert forall|i: int| 0 <= i < results.len() - 1 implies #[trigger] crate::order::key_lt_at(results, i) by {
        assert(crate::order::key_lt_at(conditions, i));
        assert(results[i].condition@ == conditions[i].key@);
        assert(results[i + 1].condition@ == conditions[i + 1].key@);
    }
}

/// Sorting already canonical results keeps each result's condition, state
/// and evidence.
proof fn lemma_canonical_results_kept(c: Seq<ConditionResult>, d: Seq<ConditionResult>)
    requires
        results_arranged(c, d),
        keys_strictly_increasing(d),
        forall|i: int| 0 <= i < d.len() ==> keys_strictly_increasing((#[trigger] d[i]).evidence@),
    ensures
        c.len() == d.len(),
        forall|i: int| 0 <= i < c.len() ==> (#[trigger] c[i]).condition == d[i].condition
            && c[i].state == d[i].state && c[i].evidence@ == d[i].evidence@,
{
    let e = choose|e: Seq<ConditionResult>| evidence_sorted_from(e, d) && arranged(c, e);
    assert forall|i: int| 0 <= i < e.len() implies (#[trigger] e[i]).evidence@ == d[i].evidence@ by {
        crate::order::lemma_sorted_arrangement_unique(d[i].evidence@, e[i].evidence@);
    }
    assert forall|i: int| 0 <= i < e.len() - 1 implies #[trigger] crate::order::key_lt_at(e, i) by {
        assert(crate::order::key_lt_at(d, i));
        assert(e[i].condition == d[i].condition);
        assert(e[i + 1].condition == d[i + 1].condition);
    }
    crate::order::lemma_sorted_arrangement_unique(e, c);
}

/// Results that agree in condition, state and evidence are equally valid.
proof fn lemma_agreeing_results(c: Seq<ConditionResult>, d: Seq<ConditionResult>, conditions: Seq<crate::contract::RecipeCondition>)
    requires
        c.len() == d.len(),
        forall|i: int| 0 <= i < c.len() ==> (#[trigger] c[i]).condition == d[i].condition
            && c[i].state == d[i].state && c[i].evidence@ == d[i].evidence@,
    ensures
        results_valid(c, conditions) == results_valid(d, conditions),
        all_in_state(c, ProofState::Proven) == all_in_state(d, ProofState::Proven),
        all_in_state(c, ProofState::Disproven) == all_in_state(d, ProofState::Disproven),
{
    assert forall|i: int| 0 <= i < c.len() implies result_valid_eq(c[i], d[i], conditions[i]) by {
    }
    if results_valid(d, conditions) {
        assert forall|i: int| 0 <= i < c.len() implies crate::evidence::result_valid(#[trigger] c[i], conditions[i]) by {
            assert(result_valid_eq(c[i], d[i], conditions[i]));
            assert(crate::evidence::result_valid(d[i], conditions[i]));
        }
    }
    if results_valid(c, conditions) {
        assert forall|i: int| 0 <= i < d.len() implies crate::evidence::result_valid(#[trigger] d[i], conditions[i]) by {
            assert(result_valid_eq(c[i], d[i], conditions[i]));
            assert(crate::evidence::result_valid(c[i], conditions[i]));
        }
    }
}

spec fn result_valid_eq(a: ConditionResult, b: ConditionResult, c: crate::contract::RecipeCondition) -> bool {
    (a.condition == b.condition && a.state == b.state && a.evidence@ == b.evidence@) ==> (
    crate::evidence::result_valid(a, c) == crate::evidence::result_valid(b, c))
}

/// Sorting a valid draft changes none of its lists, so the result is valid.
proof fn lemma_valid_draft_kept(c: TransformationCandidateDraft, d: TransformationCandidateDraft)
    requires
        candidate_arrangement(c, d),
        candidate_fields_valid(d),
    ensures
        candidate_fields_valid(c),
{
    crate::order::lemma_sorted_arrangement_unique(d.impact.query.roots@, c.impact.query.roots@);
    crate::order::lemma_sorted_arrangement_unique(d.impact.query.layers@, c.impact.query.layers@);
    crate::order::lemma_sorted_arrangement_unique(d.impact.entities@, c.impact.entities@);
    crate::order::lemma_sorted_arrangement_unique(d.expected_delta.changes@, c.expected_delta.changes@);
    crate::order::lemma_sorted_arrangement_unique(d.edits@, c.edits@);
    crate::order::lemma_sorted_arrangement_unique(d.validation_plan.steps@, c.validation_plan.steps@);
    crate::order::lemma_sorted_arrangement_unique(d.rollback_plan.validation_steps@, c.rollback_plan.validation_steps@);
    let conds_req = d.recipe.spec_draft().required_conditions@;
    let conds_forb = d.recipe.spec_draft().forbidden_conditions@;
    lemma_valid_results_strict(d.required_results@, conds_req);
    lemma_valid_results_strict(d.forbidden_results@, conds_forb);
    assert forall|i: int| 0 <= i < d.required_results@.len() implies keys_strictly_increasing(
        (#[trigger] d.required_results@[i]).evidence@,
    ) by {
        assert(crate::evidence::result_valid(d.required_results@[i], conds_req[i]));
    }
    assert forall|i: int| 0 <= i < d.forbidden_results@.len() implies keys_strictly_increasing(
        (#[trigger] d.forbidden_results@[i]).evidence@,
    ) by {
        assert(crate::evidence::result_valid(d.forbidden_results@[i], conds_forb[i]));
    }
    lemma_canonical_results_kept(c.required_results@, d.required_results@);
    lemma_canonical_results_kept(c.forbidden_results@, d.forbidden_results@);
    lemma_agreeing_results(c.required_results@, d.required_results@, conds_req);
    lemma_agreeing_results(c.forbidden_results@, d.forbidden_results@, conds_forb);
    assert(candidate_binding_valid(c));
    assert(candidate_evidence_valid(c));
    assert(candidate_edits_valid(c));
    assert(candidate_plans_valid(c));
    assert(candidate_authority_valid(c));
}

/// An automatic candidate is SafeAuto and graph-eligible, every obligation
/// its recipe requires is proven, and every condition it forbids is disproven.
pub proof fn lemma_automatic_candidate_fully_proven(c: TransformationCandidate)
    requires
        c.wf(),
        c.spec_draft().disposition == CandidateDisposition::Automatic,
    ensures
        c.spec_draft().safety == SafetyClass::SafeAuto,
        c.spec_draft().eligibility.eligible,
        forall|i: int| 0 <= i < c.spec_draft().required_results@.len()
            ==> (#[trigger] c.spec_draft().required_results@[i]).state == ProofState::Proven,
        forall|i: int| 0 <= i < c.spec_draft().forbidden_results@.len()
            ==> (#[trigger] c.spec_draft().forbidden_results@[i]).state == ProofState::Disproven,
{
}

/// A candidate with an obligation that is not proven needs review.
pub proof fn lemma_unproven_obligation_requires_review(c: TransformationCandidate, i: int)
    requires
        c.wf(),
        0 <= i < c.spec_draft().required_results@.len(),
        c.spec_draft().required_results@[i].state != ProofState::Proven,
    ensures
        c.spec_draft().disposition == CandidateDisposition::ReviewRequired,
{
}

/// A candidate never claims more safety than its recipe's maximum.
pub proof fn lemma_candidate_within_recipe_safety(c: TransformationCandidate)
    requires
        c.wf(),
    ensures
        spec_safety_rank(c.spec_draft().safety) >= spec_safety_rank(
            c.spec_draft().recipe.spec_draft().maximum_safety,
        ),
        c.spec_draft().recipe.wf(),
{
}

/// Every candidate edits its exact target node, the target lies inside the
/// candidate's impact cone, and the edits answer the recipe's conditions one
/// for one.
pub proof fn lemma_candidate_targets_its_node(c: TransformationCandidate)
    requires
        c.wf(),
    ensures
        exists|j: int| 0 <= j < c.spec_draft().edits@.len() && (#[trigger] c.spec_draft().edits@[j]).target@
            == c.spec_draft().target.node@,
        entity_in(c.spec_draft().target.entity@, c.spec_draft().impact.entities@),
        c.spec_draft().required_results@.len() == c.spec_draft().recipe.spec_draft().required_conditions@.len(),
        c.spec_draft().forbidden_results@.len() == c.spec_draft().recipe.spec_draft().forbidden_conditions@.len(),
{
}

/// A candidate's wire parts are accepted back: `from_wire(c.into_wire())`
/// succeeds for every well-formed candidate.
pub proof fn lemma_candidate_wire_round_trip(c: TransformationCandidate, w: TransformationCandidateWire)
    requires
        c.wf(),
        w.schema@ == c.spec_schema(),
        w.id@ == c.spec_id(),
        w.draft == c.spec_draft(),
    ensures
        candidate_wire_accepted(w.schema@, w.id@, w.draft),
{
}

} // verus!
