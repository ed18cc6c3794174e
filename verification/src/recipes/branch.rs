//! Factoring of equivalent fragments out of both arms of a branch.

use vstd::prelude::*;
use crate::contract::{
    contract_error_message, labeled_message,
    FixtureExpectation, RecipeContractError, RecipeFixtureRole, RollbackPlan, RollbackStrategy,
    TransformationFamily, ValidationPlan, ValidationStep, ValidationStepKind,
};
use crate::impact::{impact_error_message, ImpactQueryError};
use crate::model::{GraphEvidenceLayer, SafetyClass};
use crate::recipe::{recipe_draft_sound, TransformationRecipe, TransformationRecipeDraft};
use super::{build_recipe, condition, fixture, lemma_ranked_layers_canonical, recipe_header, validation};
use crate::candidate::TransformationCandidate;
use crate::evidence::{
    distinct_entities, entity_in, push_unique_entity, ConditionEvidence, ConditionResult, ExpectedGraphChange,
    ExpectedGraphDelta, GraphEntityRef, GraphEntityView,
};
use crate::order::{compare_str, keys_sorted, sort_by_key};
use crate::json::string_append;
use crate::text::is_canonical_text;
use super::condition_is;
use super::fixture_is;
use super::step_is;
use crate::recipe::canonical_arrangement;

verus! {

pub const CONDITION_EQUIVALENT_FRAGMENT: &'static str = "equivalent-fragment-exact";
pub const CONDITION_CONDITION_ORDER: &'static str = "condition-order-retained";
pub const CONDITION_DEPENDENCIES: &'static str = "dependencies-preserved";
pub const CONDITION_EFFECT_ORDER: &'static str = "effect-and-drop-order-preserved";
pub const FORBIDDEN_UNCERTAIN_CONTROL: &'static str = "recovered-or-conservative-control";
pub const FORBIDDEN_BINDING_ESCAPE: &'static str = "binding-lifetime-or-drop-escape";
pub const FORBIDDEN_NON_STRUCTURED: &'static str = "non-structured-control";

/// The draft of the rust-factor-equivalent-branch-fragments recipe: its name, version, family,
/// maximum safety, layers, conditions, plans and fixtures, in order.
pub open spec fn equivalent_branch_factoring_recipe_draft(d: TransformationRecipeDraft) -> bool {
    &&& d.name@ == "rust-factor-equivalent-branch-fragments"@
    &&& d.version@ == "1.0.0"@
    &&& d.family == TransformationFamily::BranchControl
    &&& d.maximum_safety == SafetyClass::SafeWithPrecondition
    &&& d.required_layers@ == seq![GraphEvidenceLayer::ControlFlow, GraphEvidenceLayer::ControlRegions, GraphEvidenceLayer::NonStructuredControl, GraphEvidenceLayer::DataFlow, GraphEvidenceLayer::ProgramDependence]
    &&& d.required_conditions@.len() == 4
    &&& condition_is(d.required_conditions@[0], CONDITION_EQUIVALENT_FRAGMENT@, "Both arms retain an exact equivalent fragment at the same structural boundary."@, GraphEvidenceLayer::ControlFlow)
    &&& condition_is(d.required_conditions@[1], CONDITION_CONDITION_ORDER@, "The proposed rewrite evaluates the original condition exactly once before the factored fragment."@, GraphEvidenceLayer::ControlFlow)
    &&& condition_is(d.required_conditions@[2], CONDITION_DEPENDENCIES@, "Complete def/use evidence proves every moved binding and access remains valid."@, GraphEvidenceLayer::DataFlow)
    &&& condition_is(d.required_conditions@[3], CONDITION_EFFECT_ORDER@, "Complete effect evidence proves evaluation, destruction, exception, and suspension order is preserved."@, GraphEvidenceLayer::DataFlow)
    &&& d.forbidden_conditions@.len() == 3
    &&& condition_is(d.forbidden_conditions@[0], FORBIDDEN_UNCERTAIN_CONTROL@, "Recovered syntax or a conservative edge participates in the branch."@, GraphEvidenceLayer::ControlFlow)
    &&& condition_is(d.forbidden_conditions@[1], FORBIDDEN_BINDING_ESCAPE@, "Factoring changes binding visibility, borrow extent, destruction timing, or captured state."@, GraphEvidenceLayer::DataFlow)
    &&& condition_is(d.forbidden_conditions@[2], FORBIDDEN_NON_STRUCTURED@, "A non-structured control fact participates in the callable."@, GraphEvidenceLayer::NonStructuredControl)
    &&& d.validation_plan.steps@.len() == 4
    &&& step_is(d.validation_plan.steps@[0], "build"@, ValidationStepKind::Build, "Build the project after the exact guarded replacement."@)
    &&& step_is(d.validation_plan.steps@[1], "graph-delta"@, ValidationStepKind::GraphDelta, "Rebuild CFG/PST/PDG evidence and compare the expected branch changes."@)
    &&& step_is(d.validation_plan.steps@[2], "parse"@, ValidationStepKind::Parse, "Parse the retained source after replacement."@)
    &&& step_is(d.validation_plan.steps@[3], "test"@, ValidationStepKind::Test, "Run the project test command before accepting the review candidate."@)
    &&& d.rollback_plan.strategy == RollbackStrategy::ReverseExactEdits
    &&& d.rollback_plan.require_revision_guards == true
    &&& d.rollback_plan.validation_steps@.len() == 4
    &&& d.rollback_plan.validation_steps@[0]@ == "build"@
    &&& d.rollback_plan.validation_steps@[1]@ == "graph-delta"@
    &&& d.rollback_plan.validation_steps@[2]@ == "parse"@
    &&& d.rollback_plan.validation_steps@[3]@ == "test"@
    &&& d.fixtures@.len() == 4
    &&& fixture_is(d.fixtures@[0], RecipeFixtureRole::Positive, "identical-arms"@, FixtureExpectation::Candidate, "Both Rust if arms contain the same exact retained body."@)
    &&& fixture_is(d.fixtures@[1], RecipeFixtureRole::NoOp, "distinct-arms"@, FixtureExpectation::NoCandidate, "The two arms have no exact common boundary fragment."@)
    &&& fixture_is(d.fixtures@[2], RecipeFixtureRole::MinimalCounterexample, "effectful-common-prefix"@, FixtureExpectation::ReviewRequired, "A common effectful prefix is detected but lacks production effect authority."@)
    &&& fixture_is(d.fixtures@[3], RecipeFixtureRole::AdversarialNearMiss, "reordered-fragments"@, FixtureExpectation::NoCandidate, "The same statements occur in a different order and are not factored."@)
}

pub fn equivalent_branch_factoring_recipe() -> (r: Result<TransformationRecipe, RecipeContractError>)
    ensures
        r matches Ok(x) ==> exists|d: TransformationRecipeDraft| equivalent_branch_factoring_recipe_draft(d) && canonical_arrangement(x.spec_draft(), d),
        r is Ok,
        recipe_header(
            r,
            "rust-factor-equivalent-branch-fragments"@,
            "1.0.0"@,
            TransformationFamily::BranchControl,
            SafetyClass::SafeWithPrecondition,
            seq![GraphEvidenceLayer::ControlFlow, GraphEvidenceLayer::ControlRegions, GraphEvidenceLayer::NonStructuredControl, GraphEvidenceLayer::DataFlow, GraphEvidenceLayer::ProgramDependence],
        ),
{
    let required_layers = vec![
            GraphEvidenceLayer::ControlFlow,
            GraphEvidenceLayer::ControlRegions,
            GraphEvidenceLayer::NonStructuredControl,
            GraphEvidenceLayer::DataFlow,
            GraphEvidenceLayer::ProgramDependence,
        ];
    proof {
        lemma_ranked_layers_canonical(required_layers@);
    }
    let draft = TransformationRecipeDraft {
        name: "rust-factor-equivalent-branch-fragments".to_owned(),
        version: "1.0.0".to_owned(),
        family: TransformationFamily::BranchControl,
        required_layers,
        required_conditions: vec![
            condition(
                CONDITION_EQUIVALENT_FRAGMENT,
                "Both arms retain an exact equivalent fragment at the same structural boundary.",
                GraphEvidenceLayer::ControlFlow,
            ),
            condition(
                CONDITION_CONDITION_ORDER,
                "The proposed rewrite evaluates the original condition exactly once before the factored fragment.",
                GraphEvidenceLayer::ControlFlow,
            ),
            condition(
                CONDITION_DEPENDENCIES,
                "Complete def/use evidence proves every moved binding and access remains valid.",
                GraphEvidenceLayer::DataFlow,
            ),
            condition(
                CONDITION_EFFECT_ORDER,
                "Complete effect evidence proves evaluation, destruction, exception, and suspension order is preserved.",
                GraphEvidenceLayer::DataFlow,
            ),
        ],
        forbidden_conditions: vec![
            condition(
                FORBIDDEN_UNCERTAIN_CONTROL,
                "Recovered syntax or a conservative edge participates in the branch.",
                GraphEvidenceLayer::ControlFlow,
            ),
            condition(
                FORBIDDEN_BINDING_ESCAPE,
                "Factoring changes binding visibility, borrow extent, destruction timing, or captured state.",
                GraphEvidenceLayer::DataFlow,
            ),
            condition(
                FORBIDDEN_NON_STRUCTURED,
                "A non-structured control fact participates in the callable.",
                GraphEvidenceLayer::NonStructuredControl,
            ),
        ],
        maximum_safety: SafetyClass::SafeWithPrecondition,
        validation_plan: ValidationPlan {
            steps: vec![
                ValidationStep {
                    key: "build".to_owned(),
                    kind: ValidationStepKind::Build,
                    description: "Build the project after the exact guarded replacement.".to_owned(),
                    command: None,
                    required: true,
                },
                ValidationStep {
                    key: "graph-delta".to_owned(),
                    kind: ValidationStepKind::GraphDelta,
                    description:
                        "Rebuild CFG/PST/PDG evidence and compare the expected branch changes."
                            .to_owned(),
                    command: None,
                    required: true,
                },
                ValidationStep {
                    key: "parse".to_owned(),
                    kind: ValidationStepKind::Parse,
                    description: "Parse the retained source after replacement.".to_owned(),
                    command: None,
                    required: true,
                },
                ValidationStep {
                    key: "test".to_owned(),
                    kind: ValidationStepKind::Test,
                    description:
                        "Run the project test command before accepting the review candidate.".to_owned(),
                    command: None,
                    required: true,
                },
            ],
        },
        rollback_plan: RollbackPlan {
            strategy: RollbackStrategy::ReverseExactEdits,
            require_revision_guards: true,
            validation_steps: vec![
                "build".to_owned(),
                "graph-delta".to_owned(),
                "parse".to_owned(),
                "test".to_owned(),
            ],
        },
        fixtures: vec![
            fixture(
                RecipeFixtureRole::Positive,
                "identical-arms",
                FixtureExpectation::Candidate,
                "Both Rust if arms contain the same exact retained body.",
            ),
            fixture(
                RecipeFixtureRole::NoOp,
                "distinct-arms",
                FixtureExpectation::NoCandidate,
                "The two arms have no exact common boundary fragment.",
            ),
            fixture(
                RecipeFixtureRole::MinimalCounterexample,
                "effectful-common-prefix",
                FixtureExpectation::ReviewRequired,
                "A common effectful prefix is detected but lacks production effect authority.",
            ),
            fixture(
                RecipeFixtureRole::AdversarialNearMiss,
                "reordered-fragments",
                FixtureExpectation::NoCandidate,
                "The same statements occur in a different order and are not factored.",
            ),
        ],
    };
    proof {
        reveal_strlit("1.0.0");
        reveal_strlit("A common effectful prefix is detected but lacks production effect authority.");
        reveal_strlit("A non-structured control fact participates in the callable.");
        reveal_strlit("Both Rust if arms contain the same exact retained body.");
        reveal_strlit("Both arms retain an exact equivalent fragment at the same structural boundary.");
        reveal_strlit("Build the project after the exact guarded replacement.");
        reveal_strlit("Complete def/use evidence proves every moved binding and access remains valid.");
        reveal_strlit("Complete effect evidence proves evaluation, destruction, exception, and suspension order is preserved.");
        reveal_strlit("Factoring changes binding visibility, borrow extent, destruction timing, or captured state.");
        reveal_strlit("Parse the retained source after replacement.");
        reveal_strlit("Rebuild CFG/PST/PDG evidence and compare the expected branch changes.");
        reveal_strlit("Recovered syntax or a conservative edge participates in the branch.");
        reveal_strlit("Run the project test command before accepting the review candidate.");
        reveal_strlit("The proposed rewrite evaluates the original condition exactly once before the factored fragment.");
        reveal_strlit("The same statements occur in a different order and are not factored.");
        reveal_strlit("The two arms have no exact common boundary fragment.");
        reveal_strlit("binding-lifetime-or-drop-escape");
        reveal_strlit("build");
        reveal_strlit("condition-order-retained");
        reveal_strlit("dependencies-preserved");
        reveal_strlit("distinct-arms");
        reveal_strlit("effect-and-drop-order-preserved");
        reveal_strlit("effectful-common-prefix");
        reveal_strlit("equivalent-fragment-exact");
        reveal_strlit("graph-delta");
        reveal_strlit("identical-arms");
        reveal_strlit("non-structured-control");
        reveal_strlit("parse");
        reveal_strlit("recovered-or-conservative-control");
        reveal_strlit("reordered-fragments");
        reveal_strlit("rust-factor-equivalent-branch-fragments");
        reveal_strlit("test");
        assert forall|i: int| 0 <= i < draft.required_conditions@.len() implies is_canonical_text((#[trigger] draft.required_conditions@[i]).key@) && is_canonical_text(draft.required_conditions@[i].description@) by {
            if i == 0 {} else if i == 1 {} else if i == 2 {} else if i == 3 {} else if i == 4 {} else if i == 5 {} else if i == 6 {} else if i == 7 {} else if i == 8 {} else if i == 9 {} else if i == 10 {} else if i == 11 {}
        }
        assert forall|i: int, j: int| 0 <= i < j < draft.required_conditions@.len() implies (#[trigger] draft.required_conditions@[i]).key@ != (#[trigger] draft.required_conditions@[j]).key@ by {
            if i == 0 { if j == 1 {} else if j == 2 {} else if j == 3 {} else if j == 4 {} else if j == 5 {} else if j == 6 {} else if j == 7 {} else if j == 8 {} else if j == 9 {} else if j == 10 {} else if j == 11 {} } else if i == 1 { if j == 2 {} else if j == 3 {} else if j == 4 {} else if j == 5 {} else if j == 6 {} else if j == 7 {} else if j == 8 {} else if j == 9 {} else if j == 10 {} else if j == 11 {} } else if i == 2 { if j == 3 {} else if j == 4 {} else if j == 5 {} else if j == 6 {} else if j == 7 {} else if j == 8 {} else if j == 9 {} else if j == 10 {} else if j == 11 {} } else if i == 3 { if j == 4 {} else if j == 5 {} else if j == 6 {} else if j == 7 {} else if j == 8 {} else if j == 9 {} else if j == 10 {} else if j == 11 {} } else if i == 4 { if j == 5 {} else if j == 6 {} else if j == 7 {} else if j == 8 {} else if j == 9 {} else if j == 10 {} else if j == 11 {} } else if i == 5 { if j == 6 {} else if j == 7 {} else if j == 8 {} else if j == 9 {} else if j == 10 {} else if j == 11 {} } else if i == 6 { if j == 7 {} else if j == 8 {} else if j == 9 {} else if j == 10 {} else if j == 11 {} } else if i == 7 { if j == 8 {} else if j == 9 {} else if j == 10 {} else if j == 11 {} } else if i == 8 { if j == 9 {} else if j == 10 {} else if j == 11 {} } else if i == 9 { if j == 10 {} else if j == 11 {} } else if i == 10 { if j == 11 {} }
        }
        assert forall|i: int| 0 <= i < draft.forbidden_conditions@.len() implies is_canonical_text((#[trigger] draft.forbidden_conditions@[i]).key@) && is_canonical_text(draft.forbidden_conditions@[i].description@) by {
            if i == 0 {} else if i == 1 {} else if i == 2 {} else if i == 3 {} else if i == 4 {} else if i == 5 {}
        }
        assert forall|i: int, j: int| 0 <= i < j < draft.forbidden_conditions@.len() implies (#[trigger] draft.forbidden_conditions@[i]).key@ != (#[trigger] draft.forbidden_conditions@[j]).key@ by {
            if i == 0 { if j == 1 {} else if j == 2 {} else if j == 3 {} else if j == 4 {} else if j == 5 {} } else if i == 1 { if j == 2 {} else if j == 3 {} else if j == 4 {} else if j == 5 {} } else if i == 2 { if j == 3 {} else if j == 4 {} else if j == 5 {} } else if i == 3 { if j == 4 {} else if j == 5 {} } else if i == 4 { if j == 5 {} }
        }
        assert forall|i: int| 0 <= i < draft.validation_plan.steps@.len() implies crate::contract::step_valid(#[trigger] draft.validation_plan.steps@[i]) by {
            if i == 0 {} else if i == 1 {} else if i == 2 {} else if i == 3 {} else if i == 4 {} else if i == 5 {}
        }
        assert forall|i: int, j: int| 0 <= i < j < draft.validation_plan.steps@.len() implies (#[trigger] draft.validation_plan.steps@[i]).key@ != (#[trigger] draft.validation_plan.steps@[j]).key@ by {
            if i == 0 { if j == 1 {} else if j == 2 {} else if j == 3 {} else if j == 4 {} else if j == 5 {} } else if i == 1 { if j == 2 {} else if j == 3 {} else if j == 4 {} else if j == 5 {} } else if i == 2 { if j == 3 {} else if j == 4 {} else if j == 5 {} } else if i == 3 { if j == 4 {} else if j == 5 {} } else if i == 4 { if j == 5 {} }
        }
        assert(equivalent_branch_factoring_recipe_draft(draft));
        assert(recipe_draft_sound(draft));
    }
    build_recipe(draft)
}


/// Why equivalent-branch factoring failed: a recipe contract, an impact query, graph
/// eligibility, or an inconsistent projection.
#[derive(Clone, Debug)]
pub enum BranchRecipeError {
    Contract(RecipeContractError),
    Impact(ImpactQueryError),
    Eligibility(String),
    Projection(String),
}

pub open spec fn branch_recipe_error_message(e: BranchRecipeError) -> Seq<char> {
    match e {
        BranchRecipeError::Contract(c) => contract_error_message(c),
        BranchRecipeError::Impact(e) => impact_error_message(e),
        BranchRecipeError::Eligibility(d) => "branch recipe graph eligibility failed: "@ + d@,
        BranchRecipeError::Projection(d) => "branch recipe received an inconsistent projection: "@ + d@,
    }
}

impl BranchRecipeError {
    /// The message of the error.
    pub fn message(&self) -> (m: String)
        ensures
            m@ == branch_recipe_error_message(*self),
    {
        match self {
            BranchRecipeError::Contract(e) => e.message(),
            BranchRecipeError::Impact(e) => e.message(),
            BranchRecipeError::Eligibility(d) => labeled_message("branch recipe graph eligibility failed: ", d.as_str()),
            BranchRecipeError::Projection(d) => labeled_message("branch recipe received an inconsistent projection: ", d.as_str()),
        }
    }
}


/// The graph evidence of a branch-control candidate: the entities its
/// obligations rest on, the delta it expects, and the evidence against it.
#[derive(Clone, Debug)]
pub struct BranchGraphEvidence {
    pub before: Vec<GraphEntityRef>,
    pub after: ExpectedGraphDelta,
    pub counter_evidence: Vec<ConditionEvidence>,
}

/// The evidence of the results, in result order.
pub open spec fn flat_evidence(rs: Seq<ConditionResult>) -> Seq<ConditionEvidence>
    decreases rs.len(),
{
    if rs.len() == 0 {
        Seq::empty()
    } else {
        flat_evidence(rs.drop_last()) + rs.last().evidence@
    }
}

/// Some piece of the results' evidence names the entity.
pub open spec fn evidence_names(rs: Seq<ConditionResult>, e: GraphEntityView) -> bool {
    exists|i: int, k: int| 0 <= i < rs.len() && 0 <= k < rs[i].evidence@.len() && (#[trigger] rs[i].evidence@[k]).entity@ == e
}

fn copy_delta(d: &ExpectedGraphDelta) -> (r: ExpectedGraphDelta)
    ensures
        r.changes@ == d.changes@,
{
    let mut changes: Vec<ExpectedGraphChange> = Vec::new();
    let n = d.changes.len();
    let mut i: usize = 0;
    while i < n
        invariant
            n == d.changes@.len(),
            i <= n,
            changes@ == d.changes@.subrange(0, i as int),
        decreases n - i,
    {
        let c = &d.changes[i];
        changes.push(ExpectedGraphChange { kind: c.kind, entity: c.entity.duplicate(), rationale: c.rationale.clone() });
        assert(changes@ =~= d.changes@.subrange(0, i + 1));
        i = i + 1;
    }
    assert(changes@ =~= d.changes@);
    ExpectedGraphDelta { changes }
}

/// The evidence of the results, copied in result order.
fn collect_evidence(rs: &[ConditionResult]) -> (r: Vec<ConditionEvidence>)
    ensures
        r@ == flat_evidence(rs@),
{
    let mut out: Vec<ConditionEvidence> = Vec::new();
    let n = rs.len();
    let mut i: usize = 0;
    assert(rs@.subrange(0, 0) =~= Seq::<ConditionResult>::empty());
    while i < n
        invariant
            n == rs@.len(),
            i <= n,
            out@ == flat_evidence(rs@.subrange(0, i as int)),
        decreases n - i,
    {
        let ev = &rs[i].evidence;
        let m = ev.len();
        let ghost start = out@;
        let mut k: usize = 0;
        while k < m
            invariant
                m == ev@.len(),
                k <= m,
                out@ == start + ev@.subrange(0, k as int),
            decreases m - k,
        {
            out.push(ev[k].duplicate());
            assert(out@ =~= start + ev@.subrange(0, k + 1));
            k = k + 1;
        }
        proof {
            let sub = rs@.subrange(0, i + 1);
            assert(sub.drop_last() =~= rs@.subrange(0, i as int));
            assert(ev@.subrange(0, m as int) =~= ev@);
        }
        i = i + 1;
    }
    assert(rs@.subrange(0, n as int) =~= rs@);
    out
}

/// The graph evidence of a branch-control candidate, and nothing for a
/// candidate of another family: the distinct entities its required
/// results rest on, in entity order; its expected delta; and the evidence
/// of its forbidden results, ordered by entity and detail.
pub fn branch_graph_evidence(candidate: &TransformationCandidate) -> (r: Option<BranchGraphEvidence>)
    ensures
        r is Some <==> candidate.spec_draft().recipe.spec_draft().family == TransformationFamily::BranchControl,
        r matches Some(e) ==> {
            &&& keys_sorted(e.before@)
            &&& distinct_entities(e.before@)
            &&& forall|x: GraphEntityView| #[trigger] entity_in(x, e.before@) <==> evidence_names(
                candidate.spec_draft().required_results@,
                x,
            )
            &&& e.after.changes@ == candidate.spec_draft().expected_delta.changes@
            &&& keys_sorted(e.counter_evidence@)
            &&& e.counter_evidence@.to_multiset() == flat_evidence(candidate.spec_draft().forbidden_results@).to_multiset()
        },
{
    if candidate.recipe().family() != TransformationFamily::BranchControl {
        return None;
    }
    let required = candidate.required_results();
    let mut before: Vec<GraphEntityRef> = Vec::new();
    let n = required.len();
    let mut i: usize = 0;
    while i < n
        invariant
            n == required@.len(),
            i <= n,
            distinct_entities(before@),
            forall|x: GraphEntityView| #[trigger] entity_in(x, before@) <==> evidence_names(required@.subrange(0, i as int), x),
        decreases n - i,
    {
        let ev = &required[i].evidence;
        let m = ev.len();
        let mut k: usize = 0;
        while k < m
            invariant
                n == required@.len(),
                i < n,
                m == ev@.len(),
                *ev == required@[i as int].evidence,
                k <= m,
                distinct_entities(before@),
                forall|x: GraphEntityView| #[trigger] entity_in(x, before@) <==> (evidence_names(
                    required@.subrange(0, i as int),
                    x,
                ) || exists|q: int| 0 <= q < k && (#[trigger] ev@[q]).entity@ == x),
            decreases m - k,
        {
            push_unique_entity(&mut before, ev[k].entity.duplicate());
            k = k + 1;
        }
        proof {
            let sub = required@.subrange(0, i + 1);
            assert forall|x: GraphEntityView| #[trigger] entity_in(x, before@) <==> evidence_names(sub, x) by {
                if evidence_names(sub, x) {
                    let (a, q) = choose|a: int, q: int| 0 <= a < sub.len() && 0 <= q < sub[a].evidence@.len()
                        && (#[trigger] sub[a].evidence@[q]).entity@ == x;
                    if a < i {
                        assert(required@.subrange(0, i as int)[a] == sub[a]);
                        assert(evidence_names(required@.subrange(0, i as int), x));
                    } else {
                        assert(ev@[q].entity@ == x);
                    }
                }
                if evidence_names(required@.subrange(0, i as int), x) {
                    let (a, q) = choose|a: int, q: int| 0 <= a < i && 0 <= q < required@.subrange(0, i as int)[a].evidence@.len()
                        && (#[trigger] required@.subrange(0, i as int)[a].evidence@[q]).entity@ == x;
                    assert(sub[a] == required@.subrange(0, i as int)[a]);
                    assert(sub[a].evidence@[q].entity@ == x);
                }
                if exists|q: int| 0 <= q < m && (#[trigger] ev@[q]).entity@ == x {
                    let q = choose|q: int| 0 <= q < m && (#[trigger] ev@[q]).entity@ == x;
                    assert(sub[i as int].evidence@[q].entity@ == x);
                }
            }
        }
        i = i + 1;
    }
    assert(required@.subrange(0, n as int) =~= required@);
    let ghost unsorted = before@;
    let sorted_before = sort_by_key(before);
    proof {
        assert forall|x: GraphEntityView| #[trigger] entity_in(x, sorted_before@) <==> entity_in(x, unsorted) by {
            sorted_before@.to_multiset_ensures();
            unsorted.to_multiset_ensures();
            if entity_in(x, sorted_before@) {
                let j = choose|j: int| 0 <= j < sorted_before@.len() && (#[trigger] sorted_before@[j])@ == x;
                assert(sorted_before@.contains(sorted_before@[j]));
                assert(sorted_before@.to_multiset().count(sorted_before@[j]) > 0);
                assert(unsorted.to_multiset().count(sorted_before@[j]) > 0);
                assert(unsorted.contains(sorted_before@[j]));
            }
            if entity_in(x, unsorted) {
                let j = choose|j: int| 0 <= j < unsorted.len() && (#[trigger] unsorted[j])@ == x;
                assert(unsorted.contains(unsorted[j]));
                assert(unsorted.to_multiset().count(unsorted[j]) > 0);
                assert(sorted_before@.to_multiset().count(unsorted[j]) > 0);
                assert(sorted_before@.contains(unsorted[j]));
            }
        }
        lemma_distinct_entities_arrangement(unsorted, sorted_before@);
    }
    let counter = sort_by_key(collect_evidence(candidate.forbidden_results()));
    Some(BranchGraphEvidence { before: sorted_before, after: copy_delta(candidate.expected_delta()), counter_evidence: counter })
}

/// Any arrangement of distinct entities holds distinct entities.
proof fn lemma_distinct_entities_arrangement(a: Seq<GraphEntityRef>, b: Seq<GraphEntityRef>)
    requires
        a.to_multiset() == b.to_multiset(),
        distinct_entities(a),
    ensures
        distinct_entities(b),
    decreases b.len(),
{
    if b.len() > 0 {
        let x = b.last();
        let b0 = b.drop_last();
        a.to_multiset_ensures();
        b.to_multiset_ensures();
        b0.to_multiset_ensures();
        assert(b =~= b0.push(x));
        assert(b[b.len() - 1] == x);
        assert(b.to_multiset().count(x) > 0);
        assert(a.contains(x));
        let p = choose|p: int| 0 <= p < a.len() && a[p] == x;
        let a0 = a.remove(p);
        a0.to_multiset_ensures();
        assert(a0.to_multiset() =~= b0.to_multiset());
        assert forall|i: int, j: int| 0 <= i < j < a0.len() implies (#[trigger] a0[i])@ != (#[trigger] a0[j])@ by {
            let ii = if i < p { i } else { i + 1 };
            let jj = if j < p { j } else { j + 1 };
            assert(a0[i] == a[ii]);
            assert(a0[j] == a[jj]);
        }
        lemma_distinct_entities_arrangement(a0, b0);
        assert forall|i: int, j: int| 0 <= i < j < b.len() implies (#[trigger] b[i])@ != (#[trigger] b[j])@ by {
            if j == b.len() - 1 {
                let y = b[i];
                assert(b0[i] == y);
                assert(b0.contains(y));
                assert(a0.to_multiset().count(y) > 0);
                assert(a0.contains(y));
                let q = choose|q: int| 0 <= q < a0.len() && a0[q] == y;
                let qq = if q < p { q } else { q + 1 };
                assert(a[qq] == y);
                assert(qq != p);
            } else {
                assert(b[i] == b0[i]);
                assert(b[j] == b0[j]);
            }
        }
    }
}

/// How a branch's arms share a fragment.
#[derive(Clone, Copy, Debug, PartialEq, Eq, Structural)]
pub enum FactoringKind {
    EquivalentArms,
    CommonPrefix,
    CommonSuffix,
}

impl FactoringKind {
    pub fn name(self) -> (r: &'static str)
        ensures
            r@ == factoring_name(self),
    {
        match self {
            FactoringKind::EquivalentArms => "equivalent-arms",
            FactoringKind::CommonPrefix => "common-prefix",
            FactoringKind::CommonSuffix => "common-suffix",
        }
    }
}

pub open spec fn factoring_name(k: FactoringKind) -> Seq<char> {
    match k {
        FactoringKind::EquivalentArms => "equivalent-arms"@,
        FactoringKind::CommonPrefix => "common-prefix"@,
        FactoringKind::CommonSuffix => "common-suffix"@,
    }
}

/// A named child of an arm: its grammar kind and its exact text.
#[derive(Clone, Debug)]
pub struct ArmNode {
    pub kind: String,
    pub text: String,
}

/// The parts of an exact two-armed branch: the condition's text, the
/// children of each arm, and the body of the consequence.
#[derive(Clone, Debug)]
pub struct BranchParts {
    pub condition: String,
    pub then_nodes: Vec<ArmNode>,
    pub else_nodes: Vec<ArmNode>,
    pub then_body: String,
}

pub open spec fn same_arm_node(a: ArmNode, b: ArmNode) -> bool {
    a.kind@ == b.kind@ && a.text@ == b.text@
}

/// The arms hold the same children.
pub open spec fn same_arms(a: Seq<ArmNode>, b: Seq<ArmNode>) -> bool {
    a.len() == b.len() && forall|k: int| 0 <= k < a.len() ==> same_arm_node(#[trigger] a[k], b[k])
}

pub open spec fn min_len(a: Seq<ArmNode>, b: Seq<ArmNode>) -> int {
    if a.len() <= b.len() { a.len() as int } else { b.len() as int }
}

/// `p` is the length of the longest common prefix of the arms.
pub open spec fn is_common_prefix(a: Seq<ArmNode>, b: Seq<ArmNode>, p: int) -> bool {
    &&& 0 <= p <= min_len(a, b)
    &&& forall|k: int| 0 <= k < p ==> same_arm_node(#[trigger] a[k], b[k])
    &&& (p == min_len(a, b) || !same_arm_node(a[p], b[p]))
}

/// `s` is the length of the longest common suffix of the arms that does not
/// reach into a common prefix of length `p`.
pub open spec fn is_common_suffix(a: Seq<ArmNode>, b: Seq<ArmNode>, p: int, s: int) -> bool {
    &&& 0 <= s <= min_len(a, b) - p
    &&& forall|k: int| 0 <= k < s ==> same_arm_node(#[trigger] a[a.len() - 1 - k], b[b.len() - 1 - k])
    &&& (s == min_len(a, b) - p || !same_arm_node(a[a.len() - 1 - s], b[b.len() - 1 - s]))
}

/// The texts of the children, separated by single spaces.
pub open spec fn joined(s: Seq<ArmNode>) -> Seq<char>
    decreases s.len(),
{
    if s.len() == 0 {
        Seq::empty()
    } else if s.len() == 1 {
        s[0].text@
    } else {
        joined(s.drop_last()) + " "@ + s.last().text@
    }
}

/// The children as a block.
pub open spec fn block_text(s: Seq<ArmNode>) -> Seq<char> {
    "{ "@ + joined(s) + " }"@
}

/// The branch with both arms emptied, evaluated for its condition, followed
/// by the shared body.
pub open spec fn equivalent_text(parts: BranchParts) -> Seq<char> {
    "{ if "@ + parts.condition@ + " {} else {}; "@ + parts.then_body@ + " }"@
}

/// The condition bound once, the shared prefix, then the branch over the
/// rest of each arm.
pub open spec fn prefix_text(parts: BranchParts, p: int) -> Seq<char> {
    let a = parts.then_nodes@;
    let b = parts.else_nodes@;
    "{ let __deslop_m5_condition = "@ + parts.condition@ + "; "@ + joined(a.subrange(0, p))
        + " if __deslop_m5_condition "@ + block_text(a.subrange(p, a.len() as int)) + " else "@ + block_text(
        b.subrange(p, b.len() as int),
    ) + " }"@
}

/// The branch over the rest of each arm, then the shared suffix.
pub open spec fn suffix_text(parts: BranchParts, s: int) -> Seq<char> {
    let a = parts.then_nodes@;
    let b = parts.else_nodes@;
    "{ if "@ + parts.condition@ + " "@ + block_text(a.subrange(0, a.len() - s)) + " else "@ + block_text(
        b.subrange(0, b.len() - s),
    ) + "; "@ + joined(a.subrange(a.len() - s, a.len() as int)) + " }"@
}

/// The factorings a branch admits, each with the replacement text.
pub open spec fn variants_are(r: Seq<(FactoringKind, String)>, parts: BranchParts) -> bool {
    let a = parts.then_nodes@;
    let b = parts.else_nodes@;
    if same_arms(a, b) {
        r.len() == 1 && r[0].0 == FactoringKind::EquivalentArms && r[0].1@ == equivalent_text(parts)
    } else {
        exists|p: int, s: int|
            #![trigger is_common_prefix(a, b, p), is_common_suffix(a, b, p, s)]
            is_common_prefix(a, b, p) && is_common_suffix(a, b, p, s) && r.len() == (if p > 0 { 1int } else { 0 })
                + (if s > 0 { 1int } else { 0 }) && (p > 0 ==> r[0].0 == FactoringKind::CommonPrefix && r[0].1@
                == prefix_text(parts, p)) && (s > 0 ==> r[r.len() - 1].0 == FactoringKind::CommonSuffix && r[r.len()
                - 1].1@ == suffix_text(parts, s))
    }
}

fn same_node_exec(a: &ArmNode, b: &ArmNode) -> (r: bool)
    ensures
        r == same_arm_node(*a, *b),
{
    compare_str(a.kind.as_str(), b.kind.as_str()) == 0 && compare_str(a.text.as_str(), b.text.as_str()) == 0
}

/// Appends the texts of the children from `lo` to `hi`, separated by spaces.
fn push_joined(out: &mut String, nodes: &Vec<ArmNode>, lo: usize, hi: usize)
    requires
        lo <= hi <= nodes@.len(),
    ensures
        final(out)@ == old(out)@ + joined(nodes@.subrange(lo as int, hi as int)),
{
    let ghost start = out@;
    let mut i: usize = lo;
    assert(nodes@.subrange(lo as int, lo as int) =~= Seq::<ArmNode>::empty());
    while i < hi
        invariant
            lo <= i <= hi <= nodes@.len(),
            out@ == start + joined(nodes@.subrange(lo as int, i as int)),
        decreases hi - i,
    {
        let ghost sub = nodes@.subrange(lo as int, i + 1);
        proof {
            assert(sub.drop_last() =~= nodes@.subrange(lo as int, i as int));
            assert(sub.last() == nodes@[i as int]);
        }
        if i > lo {
            string_append(out, " ");
        }
        string_append(out, nodes[i].text.as_str());
        proof {
            if i > lo {
                assert(out@ =~= start + (joined(sub.drop_last()) + " "@ + sub.last().text@));
            } else {
                assert(sub =~= seq![nodes@[i as int]]);
                assert(out@ =~= start + joined(sub));
            }
        }
        i = i + 1;
    }
}

fn push_block(out: &mut String, nodes: &Vec<ArmNode>, lo: usize, hi: usize)
    requires
        lo <= hi <= nodes@.len(),
    ensures
        final(out)@ == old(out)@ + block_text(nodes@.subrange(lo as int, hi as int)),
{
    let ghost start = out@;
    string_append(out, "{ ");
    push_joined(out, nodes, lo, hi);
    string_append(out, " }");
    assert(out@ =~= start + block_text(nodes@.subrange(lo as int, hi as int)));
}

/// The factorings a branch admits: its equivalent arms when both arms hold
/// the same children; otherwise the common prefix and the common suffix
/// when the arms share one, each with its replacement text.
pub fn factoring_variants(parts: &BranchParts) -> (r: Vec<(FactoringKind, String)>)
    ensures
        variants_are(r@, *parts),
{
    let a = &parts.then_nodes;
    let b = &parts.else_nodes;
    let n = a.len();
    let m = b.len();
    let least = if n <= m { n } else { m };
    let mut p: usize = 0;
    while p < least && same_node_exec(&a[p], &b[p])
        invariant
            n == a@.len(),
            m == b@.len(),
            least == min_len(a@, b@),
            p <= least,
            forall|k: int| 0 <= k < p ==> same_arm_node(#[trigger] a@[k], b@[k]),
        decreases least - p,
    {
        p = p + 1;
    }
    if p == n && n == m {
        let mut text = String::new();
        string_append(&mut text, "{ if ");
        string_append(&mut text, parts.condition.as_str());
        string_append(&mut text, " {} else {}; ");
        string_append(&mut text, parts.then_body.as_str());
        string_append(&mut text, " }");
        assert(text@ =~= equivalent_text(*parts));
        return vec![(FactoringKind::EquivalentArms, text)];
    }
    let mut s: usize = 0;
    while s < least - p && same_node_exec(&a[n - 1 - s], &b[m - 1 - s])
        invariant
            n == a@.len(),
            m == b@.len(),
            least == min_len(a@, b@),
            p <= least,
            s <= least - p,
            forall|k: int| 0 <= k < s ==> same_arm_node(#[trigger] a@[a@.len() - 1 - k], b@[b@.len() - 1 - k]),
        decreases least - p - s,
    {
        s = s + 1;
    }
    let mut variants: Vec<(FactoringKind, String)> = Vec::new();
    if p > 0 {
        let mut text = String::new();
        string_append(&mut text, "{ let __deslop_m5_condition = ");
        string_append(&mut text, parts.condition.as_str());
        string_append(&mut text, "; ");
        push_joined(&mut text, a, 0, p);
        string_append(&mut text, " if __deslop_m5_condition ");
        push_block(&mut text, a, p, n);
        string_append(&mut text, " else ");
        push_block(&mut text, b, p, m);
        string_append(&mut text, " }");
        assert(text@ =~= prefix_text(*parts, p as int));
        variants.push((FactoringKind::CommonPrefix, text));
    }
    if s > 0 {
        let mut text = String::new();
        string_append(&mut text, "{ if ");
        string_append(&mut text, parts.condition.as_str());
        string_append(&mut text, " ");
        push_block(&mut text, a, 0, n - s);
        string_append(&mut text, " else ");
        push_block(&mut text, b, 0, m - s);
        string_append(&mut text, "; ");
        push_joined(&mut text, a, n - s, n);
        string_append(&mut text, " }");
        assert(text@ =~= suffix_text(*parts, s as int));
        variants.push((FactoringKind::CommonSuffix, text));
    }
    proof {
        assert(!same_arms(a@, b@)) by {
            if same_arms(a@, b@) {
                assert(n == m);
                if p < least {
                    assert(same_arm_node(a@[p as int], b@[p as int]));
                }
            }
        }
        assert(is_common_prefix(a@, b@, p as int));
        assert(is_common_suffix(a@, b@, p as int, s as int));
    }
    variants
}
} // verus!
