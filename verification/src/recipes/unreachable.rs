//! Removal of entry-unreachable inert literal statements.

use vstd::prelude::*;
use crate::contract::{
    contract_error_message, labeled_message,
    FixtureExpectation, RecipeContractError, RecipeFixtureRole, RollbackPlan, RollbackStrategy,
    TransformationFamily, ValidationPlan, ValidationStep, ValidationStepKind,
};
use crate::impact::{impact_error_message, ImpactQueryError};
use crate::model::{GraphEvidenceLayer, SafetyClass};
use crate::recipe::{recipe_draft_sound, TransformationRecipe, TransformationRecipeDraft};
use crate::candidate::{
    CandidateDisposition, CandidateSource, GraphEligibilityDecision, TransformationCandidate,
    TransformationCandidateDraft,
};
use crate::contract::ProofState;
use crate::evidence::{
    ConditionEvidence, ConditionResult, ExpectedGraphChange, ExpectedGraphDelta, GraphChangeKind,
    GraphEntityRef, GraphEntityView, ImpactCone, ImpactDirection,
};
use crate::impact::{cone_of, find_graph, has_node, impact_found, program_dependence_impact_cone, DependenceGraph};
use crate::model::Span;
use crate::order::{insert_sorted_str, keys_sorted, keys_strictly_increasing, sort_by_key, view_set};
use crate::target::{revision_guard_id, CandidateTarget, NodeKey, NodeKeyView, TransformationEdit};
use super::retained::{
    dependence_graphs_of, dependence_views, lemma_sites_in_range, site_in_range, unreachable_sites, unreachable_sites_of, FlowGraph,
    PdgGraph, RegionGraph, RetainedProjection, UnreachableSite,
};
use super::{build_recipe, condition, fixture, lemma_ranked_layers_canonical, recipe_header, validation};
use crate::candidate::{candidate_arrangement, candidate_fields_valid};
use crate::text::is_canonical_text;
use super::condition_is;
use super::fixture_is;
use super::step_is;
use crate::recipe::canonical_arrangement;

verus! {

pub const CONDITION_ENTRY_UNREACHABLE: &'static str = "entry-unreachable";
pub const CONDITION_INERT_LITERAL: &'static str = "inert-literal-statement";
pub const CONDITION_RETAINED_SOURCE: &'static str = "retained-source-exact";
pub const CONDITION_STRUCTURED: &'static str = "structured-reachability-exact";
pub const FORBIDDEN_CONTROL: &'static str = "conservative-or-recovered-control";
pub const FORBIDDEN_NON_STRUCTURED: &'static str = "non-structured-control";
pub const FORBIDDEN_SEMANTIC_FORM: &'static str = "referential-or-effectful-form";

/// The draft of the rust-remove-unreachable-literal-statement recipe: its name, version, family,
/// maximum safety, layers, conditions, plans and fixtures, in order.
pub open spec fn unreachable_literal_statement_recipe_draft(d: TransformationRecipeDraft) -> bool {
    &&& d.name@ == "rust-remove-unreachable-literal-statement"@
    &&& d.version@ == "1.0.0"@
    &&& d.family == TransformationFamily::CloneCeremonyDeadCode
    &&& d.maximum_safety == SafetyClass::SafeAuto
    &&& d.required_layers@ == seq![GraphEvidenceLayer::ControlFlow, GraphEvidenceLayer::ControlRegions, GraphEvidenceLayer::NonStructuredControl]
    &&& d.required_conditions@.len() == 4
    &&& condition_is(d.required_conditions@[0], CONDITION_ENTRY_UNREACHABLE@, "The retained control point is unreachable from callable entry."@, GraphEvidenceLayer::ControlFlow)
    &&& condition_is(d.required_conditions@[1], CONDITION_INERT_LITERAL@, "The target is an exact Rust expression statement containing only one inert literal."@, GraphEvidenceLayer::ControlFlow)
    &&& condition_is(d.required_conditions@[2], CONDITION_RETAINED_SOURCE@, "The edit bytes and span come from the retained source revision."@, GraphEvidenceLayer::ControlFlow)
    &&& condition_is(d.required_conditions@[3], CONDITION_STRUCTURED@, "The unreachable relation is exact and has no structured-control residual."@, GraphEvidenceLayer::ControlRegions)
    &&& d.forbidden_conditions@.len() == 3
    &&& condition_is(d.forbidden_conditions@[0], FORBIDDEN_CONTROL@, "A conservative control edge or recovered syntax participates in the target."@, GraphEvidenceLayer::ControlFlow)
    &&& condition_is(d.forbidden_conditions@[1], FORBIDDEN_NON_STRUCTURED@, "A non-structured control fact participates in the callable."@, GraphEvidenceLayer::NonStructuredControl)
    &&& condition_is(d.forbidden_conditions@[2], FORBIDDEN_SEMANTIC_FORM@, "The target form can define, reference, invoke, mutate, allocate, or otherwise produce effects."@, GraphEvidenceLayer::ControlFlow)
    &&& d.validation_plan.steps@.len() == 2
    &&& step_is(d.validation_plan.steps@[0], "graph-delta"@, ValidationStepKind::GraphDelta, "Rebuild the retained graph chain and compare the expected removals."@)
    &&& step_is(d.validation_plan.steps@[1], "parse"@, ValidationStepKind::Parse, "Parse the exact source after applying the guarded deletion."@)
    &&& d.rollback_plan.strategy == RollbackStrategy::ReverseExactEdits
    &&& d.rollback_plan.require_revision_guards == true
    &&& d.rollback_plan.validation_steps@.len() == 2
    &&& d.rollback_plan.validation_steps@[0]@ == "graph-delta"@
    &&& d.rollback_plan.validation_steps@[1]@ == "parse"@
    &&& d.fixtures@.len() == 4
    &&& fixture_is(d.fixtures@[0], RecipeFixtureRole::Positive, "literal-after-return"@, FixtureExpectation::Candidate, "An inert Rust literal expression statement follows an exact return."@)
    &&& fixture_is(d.fixtures@[1], RecipeFixtureRole::NoOp, "all-reachable"@, FixtureExpectation::NoCandidate, "The same literal statement is reachable from callable entry."@)
    &&& fixture_is(d.fixtures@[2], RecipeFixtureRole::MinimalCounterexample, "call-after-return"@, FixtureExpectation::NoCandidate, "An unreachable call can still carry compile-time and semantic effects."@)
    &&& fixture_is(d.fixtures@[3], RecipeFixtureRole::AdversarialNearMiss, "conditional-return"@, FixtureExpectation::NoCandidate, "A literal after a conditional return remains reachable on another path."@)
}

pub fn unreachable_literal_statement_recipe() -> (r: Result<TransformationRecipe, RecipeContractError>)
    ensures
        r matches Ok(x) ==> exists|d: TransformationRecipeDraft| unreachable_literal_statement_recipe_draft(d) && canonical_arrangement(x.spec_draft(), d),
        r is Ok,
        recipe_header(
            r,
            "rust-remove-unreachable-literal-statement"@,
            "1.0.0"@,
            TransformationFamily::CloneCeremonyDeadCode,
            SafetyClass::SafeAuto,
            seq![GraphEvidenceLayer::ControlFlow, GraphEvidenceLayer::ControlRegions, GraphEvidenceLayer::NonStructuredControl],
        ),
{
    let required_layers = vec![
            GraphEvidenceLayer::ControlFlow,
            GraphEvidenceLayer::ControlRegions,
            GraphEvidenceLayer::NonStructuredControl,
        ];
    proof {
        lemma_ranked_layers_canonical(required_layers@);
    }
    let draft = TransformationRecipeDraft {
        name: "rust-remove-unreachable-literal-statement".to_owned(),
        version: "1.0.0".to_owned(),
        family: TransformationFamily::CloneCeremonyDeadCode,
        required_layers,
        required_conditions: vec![
            condition(
                CONDITION_ENTRY_UNREACHABLE,
                "The retained control point is unreachable from callable entry.",
                GraphEvidenceLayer::ControlFlow,
            ),
            condition(
                CONDITION_INERT_LITERAL,
                "The target is an exact Rust expression statement containing only one inert literal.",
                GraphEvidenceLayer::ControlFlow,
            ),
            condition(
                CONDITION_RETAINED_SOURCE,
                "The edit bytes and span come from the retained source revision.",
                GraphEvidenceLayer::ControlFlow,
            ),
            condition(
                CONDITION_STRUCTURED,
                "The unreachable relation is exact and has no structured-control residual.",
                GraphEvidenceLayer::ControlRegions,
            ),
        ],
        forbidden_conditions: vec![
            condition(
                FORBIDDEN_CONTROL,
                "A conservative control edge or recovered syntax participates in the target.",
                GraphEvidenceLayer::ControlFlow,
            ),
            condition(
                FORBIDDEN_NON_STRUCTURED,
                "A non-structured control fact participates in the callable.",
                GraphEvidenceLayer::NonStructuredControl,
            ),
            condition(
                FORBIDDEN_SEMANTIC_FORM,
                "The target form can define, reference, invoke, mutate, allocate, or otherwise produce effects.",
                GraphEvidenceLayer::ControlFlow,
            ),
        ],
        maximum_safety: SafetyClass::SafeAuto,
        validation_plan: ValidationPlan {
            steps: vec![
                ValidationStep {
                    key: "graph-delta".to_owned(),
                    kind: ValidationStepKind::GraphDelta,
                    description:
                        "Rebuild the retained graph chain and compare the expected removals.".to_owned(),
                    command: None,
                    required: true,
                },
                ValidationStep {
                    key: "parse".to_owned(),
                    kind: ValidationStepKind::Parse,
                    description: "Parse the exact source after applying the guarded deletion."
                        .to_owned(),
                    command: None,
                    required: true,
                },
            ],
        },
        rollback_plan: RollbackPlan {
            strategy: RollbackStrategy::ReverseExactEdits,
            require_revision_guards: true,
            validation_steps: vec!["graph-delta".to_owned(), "parse".to_owned()],
        },
        fixtures: vec![
            fixture(
                RecipeFixtureRole::Positive,
                "literal-after-return",
                FixtureExpectation::Candidate,
                "An inert Rust literal expression statement follows an exact return.",
            ),
            fixture(
                RecipeFixtureRole::NoOp,
                "all-reachable",
                FixtureExpectation::NoCandidate,
                "The same literal statement is reachable from callable entry.",
            ),
            fixture(
                RecipeFixtureRole::MinimalCounterexample,
                "call-after-return",
                FixtureExpectation::NoCandidate,
                "An unreachable call can still carry compile-time and semantic effects.",
            ),
            fixture(
                RecipeFixtureRole::AdversarialNearMiss,
                "conditional-return",
                FixtureExpectation::NoCandidate,
                "A literal after a conditional return remains reachable on another path.",
            ),
        ],
    };
    proof {
        reveal_strlit("1.0.0");
        reveal_strlit("A conservative control edge or recovered syntax participates in the target.");
        reveal_strlit("A literal after a conditional return remains reachable on another path.");
        reveal_strlit("A non-structured control fact participates in the callable.");
        reveal_strlit("An inert Rust literal expression statement follows an exact return.");
        reveal_strlit("An unreachable call can still carry compile-time and semantic effects.");
        reveal_strlit("Parse the exact source after applying the guarded deletion.");
        reveal_strlit("Rebuild the retained graph chain and compare the expected removals.");
        reveal_strlit("The edit bytes and span come from the retained source revision.");
        reveal_strlit("The retained control point is unreachable from callable entry.");
        reveal_strlit("The same literal statement is reachable from callable entry.");
        reveal_strlit("The target form can define, reference, invoke, mutate, allocate, or otherwise produce effects.");
        reveal_strlit("The target is an exact Rust expression statement containing only one inert literal.");
        reveal_strlit("The unreachable relation is exact and has no structured-control residual.");
        reveal_strlit("all-reachable");
        reveal_strlit("call-after-return");
        reveal_strlit("conditional-return");
        reveal_strlit("conservative-or-recovered-control");
        reveal_strlit("entry-unreachable");
        reveal_strlit("graph-delta");
        reveal_strlit("inert-literal-statement");
        reveal_strlit("literal-after-return");
        reveal_strlit("non-structured-control");
        reveal_strlit("parse");
        reveal_strlit("referential-or-effectful-form");
        reveal_strlit("retained-source-exact");
        reveal_strlit("rust-remove-unreachable-literal-statement");
        reveal_strlit("structured-reachability-exact");
        assert forall|i: int| 0 <= i < draft.required_conditions@.len() implies is_canonical_text((#[trigger] draft.required_conditions@[i]).key@) && is_canonical_text(draft.required_conditions@[i].description@) by {
            if i == 0 {} else if i == 1 {} else if i == 2 {} else if i == 3 {} else if i == 4 {} else if i == 5 {} else if i == 6 {} else if i == 7 {} else if i == 8 {} else if i == 9 {} else if i == 10 {} else if i == 11 {}
        }
        assert forall|i: int, j: int| 0 <= i < j < draft.required_conditions@.len() implies (#[trigger] draft.required_conditions@[i]).key@ != (#[trigger] draft.required_conditions@[j]).key@ by {
            if i == 0 { if j == 1 {} else if j == 2 {} else if j == 3 {} else if j == 4 {} else if j == 5 {} else if j == 6 {} else if j == 7 {} else if j == 8 {} else if j == 9 {} else if j == 10 {} else if j == 11 {} } else if i == 1 { if j == 2 {} else if j == 3 {} else if j == 4 {} else if j == 5 {} else if j == 6 {} else if j == 7 {} else if j == 8 {} else if j == 9 {} else if j == 10 {} else if j == 11 {} } else if i == 2 { if j == 3 {} else if j == 4 {} else if j == 5 {} else if j == 6 {} else if j == 7 {} else if j == 8 {} else if j == 9 {} else if j == 10 {} else if j == 11 {} } else if i == 3 { if j == 4 {} else if j == 5 {} else if j == 6 {} else if j == 7 {} else if j == 8 {} else if j == 9 {} else if j == 10 {} else if j == 11 {} } else if i == 4 { if j == 5 {} else if j == 6 {} else if j == 7 {} else if j == 8 {} else if j == 9 {} else if j == 10 {} else if j == 11 {} } else if i == 5 { if j == 6 {} else if j == 7 {} else if j == 8 {} else if j == 9 {} else if j == 10 {} else if j == 11 {} } else if i == 6 { if j == 7 {} else if j == 8 {} else if j == 9 {} else if j == 10 {} else if j == 11 {} } else if i == 7 { if j == 8 {} else if j == 9 {} else if j == 10 {} else if j == 11 {} } else if i == 8 { if j == 9 {} else if j == 10 {} else if j == 11 {} } else if i == 9 { if j == 10 {} else if j == 11 {} } else if i == 10 { if j == 11 {} }
        }
        assert forall|i: int| 0 <= i < draft.forbidden_conditions@.len() implies is_canonical_text((#[trigger] draft.forbidden_conditions@[i]).key@) && is_canonical_text(draft.forbidden_conditions@[i].description@) by {
            if i == 0 {} else if i == 1 {} else if i == 2 {} else if i == 3 {} else if i == 4 {} else if i == 5 {}
        }
        assert forall|i: int, j: int| 0 <= i < j < draft.forbidden_conditions@.len() implies (#[trigger] draft.forbidden_conditions@[i]).key@ != (#[trigger] draft.forbidden_conditions@[j]).key@ by {
            if i == 0 { if j == 1 {} else if j == 2 {} else if j == 3 {} else if j == 4 {} else if j == 5 {} } else if i == 1 { if j == 2 {} else if j == 3 {} else if j == 4 {} else if j == 5 {} } else if i == 2 { if j == 3 {} else if j == 4 {} else if j == 5 {} } else if i == 3 { if j == 4 {} else if j == 5 {} } else if i == 4 { if j == 5 {} }
        }
        assert forall|i: int| 0 <= i < draft.validation_plan.steps@.len() implies crate::contract::step_valid(#[trigger] draft.validation_plan.steps@[i]) by {
            if i == 0 {} else if i == 1 {} else if i == 2 {} else if i == 3 {} else if i == 4 {} else if i == 5 {}
        }
        assert forall|i: int, j: int| 0 <= i < j < draft.validation_plan.steps@.len() implies (#[trigger] draft.validation_plan.steps@[i]).key@ != (#[trigger] draft.validation_plan.steps@[j]).key@ by {
            if i == 0 { if j == 1 {} else if j == 2 {} else if j == 3 {} else if j == 4 {} else if j == 5 {} } else if i == 1 { if j == 2 {} else if j == 3 {} else if j == 4 {} else if j == 5 {} } else if i == 2 { if j == 3 {} else if j == 4 {} else if j == 5 {} } else if i == 3 { if j == 4 {} else if j == 5 {} } else if i == 4 { if j == 5 {} }
        }
        assert(unreachable_literal_statement_recipe_draft(draft));
        assert(recipe_draft_sound(draft));
    }
    build_recipe(draft)
}


/// Why unreachable-statement removal failed: a recipe contract, an impact query, graph
/// eligibility, or an inconsistent projection.
#[derive(Clone, Debug)]
pub enum UnreachableRecipeError {
    Contract(RecipeContractError),
    Impact(ImpactQueryError),
    Eligibility(String),
    Projection(String),
}

pub open spec fn unreachable_recipe_error_message(e: UnreachableRecipeError) -> Seq<char> {
    match e {
        UnreachableRecipeError::Contract(c) => contract_error_message(c),
        UnreachableRecipeError::Impact(e) => impact_error_message(e),
        UnreachableRecipeError::Eligibility(d) => "unreachable recipe graph eligibility failed: "@ + d@,
        UnreachableRecipeError::Projection(d) => "unreachable recipe received an inconsistent projection: "@ + d@,
    }
}

impl UnreachableRecipeError {
    /// The message of the error.
    pub fn message(&self) -> (m: String)
        ensures
            m@ == unreachable_recipe_error_message(*self),
    {
        match self {
            UnreachableRecipeError::Contract(e) => e.message(),
            UnreachableRecipeError::Impact(e) => e.message(),
            UnreachableRecipeError::Eligibility(d) => labeled_message("unreachable recipe graph eligibility failed: ", d.as_str()),
            UnreachableRecipeError::Projection(d) => labeled_message("unreachable recipe received an inconsistent projection: ", d.as_str()),
        }
    }
}


/// The span of a retained node: one-based lines, its bytes.
pub open spec fn node_span(k: NodeKeyView) -> Span {
    Span {
        start_line: (k.start_row + 1) as usize,
        end_line: (k.end_row + 1) as usize,
        start_byte: k.start_byte,
        end_byte: k.end_byte,
    }
}

/// The rows of a node fit a one-based line number.
pub open spec fn rows_fit(k: NodeKeyView) -> bool {
    k.start_row < usize::MAX && k.end_row < usize::MAX
}

/// A source node lies within the bytes of a span.
pub open spec fn within_span(source: Option<NodeKey>, span: Span) -> bool {
    source matches Some(k) && k.start_byte >= span.start_byte && k.end_byte <= span.end_byte
}

/// The entity of a control point of a control-flow graph.
pub open spec fn flow_entity_view(graph: Seq<char>, point: Seq<char>) -> GraphEntityView {
    GraphEntityView { layer: GraphEvidenceLayer::ControlFlow, graph, entity: point }
}

/// A result in the given state for the condition, with one piece of
/// evidence naming the entity, with the detail, and no capability.
pub open spec fn single_result(
    r: ConditionResult,
    condition: Seq<char>,
    state: ProofState,
    entity: GraphEntityView,
    detail: Seq<char>,
) -> bool {
    &&& r.condition@ == condition
    &&& r.state == state
    &&& r.evidence@.len() == 1
    &&& r.evidence@[0].entity@ == entity
    &&& r.evidence@[0].detail@ == detail
    &&& r.evidence@[0].capability is None
    &&& r.evidence@[0].support is None
    &&& r.evidence@[0].authority is None
}

/// The rationale of a removal on a layer.
pub open spec fn removal_rationale(layer: GraphEvidenceLayer) -> Seq<char> {
    match layer {
        GraphEvidenceLayer::ControlFlow => "The deleted syntax no longer contributes this control point."@,
        GraphEvidenceLayer::ControlRegions => "The deleted control point no longer has retained reachability relations."@,
        GraphEvidenceLayer::DataFlow => "The deleted syntax no longer contributes a data-flow point."@,
        _ => "The deleted syntax no longer contributes a program-dependence node."@,
    }
}

/// Some control point of the graph has the key and syntax in the span.
pub open spec fn point_removed(flow: FlowGraph, span: Span, k: Seq<char>) -> bool {
    exists|i: int| 0 <= i < flow.points@.len() && within_span(flow.points@[i].source, span) && (#[trigger] flow.points@[i]).key@ == k
}

/// Some relation of the region graph has the key and relates a removed point.
pub open spec fn relation_removed(flow: FlowGraph, region: RegionGraph, span: Span, k: Seq<char>) -> bool {
    exists|r: int|
        0 <= r < region.relations@.len() && (#[trigger] region.relations@[r]).key@ == k && point_removed(
            flow,
            span,
            region.relations@[r].point@,
        )
}

/// Some dependence node with syntax in the span has the data-flow point.
pub open spec fn data_point_removed(g: PdgGraph, span: Span, k: Seq<char>) -> bool {
    exists|n: int| 0 <= n < g.nodes@.len() && within_span(g.nodes@[n].source, span) && (#[trigger] g.nodes@[n]).data_flow_point@ == k
}

/// Some dependence node with syntax in the span has the key.
pub open spec fn node_removed(g: PdgGraph, span: Span, k: Seq<char>) -> bool {
    exists|n: int| 0 <= n < g.nodes@.len() && within_span(g.nodes@[n].source, span) && (#[trigger] g.nodes@[n]).key@ == k
}

/// An entity the deletion of the site's statement removes: a control
/// point whose syntax lies in the span, the relation of such a point, or
/// the data-flow point and dependence node of a node whose syntax lies in
/// the span.
pub open spec fn removed_entity(p: RetainedProjection, site: UnreachableSite, span: Span, e: GraphEntityView) -> bool {
    let g = p.dependence_graphs@[site.graph as int];
    let flow = p.flow_graphs@[site.flow as int];
    let region = p.region_graphs@[site.region as int];
    ||| e.layer == GraphEvidenceLayer::ControlFlow && e.graph == flow.key@ && point_removed(flow, span, e.entity)
    ||| e.layer == GraphEvidenceLayer::ControlRegions && e.graph == region.key@ && relation_removed(
        flow,
        region,
        span,
        e.entity,
    )
    ||| e.layer == GraphEvidenceLayer::DataFlow && e.graph == p.data_flow_graphs@[site.data_flow as int].key@
        && data_point_removed(g, span, e.entity)
    ||| e.layer == GraphEvidenceLayer::ProgramDependence && e.graph == g.key@ && node_removed(g, span, e.entity)
}

/// The expected delta removes exactly the removed entities, each with the
/// rationale of its layer.
pub open spec fn site_delta(p: RetainedProjection, site: UnreachableSite, span: Span, d: ExpectedGraphDelta) -> bool {
    &&& forall|i: int| 0 <= i < d.changes@.len() ==> (#[trigger] d.changes@[i]).kind == GraphChangeKind::Remove
        && removed_entity(p, site, span, d.changes@[i].entity@) && d.changes@[i].rationale@ == removal_rationale(
        d.changes@[i].entity.layer,
    )
    &&& forall|e: GraphEntityView| removed_entity(p, site, span, e) ==> has_change(d.changes@, e)
}

/// Some change removes the entity.
pub open spec fn has_change(changes: Seq<ExpectedGraphChange>, e: GraphEntityView) -> bool {
    exists|i: int| 0 <= i < changes.len() && (#[trigger] changes[i]).entity@ == e
}

/// The entity of a relation of a control-region graph.
pub open spec fn region_entity_view(graph: Seq<char>, relation: Seq<char>) -> GraphEntityView {
    GraphEntityView { layer: GraphEvidenceLayer::ControlRegions, graph, entity: relation }
}

proof fn lemma_has_change_push(changes: Seq<ExpectedGraphChange>, c: ExpectedGraphChange)
    ensures
        forall|e: GraphEntityView| has_change(changes, e) ==> has_change(changes.push(c), e),
        has_change(changes.push(c), c.entity@),
{
    assert forall|e: GraphEntityView| has_change(changes, e) implies has_change(changes.push(c), e) by {
        let i = choose|i: int| 0 <= i < changes.len() && (#[trigger] changes[i]).entity@ == e;
        assert(changes.push(c)[i] == changes[i]);
    }
    assert(changes.push(c)[changes.len() as int] == c);
}

/// The draft a detector assembles for a site: bound to the recipe and the
/// projection's identities; targeting the site's statement through its
/// dependence node; the recipe's four proven obligations and three
/// disproven forbidden conditions with their evidence; the bidirectional
/// impact cone of depth eight around the node; the removals of the
/// statement's syntax; one exact deletion of the statement's text; the
/// recipe's plans; automatic and safe-auto.
pub open spec fn is_site_draft(
    d: TransformationCandidateDraft,
    p: RetainedProjection,
    site: UnreachableSite,
    recipe: TransformationRecipe,
) -> bool {
    let g = p.dependence_graphs@[site.graph as int];
    let n = g.nodes@[site.node as int];
    let statement = p.syntax@[site.statement as int];
    let flow = p.flow_graphs@[site.flow as int];
    let region = p.region_graphs@[site.region as int];
    let relation = region.relations@[site.relation as int];
    let nsc = p.non_structured_graphs@[site.non_structured as int];
    let span = node_span(statement.key@);
    let fe = flow_entity_view(flow.key@, n.point@);
    &&& d.recipe.spec_id() == recipe.spec_id()
    &&& (recipe.wf() ==> d.recipe.wf())
    &&& d.source.project_snapshot@ == p.snapshot@
    &&& d.source.analysis@ == p.analysis@
    &&& d.source.program_dependence_projection@ == p.id@
    &&& d.target.entity@ == crate::impact::pdg_entity(g.key@, n.key@)
    &&& d.target.node@ == statement.key@
    &&& d.target.span == span
    &&& d.target.subtree_fingerprint is None
    &&& d.eligibility.consumer@ == g.eligibility.consumer@
    &&& d.eligibility.required_layers@ == g.eligibility.required_layers@
    &&& d.eligibility.eligible == g.eligibility.eligible
    &&& d.required_results@.len() == 4
    &&& single_result(d.required_results@[0], CONDITION_ENTRY_UNREACHABLE@, ProofState::Proven, fe,
        "The retained PDG and control-region relation both mark this point entry-unreachable."@)
    &&& single_result(d.required_results@[1], CONDITION_INERT_LITERAL@, ProofState::Proven, fe,
        "The exact Rust CST is one expression statement with one allowlisted literal child."@)
    &&& single_result(d.required_results@[2], CONDITION_RETAINED_SOURCE@, ProofState::Proven, fe,
        "The target NodeKey, source bytes, span, and revision guard share one retained revision."@)
    &&& single_result(d.required_results@[3], CONDITION_STRUCTURED@, ProofState::Proven,
        GraphEntityView { layer: GraphEvidenceLayer::ControlRegions, graph: region.key@, entity: relation.key@ },
        "Complete control-region evidence has no residual and gives the unreachable point no dominator."@)
    &&& d.forbidden_results@.len() == 3
    &&& single_result(d.forbidden_results@[0], FORBIDDEN_CONTROL@, ProofState::Disproven, fe,
        "Graph eligibility rejected all conservative edges and the exact target point is not recovered."@)
    &&& single_result(d.forbidden_results@[1], FORBIDDEN_NON_STRUCTURED@, ProofState::Disproven,
        GraphEntityView { layer: GraphEvidenceLayer::NonStructuredControl, graph: nsc.key@, entity: nsc.key@ },
        "Complete non-structured-control evidence contains no facts for this callable."@)
    &&& single_result(d.forbidden_results@[2], FORBIDDEN_SEMANTIC_FORM@, ProofState::Disproven, fe,
        "The allowlist excludes declarations, names, calls, macros, operators, aggregates, and control forms."@)
    &&& site_delta(p, site, span, d.expected_delta)
    &&& d.edits@.len() == 1
    &&& d.edits@[0].target@ == statement.key@
    &&& d.edits@[0].span == span
    &&& d.edits@[0].before@ == statement.text@
    &&& d.edits@[0].after@ == Seq::<char>::empty()
    &&& d.edits@[0].revision_guard@ == revision_guard_id(statement.key@.path, span, statement.text@)
    &&& d.safety == SafetyClass::SafeAuto
    &&& d.disposition == CandidateDisposition::Automatic
    &&& crate::candidate::steps_agree(d.validation_plan.steps@, recipe.spec_draft().validation_plan.steps@)
    &&& d.rollback_plan.strategy == recipe.spec_draft().rollback_plan.strategy
    &&& d.rollback_plan.require_revision_guards == recipe.spec_draft().rollback_plan.require_revision_guards
    &&& crate::candidate::keys_agree(d.rollback_plan.validation_steps@, recipe.spec_draft().rollback_plan.validation_steps@)
}

fn entity_ref(layer: GraphEvidenceLayer, graph: &str, name: &str) -> (r: GraphEntityRef)
    ensures
        r@ == (GraphEntityView { layer, graph: graph@, entity: name@ }),
{
    GraphEntityRef { layer, graph: graph.to_owned(), entity: name.to_owned() }
}

fn result(condition: &str, state: ProofState, e: GraphEntityRef, detail: &str) -> (r: ConditionResult)
    ensures
        single_result(r, condition@, state, e@, detail@),
{
    ConditionResult {
        condition: condition.to_owned(),
        state,
        evidence: vec![ConditionEvidence { entity: e, detail: detail.to_owned(), capability: None, support: None, authority: None }],
    }
}


fn source_within(source: &Option<NodeKey>, span: Span) -> (r: bool)
    ensures
        r == within_span(*source, span),
{
    match source {
        Some(k) => k.start_byte >= span.start_byte && k.end_byte <= span.end_byte,
        None => false,
    }
}

fn removal(layer: GraphEvidenceLayer, graph: &str, name: &str, rationale: &str) -> (c: ExpectedGraphChange)
    ensures
        c.kind == GraphChangeKind::Remove,
        c.entity@ == (GraphEntityView { layer, graph: graph@, entity: name@ }),
        c.rationale@ == rationale@,
{
    ExpectedGraphChange { kind: GraphChangeKind::Remove, entity: entity_ref(layer, graph, name), rationale: rationale.to_owned() }
}

fn site_expected_delta(p: &RetainedProjection, site: UnreachableSite, span: Span) -> (d: ExpectedGraphDelta)
    requires
        site_in_range(*p, site),
    ensures
        site_delta(*p, site, span, d),
{
    let g = &p.dependence_graphs[site.graph];
    let flow = &p.flow_graphs[site.flow];
    let region = &p.region_graphs[site.region];
    let data_flow = p.data_flow_graphs[site.data_flow].key.as_str();
    let ghost sd = *p;
    let mut keys: Vec<String> = Vec::new();
    let np = flow.points.len();
    let mut i: usize = 0;
    while i < np
        invariant
            np == flow.points@.len(),
            i <= np,
            keys_strictly_increasing(keys@),
            forall|k: Seq<char>| view_set(keys@).contains(k) <==> exists|x: int|
                0 <= x < i && within_span(flow.points@[x].source, span) && (#[trigger] flow.points@[x]).key@ == k,
        decreases np - i,
    {
        let point = &flow.points[i];
        let ghost before = view_set(keys@);
        if source_within(&point.source, span) {
            insert_sorted_str(&mut keys, point.key.clone());
        }
        proof {
            assert forall|k: Seq<char>| view_set(keys@).contains(k) <==> exists|x: int|
                0 <= x < i + 1 && within_span(flow.points@[x].source, span) && (#[trigger] flow.points@[x]).key@ == k by {
                if view_set(keys@).contains(k) && !before.contains(k) {
                    assert(within_span(flow.points@[i as int].source, span) && flow.points@[i as int].key@ == k);
                }
                if exists|x: int| 0 <= x < i + 1 && within_span(flow.points@[x].source, span) && (#[trigger] flow.points@[x]).key@ == k {
                    let x = choose|x: int| 0 <= x < i + 1 && within_span(flow.points@[x].source, span) && (#[trigger] flow.points@[x]).key@ == k;
                    if x < i {
                        assert(before.contains(k));
                    }
                }
            }
        }
        i = i + 1;
    }
    proof {
        assert forall|k: Seq<char>| view_set(keys@).contains(k) <==> point_removed(*flow, span, k) by {}
    }
    let mut changes: Vec<ExpectedGraphChange> = Vec::new();
    let nk = keys.len();
    let mut a: usize = 0;
    while a < nk
        invariant
            sd == *p,
            site_in_range(sd, site),
            *g == sd.dependence_graphs@[site.graph as int],
            *flow == sd.flow_graphs@[site.flow as int],
            *region == sd.region_graphs@[site.region as int],
            data_flow@ == sd.data_flow_graphs@[site.data_flow as int].key@,
            nk == keys@.len(),
            a <= nk,
            forall|k: Seq<char>| view_set(keys@).contains(k) <==> point_removed(*flow, span, k),
            forall|x: int| 0 <= x < changes@.len() ==> (#[trigger] changes@[x]).kind == GraphChangeKind::Remove
                && removed_entity(sd, site, span, changes@[x].entity@) && changes@[x].rationale@ == removal_rationale(
                changes@[x].entity.layer,
            ),
            forall|y: int| 0 <= y < a ==> has_change(changes@, flow_entity_view(flow.key@, (#[trigger] keys@[y])@)),
        decreases nk - a,
    {
        proof {
            assert(view_set(keys@).contains(keys@[a as int]@));
        }
        let ghost before = changes@;
        let change = removal(GraphEvidenceLayer::ControlFlow, flow.key.as_str(), keys[a].as_str(),
            "The deleted syntax no longer contributes this control point.");
        changes.push(change);
        proof {
            lemma_has_change_push(before, change);
            assert(change.entity@ == flow_entity_view(flow.key@, keys@[a as int]@));
        }
        a = a + 1;
    }
    let nr = region.relations.len();
    let mut b: usize = 0;
    while b < nr
        invariant
            sd == *p,
            site_in_range(sd, site),
            *g == sd.dependence_graphs@[site.graph as int],
            *flow == sd.flow_graphs@[site.flow as int],
            *region == sd.region_graphs@[site.region as int],
            data_flow@ == sd.data_flow_graphs@[site.data_flow as int].key@,
            nk == keys@.len(),
            nr == region.relations@.len(),
            b <= nr,
            forall|k: Seq<char>| view_set(keys@).contains(k) <==> point_removed(*flow, span, k),
            forall|x: int| 0 <= x < changes@.len() ==> (#[trigger] changes@[x]).kind == GraphChangeKind::Remove
                && removed_entity(sd, site, span, changes@[x].entity@) && changes@[x].rationale@ == removal_rationale(
                changes@[x].entity.layer,
            ),
            forall|y: int| 0 <= y < nk ==> has_change(changes@, flow_entity_view(flow.key@, (#[trigger] keys@[y])@)),
            forall|y: int| 0 <= y < b && point_removed(*flow, span, (#[trigger] region.relations@[y]).point@) ==> has_change(
                changes@,
                region_entity_view(region.key@, region.relations@[y].key@),
            ),
        decreases nr - b,
    {
        let relation = &region.relations[b];
        if crate::impact::contains_key(&keys, relation.point.as_str()) {
            let ghost before = changes@;
            let change = removal(GraphEvidenceLayer::ControlRegions, region.key.as_str(), relation.key.as_str(),
                "The deleted control point no longer has retained reachability relations.");
            changes.push(change);
            proof {
                assert(relation_removed(*flow, *region, span, relation.key@));
                lemma_has_change_push(before, change);
            }
        }
        b = b + 1;
    }
    let nn = g.nodes.len();
    let mut c: usize = 0;
    while c < nn
        invariant
            sd == *p,
            site_in_range(sd, site),
            *g == sd.dependence_graphs@[site.graph as int],
            *flow == sd.flow_graphs@[site.flow as int],
            *region == sd.region_graphs@[site.region as int],
            data_flow@ == sd.data_flow_graphs@[site.data_flow as int].key@,
            nk == keys@.len(),
            nr == region.relations@.len(),
            nn == g.nodes@.len(),
            c <= nn,
            forall|x: int| 0 <= x < changes@.len() ==> (#[trigger] changes@[x]).kind == GraphChangeKind::Remove
                && removed_entity(sd, site, span, changes@[x].entity@) && changes@[x].rationale@ == removal_rationale(
                changes@[x].entity.layer,
            ),
            forall|y: int| 0 <= y < nk ==> has_change(changes@, flow_entity_view(flow.key@, (#[trigger] keys@[y])@)),
            forall|y: int| 0 <= y < nr && point_removed(*flow, span, (#[trigger] region.relations@[y]).point@) ==> has_change(
                changes@,
                region_entity_view(region.key@, region.relations@[y].key@),
            ),
            forall|y: int| 0 <= y < c && within_span((#[trigger] g.nodes@[y]).source, span) ==> has_change(
                changes@,
                GraphEntityView { layer: GraphEvidenceLayer::DataFlow, graph: data_flow@, entity: g.nodes@[y].data_flow_point@ },
            ) && has_change(
                changes@,
                GraphEntityView { layer: GraphEvidenceLayer::ProgramDependence, graph: g.key@, entity: g.nodes@[y].key@ },
            ),
        decreases nn - c,
    {
        let node = &g.nodes[c];
        if source_within(&node.source, span) {
            let ghost before = changes@;
            let first = removal(GraphEvidenceLayer::DataFlow, data_flow, node.data_flow_point.as_str(),
                "The deleted syntax no longer contributes a data-flow point.");
            changes.push(first);
            proof {
                assert(data_point_removed(*g, span, node.data_flow_point@));
                lemma_has_change_push(before, first);
            }
            let ghost middle = changes@;
            let second = removal(GraphEvidenceLayer::ProgramDependence, g.key.as_str(), node.key.as_str(),
                "The deleted syntax no longer contributes a program-dependence node.");
            changes.push(second);
            proof {
                assert(node_removed(*g, span, node.key@));
                lemma_has_change_push(middle, second);
            }
        }
        c = c + 1;
    }
    let d = ExpectedGraphDelta { changes };
    proof {
        assert forall|e: GraphEntityView| removed_entity(sd, site, span, e) implies has_change(d.changes@, e) by {
            if e.layer == GraphEvidenceLayer::ControlFlow && e.graph == flow.key@ && point_removed(*flow, span, e.entity) {
                assert(view_set(keys@).contains(e.entity));
                let y = choose|y: int| 0 <= y < keys@.len() && (#[trigger] keys@[y])@ == e.entity;
                assert(e == flow_entity_view(flow.key@, keys@[y]@));
            } else if e.layer == GraphEvidenceLayer::ControlRegions && e.graph == region.key@ && relation_removed(*flow, *region, span, e.entity) {
                let y = choose|y: int| 0 <= y < region.relations@.len() && (#[trigger] region.relations@[y]).key@ == e.entity
                    && point_removed(*flow, span, region.relations@[y].point@);
                assert(point_removed(*flow, span, region.relations@[y].point@));
                assert(e == region_entity_view(region.key@, region.relations@[y].key@));
            } else if e.layer == GraphEvidenceLayer::DataFlow && e.graph == data_flow@ && data_point_removed(*g, span, e.entity) {
                let y = choose|y: int| 0 <= y < g.nodes@.len() && within_span(g.nodes@[y].source, span) && (#[trigger] g.nodes@[y]).data_flow_point@ == e.entity;
                assert(within_span(g.nodes@[y].source, span));
                assert(e == GraphEntityView { layer: GraphEvidenceLayer::DataFlow, graph: data_flow@, entity: g.nodes@[y].data_flow_point@ });
            } else if e.layer == GraphEvidenceLayer::ProgramDependence && e.graph == g.key@ && node_removed(*g, span, e.entity) {
                let y = choose|y: int| 0 <= y < g.nodes@.len() && within_span(g.nodes@[y].source, span) && (#[trigger] g.nodes@[y]).key@ == e.entity;
                assert(within_span(g.nodes@[y].source, span));
                assert(e == GraphEntityView { layer: GraphEvidenceLayer::ProgramDependence, graph: g.key@, entity: g.nodes@[y].key@ });
            }
        }
    }
    d
}


/// The impact cone of a site: the answer of a bidirectional query of
/// depth eight around its dependence node.
pub open spec fn site_impact(p: RetainedProjection, site: UnreachableSite, impact: ImpactCone) -> bool {
    let g = p.dependence_graphs@[site.graph as int];
    exists|deps: Seq<DependenceGraph>|
        dependence_views(deps, p.dependence_graphs@) && #[trigger] crate::impact::impact_answer(
            deps,
            g.key@,
            g.nodes@[site.node as int].key@,
            ImpactDirection::Bidirectional,
            8,
            Ok(impact),
        )
}

pub fn copy_layers(v: &[GraphEvidenceLayer]) -> (r: Vec<GraphEvidenceLayer>)
    ensures
        r@ == v@,
{
    let mut out: Vec<GraphEvidenceLayer> = Vec::new();
    let n = v.len();
    let mut i: usize = 0;
    while i < n
        invariant
            n == v@.len(),
            i <= n,
            out@ == v@.subrange(0, i as int),
        decreases n - i,
    {
        out.push(v[i]);
        assert(out@ =~= v@.subrange(0, i + 1));
        i = i + 1;
    }
    assert(out@ =~= v@);
    out
}

/// A site's draft can be assembled: its statement's rows fit and the
/// impact query around its dependence node can be answered.
pub open spec fn site_draftable(p: RetainedProjection, deps: Seq<DependenceGraph>, site: UnreachableSite) -> bool {
    let g = p.dependence_graphs@[site.graph as int];
    &&& rows_fit(p.syntax@[site.statement as int].key@)
    &&& impact_found(deps, g.key@, g.nodes@[site.node as int].key@, 8)
}

/// When a site's candidate is owed: its draft can be assembled and every
/// draft of the site is valid.
pub open spec fn site_owed(p: RetainedProjection, deps: Seq<DependenceGraph>, site: UnreachableSite, recipe: TransformationRecipe) -> bool {
    &&& site_draftable(p, deps, site)
    &&& forall|d: TransformationCandidateDraft|
        #[trigger] is_site_draft(d, p, site, recipe) && site_impact(p, site, d.impact) ==> candidate_fields_valid(d)
}

/// Assembles the candidate draft of a site.
fn site_draft(
    p: &RetainedProjection,
    recipe: &TransformationRecipe,
    deps: &Vec<DependenceGraph>,
    site: UnreachableSite,
) -> (r: Result<TransformationCandidateDraft, UnreachableRecipeError>)
    requires
        site_in_range(*p, site),
        dependence_views(deps@, p.dependence_graphs@),
    ensures
        r matches Ok(d) ==> is_site_draft(d, *p, site, *recipe) && site_impact(*p, site, d.impact),
        r is Ok <==> site_draftable(*p, deps@, site),
{
    let g = &p.dependence_graphs[site.graph];
    let node = &g.nodes[site.node];
    let statement = &p.syntax[site.statement];
    let flow = &p.flow_graphs[site.flow];
    let region = &p.region_graphs[site.region];
    let relation = &region.relations[site.relation];
    let nsc = &p.non_structured_graphs[site.non_structured];
    let key = &statement.key;
    if key.start_row >= usize::MAX || key.end_row >= usize::MAX {
        return Err(UnreachableRecipeError::Projection("retained node rows are out of range".to_owned()));
    }
    let span = Span {
        start_line: key.start_row + 1,
        end_line: key.end_row + 1,
        start_byte: key.start_byte,
        end_byte: key.end_byte,
    };
    let impact = match program_dependence_impact_cone(
        deps,
        g.key.as_str(),
        node.key.as_str(),
        ImpactDirection::Bidirectional,
        8,
    ) {
        Ok(c) => c,
        Err(e) => {
            return Err(UnreachableRecipeError::Impact(e));
        },
    };
    let point = node.point.as_str();
    let fk = flow.key.as_str();
    let required_results = vec![
        result(
            CONDITION_ENTRY_UNREACHABLE,
            ProofState::Proven,
            entity_ref(GraphEvidenceLayer::ControlFlow, fk, point),
            "The retained PDG and control-region relation both mark this point entry-unreachable.",
        ),
        result(
            CONDITION_INERT_LITERAL,
            ProofState::Proven,
            entity_ref(GraphEvidenceLayer::ControlFlow, fk, point),
            "The exact Rust CST is one expression statement with one allowlisted literal child.",
        ),
        result(
            CONDITION_RETAINED_SOURCE,
            ProofState::Proven,
            entity_ref(GraphEvidenceLayer::ControlFlow, fk, point),
            "The target NodeKey, source bytes, span, and revision guard share one retained revision.",
        ),
        result(
            CONDITION_STRUCTURED,
            ProofState::Proven,
            entity_ref(GraphEvidenceLayer::ControlRegions, region.key.as_str(), relation.key.as_str()),
            "Complete control-region evidence has no residual and gives the unreachable point no dominator.",
        ),
    ];
    let forbidden_results = vec![
        result(
            FORBIDDEN_CONTROL,
            ProofState::Disproven,
            entity_ref(GraphEvidenceLayer::ControlFlow, fk, point),
            "Graph eligibility rejected all conservative edges and the exact target point is not recovered.",
        ),
        result(
            FORBIDDEN_NON_STRUCTURED,
            ProofState::Disproven,
            entity_ref(GraphEvidenceLayer::NonStructuredControl, nsc.key.as_str(), nsc.key.as_str()),
            "Complete non-structured-control evidence contains no facts for this callable.",
        ),
        result(
            FORBIDDEN_SEMANTIC_FORM,
            ProofState::Disproven,
            entity_ref(GraphEvidenceLayer::ControlFlow, fk, point),
            "The allowlist excludes declarations, names, calls, macros, operators, aggregates, and control forms.",
        ),
    ];
    let expected_delta = site_expected_delta(p, site, span);
    let edit = TransformationEdit::exact_node_deletion(key.duplicate(), span, statement.text.clone());
    let draft = TransformationCandidateDraft {
        recipe: recipe.duplicate(),
        source: CandidateSource {
            project_snapshot: p.snapshot.clone(),
            analysis: p.analysis.clone(),
            program_dependence_projection: p.id.clone(),
        },
        target: CandidateTarget {
            entity: entity_ref(GraphEvidenceLayer::ProgramDependence, g.key.as_str(), node.key.as_str()),
            node: key.duplicate(),
            span,
            subtree_fingerprint: None,
        },
        eligibility: GraphEligibilityDecision {
            consumer: g.eligibility.consumer.clone(),
            required_layers: copy_layers(g.eligibility.required_layers.as_slice()),
            eligible: g.eligibility.eligible,
        },
        required_results,
        forbidden_results,
        impact,
        expected_delta,
        edits: vec![edit],
        safety: SafetyClass::SafeAuto,
        disposition: CandidateDisposition::Automatic,
        validation_plan: crate::recipe::duplicate_validation_plan(recipe.validation_plan()),
        rollback_plan: crate::recipe::duplicate_rollback_plan(recipe.rollback_plan()),
    };
    proof {
        assert(crate::impact::impact_answer(
            deps@,
            g.key@,
            node.key@,
            ImpactDirection::Bidirectional,
            8,
            Ok(draft.impact),
        ));
        assert(site_impact(*p, site, draft.impact));
    }
    Ok(draft)
}


/// A candidate for a site: well formed, and its draft is, up to the
/// canonical order of its lists, the draft the site calls for under
/// `recipe`, with the impact cone of the site.
#[verifier::opaque]
pub open spec fn candidate_for_site(
    c: TransformationCandidate,
    p: RetainedProjection,
    site: UnreachableSite,
    recipe: TransformationRecipe,
) -> bool {
    &&& c.wf()
    &&& exists|d: TransformationCandidateDraft|
        #[trigger] is_site_draft(d, p, site, recipe) && candidate_arrangement(c.spec_draft(), d)
            && site_impact(p, site, d.impact)
}

/// The candidates for a sequence of sites, one for one.
pub open spec fn candidates_for_sites(
    cs: Seq<TransformationCandidate>,
    p: RetainedProjection,
    sites: Seq<UnreachableSite>,
    recipe: TransformationRecipe,
) -> bool {
    &&& cs.len() == sites.len()
    &&& forall|k: int| 0 <= k < cs.len() ==> #[trigger] candidate_for_site(cs[k], p, sites[k], recipe)
}

/// The candidate of one site.
fn site_candidate(
    p: &RetainedProjection,
    recipe: &TransformationRecipe,
    deps: &Vec<DependenceGraph>,
    site: UnreachableSite,
) -> (r: Result<TransformationCandidate, UnreachableRecipeError>)
    requires
        site_in_range(*p, site),
        dependence_views(deps@, p.dependence_graphs@),
    ensures
        r matches Ok(c) ==> candidate_for_site(c, *p, site, *recipe),
        site_owed(*p, deps@, site, *recipe) ==> r is Ok,
{
    let draft = site_draft(p, recipe, deps, site)?;
    let ghost original = draft;
    proof {
        assert(is_site_draft(original, *p, site, *recipe) && site_impact(*p, site, original.impact));
    }
    match TransformationCandidate::new(draft) {
        Ok(c) => {
            proof {
                reveal(candidate_for_site);
                assert(is_site_draft(original, *p, site, *recipe));
            }
            Ok(c)
        },
        Err(e) => Err(UnreachableRecipeError::Contract(e)),
    }
}

/// When the candidates of a projection are owed: its sites can be found
/// and, under the unreachable-statement recipe and the projection's dependence graphs,
/// the candidate of every site is owed.
pub open spec fn unreachable_all_owed(p: RetainedProjection) -> bool {
    &&& unreachable_sites_of(p) is Ok
    &&& forall|recipe: TransformationRecipe, deps: Seq<DependenceGraph>, k: int|
        recipe_header(
                Ok(recipe),
                "rust-remove-unreachable-literal-statement"@,
                "1.0.0"@,
                TransformationFamily::CloneCeremonyDeadCode,
                SafetyClass::SafeAuto,
                seq![
                    GraphEvidenceLayer::ControlFlow,
                    GraphEvidenceLayer::ControlRegions,
                    GraphEvidenceLayer::NonStructuredControl,
                ],
            ) && dependence_views(deps, p.dependence_graphs@) && 0 <= k < unreachable_sites_of(p)->Ok_0.len()
            ==> #[trigger] site_owed(p, deps, unreachable_sites_of(p)->Ok_0[k], recipe)
}

/// What an `Ok` of the unreachable-statement detector holds on `p`: the
/// sites scanned, keys in order, and the candidates built for every site
/// under the recipe.
pub open spec fn unreachable_ok_result(p: RetainedProjection, cs: Seq<TransformationCandidate>) -> bool {
    unreachable_sites_of(p) is Ok && keys_sorted(cs) && exists|
        recipe: TransformationRecipe,
        unsorted: Seq<TransformationCandidate>,
    |
        #![trigger candidates_for_sites(unsorted, p, unreachable_sites_of(p)->Ok_0, recipe)]
        recipe_header(
            Ok(recipe),
            "rust-remove-unreachable-literal-statement"@,
            "1.0.0"@,
            TransformationFamily::CloneCeremonyDeadCode,
            SafetyClass::SafeAuto,
            seq![
                GraphEvidenceLayer::ControlFlow,
                GraphEvidenceLayer::ControlRegions,
                GraphEvidenceLayer::NonStructuredControl,
            ],
        ) && candidates_for_sites(unsorted, p, unreachable_sites_of(p)->Ok_0, recipe)
            && cs.to_multiset() == unsorted.to_multiset()
}

/// Finds every entry-unreachable inert literal statement of a retained
/// projection and proposes its guarded deletion: one automatic candidate per
/// site, ordered by candidate identity. A projection that names a graph,
/// control point, relation or syntax node it does not hold is refused.
#[verifier::rlimit(60)]
pub fn detect_unreachable_literal_statements(p: &RetainedProjection) -> (r: Result<
    Vec<TransformationCandidate>,
    UnreachableRecipeError,
>)
    ensures
        unreachable_sites_of(*p) is Err ==> r matches Err(UnreachableRecipeError::Projection(_)),
        unreachable_all_owed(*p) ==> r is Ok,
        r matches Ok(cs) ==> unreachable_sites_of(*p) is Ok && keys_sorted(cs@) && exists|
            recipe: TransformationRecipe,
            unsorted: Seq<TransformationCandidate>,
        |
            #![trigger candidates_for_sites(unsorted, *p, unreachable_sites_of(*p)->Ok_0, recipe)]
            recipe_header(
                Ok(recipe),
                "rust-remove-unreachable-literal-statement"@,
                "1.0.0"@,
                TransformationFamily::CloneCeremonyDeadCode,
                SafetyClass::SafeAuto,
                seq![
                    GraphEvidenceLayer::ControlFlow,
                    GraphEvidenceLayer::ControlRegions,
                    GraphEvidenceLayer::NonStructuredControl,
                ],
            ) && candidates_for_sites(unsorted, *p, unreachable_sites_of(*p)->Ok_0, recipe)
                && cs@.to_multiset() == unsorted.to_multiset(),
{
    let recipe = match unreachable_literal_statement_recipe() {
        Ok(recipe) => recipe,
        Err(e) => {
            let sites = unreachable_sites(p);
            if sites.is_err() {
                return Err(UnreachableRecipeError::Projection(
                    "retained projection lacks a graph, control point, relation or syntax node a site refers to".to_owned(),
                ));
            }
            return Err(UnreachableRecipeError::Contract(e));
        },
    };
    let sites = match unreachable_sites(p) {
        Ok(v) => v,
        Err(()) => {
            return Err(UnreachableRecipeError::Projection(
                "retained projection lacks a graph, control point, relation or syntax node a site refers to".to_owned(),
            ));
        },
    };
    proof {
        lemma_sites_in_range(*p, p.dependence_graphs@.len() as nat);
    }
    let deps = dependence_graphs_of(p);
    let mut candidates: Vec<TransformationCandidate> = Vec::new();
    let n = sites.len();
    proof {
        if unreachable_all_owed(*p) {
            assert forall|k: int| 0 <= k < n implies #[trigger] site_owed(*p, deps@, sites@[k], recipe) by {
                assert(site_owed(*p, deps@, unreachable_sites_of(*p)->Ok_0[k], recipe));
            }
        }
    }
    let mut i: usize = 0;
    while i < n
        invariant
            n == sites@.len(),
            i <= n,
            unreachable_sites_of(*p) == Ok::<Seq<UnreachableSite>, ()>(sites@),
            forall|k: int| 0 <= k < sites@.len() ==> site_in_range(*p, #[trigger] sites@[k]),
            dependence_views(deps@, p.dependence_graphs@),
            candidates_for_sites(candidates@, *p, sites@.subrange(0, i as int), recipe),
            unreachable_all_owed(*p) ==> forall|k: int| 0 <= k < n ==> #[trigger] site_owed(*p, deps@, sites@[k], recipe),
        decreases n - i,
    {
        let site = sites[i];
        let c = match site_candidate(p, &recipe, &deps, site) {
            Ok(c) => c,
            Err(e) => {
                return Err(e);
            },
        };
        let ghost before = candidates@;
        candidates.push(c);
        proof {
            let prefix = sites@.subrange(0, i + 1);
            assert forall|k: int| 0 <= k < candidates@.len() implies #[trigger] candidate_for_site(
                candidates@[k],
                *p,
                prefix[k],
                recipe,
            ) by {
                if k < i {
                    assert(candidates@[k] == before[k]);
                    assert(prefix[k] == sites@.subrange(0, i as int)[k]);
                }
            }
        }
        i = i + 1;
    }
    let ghost unsorted = candidates@;
    assert(sites@.subrange(0, n as int) =~= sites@);
    let sorted = sort_by_key(candidates);
    proof {
        assert(candidates_for_sites(unsorted, *p, unreachable_sites_of(*p)->Ok_0, recipe));
        assert(sorted@.to_multiset() == unsorted.to_multiset());
    }
    Ok(sorted)
}

} // verus!
