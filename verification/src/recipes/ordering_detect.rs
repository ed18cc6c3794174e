//! The ordering candidates of a projection: one review-gated reordering per
//! out-of-order block of simple imports or hoisted private functions.

use vstd::prelude::*;
use vstd::utf8::encode_utf8;
use crate::candidate::{
    candidate_arrangement, candidate_fields_valid, keys_agree, steps_agree, CandidateDisposition, CandidateSource,
    GraphEligibilityDecision, TransformationCandidate, TransformationCandidateDraft,
};
use crate::contract::ProofState;
use crate::evidence::{
    distinct_entities, entity_in, push_unique_entity, ConditionEvidence, ConditionEvidenceView, ConditionResult, ExpectedGraphChange,
    ExpectedGraphDelta, GraphChangeKind, GraphEntityRef, GraphEntityView, ImpactCone, ImpactConeQuery,
    ImpactDirection,
};
use crate::model::{GraphEvidenceLayer, SafetyClass, Span};
use crate::order::{compare_str, keys_sorted, key_lt_at, keys_strictly_increasing, sort_by_key, str_key};
use crate::recipe::TransformationRecipe;
use crate::target::{revision_guard_id, CandidateTarget, NodeKey, TransformationEdit};
use crate::text::{trim, trimmed};
use super::block_order::{
    block_rewrite, distinct_keys, gaps_ok, is_block_rewrite, rewrite_owed, slice_ok, BlockItem, BlockRewrite,
};
use super::ordering::{
    OrderingKind, OrderingRecipeError, COMPLETE_AUTHORITY, CONTIGUOUS, HOISTED_PRIVATE, ORDER_SENSITIVE,
    PARTIAL, SIMPLE_IMPORTS, TRIVIA_OR_MACRO, UNIQUE_KEYS,
};
use super::ordering_scope::{
    block_facts, block_selected, fact_keys, file_scope, file_scope_of, function_facts_of, int_seq, key_selected,
    lists_selected_blocks, select_block, selected_block, selected_blocks, Block, OrderingProjection,
    ResolutionRecord, ScopeFact, TopLevelItem,
};
use super::ordering::{hoisted_private_function_order_recipe, simple_import_order_recipe};
use super::recipe_header;
use super::unreachable::{copy_layers, node_span, rows_fit, single_result};
use crate::json::text_view;

verus! {

/// The key a sibling is ordered by: an import's trimmed text, a function's
/// name.
pub open spec fn item_key(item: TopLevelItem, kind: OrderingKind) -> Seq<char> {
    match kind {
        OrderingKind::Imports => trim(item.text@),
        OrderingKind::Functions => match item.name {
            Some(n) => n.text@,
            None => Seq::empty(),
        },
    }
}

/// `b` is the block item of a sibling: its key, its text and its place.
pub open spec fn block_item_of(b: BlockItem, item: TopLevelItem, kind: OrderingKind) -> bool {
    &&& b.key@ == item_key(item, kind)
    &&& b.text@ == item.text@
    &&& b.start_byte == item.key.start_byte
    &&& b.end_byte == item.key.end_byte
    &&& b.start_row == item.key.start_row
    &&& b.end_row == item.key.end_row
}

pub open spec fn block_items_of(items: Seq<BlockItem>, run: Seq<TopLevelItem>, kind: OrderingKind) -> bool {
    items.len() == run.len() && forall|k: int| 0 <= k < items.len() ==> block_item_of(#[trigger] items[k], run[k], kind)
}

/// The reordering of a run is owed: at least two siblings with distinct
/// keys, not already in ascending key order.
pub open spec fn run_owed(run: Seq<TopLevelItem>, kind: OrderingKind) -> bool {
    &&& run.len() >= 2
    &&& forall|i: int, j: int| 0 <= i < j < run.len() ==> item_key(#[trigger] run[i], kind) != item_key(#[trigger] run[j], kind)
    &&& !forall|i: int| 0 <= i < run.len() - 1 ==> crate::order::lex_lt(
        str_key(item_key(#[trigger] run[i], kind)),
        str_key(item_key(run[i + 1], kind)),
    )
}

proof fn lemma_run_owed(items: Seq<BlockItem>, run: Seq<TopLevelItem>, kind: OrderingKind)
    requires
        block_items_of(items, run, kind),
    ensures
        rewrite_owed(items) == run_owed(run, kind),
{
    assert(distinct_keys(items) == (forall|i: int, j: int| 0 <= i < j < run.len() ==> item_key(
        #[trigger] run[i],
        kind,
    ) != item_key(#[trigger] run[j], kind))) by {
        if distinct_keys(items) {
            assert forall|i: int, j: int| 0 <= i < j < run.len() implies item_key(#[trigger] run[i], kind) != item_key(
                #[trigger] run[j],
                kind,
            ) by {
                assert(block_item_of(items[i], run[i], kind));
                assert(block_item_of(items[j], run[j], kind));
            }
        }
        if forall|i: int, j: int| 0 <= i < j < run.len() ==> item_key(#[trigger] run[i], kind) != item_key(
            #[trigger] run[j],
            kind,
        ) {
            assert forall|i: int, j: int| 0 <= i < j < items.len() implies (#[trigger] items[i]).key@ != (
            #[trigger] items[j]).key@ by {
                assert(block_item_of(items[i], run[i], kind));
                assert(block_item_of(items[j], run[j], kind));
                assert(item_key(run[i], kind) != item_key(run[j], kind));
            }
        }
    }
    assert(keys_strictly_increasing(items) == (forall|i: int| 0 <= i < run.len() - 1 ==> crate::order::lex_lt(
        str_key(item_key(#[trigger] run[i], kind)),
        str_key(item_key(run[i + 1], kind)),
    ))) by {
        if keys_strictly_increasing(items) {
            assert forall|i: int| 0 <= i < run.len() - 1 implies crate::order::lex_lt(
                str_key(item_key(#[trigger] run[i], kind)),
                str_key(item_key(run[i + 1], kind)),
            ) by {
                assert(key_lt_at(items, i));
                assert(block_item_of(items[i], run[i], kind));
                assert(block_item_of(items[i + 1], run[i + 1], kind));
            }
        }
        if forall|i: int| 0 <= i < run.len() - 1 ==> crate::order::lex_lt(
            str_key(item_key(#[trigger] run[i], kind)),
            str_key(item_key(run[i + 1], kind)),
        ) {
            assert forall|i: int| 0 <= i < items.len() - 1 implies #[trigger] key_lt_at(items, i) by {
                assert(block_item_of(items[i], run[i], kind));
                assert(block_item_of(items[i + 1], run[i + 1], kind));
                assert(crate::order::lex_lt(str_key(item_key(run[i], kind)), str_key(item_key(run[i + 1], kind))));
            }
        }
    }
}

/// Every sibling of a selected function block has a name.
proof fn lemma_function_names(facts: Seq<ScopeFact>, scope: Seq<char>, items: Seq<TopLevelItem>)
    requires
        block_facts(facts, scope, items, OrderingKind::Functions) is Some,
    ensures
        forall|k: int| 0 <= k < items.len() ==> (#[trigger] items[k]).name is Some,
    decreases items.len(),
{
    if items.len() > 0 {
        lemma_function_names(facts, scope, items.drop_last());
        assert forall|k: int| 0 <= k < items.len() implies (#[trigger] items[k]).name is Some by {
            if k < items.len() - 1 {
                assert(items.drop_last()[k] == items[k]);
            }
        }
    }
}

/// The block items of a run, in order.
fn block_items(run: &[TopLevelItem], kind: OrderingKind) -> (r: Vec<BlockItem>)
    requires
        kind == OrderingKind::Functions ==> forall|k: int| 0 <= k < run@.len() ==> (#[trigger] run@[k]).name is Some,
    ensures
        block_items_of(r@, run@, kind),
{
    let mut out: Vec<BlockItem> = Vec::new();
    let n = run.len();
    let mut i: usize = 0;
    while i < n
        invariant
            n == run@.len(),
            i <= n,
            out@.len() == i,
            kind == OrderingKind::Functions ==> forall|k: int| 0 <= k < run@.len() ==> (#[trigger] run@[k]).name is Some,
            forall|k: int| 0 <= k < i ==> block_item_of(#[trigger] out@[k], run@[k], kind),
        decreases n - i,
    {
        let item = &run[i];
        let key = match kind {
            OrderingKind::Imports => trimmed(item.text.as_str()),
            OrderingKind::Functions => match &item.name {
                Some(name) => name.text.clone(),
                None => String::new(),
            },
        };
        out.push(
            BlockItem {
                key,
                text: item.text.clone(),
                start_byte: item.key.start_byte,
                end_byte: item.key.end_byte,
                start_row: item.key.start_row,
                end_row: item.key.end_row,
            },
        );
        i = i + 1;
    }
    out
}


/// The entity of a scope fact.
pub open spec fn scope_entity(p: OrderingProjection, key: Seq<char>) -> GraphEntityView {
    GraphEntityView { layer: GraphEvidenceLayer::ScopeGraph, graph: p.scope_graph@, entity: key }
}

/// The resolution graph as a whole.
pub open spec fn resolution_root(p: OrderingProjection) -> GraphEntityView {
    GraphEntityView { layer: GraphEvidenceLayer::Resolution, graph: p.resolution_graph@, entity: p.resolution_graph@ }
}

/// The entity of a resolution result.
pub open spec fn result_entity(p: OrderingProjection, r: ResolutionRecord) -> GraphEntityView {
    GraphEntityView { layer: GraphEvidenceLayer::Resolution, graph: p.resolution_graph@, entity: r.key@ }
}

/// A resolution result reads or prefers one of the facts.
pub open spec fn relevant_result(r: ResolutionRecord, keys: Set<Seq<char>>) -> bool {
    ||| exists|k: int| 0 <= k < r.source_facts@.len() && keys.contains((#[trigger] r.source_facts@[k])@)
    ||| exists|k: int| 0 <= k < r.preferred_endpoints@.len() && keys.contains((#[trigger] r.preferred_endpoints@[k])@)
}

/// The entities a reordering may affect: the file scope, the resolution
/// graph, the block's facts, and the results that read or prefer them.
pub open spec fn cone_entity(p: OrderingProjection, scope: Seq<char>, idx: Seq<int>, e: GraphEntityView) -> bool {
    ||| e == scope_entity(p, scope)
    ||| e == resolution_root(p)
    ||| exists|j: int| 0 <= j < idx.len() && e == scope_entity(p, p.facts@[#[trigger] idx[j]].key@)
    ||| exists|i: int| 0 <= i < p.results@.len() && relevant_result(#[trigger] p.results@[i], fact_keys(p.facts@, idx))
        && e == result_entity(p, p.results@[i])
}

/// The evidence a fact gives: its entity, with its capability, support and
/// authority.
pub open spec fn fact_evidence(p: OrderingProjection, f: ScopeFact, detail: Seq<char>) -> ConditionEvidenceView {
    ConditionEvidenceView {
        entity: scope_entity(p, f.key@),
        detail,
        capability: Some(f.capability@),
        support: Some(f.support),
        authority: text_view(f.authority),
    }
}

/// A proven result whose evidence is one piece per fact, in order.
pub open spec fn facts_result(
    r: ConditionResult,
    condition: Seq<char>,
    p: OrderingProjection,
    idx: Seq<int>,
    detail: Seq<char>,
) -> bool {
    &&& r.condition@ == condition
    &&& r.state == ProofState::Proven
    &&& r.evidence@.len() == idx.len()
    &&& forall|k: int| 0 <= k < idx.len() ==> (#[trigger] r.evidence@[k])@ == fact_evidence(p, p.facts@[idx[k]], detail)
}

pub open spec fn kind_condition(kind: OrderingKind) -> Seq<char> {
    match kind {
        OrderingKind::Imports => SIMPLE_IMPORTS@,
        OrderingKind::Functions => HOISTED_PRIVATE@,
    }
}

pub open spec fn kind_detail(kind: OrderingKind) -> Seq<char> {
    match kind {
        OrderingKind::Imports => "The import is explicit/selective, unconditional, and not side-effectful."@,
        OrderingKind::Functions => "The private function declaration is hoisted with an exact Function definition."@,
    }
}

pub open spec fn kind_eligibility(p: OrderingProjection, kind: OrderingKind) -> GraphEligibilityDecision {
    match kind {
        OrderingKind::Imports => p.import_eligibility,
        OrderingKind::Functions => p.function_eligibility,
    }
}

pub const AUTHORITY_DETAIL: &'static str = "The retained fact has complete adapter-authoritative coverage.";
pub const BLOCK_DETAIL: &'static str = "The exact top-level siblings form one trivia-free contiguous block.";
pub const RESOLUTION_DETAIL: &'static str = "Every retained reference has complete terminal unique resolution.";
pub const MODIFY_RATIONALE: &'static str = "Rebuild source-order anchors while preserving scope membership.";
pub const PRESERVE_RATIONALE: &'static str = "Preserve every terminal binding status and endpoint.";

/// The draft of a block's reordering: bound to the recipe and the
/// projection's identities; targeting the file root through its scope;
/// the four proven obligations (authority and kind evidence one piece per
/// fact, the block evidence for contiguity and distinct keys) and the
/// three disproven forbidden conditions; an impact cone of depth one over
/// the scope and resolution graphs; the scope modified and resolution
/// preserved; one exact replacement of the block's text by its rewrite;
/// the recipe's plans; review required at safe-with-precondition.
pub open spec fn is_ordering_draft(
    d: TransformationCandidateDraft,
    p: OrderingProjection,
    fi: int,
    scope: Seq<char>,
    idx: Seq<int>,
    kind: OrderingKind,
    w: BlockRewrite,
    recipe: TransformationRecipe,
) -> bool {
    let file = p.files@[fi];
    let root = scope_entity(p, scope);
    let res = resolution_root(p);
    let elig = kind_eligibility(p, kind);
    &&& d.recipe.spec_id() == recipe.spec_id()
    &&& (recipe.wf() ==> d.recipe.wf())
    &&& d.source.project_snapshot@ == p.snapshot@
    &&& d.source.analysis@ == p.analysis@
    &&& d.source.program_dependence_projection@ == p.id@
    &&& d.target.entity@ == root
    &&& d.target.node@ == file.key@
    &&& d.target.span == node_span(file.key@)
    &&& d.target.subtree_fingerprint is None
    &&& d.eligibility.consumer@ == elig.consumer@
    &&& d.eligibility.required_layers@ == elig.required_layers@
    &&& d.eligibility.eligible == elig.eligible
    &&& d.required_results@.len() == 4
    &&& facts_result(d.required_results@[0], COMPLETE_AUTHORITY@, p, idx, AUTHORITY_DETAIL@)
    &&& facts_result(d.required_results@[1], kind_condition(kind), p, idx, kind_detail(kind))
    &&& single_result(d.required_results@[2], CONTIGUOUS@, ProofState::Proven, root, BLOCK_DETAIL@)
    &&& single_result(d.required_results@[3], UNIQUE_KEYS@, ProofState::Proven, root, BLOCK_DETAIL@)
    &&& d.forbidden_results@.len() == 3
    &&& single_result(d.forbidden_results@[0], PARTIAL@, ProofState::Disproven, res, RESOLUTION_DETAIL@)
    &&& single_result(d.forbidden_results@[1], ORDER_SENSITIVE@, ProofState::Disproven, root, BLOCK_DETAIL@)
    &&& single_result(d.forbidden_results@[2], TRIVIA_OR_MACRO@, ProofState::Disproven, root, BLOCK_DETAIL@)
    &&& d.impact.query.roots@.len() == 1
    &&& d.impact.query.roots@[0]@ == root
    &&& d.impact.query.direction == ImpactDirection::Bidirectional
    &&& d.impact.query.layers@ == seq![GraphEvidenceLayer::ScopeGraph, GraphEvidenceLayer::Resolution]
    &&& d.impact.query.maximum_depth == 1
    &&& distinct_entities(d.impact.entities@)
    &&& forall|e: GraphEntityView| #[trigger] entity_in(e, d.impact.entities@) <==> cone_entity(p, scope, idx, e)
    &&& !d.impact.truncated
    &&& d.expected_delta.changes@.len() == 2
    &&& d.expected_delta.changes@[0].kind == GraphChangeKind::Modify
    &&& d.expected_delta.changes@[0].entity@ == root
    &&& d.expected_delta.changes@[0].rationale@ == MODIFY_RATIONALE@
    &&& d.expected_delta.changes@[1].kind == GraphChangeKind::Preserve
    &&& d.expected_delta.changes@[1].entity@ == res
    &&& d.expected_delta.changes@[1].rationale@ == PRESERVE_RATIONALE@
    &&& d.edits@.len() == 1
    &&& d.edits@[0].target@ == file.key@
    &&& d.edits@[0].span == w.span
    &&& d.edits@[0].before@ == w.before@
    &&& d.edits@[0].after@ == w.after@
    &&& d.edits@[0].revision_guard@ == revision_guard_id(file.key@.path, w.span, w.before@)
    &&& d.safety == SafetyClass::SafeWithPrecondition
    &&& d.disposition == CandidateDisposition::ReviewRequired
    &&& steps_agree(d.validation_plan.steps@, recipe.spec_draft().validation_plan.steps@)
    &&& d.rollback_plan.strategy == recipe.spec_draft().rollback_plan.strategy
    &&& d.rollback_plan.require_revision_guards == recipe.spec_draft().rollback_plan.require_revision_guards
    &&& keys_agree(d.rollback_plan.validation_steps@, recipe.spec_draft().rollback_plan.validation_steps@)
}

/// The file scope, the run and the facts of a selected block.
pub open spec fn block_scope(p: OrderingProjection, fi: int) -> Seq<char> {
    p.facts@[file_scope_of(p, fi)->Some_0].key@
}

pub open spec fn block_run(p: OrderingProjection, fi: int, a: int, b: int) -> Seq<TopLevelItem> {
    p.files@[fi].children@.subrange(a, b)
}

/// A candidate for a block: well formed, and its draft is, up to the
/// canonical order of its lists, the reordering draft of the block with
/// the block's rewrite.
#[verifier::opaque]
pub open spec fn ordering_candidate_for(
    c: TransformationCandidate,
    p: OrderingProjection,
    fi: int,
    a: int,
    b: int,
    kind: OrderingKind,
    recipe: TransformationRecipe,
) -> bool {
    let scope = block_scope(p, fi);
    let run = block_run(p, fi, a, b);
    let idx = block_selected(p, scope, run, kind)->Some_0;
    &&& c.wf()
    &&& exists|d: TransformationCandidateDraft, items: Seq<BlockItem>, w: BlockRewrite|
        #![trigger is_ordering_draft(d, p, fi, scope, idx, kind, w, recipe), block_items_of(items, run, kind)]
        block_items_of(items, run, kind) && is_block_rewrite(w, encode_utf8(p.files@[fi].text@), items)
            && is_ordering_draft(d, p, fi, scope, idx, kind, w, recipe) && candidate_arrangement(c.spec_draft(), d)
}

fn scope_ref(p: &OrderingProjection, key: &str) -> (r: GraphEntityRef)
    ensures
        r@ == scope_entity(*p, key@),
{
    GraphEntityRef { layer: GraphEvidenceLayer::ScopeGraph, graph: p.scope_graph.clone(), entity: key.to_owned() }
}

fn resolution_ref(p: &OrderingProjection, key: &str) -> (r: GraphEntityRef)
    ensures
        r@ == (GraphEntityView { layer: GraphEvidenceLayer::Resolution, graph: p.resolution_graph@, entity: key@ }),
{
    GraphEntityRef { layer: GraphEvidenceLayer::Resolution, graph: p.resolution_graph.clone(), entity: key.to_owned() }
}

fn any_key_selected(facts: &Vec<ScopeFact>, idx: &Vec<usize>, keys: &Vec<String>) -> (r: bool)
    requires
        forall|k: int| 0 <= k < idx@.len() ==> idx@[k] < facts@.len(),
    ensures
        r == exists|k: int| 0 <= k < keys@.len() && fact_keys(facts@, int_seq(idx@)).contains((#[trigger] keys@[k])@),
{
    let n = keys.len();
    let mut k: usize = 0;
    while k < n
        invariant
            n == keys@.len(),
            k <= n,
            forall|m: int| 0 <= m < idx@.len() ==> idx@[m] < facts@.len(),
            forall|m: int| 0 <= m < k ==> !fact_keys(facts@, int_seq(idx@)).contains((#[trigger] keys@[m])@),
        decreases n - k,
    {
        if key_selected(facts, idx, keys[k].as_str()) {
            return true;
        }
        k = k + 1;
    }
    false
}

/// The entities of a block's impact cone, each once.
fn cone_entities(p: &OrderingProjection, scope: &str, idx: &Vec<usize>) -> (r: Vec<GraphEntityRef>)
    requires
        forall|k: int| 0 <= k < idx@.len() ==> idx@[k] < p.facts@.len(),
    ensures
        distinct_entities(r@),
        forall|e: GraphEntityView| #[trigger] entity_in(e, r@) <==> cone_entity(*p, scope@, int_seq(idx@), e),
{
    let ghost ix = int_seq(idx@);
    let mut v: Vec<GraphEntityRef> = Vec::new();
    push_unique_entity(&mut v, scope_ref(p, scope));
    push_unique_entity(&mut v, resolution_ref(p, p.resolution_graph.as_str()));
    let n = idx.len();
    let mut i: usize = 0;
    while i < n
        invariant
            n == idx@.len(),
            i <= n,
            ix == int_seq(idx@),
            forall|k: int| 0 <= k < idx@.len() ==> idx@[k] < p.facts@.len(),
            distinct_entities(v@),
            forall|e: GraphEntityView| #[trigger] entity_in(e, v@) <==> (e == scope_entity(*p, scope@) || e
                == resolution_root(*p) || exists|j: int| 0 <= j < i && e == scope_entity(*p, p.facts@[#[trigger] ix[j]].key@)),
        decreases n - i,
    {
        let ghost before = v@;
        push_unique_entity(&mut v, scope_ref(p, p.facts[idx[i]].key.as_str()));
        proof {
            assert forall|e: GraphEntityView| #[trigger] entity_in(e, v@) <==> (e == scope_entity(*p, scope@) || e
                == resolution_root(*p) || exists|j: int| 0 <= j < i + 1 && e == scope_entity(*p, p.facts@[#[trigger] ix[j]].key@)) by {
                if exists|j: int| 0 <= j < i + 1 && e == scope_entity(*p, p.facts@[#[trigger] ix[j]].key@) {
                    let j = choose|j: int| 0 <= j < i + 1 && e == scope_entity(*p, p.facts@[#[trigger] ix[j]].key@);
                    if j < i {
                        assert(entity_in(e, before));
                    }
                }
                if e == scope_entity(*p, p.facts@[ix[i as int]].key@) {
                    assert(exists|j: int| 0 <= j < i + 1 && e == scope_entity(*p, p.facts@[#[trigger] ix[j]].key@));
                }
            }
        }
        i = i + 1;
    }
    let m = p.results.len();
    let mut k: usize = 0;
    while k < m
        invariant
            m == p.results@.len(),
            k <= m,
            ix == int_seq(idx@),
            n == idx@.len(),
            forall|q: int| 0 <= q < idx@.len() ==> idx@[q] < p.facts@.len(),
            distinct_entities(v@),
            forall|e: GraphEntityView| #[trigger] entity_in(e, v@) <==> (e == scope_entity(*p, scope@) || e
                == resolution_root(*p) || (exists|j: int| 0 <= j < n && e == scope_entity(*p, p.facts@[#[trigger] ix[j]].key@))
                || exists|q: int| 0 <= q < k && relevant_result(#[trigger] p.results@[q], fact_keys(p.facts@, ix)) && e
                == result_entity(*p, p.results@[q])),
        decreases m - k,
    {
        let r = &p.results[k];
        let ghost before = v@;
        let hit = any_key_selected(&p.facts, idx, &r.source_facts) || any_key_selected(&p.facts, idx, &r.preferred_endpoints);
        proof {
            assert(hit == relevant_result(p.results@[k as int], fact_keys(p.facts@, ix)));
        }
        if hit {
            push_unique_entity(&mut v, resolution_ref(p, r.key.as_str()));
        }
        proof {
            assert forall|e: GraphEntityView| #[trigger] entity_in(e, v@) <==> (e == scope_entity(*p, scope@) || e
                == resolution_root(*p) || (exists|j: int| 0 <= j < n && e == scope_entity(*p, p.facts@[#[trigger] ix[j]].key@))
                || exists|q: int| 0 <= q < k + 1 && relevant_result(#[trigger] p.results@[q], fact_keys(p.facts@, ix)) && e
                == result_entity(*p, p.results@[q])) by {
                if exists|q: int| 0 <= q < k + 1 && relevant_result(#[trigger] p.results@[q], fact_keys(p.facts@, ix)) && e
                    == result_entity(*p, p.results@[q]) {
                    let q = choose|q: int| 0 <= q < k + 1 && relevant_result(#[trigger] p.results@[q], fact_keys(p.facts@, ix)) && e
                        == result_entity(*p, p.results@[q]);
                    if q < k {
                        assert(entity_in(e, before));
                    }
                }
                if hit && e == result_entity(*p, p.results@[k as int]) {
                    assert(relevant_result(p.results@[k as int], fact_keys(p.facts@, ix)));
                }
            }
        }
        k = k + 1;
    }
    v
}

/// One piece of evidence per fact, in order.
fn fact_evidences(p: &OrderingProjection, idx: &Vec<usize>, detail: &str) -> (r: Vec<ConditionEvidence>)
    requires
        forall|k: int| 0 <= k < idx@.len() ==> idx@[k] < p.facts@.len(),
    ensures
        r@.len() == idx@.len(),
        forall|k: int| 0 <= k < idx@.len() ==> (#[trigger] r@[k])@ == fact_evidence(
            *p,
            p.facts@[int_seq(idx@)[k]],
            detail@,
        ),
{
    let mut out: Vec<ConditionEvidence> = Vec::new();
    let n = idx.len();
    let mut i: usize = 0;
    while i < n
        invariant
            n == idx@.len(),
            i <= n,
            out@.len() == i,
            forall|k: int| 0 <= k < idx@.len() ==> idx@[k] < p.facts@.len(),
            forall|k: int| 0 <= k < i ==> (#[trigger] out@[k])@ == fact_evidence(*p, p.facts@[int_seq(idx@)[k]], detail@),
        decreases n - i,
    {
        let f = &p.facts[idx[i]];
        let authority = match &f.authority {
            Some(a) => Some(a.clone()),
            None => None,
        };
        out.push(
            ConditionEvidence {
                entity: scope_ref(p, f.key.as_str()),
                detail: detail.to_owned(),
                capability: Some(f.capability.clone()),
                support: Some(f.support),
                authority,
            },
        );
        i = i + 1;
    }
    out
}

/// A result with one plain piece of evidence.
fn plain_result(condition: &str, state: ProofState, entity: GraphEntityRef, detail: &str) -> (r: ConditionResult)
    ensures
        single_result(r, condition@, state, entity@, detail@),
{
    ConditionResult {
        condition: condition.to_owned(),
        state,
        evidence: vec![
            ConditionEvidence { entity, detail: detail.to_owned(), capability: None, support: None, authority: None },
        ],
    }
}

fn copy_eligibility(e: &GraphEligibilityDecision) -> (r: GraphEligibilityDecision)
    ensures
        r.consumer@ == e.consumer@,
        r.required_layers@ == e.required_layers@,
        r.eligible == e.eligible,
{
    GraphEligibilityDecision {
        consumer: e.consumer.clone(),
        required_layers: copy_layers(e.required_layers.as_slice()),
        eligible: e.eligible,
    }
}

/// When the candidate of a block whose reordering is owed can be built:
/// the block's bytes and gaps lie in its file's text, its rows and the
/// file's rows fit, and every draft of the block is valid.
pub open spec fn block_buildable(p: OrderingProjection, fi: int, a: int, b: int, kind: OrderingKind, recipe: TransformationRecipe) -> bool {
    let scope = block_scope(p, fi);
    let run = block_run(p, fi, a, b);
    let idx = block_selected(p, scope, run, kind)->Some_0;
    let bytes = encode_utf8(p.files@[fi].text@);
    forall|items: Seq<BlockItem>|
        #[trigger] block_items_of(items, run, kind) && rewrite_owed(items) ==> {
            let n = items.len() as int;
            &&& slice_ok(bytes, items[0].start_byte as int, items[n - 1].end_byte as int)
            &&& gaps_ok(bytes, items)
            &&& items[0].start_row != usize::MAX
            &&& items[n - 1].end_row != usize::MAX
            &&& rows_fit(p.files@[fi].key@)
            &&& forall|d: TransformationCandidateDraft, w: BlockRewrite|
                #[trigger] is_ordering_draft(d, p, fi, scope, idx, kind, w, recipe) && is_block_rewrite(w, bytes, items)
                    ==> candidate_fields_valid(d)
        }
}

/// The reordering candidate of a selected block: nothing when its
/// reordering is not owed; an inconsistent projection when the block's
/// text or a gap is no range of its file or a row is out of range.
fn block_candidate(
    p: &OrderingProjection,
    fi: usize,
    a: usize,
    b: usize,
    kind: OrderingKind,
    si: usize,
    idx: &Vec<usize>,
    recipe: &TransformationRecipe,
) -> (r: Result<Option<TransformationCandidate>, OrderingRecipeError>)
    requires
        fi < p.files@.len(),
        a <= b <= p.files@[fi as int].children@.len(),
        file_scope_of(*p, fi as int) == Some(si as int),
        si < p.facts@.len(),
        block_selected(*p, block_scope(*p, fi as int), block_run(*p, fi as int, a as int, b as int), kind) == Some(
            int_seq(idx@),
        ),
        forall|k: int| 0 <= k < idx@.len() ==> idx@[k] < p.facts@.len(),
    ensures
        !run_owed(block_run(*p, fi as int, a as int, b as int), kind) ==> r matches Ok(None),
        r matches Ok(None) ==> !run_owed(block_run(*p, fi as int, a as int, b as int), kind),
        r matches Ok(Some(c)) ==> ordering_candidate_for(c, *p, fi as int, a as int, b as int, kind, *recipe),
        block_buildable(*p, fi as int, a as int, b as int, kind, *recipe) ==> r is Ok,
{
    let file = &p.files[fi];
    let run = vstd::slice::slice_subrange(file.children.as_slice(), a, b);
    let ghost scope = block_scope(*p, fi as int);
    proof {
        if kind == OrderingKind::Functions {
            lemma_function_names(p.facts@, scope, run@);
        }
    }
    let items = block_items(run, kind);
    let ghost item_views = items@;
    proof {
        lemma_run_owed(items@, run@, kind);
    }
    let w = match block_rewrite(file.text.as_str(), items)? {
        Some(w) => w,
        None => {
            return Ok(None);
        },
    };
    let key = &file.key;
    if key.start_row >= usize::MAX || key.end_row >= usize::MAX {
        return Err(OrderingRecipeError::Projection("ordering rows are out of range".to_owned()));
    }
    let scope_key = p.facts[si].key.as_str();
    let root = scope_ref(p, scope_key);
    let res = resolution_ref(p, p.resolution_graph.as_str());
    let kind_condition_key = match kind {
        OrderingKind::Imports => SIMPLE_IMPORTS,
        OrderingKind::Functions => HOISTED_PRIVATE,
    };
    let kind_detail_text = match kind {
        OrderingKind::Imports => "The import is explicit/selective, unconditional, and not side-effectful.",
        OrderingKind::Functions => "The private function declaration is hoisted with an exact Function definition.",
    };
    let required_results = vec![
        ConditionResult {
            condition: COMPLETE_AUTHORITY.to_owned(),
            state: ProofState::Proven,
            evidence: fact_evidences(p, idx, AUTHORITY_DETAIL),
        },
        ConditionResult {
            condition: kind_condition_key.to_owned(),
            state: ProofState::Proven,
            evidence: fact_evidences(p, idx, kind_detail_text),
        },
        plain_result(CONTIGUOUS, ProofState::Proven, root.duplicate(), BLOCK_DETAIL),
        plain_result(UNIQUE_KEYS, ProofState::Proven, root.duplicate(), BLOCK_DETAIL),
    ];
    let forbidden_results = vec![
        plain_result(PARTIAL, ProofState::Disproven, res.duplicate(), RESOLUTION_DETAIL),
        plain_result(ORDER_SENSITIVE, ProofState::Disproven, root.duplicate(), BLOCK_DETAIL),
        plain_result(TRIVIA_OR_MACRO, ProofState::Disproven, root.duplicate(), BLOCK_DETAIL),
    ];
    let eligibility = match kind {
        OrderingKind::Imports => copy_eligibility(&p.import_eligibility),
        OrderingKind::Functions => copy_eligibility(&p.function_eligibility),
    };
    let edit = TransformationEdit::exact_node_replacement(key.duplicate(), w.span, w.before.clone(), w.after.clone());
    let span = Span {
        start_line: key.start_row + 1,
        end_line: key.end_row + 1,
        start_byte: key.start_byte,
        end_byte: key.end_byte,
    };
    let draft = TransformationCandidateDraft {
        recipe: recipe.duplicate(),
        source: CandidateSource {
            project_snapshot: p.snapshot.clone(),
            analysis: p.analysis.clone(),
            program_dependence_projection: p.id.clone(),
        },
        target: CandidateTarget { entity: root.duplicate(), node: key.duplicate(), span, subtree_fingerprint: None },
        eligibility,
        required_results,
        forbidden_results,
        impact: ImpactCone {
            query: ImpactConeQuery {
                roots: vec![root.duplicate()],
                direction: ImpactDirection::Bidirectional,
                layers: vec![GraphEvidenceLayer::ScopeGraph, GraphEvidenceLayer::Resolution],
                maximum_depth: 1,
            },
            entities: cone_entities(p, scope_key, idx),
            truncated: false,
        },
        expected_delta: ExpectedGraphDelta {
            changes: vec![
                ExpectedGraphChange {
                    kind: GraphChangeKind::Modify,
                    entity: root.duplicate(),
                    rationale: MODIFY_RATIONALE.to_owned(),
                },
                ExpectedGraphChange { kind: GraphChangeKind::Preserve, entity: res, rationale: PRESERVE_RATIONALE.to_owned() },
            ],
        },
        edits: vec![edit],
        safety: SafetyClass::SafeWithPrecondition,
        disposition: CandidateDisposition::ReviewRequired,
        validation_plan: crate::recipe::duplicate_validation_plan(recipe.validation_plan()),
        rollback_plan: crate::recipe::duplicate_rollback_plan(recipe.rollback_plan()),
    };
    let ghost original = draft;
    proof {
        assert(is_ordering_draft(original, *p, fi as int, scope, int_seq(idx@), kind, w, *recipe));
    }
    match TransformationCandidate::new(draft) {
        Ok(c) => {
            proof {
                reveal(ordering_candidate_for);
                assert(block_items_of(item_views, run@, kind));
            }
            Ok(Some(c))
        },
        Err(e) => Err(OrderingRecipeError::Contract(e)),
    }
}

/// The blocks whose reordering is owed, each once.
pub open spec fn lists_owed_blocks(p: OrderingProjection, blocks: Seq<Block>) -> bool {
    &&& forall|k: int| 0 <= k < blocks.len() ==> owed_block(p, #[trigger] blocks[k])
    &&& forall|i: int, j: int| 0 <= i < j < blocks.len() ==> blocks[i] != blocks[j]
    &&& forall|x: Block| #[trigger] owed_block(p, x) ==> exists|k: int| 0 <= k < blocks.len() && blocks[k] == x
}

/// A selected block whose reordering is owed.
#[verifier::opaque]
pub open spec fn owed_block(p: OrderingProjection, x: Block) -> bool {
    selected_block(p, x.0 as int, x.1 as int, x.2 as int, x.3) && run_owed(block_run(p, x.0 as int, x.1 as int, x.2 as int), x.3)
}

/// The recipe of a kind.
pub open spec fn recipe_for(kind: OrderingKind, imports: TransformationRecipe, functions: TransformationRecipe) -> TransformationRecipe {
    match kind {
        OrderingKind::Imports => imports,
        OrderingKind::Functions => functions,
    }
}

/// The candidates for a sequence of blocks, one for one, each under the
/// recipe of its kind.
pub open spec fn candidates_for_blocks(
    cs: Seq<TransformationCandidate>,
    p: OrderingProjection,
    blocks: Seq<Block>,
    imports: TransformationRecipe,
    functions: TransformationRecipe,
) -> bool {
    &&& cs.len() == blocks.len()
    &&& forall|k: int| 0 <= k < cs.len() ==> #[trigger] ordering_candidate_for(
        cs[k],
        p,
        blocks[k].0 as int,
        blocks[k].1 as int,
        blocks[k].2 as int,
        blocks[k].3,
        recipe_for(blocks[k].3, imports, functions),
    )
}

/// The candidate of one selected block.
fn block_step(
    p: &OrderingProjection,
    x: Block,
    imports: &TransformationRecipe,
    functions: &TransformationRecipe,
) -> (r: Result<Option<TransformationCandidate>, OrderingRecipeError>)
    requires
        selected_block(*p, x.0 as int, x.1 as int, x.2 as int, x.3),
        x.2 <= p.files@[x.0 as int].children@.len(),
    ensures
        r matches Ok(None) ==> !owed_block(*p, x),
        r matches Ok(Some(c)) ==> owed_block(*p, x) && ordering_candidate_for(
            c,
            *p,
            x.0 as int,
            x.1 as int,
            x.2 as int,
            x.3,
            recipe_for(x.3, *imports, *functions),
        ),        block_buildable(*p, x.0 as int, x.1 as int, x.2 as int, x.3, recipe_for(x.3, *imports, *functions)) ==> r is Ok,
{
    let (fi, a, b, kind) = x;
    let si = match file_scope(p, fi) {
        Some(si) => si,
        None => {
            proof {
                assert(false);
            }
            return Err(OrderingRecipeError::Projection("ordering block lost its file scope".to_owned()));
        },
    };
    let file = &p.files[fi];
    let run = vstd::slice::slice_subrange(file.children.as_slice(), a, b);
    let idx = match select_block(p, p.facts[si].key.as_str(), run, kind) {
        Some(idx) => idx,
        None => {
            proof {
                assert(false);
            }
            return Err(OrderingRecipeError::Projection("ordering block lost its facts".to_owned()));
        },
    };
    let recipe = match kind {
        OrderingKind::Imports => imports,
        OrderingKind::Functions => functions,
    };
    let r = block_candidate(p, fi, a, b, kind, si, &idx, recipe);
    proof {
        reveal(owed_block);
    }
    r
}

/// When the candidates of a projection are owed: under the two ordering
/// recipes, the candidate of every selected block can be built.
#[verifier::opaque]
pub open spec fn ordering_all_owed(p: OrderingProjection) -> bool {
    forall|imports: TransformationRecipe, functions: TransformationRecipe, fi: int, a: int, b: int, kind: OrderingKind|
            recipe_header(
                Ok(imports),
                "rust-sort-simple-import-block"@,
                "1.0.0"@,
                crate::contract::TransformationFamily::DependencyModule,
                SafetyClass::SafeWithPrecondition,
                seq![GraphEvidenceLayer::ScopeGraph, GraphEvidenceLayer::Resolution],
            ) && recipe_header(
                Ok(functions),
                "rust-sort-hoisted-private-function-block"@,
                "1.0.0"@,
                crate::contract::TransformationFamily::DependencyModule,
                SafetyClass::SafeWithPrecondition,
                seq![GraphEvidenceLayer::ScopeGraph, GraphEvidenceLayer::Resolution],
            ) && selected_block(p, fi, a, b, kind) ==> #[trigger] block_buildable(p, fi, a, b, kind, recipe_for(kind, imports, functions))
}

/// Finds every out-of-order block of simple imports or hoisted private
/// functions that the scope and resolution evidence lets the recipes
/// reorder, and proposes its review-gated reordering: one candidate per
/// block, ordered by candidate identity.
#[verifier::rlimit(60)]
pub fn detect_ordering_candidates(p: &OrderingProjection) -> (r: Result<Vec<TransformationCandidate>, OrderingRecipeError>)
    ensures
        ordering_all_owed(*p) ==> r is Ok,
        r matches Ok(cs) ==> keys_sorted(cs@) && exists|
            imports: TransformationRecipe,
            functions: TransformationRecipe,
            owed: Seq<Block>,
            unsorted: Seq<TransformationCandidate>,
        |
            #![trigger candidates_for_blocks(unsorted, *p, owed, imports, functions)]
            recipe_header(
                Ok(imports),
                "rust-sort-simple-import-block"@,
                "1.0.0"@,
                crate::contract::TransformationFamily::DependencyModule,
                SafetyClass::SafeWithPrecondition,
                seq![GraphEvidenceLayer::ScopeGraph, GraphEvidenceLayer::Resolution],
            ) && recipe_header(
                Ok(functions),
                "rust-sort-hoisted-private-function-block"@,
                "1.0.0"@,
                crate::contract::TransformationFamily::DependencyModule,
                SafetyClass::SafeWithPrecondition,
                seq![GraphEvidenceLayer::ScopeGraph, GraphEvidenceLayer::Resolution],
            ) && lists_owed_blocks(*p, owed) && candidates_for_blocks(unsorted, *p, owed, imports, functions)
                && cs@.to_multiset() == unsorted.to_multiset(),
{
    let imports = match simple_import_order_recipe() {
        Ok(r) => r,
        Err(e) => {
            return Err(OrderingRecipeError::Contract(e));
        },
    };
    let functions = match hoisted_private_function_order_recipe() {
        Ok(r) => r,
        Err(e) => {
            return Err(OrderingRecipeError::Contract(e));
        },
    };
    let blocks = selected_blocks(p);
    let mut candidates: Vec<TransformationCandidate> = Vec::new();
    let ghost mut owed: Seq<Block> = Seq::empty();
    let n = blocks.len();
    let mut j: usize = 0;
    while j < n
        invariant
            n == blocks@.len(),
            j <= n,
            lists_selected_blocks(*p, blocks@),
            forall|k: int| 0 <= k < blocks@.len() ==> (#[trigger] blocks@[k]).2 <= p.files@[blocks@[k].0 as int].children@.len(),
            forall|k: int| 0 <= k < owed.len() ==> owed_block(*p, #[trigger] owed[k]),
            forall|k: int| 0 <= k < owed.len() ==> exists|m: int| 0 <= m < j && #[trigger] blocks@[m] == #[trigger] owed[k],
            forall|i: int, l: int| 0 <= i < l < owed.len() ==> owed[i] != owed[l],
            forall|m: int| 0 <= m < j && owed_block(*p, #[trigger] blocks@[m]) ==> exists|k: int|
                0 <= k < owed.len() && #[trigger] owed[k] == blocks@[m],
            candidates_for_blocks(candidates@, *p, owed, imports, functions),
            recipe_header(
                Ok(imports),
                "rust-sort-simple-import-block"@,
                "1.0.0"@,
                crate::contract::TransformationFamily::DependencyModule,
                SafetyClass::SafeWithPrecondition,
                seq![GraphEvidenceLayer::ScopeGraph, GraphEvidenceLayer::Resolution],
            ),
            recipe_header(
                Ok(functions),
                "rust-sort-hoisted-private-function-block"@,
                "1.0.0"@,
                crate::contract::TransformationFamily::DependencyModule,
                SafetyClass::SafeWithPrecondition,
                seq![GraphEvidenceLayer::ScopeGraph, GraphEvidenceLayer::Resolution],
            ),
        decreases n - j,
    {
        let x = blocks[j];
        proof {
            assert(selected_block(*p, x.0 as int, x.1 as int, x.2 as int, x.3));
        }
        let ghost before_owed = owed;
        let ghost before_cs = candidates@;
        proof {
            if ordering_all_owed(*p) {
                assert(block_buildable(*p, x.0 as int, x.1 as int, x.2 as int, x.3, recipe_for(x.3, imports, functions))) by {
                    reveal(ordering_all_owed);
                }
            }
        }
        match block_step(p, x, &imports, &functions)? {
            Some(c) => {
                candidates.push(c);
                proof {
                    owed = owed.push(blocks@[j as int]);
                    assert(owed_block(*p, blocks@[j as int]));
                    assert forall|k: int| 0 <= k < owed.len() implies exists|m: int| 0 <= m < j + 1 && #[trigger] blocks@[m]
                        == #[trigger] owed[k] by {
                        if k < before_owed.len() {
                            let m = choose|m: int| 0 <= m < j && #[trigger] blocks@[m] == #[trigger] before_owed[k];
                            assert(blocks@[m] == owed[k]);
                        } else {
                            assert(blocks@[j as int] == owed[k]);
                        }
                    }
                    assert forall|i: int, l: int| 0 <= i < l < owed.len() implies owed[i] != owed[l] by {
                        if l == before_owed.len() {
                            let m = choose|m: int| 0 <= m < j && #[trigger] blocks@[m] == #[trigger] before_owed[i];
                            assert(blocks@[m] != blocks@[j as int]);
                        }
                    }
                    assert forall|m: int| 0 <= m < j + 1 && owed_block(*p, #[trigger] blocks@[m]) implies exists|k: int|
                        0 <= k < owed.len() && #[trigger] owed[k] == blocks@[m] by {
                        if m < j {
                            let k = choose|k: int| 0 <= k < before_owed.len() && #[trigger] before_owed[k] == blocks@[m];
                            assert(owed[k] == before_owed[k]);
                        } else {
                            assert(owed[before_owed.len() as int] == blocks@[m]);
                        }
                    }
                    assert forall|k: int| 0 <= k < candidates@.len() implies #[trigger] ordering_candidate_for(
                        candidates@[k],
                        *p,
                        owed[k].0 as int,
                        owed[k].1 as int,
                        owed[k].2 as int,
                        owed[k].3,
                        recipe_for(owed[k].3, imports, functions),
                    ) by {
                        if k < before_cs.len() {
                            assert(candidates@[k] == before_cs[k]);
                            assert(owed[k] == before_owed[k]);
                        }
                    }
                }
            },
            None => {
                proof {
                    assert(!owed_block(*p, blocks@[j as int]));
                }
            },
        }
        j = j + 1;
    }
    let ghost unsorted = candidates@;
    let sorted = sort_by_key(candidates);
    proof {
        assert forall|x: Block| #[trigger] owed_block(*p, x) implies exists|k: int| 0 <= k < owed.len() && owed[k] == x by {
            reveal(owed_block);
            let m = choose|m: int| 0 <= m < blocks@.len() && (#[trigger] blocks@[m]) == (
                x.0 as int as usize,
                x.1 as int as usize,
                x.2 as int as usize,
                x.3,
            );
            assert(blocks@[m] == x);
            assert(owed_block(*p, blocks@[m]));
        }
        assert(lists_owed_blocks(*p, owed));
        assert(candidates_for_blocks(unsorted, *p, owed, imports, functions));
    }
    Ok(sorted)
}
} // verus!
