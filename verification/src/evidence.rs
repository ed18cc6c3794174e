//! Graph evidence that a candidate carries: entity references, condition
//! results, impact cones and expected graph deltas, with their canonical
//! orders and checks.

use vstd::prelude::*;
use crate::contract::{invalid, invalid_labeled, validate_text, ProofState, RecipeCondition, RecipeContractError};
use crate::json::{
    json_array, json_bool, json_items, json_opt_str, json_str, push_decimal, push_json_bool,
    push_json_list, push_json_opt_str, push_json_str, string_append, JsonValue, decimal,
};
use crate::model::{layer_name, GraphEvidenceLayer};
use crate::order::{
    compare_str, keys_strictly_increasing, lemma_lex_concat, lemma_lex_single,
    lemma_single_prefix_free, lemma_str_key_prefix_free, lemma_lex_asymmetric, lex_lt, str_key,
    strictly_increasing, Keyed,
};
use crate::text::is_canonical_text;

verus! {

/// A reference to one entity of one retained graph.
#[derive(Clone, Debug)]
pub struct GraphEntityRef {
    pub layer: GraphEvidenceLayer,
    pub graph: String,
    pub entity: String,
}

pub struct GraphEntityView {
    pub layer: GraphEvidenceLayer,
    pub graph: Seq<char>,
    pub entity: Seq<char>,
}

impl View for GraphEntityRef {
    type V = GraphEntityView;

    open spec fn view(&self) -> GraphEntityView {
        GraphEntityView { layer: self.layer, graph: self.graph@, entity: self.entity@ }
    }
}

pub open spec fn entity_key(v: GraphEntityView) -> Seq<int> {
    seq![v.layer.spec_rank() as int] + str_key(v.graph) + str_key(v.entity)
}

/// Keys of two parts compare as the pair of parts: the first part decides
/// unless equal.
pub proof fn lemma_pair_key(a1: Seq<int>, b1: Seq<int>, a2: Seq<int>, b2: Seq<int>)
    requires
        a1 == a2 || !crate::order::prefix_related(a1, a2),
    ensures
        a1 == a2 ==> lex_lt(a1 + b1, a2 + b2) == lex_lt(b1, b2),
        a1 != a2 ==> lex_lt(a1 + b1, a2 + b2) == lex_lt(a1, a2),
{
    lemma_lex_concat(a1, b1, a2, b2);
}

/// Compares two entity references by layer, graph and entity.
pub fn compare_entity(a: &GraphEntityRef, b: &GraphEntityRef) -> (r: i8)
    ensures
        r < 0 <==> lex_lt(entity_key(a@), entity_key(b@)),
        r == 0 <==> a@ == b@,
        r > 0 <==> lex_lt(entity_key(b@), entity_key(a@)),
{
    let ra = a.layer.rank();
    let rb = b.layer.rank();
    let ghost la = seq![ra as int];
    let ghost lb = seq![rb as int];
    let ghost ta = str_key(a.graph@) + str_key(a.entity@);
    let ghost tb = str_key(b.graph@) + str_key(b.entity@);
    proof {
        lemma_single_prefix_free(ra as int, rb as int);
        assert(entity_key(a@) =~= la + ta);
        assert(entity_key(b@) =~= lb + tb);
        lemma_pair_key(la, ta, lb, tb);
        lemma_pair_key(lb, tb, la, ta);
        lemma_lex_single(ra as int, rb as int);
        lemma_lex_single(rb as int, ra as int);
        lemma_str_key_prefix_free(a.graph@, b.graph@);
        lemma_str_key_prefix_free(b.graph@, a.graph@);
        lemma_pair_key(str_key(a.graph@), str_key(a.entity@), str_key(b.graph@), str_key(b.entity@));
        lemma_pair_key(str_key(b.graph@), str_key(b.entity@), str_key(a.graph@), str_key(a.entity@));
        crate::order::lemma_str_key_injective(a.graph@, b.graph@);
        crate::order::lemma_str_key_injective(a.entity@, b.entity@);
        crate::order::lemma_lex_irreflexive(entity_key(a@));
    }
    if ra < rb {
        return -1;
    }
    if ra > rb {
        return 1;
    }
    let g = compare_str(a.graph.as_str(), b.graph.as_str());
    if g != 0 {
        return g;
    }
    compare_str(a.entity.as_str(), b.entity.as_str())
}

impl Keyed for GraphEntityRef {
    open spec fn key(v: GraphEntityView) -> Seq<int> {
        entity_key(v)
    }

    fn precedes(&self, other: &Self) -> (r: bool) {
        compare_entity(self, other) < 0
    }
}

impl JsonValue for GraphEntityRef {
    open spec fn json(v: GraphEntityView) -> Seq<char> {
        "{\"layer\":"@ + json_str(layer_name(v.layer)) + ",\"graph\":"@ + json_str(v.graph)
            + ",\"entity\":"@ + json_str(v.entity) + "}"@
    }

    fn write_json(&self, out: &mut String) {
        string_append(out, "{\"layer\":");
        self.layer.write_json(out);
        string_append(out, ",\"graph\":");
        push_json_str(out, self.graph.as_str());
        string_append(out, ",\"entity\":");
        push_json_str(out, self.entity.as_str());
        string_append(out, "}");
        assert(final(out)@ =~= old(out)@ + Self::json(self@));
    }
}

impl GraphEntityRef {
    pub fn duplicate(&self) -> (r: Self)
        ensures
            r == *self,
    {
        GraphEntityRef { layer: self.layer, graph: self.graph.clone(), entity: self.entity.clone() }
    }
}

/// An entity reference names its graph and entity in canonical text.
pub open spec fn entity_valid(e: GraphEntityView) -> bool {
    is_canonical_text(e.graph) && is_canonical_text(e.entity)
}

pub fn validate_entity(entity: &GraphEntityRef) -> (r: Result<(), RecipeContractError>)
    ensures
        r is Ok <==> entity_valid(entity@),
        r matches Err(e) ==> e is Invalid,
{
    validate_text("graph entity graph", entity.graph.as_str())?;
    validate_text("graph entity identity", entity.entity.as_str())
}

/// Whether an adapter provides a capability.
#[derive(Clone, Copy, Debug, PartialEq, Eq, Structural, Hash)]
pub enum CapabilitySupport {
    Provided,
    Unknown,
    Unsupported,
}

pub open spec fn support_name(s: CapabilitySupport) -> Seq<char> {
    match s {
        CapabilitySupport::Provided => "provided"@,
        CapabilitySupport::Unknown => "unknown"@,
        CapabilitySupport::Unsupported => "unsupported"@,
    }
}

pub open spec fn proof_state_name(s: ProofState) -> Seq<char> {
    match s {
        ProofState::Proven => "proven"@,
        ProofState::Disproven => "disproven"@,
        ProofState::Unknown => "unknown"@,
    }
}

/// One piece of evidence for a condition.
#[derive(Clone, Debug)]
pub struct ConditionEvidence {
    pub entity: GraphEntityRef,
    pub detail: String,
    pub capability: Option<String>,
    pub support: Option<CapabilitySupport>,
    pub authority: Option<String>,
}

pub struct ConditionEvidenceView {
    pub entity: GraphEntityView,
    pub detail: Seq<char>,
    pub capability: Option<Seq<char>>,
    pub support: Option<CapabilitySupport>,
    pub authority: Option<Seq<char>>,
}

impl View for ConditionEvidence {
    type V = ConditionEvidenceView;

    open spec fn view(&self) -> ConditionEvidenceView {
        ConditionEvidenceView {
            entity: self.entity@,
            detail: self.detail@,
            capability: crate::contract::opt_view(self.capability),
            support: self.support,
            authority: crate::contract::opt_view(self.authority),
        }
    }
}

impl Keyed for ConditionEvidence {
    open spec fn key(v: ConditionEvidenceView) -> Seq<int> {
        entity_key(v.entity) + str_key(v.detail)
    }

    fn precedes(&self, other: &Self) -> (r: bool) {
        let c = compare_entity(&self.entity, &other.entity);
        proof {
            if c == 0 {
                assert(entity_key(self.entity@) == entity_key(other.entity@));
            } else {
                lemma_entity_key_prefix_free(self.entity@, other.entity@);
            }
            lemma_pair_key(
                entity_key(self.entity@),
                str_key(self.detail@),
                entity_key(other.entity@),
                str_key(other.detail@),
            );
        }
        if c != 0 {
            return c < 0;
        }
        compare_str(self.detail.as_str(), other.detail.as_str()) < 0
    }
}

/// Keys of distinct entity references are not prefixes of each other.
pub proof fn lemma_entity_key_prefix_free(a: GraphEntityView, b: GraphEntityView)
    ensures
        entity_key(a) != entity_key(b) ==> !crate::order::prefix_related(entity_key(a), entity_key(b)),
{
    let la = seq![a.layer.spec_rank() as int];
    let lb = seq![b.layer.spec_rank() as int];
    let ga = str_key(a.graph);
    let gb = str_key(b.graph);
    let ea = str_key(a.entity);
    let eb = str_key(b.entity);
    assert(entity_key(a) =~= la + (ga + ea));
    assert(entity_key(b) =~= lb + (gb + eb));
    if entity_key(a) != entity_key(b) && crate::order::prefix_related(entity_key(a), entity_key(b)) {
        lemma_single_prefix_free(a.layer.spec_rank() as int, b.layer.spec_rank() as int);
        lemma_prefix_related_concat(la, ga + ea, lb, gb + eb);
        if la == lb {
            lemma_str_key_prefix_free(a.graph, b.graph);
            lemma_prefix_related_concat(ga, ea, gb, eb);
            if ga == gb {
                lemma_str_key_prefix_free(a.entity, b.entity);
            }
        }
    }
}

/// Prefix relation of concatenations whose heads are not proper prefixes of
/// each other.
pub proof fn lemma_prefix_related_concat(a: Seq<int>, x: Seq<int>, b: Seq<int>, y: Seq<int>)
    requires
        a == b || !crate::order::prefix_related(a, b),
        crate::order::prefix_related(a + x, b + y),
    ensures
        a == b,
        crate::order::prefix_related(x, y),
{
    let s = a + x;
    let t = b + y;
    if a != b {
        // the shorter head is a prefix of the longer one
        if a.len() <= b.len() {
            if s.len() <= t.len() {
                assert forall|k: int| 0 <= k < a.len() implies b.subrange(0, a.len() as int)[k] == a[k] by {
                    assert(t.subrange(0, s.len() as int)[k] == s[k]);
                }
                assert(b.subrange(0, a.len() as int) =~= a);
            } else {
                assert forall|k: int| 0 <= k < a.len() implies b.subrange(0, a.len() as int)[k] == a[k] by {
                    assert(s.subrange(0, t.len() as int)[k] == t[k]);
                }
                assert(b.subrange(0, a.len() as int) =~= a);
            }
        } else {
            if s.len() <= t.len() {
                assert forall|k: int| 0 <= k < b.len() implies a.subrange(0, b.len() as int)[k] == b[k] by {
                    assert(t.subrange(0, s.len() as int)[k] == s[k]);
                }
                assert(a.subrange(0, b.len() as int) =~= b);
            } else {
                assert forall|k: int| 0 <= k < b.len() implies a.subrange(0, b.len() as int)[k] == b[k] by {
                    assert(s.subrange(0, t.len() as int)[k] == t[k]);
                }
                assert(a.subrange(0, b.len() as int) =~= b);
            }
        }
        assert(false);
    }
    if x.len() <= y.len() {
        assert forall|k: int| 0 <= k < x.len() implies y.subrange(0, x.len() as int)[k] == x[k] by {
            assert(t.subrange(0, s.len() as int)[a.len() + k] == s[a.len() + k]);
        }
        assert(y.subrange(0, x.len() as int) =~= x);
    } else {
        assert forall|k: int| 0 <= k < y.len() implies x.subrange(0, y.len() as int)[k] == y[k] by {
            assert(s.subrange(0, t.len() as int)[a.len() + k] == t[a.len() + k]);
        }
        assert(x.subrange(0, y.len() as int) =~= y);
    }
}

pub open spec fn json_opt_support(s: Option<CapabilitySupport>) -> Seq<char> {
    match s {
        Some(v) => json_str(support_name(v)),
        None => crate::json::json_null(),
    }
}

impl JsonValue for ConditionEvidence {
    open spec fn json(v: ConditionEvidenceView) -> Seq<char> {
        "{\"entity\":"@ + GraphEntityRef::json(v.entity) + ",\"detail\":"@ + json_str(v.detail)
            + ",\"capability\":"@ + json_opt_str(v.capability) + ",\"support\":"@
            + json_opt_support(v.support) + ",\"authority\":"@ + json_opt_str(v.authority) + "}"@
    }

    fn write_json(&self, out: &mut String) {
        string_append(out, "{\"entity\":");
        self.entity.write_json(out);
        string_append(out, ",\"detail\":");
        push_json_str(out, self.detail.as_str());
        string_append(out, ",\"capability\":");
        push_json_opt_str(out, &self.capability);
        string_append(out, ",\"support\":");
        push_opt_support_json(out, self.support);
        string_append(out, ",\"authority\":");
        push_json_opt_str(out, &self.authority);
        string_append(out, "}");
        assert(final(out)@ =~= old(out)@ + Self::json(self@));
    }
}

fn push_opt_support_json(out: &mut String, s: Option<CapabilitySupport>)
    ensures
        final(out)@ == old(out)@ + json_opt_support(s),
{
    match s {
        Some(CapabilitySupport::Provided) => push_json_str(out, "provided"),
        Some(CapabilitySupport::Unknown) => push_json_str(out, "unknown"),
        Some(CapabilitySupport::Unsupported) => push_json_str(out, "unsupported"),
        None => {
            string_append(out, "null");
            proof {
                reveal_strlit("null");
            }
            assert(final(out)@ =~= old(out)@ + json_opt_support(s));
        },
    }
}

pub fn duplicate_opt_string(o: &Option<String>) -> (r: Option<String>)
    ensures
        r == *o,
{
    match o {
        Some(s) => Some(s.clone()),
        None => None,
    }
}

impl ConditionEvidence {
    pub fn duplicate(&self) -> (r: Self)
        ensures
            r == *self,
    {
        ConditionEvidence {
            entity: self.entity.duplicate(),
            detail: self.detail.clone(),
            capability: duplicate_opt_string(&self.capability),
            support: self.support,
            authority: duplicate_opt_string(&self.authority),
        }
    }
}

/// The capability, support and authority of evidence agree: all absent; or
/// a provided capability with its authority; or a capability of unknown or
/// no support without authority.
pub open spec fn capability_consistent(e: ConditionEvidenceView) -> bool {
    match (e.capability, e.support, e.authority) {
        (None, None, None) => true,
        (Some(_), Some(CapabilitySupport::Provided), Some(_)) => true,
        (Some(_), Some(CapabilitySupport::Unknown), None) => true,
        (Some(_), Some(CapabilitySupport::Unsupported), None) => true,
        _ => false,
    }
}

/// The result of checking one recipe condition on a candidate.
#[derive(Clone, Debug)]
pub struct ConditionResult {
    pub condition: String,
    pub state: ProofState,
    pub evidence: Vec<ConditionEvidence>,
}

impl View for ConditionResult {
    type V = Seq<char>;

    /// A result is ordered and matched by the condition it answers.
    open spec fn view(&self) -> Seq<char> {
        self.condition@
    }
}

impl Keyed for ConditionResult {
    open spec fn key(v: Seq<char>) -> Seq<int> {
        str_key(v)
    }

    fn precedes(&self, other: &Self) -> (r: bool) {
        compare_str(self.condition.as_str(), other.condition.as_str()) < 0
    }
}

pub open spec fn proof_state_json(s: ProofState) -> Seq<char> {
    json_str(proof_state_name(s))
}

pub open spec fn result_json(r: ConditionResult) -> Seq<char> {
    "{\"condition\":"@ + json_str(r.condition@) + ",\"state\":"@ + proof_state_json(r.state)
        + ",\"evidence\":"@ + json_array(json_items(r.evidence@)) + "}"@
}

pub fn push_result_json(out: &mut String, r: &ConditionResult)
    ensures
        final(out)@ == old(out)@ + result_json(*r),
{
    string_append(out, "{\"condition\":");
    push_json_str(out, r.condition.as_str());
    string_append(out, ",\"state\":");
    match r.state {
        ProofState::Proven => push_json_str(out, "proven"),
        ProofState::Disproven => push_json_str(out, "disproven"),
        ProofState::Unknown => push_json_str(out, "unknown"),
    }
    string_append(out, ",\"evidence\":");
    push_json_list(out, &r.evidence);
    string_append(out, "}");
    assert(final(out)@ =~= old(out)@ + result_json(*r));
}

/// JSON array of results.
pub open spec fn results_json(rs: Seq<ConditionResult>) -> Seq<char> {
    json_array(rs.map_values(|r: ConditionResult| result_json(r)))
}

pub fn push_results_json(out: &mut String, rs: &Vec<ConditionResult>)
    ensures
        final(out)@ == old(out)@ + results_json(rs@),
{
    let ghost start = out@;
    crate::json::string_push(out, '[');
    let n = rs.len();
    let mut i: usize = 0;
    while i < n
        invariant
            n == rs@.len(),
            i <= n,
            out@ == start + seq!['['] + crate::json::json_join(
                rs@.subrange(0, i as int).map_values(|r: ConditionResult| result_json(r)),
            ),
        decreases n - i,
    {
        if i > 0 {
            crate::json::string_push(out, ',');
        }
        push_result_json(out, &rs[i]);
        proof {
            let t = rs@.subrange(0, i as int + 1).map_values(|r: ConditionResult| result_json(r));
            assert(t.drop_last() =~= rs@.subrange(0, i as int).map_values(
                |r: ConditionResult| result_json(r),
            ));
            assert(t.last() == result_json(rs@[i as int]));
            if i == 0 {
                assert(rs@.subrange(0, 0).map_values(|r: ConditionResult| result_json(r)) =~= Seq::empty());
            }
            assert(out@ =~= start + seq!['['] + crate::json::json_join(t));
        }
        i = i + 1;
    }
    crate::json::string_push(out, ']');
    assert(rs@.subrange(0, n as int) =~= rs@);
    assert(out@ =~= start + results_json(rs@));
}

/// One piece of evidence is valid for a condition on `layer`.
pub open spec fn evidence_valid(e: ConditionEvidenceView, layer: GraphEvidenceLayer) -> bool {
    &&& entity_valid(e.entity)
    &&& is_canonical_text(e.detail)
    &&& e.entity.layer == layer
    &&& capability_consistent(e)
}

/// A result answers its condition: its evidence is in strictly increasing
/// order, is present unless the state is unknown, and each piece is valid on
/// the condition's layer.
pub open spec fn result_valid(r: ConditionResult, c: RecipeCondition) -> bool {
    &&& keys_strictly_increasing(r.evidence@)
    &&& (r.state != ProofState::Unknown ==> r.evidence@.len() > 0)
    &&& forall|k: int| 0 <= k < r.evidence@.len() ==> evidence_valid((#[trigger] r.evidence@[k])@, c.layer)
}

/// Results close exactly over the conditions, one per condition in the same
/// order, and each result is valid for its condition.
pub open spec fn results_valid(results: Seq<ConditionResult>, conditions: Seq<RecipeCondition>) -> bool {
    &&& results.len() == conditions.len()
    &&& forall|i: int| 0 <= i < results.len() ==> (#[trigger] results[i]).condition@ == conditions[i].key@
    &&& forall|i: int| 0 <= i < results.len() ==> result_valid(#[trigger] results[i], conditions[i])
}

fn validate_evidence(label: &str, e: &ConditionEvidence, layer: GraphEvidenceLayer) -> (r: Result<(), RecipeContractError>)
    ensures
        r is Ok <==> evidence_valid(e@, layer),
        r matches Err(x) ==> x is Invalid,
{
    validate_entity(&e.entity)?;
    validate_text("condition evidence detail", e.detail.as_str())?;
    if e.entity.layer != layer {
        return Err(invalid_labeled(label, " evidence names the wrong graph layer"));
    }
    let consistent = match (&e.capability, e.support, &e.authority) {
        (None, None, None) => true,
        (Some(_), Some(CapabilitySupport::Provided), Some(_)) => true,
        (Some(_), Some(CapabilitySupport::Unknown), None) => true,
        (Some(_), Some(CapabilitySupport::Unsupported), None) => true,
        _ => false,
    };
    if !consistent {
        return Err(invalid("condition evidence capability/support/authority disagree"));
    }
    Ok(())
}

pub fn validate_results(
    label: &str,
    results: &Vec<ConditionResult>,
    conditions: &[RecipeCondition],
) -> (r: Result<(), RecipeContractError>)
    ensures
        r is Ok <==> results_valid(results@, conditions@),
        r matches Err(e) ==> e is Invalid,
{
    let n = results.len();
    if n != conditions.len() {
        return Err(invalid_labeled(label, " do not close over the recipe conditions"));
    }
    let mut i: usize = 0;
    while i < n
        invariant
            n == results@.len(),
            n == conditions@.len(),
            i <= n,
            forall|k: int| 0 <= k < i ==> (#[trigger] results@[k]).condition@ == conditions@[k].key@,
        decreases n - i,
    {
        if compare_str(results[i].condition.as_str(), conditions[i].key.as_str()) != 0 {
            return Err(invalid_labeled(label, " do not close over the recipe conditions"));
        }
        i = i + 1;
    }
    let mut i: usize = 0;
    while i < n
        invariant
            n == results@.len(),
            n == conditions@.len(),
            i <= n,
            forall|k: int| 0 <= k < i ==> result_valid(#[trigger] results@[k], conditions@[k]),
        decreases n - i,
    {
        let result = &results[i];
        let condition = &conditions[i];
        if !strictly_increasing(&result.evidence) {
            return Err(invalid_labeled(label, " evidence is not canonical and distinct"));
        }
        if result.state != ProofState::Unknown && result.evidence.len() == 0 {
            return Err(invalid_labeled(label, " Proven/Disproven state requires exact evidence"));
        }
        let m = result.evidence.len();
        let mut j: usize = 0;
        while j < m
            invariant
                m == result.evidence@.len(),
                j <= m,
                i < n,
                n == results@.len(),
                n == conditions@.len(),
                *result == results@[i as int],
                *condition == conditions@[i as int],
                forall|k: int| 0 <= k < j ==> evidence_valid((#[trigger] result.evidence@[k])@, condition.layer),
            decreases m - j,
        {
            match validate_evidence(label, &result.evidence[j], condition.layer) {
                Ok(()) => {},
                Err(e) => {
                    assert(!result_valid(results@[i as int], conditions@[i as int]));
                    return Err(e);
                },
            }
            j = j + 1;
        }
        i = i + 1;
    }
    Ok(())
}

/// Which edges an impact query follows.
#[derive(Clone, Copy, Debug, PartialEq, Eq, Structural, Hash)]
pub enum ImpactDirection {
    Incoming,
    Outgoing,
    Bidirectional,
}

pub open spec fn direction_name(d: ImpactDirection) -> Seq<char> {
    match d {
        ImpactDirection::Incoming => "incoming"@,
        ImpactDirection::Outgoing => "outgoing"@,
        ImpactDirection::Bidirectional => "bidirectional"@,
    }
}

/// A bounded query for the entities a change may affect.
#[derive(Clone, Debug)]
pub struct ImpactConeQuery {
    pub roots: Vec<GraphEntityRef>,
    pub direction: ImpactDirection,
    pub layers: Vec<GraphEvidenceLayer>,
    pub maximum_depth: u32,
}

/// The entities an impact query reached, and whether the depth bound cut it.
#[derive(Clone, Debug)]
pub struct ImpactCone {
    pub query: ImpactConeQuery,
    pub entities: Vec<GraphEntityRef>,
    pub truncated: bool,
}

pub open spec fn impact_json(c: ImpactCone) -> Seq<char> {
    "{\"query\":"@ + query_json(c.query) + ",\"entities\":"@ + json_array(json_items(c.entities@))
        + ",\"truncated\":"@ + json_bool(c.truncated) + "}"@
}

pub open spec fn query_json(q: ImpactConeQuery) -> Seq<char> {
    "{\"roots\":"@ + json_array(json_items(q.roots@)) + ",\"direction\":"@ + json_str(
        direction_name(q.direction),
    ) + ",\"layers\":"@ + json_array(json_items(q.layers@)) + ",\"maximum_depth\":"@ + decimal(
        q.maximum_depth as nat,
    ) + "}"@
}

fn push_query_json(out: &mut String, q: &ImpactConeQuery)
    ensures
        final(out)@ == old(out)@ + query_json(*q),
{
    string_append(out, "{\"roots\":");
    push_json_list(out, &q.roots);
    string_append(out, ",\"direction\":");
    match q.direction {
        ImpactDirection::Incoming => push_json_str(out, "incoming"),
        ImpactDirection::Outgoing => push_json_str(out, "outgoing"),
        ImpactDirection::Bidirectional => push_json_str(out, "bidirectional"),
    }
    string_append(out, ",\"layers\":");
    push_json_list(out, &q.layers);
    string_append(out, ",\"maximum_depth\":");
    push_decimal(out, q.maximum_depth as u64);
    string_append(out, "}");
    assert(final(out)@ =~= old(out)@ + query_json(*q));
}

pub fn push_impact_json(out: &mut String, c: &ImpactCone)
    ensures
        final(out)@ == old(out)@ + impact_json(*c),
{
    string_append(out, "{\"query\":");
    push_query_json(out, &c.query);
    string_append(out, ",\"entities\":");
    push_json_list(out, &c.entities);
    string_append(out, ",\"truncated\":");
    push_json_bool(out, c.truncated);
    string_append(out, "}");
    assert(final(out)@ =~= old(out)@ + impact_json(*c));
}

/// `e` is the view of some element of `s`.
pub open spec fn entity_in(e: GraphEntityView, s: Seq<GraphEntityRef>) -> bool {
    exists|j: int| 0 <= j < s.len() && (#[trigger] s[j])@ == e
}

pub fn contains_entity(s: &Vec<GraphEntityRef>, e: &GraphEntityRef) -> (r: bool)
    ensures
        r == entity_in(e@, s@),
{
    let n = s.len();
    let mut i: usize = 0;
    while i < n
        invariant
            n == s@.len(),
            i <= n,
            forall|j: int| 0 <= j < i ==> (#[trigger] s@[j])@ != e@,
        decreases n - i,
    {
        if compare_entity(&s[i], e) == 0 {
            return true;
        }
        i = i + 1;
    }
    false
}

pub fn contains_layer(s: &Vec<GraphEvidenceLayer>, l: GraphEvidenceLayer) -> (r: bool)
    ensures
        r == s@.contains(l),
{
    let n = s.len();
    let mut i: usize = 0;
    while i < n
        invariant
            n == s@.len(),
            i <= n,
            forall|j: int| 0 <= j < i ==> s@[j] != l,
        decreases n - i,
    {
        if s[i] == l {
            return true;
        }
        i = i + 1;
    }
    false
}

/// An impact cone is canonical, bounded and nonempty; holds its roots; and
/// holds entities of the queried layers only.
pub open spec fn impact_valid(c: ImpactCone) -> bool {
    &&& c.query.maximum_depth != 0
    &&& c.query.roots@.len() > 0
    &&& keys_strictly_increasing(c.query.roots@)
    &&& c.query.layers@.len() > 0
    &&& keys_strictly_increasing(c.query.layers@)
    &&& c.entities@.len() > 0
    &&& keys_strictly_increasing(c.entities@)
    &&& forall|i: int| 0 <= i < c.query.roots@.len() ==> entity_valid((#[trigger] c.query.roots@[i])@)
    &&& forall|i: int| 0 <= i < c.entities@.len() ==> entity_valid((#[trigger] c.entities@[i])@)
    &&& forall|i: int| 0 <= i < c.query.roots@.len() ==> entity_in((#[trigger] c.query.roots@[i])@, c.entities@)
    &&& forall|i: int| 0 <= i < c.entities@.len() ==> c.query.layers@.contains((#[trigger] c.entities@[i]).layer)
}

fn validate_entities(s: &Vec<GraphEntityRef>) -> (r: Result<(), RecipeContractError>)
    ensures
        r is Ok <==> forall|i: int| 0 <= i < s@.len() ==> entity_valid((#[trigger] s@[i])@),
        r matches Err(e) ==> e is Invalid,
{
    let n = s.len();
    let mut i: usize = 0;
    while i < n
        invariant
            n == s@.len(),
            i <= n,
            forall|k: int| 0 <= k < i ==> entity_valid((#[trigger] s@[k])@),
        decreases n - i,
    {
        validate_entity(&s[i])?;
        i = i + 1;
    }
    Ok(())
}

pub fn validate_impact(c: &ImpactCone) -> (r: Result<(), RecipeContractError>)
    ensures
        r is Ok <==> impact_valid(*c),
        r matches Err(e) ==> e is Invalid,
{
    if c.query.maximum_depth == 0 || c.query.roots.len() == 0 || !strictly_increasing(&c.query.roots)
        || c.query.layers.len() == 0 || !strictly_increasing(&c.query.layers) || c.entities.len()
        == 0 || !strictly_increasing(&c.entities) {
        return Err(invalid("impact cone query/result must be canonical, bounded, and nonempty"));
    }
    validate_entities(&c.query.roots)?;
    validate_entities(&c.entities)?;
    let n = c.query.roots.len();
    let mut i: usize = 0;
    while i < n
        invariant
            n == c.query.roots@.len(),
            i <= n,
            forall|k: int| 0 <= k < i ==> entity_in((#[trigger] c.query.roots@[k])@, c.entities@),
        decreases n - i,
    {
        if !contains_entity(&c.entities, &c.query.roots[i]) {
            return Err(invalid("impact cone omits a root or contains an unrequested layer"));
        }
        i = i + 1;
    }
    let m = c.entities.len();
    let mut j: usize = 0;
    while j < m
        invariant
            m == c.entities@.len(),
            j <= m,
            forall|k: int| 0 <= k < j ==> c.query.layers@.contains((#[trigger] c.entities@[k]).layer),
        decreases m - j,
    {
        if !contains_layer(&c.query.layers, c.entities[j].layer) {
            return Err(invalid("impact cone omits a root or contains an unrequested layer"));
        }
        j = j + 1;
    }
    Ok(())
}

/// The kind of graph change a candidate expects.
#[derive(Clone, Copy, Debug, PartialEq, Eq, Structural, Hash)]
pub enum GraphChangeKind {
    Add,
    Remove,
    Modify,
    Preserve,
}

pub open spec fn change_kind_rank(k: GraphChangeKind) -> nat {
    match k {
        GraphChangeKind::Add => 0,
        GraphChangeKind::Remove => 1,
        GraphChangeKind::Modify => 2,
        GraphChangeKind::Preserve => 3,
    }
}

pub open spec fn change_kind_name(k: GraphChangeKind) -> Seq<char> {
    match k {
        GraphChangeKind::Add => "add"@,
        GraphChangeKind::Remove => "remove"@,
        GraphChangeKind::Modify => "modify"@,
        GraphChangeKind::Preserve => "preserve"@,
    }
}

fn change_rank(k: GraphChangeKind) -> (r: u8)
    ensures
        r as nat == change_kind_rank(k),
{
    match k {
        GraphChangeKind::Add => 0,
        GraphChangeKind::Remove => 1,
        GraphChangeKind::Modify => 2,
        GraphChangeKind::Preserve => 3,
    }
}

/// One graph change a candidate expects, with its rationale.
#[derive(Clone, Debug)]
pub struct ExpectedGraphChange {
    pub kind: GraphChangeKind,
    pub entity: GraphEntityRef,
    pub rationale: String,
}

pub struct ExpectedGraphChangeView {
    pub kind: GraphChangeKind,
    pub entity: GraphEntityView,
    pub rationale: Seq<char>,
}

impl View for ExpectedGraphChange {
    type V = ExpectedGraphChangeView;

    open spec fn view(&self) -> ExpectedGraphChangeView {
        ExpectedGraphChangeView { kind: self.kind, entity: self.entity@, rationale: self.rationale@ }
    }
}

impl Keyed for ExpectedGraphChange {
    open spec fn key(v: ExpectedGraphChangeView) -> Seq<int> {
        seq![change_kind_rank(v.kind) as int] + (entity_key(v.entity) + str_key(v.rationale))
    }

    fn precedes(&self, other: &Self) -> (r: bool) {
        let ka = change_rank(self.kind);
        let kb = change_rank(other.kind);
        let c = compare_entity(&self.entity, &other.entity);
        proof {
            lemma_single_prefix_free(ka as int, kb as int);
            lemma_lex_single(ka as int, kb as int);
            lemma_pair_key(
                seq![ka as int],
                entity_key(self.entity@) + str_key(self.rationale@),
                seq![kb as int],
                entity_key(other.entity@) + str_key(other.rationale@),
            );
            if c == 0 {
                assert(entity_key(self.entity@) == entity_key(other.entity@));
            } else {
                lemma_entity_key_prefix_free(self.entity@, other.entity@);
            }
            lemma_pair_key(
                entity_key(self.entity@),
                str_key(self.rationale@),
                entity_key(other.entity@),
                str_key(other.rationale@),
            );
        }
        if ka != kb {
            return ka < kb;
        }
        if c != 0 {
            return c < 0;
        }
        compare_str(self.rationale.as_str(), other.rationale.as_str()) < 0
    }
}

impl JsonValue for ExpectedGraphChange {
    open spec fn json(v: ExpectedGraphChangeView) -> Seq<char> {
        "{\"kind\":"@ + json_str(change_kind_name(v.kind)) + ",\"entity\":"@ + GraphEntityRef::json(
            v.entity,
        ) + ",\"rationale\":"@ + json_str(v.rationale) + "}"@
    }

    #[verifier::rlimit(30)]
    fn write_json(&self, out: &mut String) {
        let ghost start = out@;
        string_append(out, "{\"kind\":");
        let ghost head = out@;
        match self.kind {
            GraphChangeKind::Add => push_json_str(out, "add"),
            GraphChangeKind::Remove => push_json_str(out, "remove"),
            GraphChangeKind::Modify => push_json_str(out, "modify"),
            GraphChangeKind::Preserve => push_json_str(out, "preserve"),
        }
        assert(out@ == head + json_str(change_kind_name(self.kind)));
        let ghost kind_part = out@;
        string_append(out, ",\"entity\":");
        self.entity.write_json(out);
        string_append(out, ",\"rationale\":");
        push_json_str(out, self.rationale.as_str());
        string_append(out, "}");
        assert(out@ == kind_part + ",\"entity\":"@ + GraphEntityRef::json(self.entity@) + ",\"rationale\":"@ + json_str(
            self.rationale@,
        ) + "}"@);
        assert(final(out)@ =~= old(out)@ + Self::json(self@));
    }
}

/// The graph changes a candidate expects.
#[derive(Clone, Debug)]
pub struct ExpectedGraphDelta {
    pub changes: Vec<ExpectedGraphChange>,
}

pub open spec fn delta_json(d: ExpectedGraphDelta) -> Seq<char> {
    "{\"changes\":"@ + json_array(json_items(d.changes@)) + "}"@
}

pub fn push_delta_json(out: &mut String, d: &ExpectedGraphDelta)
    ensures
        final(out)@ == old(out)@ + delta_json(*d),
{
    string_append(out, "{\"changes\":");
    push_json_list(out, &d.changes);
    string_append(out, "}");
    assert(final(out)@ =~= old(out)@ + delta_json(*d));
}

/// Expected changes are nonempty and in strictly increasing order, name
/// valid entities with canonical rationales, and no two neighbours change
/// the same entity in the same way.
pub open spec fn delta_valid(d: ExpectedGraphDelta) -> bool {
    &&& d.changes@.len() > 0
    &&& keys_strictly_increasing(d.changes@)
    &&& forall|i: int| 0 <= i < d.changes@.len() ==> entity_valid((#[trigger] d.changes@[i]).entity@)
        && is_canonical_text(d.changes@[i].rationale@)
    &&& forall|i: int| 0 <= i < d.changes@.len() - 1 ==> !#[trigger] same_change_neighbours(d.changes@, i)
}

/// The changes at `i` and `i + 1` have the same kind and entity.
pub open spec fn same_change_neighbours(s: Seq<ExpectedGraphChange>, i: int) -> bool {
    s[i].kind == s[i + 1].kind && s[i].entity@ == s[i + 1].entity@
}

pub fn validate_delta(d: &ExpectedGraphDelta) -> (r: Result<(), RecipeContractError>)
    ensures
        r is Ok <==> delta_valid(*d),
        r matches Err(e) ==> e is Invalid,
{
    if d.changes.len() == 0 || !strictly_increasing(&d.changes) {
        return Err(invalid("expected graph changes must be canonical, nonempty, and distinct"));
    }
    let n = d.changes.len();
    let mut i: usize = 0;
    while i < n
        invariant
            n == d.changes@.len(),
            i <= n,
            forall|k: int| 0 <= k < i ==> entity_valid((#[trigger] d.changes@[k]).entity@)
                && is_canonical_text(d.changes@[k].rationale@),
        decreases n - i,
    {
        let change = &d.changes[i];
        validate_entity(&change.entity)?;
        validate_text("expected graph-change rationale", change.rationale.as_str())?;
        i = i + 1;
    }
    let mut i: usize = 0;
    while i < n - 1
        invariant
            n == d.changes@.len(),
            n > 0,
            forall|k: int| 0 <= k < i && k < n - 1 ==> !#[trigger] same_change_neighbours(d.changes@, k),
        decreases n - i,
    {
        if d.changes[i].kind == d.changes[i + 1].kind && compare_entity(
            &d.changes[i].entity,
            &d.changes[i + 1].entity,
        ) == 0 {
            assert(same_change_neighbours(d.changes@, i as int));
            return Err(invalid("expected graph changes duplicate a kind/entity with different rationale"));
        }
        i = i + 1;
    }
    Ok(())
}


/// No two entities are the same.
pub open spec fn distinct_entities(s: Seq<GraphEntityRef>) -> bool {
    forall|i: int, j: int| 0 <= i < j < s.len() ==> (#[trigger] s[i])@ != (#[trigger] s[j])@
}

/// Adds an entity unless it is already there.
pub fn push_unique_entity(v: &mut Vec<GraphEntityRef>, e: GraphEntityRef)
    requires
        distinct_entities(old(v)@),
    ensures
        distinct_entities(final(v)@),
        forall|x: GraphEntityView| #[trigger] entity_in(x, final(v)@) <==> entity_in(x, old(v)@) || x == e@,
{
    if contains_entity(v, &e) {
        return;
    }
    let ghost before = v@;
    let ghost ev = e@;
    v.push(e);
    proof {
        assert forall|x: GraphEntityView| #[trigger] entity_in(x, v@) <==> entity_in(x, before) || x == ev by {
            if entity_in(x, before) {
                let j = choose|j: int| 0 <= j < before.len() && (#[trigger] before[j])@ == x;
                assert(v@[j] == before[j]);
            }
            if x == ev {
                assert(v@[before.len() as int]@ == x);
            }
            if entity_in(x, v@) {
                let j = choose|j: int| 0 <= j < v@.len() && (#[trigger] v@[j])@ == x;
                if j < before.len() {
                    assert(v@[j] == before[j]);
                }
            }
        }
        assert forall|i: int, j: int| 0 <= i < j < v@.len() implies (#[trigger] v@[i])@ != (#[trigger] v@[j])@ by {
            if j == before.len() {
                assert(v@[i] == before[i]);
            } else {
                assert(v@[i] == before[i]);
                assert(v@[j] == before[j]);
            }
        }
    }
}

} // verus!
