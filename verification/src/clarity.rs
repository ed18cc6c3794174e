//! Clarity families of guarded candidates: which kinds of unclear code a
//! candidate removes, recorded only for candidates grounded in data-flow and
//! program-dependence evidence.

use vstd::prelude::*;
use crate::candidate::TransformationCandidate;
use crate::evidence::contains_layer;
use crate::json::string_append;
use crate::model::GraphEvidenceLayer;
use crate::order::{compare_str, lemma_map_values_multiset, keys_sorted, sort_by_key, str_key, Keyed};
use crate::text::{contains_substring, contains_text};

verus! {

pub const GRAPH_GROUNDED_CLARITY_CANDIDATE_SCHEMA: &'static str = "deslop.graph-grounded-clarity-candidate/1";

/// A family of unclear code that a candidate removes.
#[derive(Clone, Copy, Debug, PartialEq, Eq, Structural, Hash, PartialOrd, Ord)]
pub enum ClarityCandidateKind {
    Forwarding,
    ConversionAllocation,
    Wrapper,
    RepeatedError,
    DeadCode,
}

/// The clarity families of one guarded candidate, and the graph layers that
/// ground it.
#[derive(Clone, Debug)]
pub struct GraphGroundedClarityCandidate {
    schema: String,
    candidate: String,
    kinds: Vec<ClarityCandidateKind>,
    graph_layers: Vec<GraphEvidenceLayer>,
}

pub struct ClarityView {
    pub schema: Seq<char>,
    pub candidate: Seq<char>,
    pub kinds: Seq<ClarityCandidateKind>,
    pub graph_layers: Seq<GraphEvidenceLayer>,
}

impl View for GraphGroundedClarityCandidate {
    type V = ClarityView;

    closed spec fn view(&self) -> ClarityView {
        ClarityView {
            schema: self.schema@,
            candidate: self.candidate@,
            kinds: self.kinds@,
            graph_layers: self.graph_layers@,
        }
    }
}

impl Keyed for GraphGroundedClarityCandidate {
    /// Records are ordered by candidate identity.
    open spec fn key(v: ClarityView) -> Seq<int> {
        str_key(v.candidate)
    }

    fn precedes(&self, other: &Self) -> (r: bool) {
        compare_str(self.candidate.as_str(), other.candidate.as_str()) < 0
    }
}

impl GraphGroundedClarityCandidate {
    pub fn schema(&self) -> (r: &str)
        ensures
            r@ == self@.schema,
    {
        self.schema.as_str()
    }

    pub fn candidate(&self) -> (r: &str)
        ensures
            r@ == self@.candidate,
    {
        self.candidate.as_str()
    }

    pub fn kinds(&self) -> (r: &[ClarityCandidateKind])
        ensures
            r@ == self@.kinds,
    {
        self.kinds.as_slice()
    }

    pub fn graph_layers(&self) -> (r: &[GraphEvidenceLayer])
        ensures
            r@ == self@.graph_layers,
    {
        self.graph_layers.as_slice()
    }
}

/// Text that reads as error handling: a constructed `Err`, an error
/// return, a panic or an unreachable marker.
pub open spec fn is_error_text(text: Seq<char>) -> bool {
    contains_text(text, "Err("@) || contains_text(text, "return Err"@) || contains_text(text, "panic!"@)
        || contains_text(text, "unreachable!"@)
}

pub fn is_error_fragment(text: &str) -> (r: bool)
    ensures
        r == is_error_text(text@),
{
    contains_substring(text, "Err(") || contains_substring(text, "return Err") || contains_substring(
        text,
        "panic!",
    ) || contains_substring(text, "unreachable!")
}

/// Recipes that only remove dead code.
pub open spec fn is_dead_code_recipe(name: Seq<char>) -> bool {
    name == "rust-remove-unreachable-literal-statement"@ || name == "rust-remove-literal-dead-arm"@ || name
        == "rust-remove-unused-pure-literal-expression"@ || name == "rust-remove-independent-unused-literal-local"@
}

/// The clarity families of a candidate of the named recipe whose edits
/// replace the given texts, in kind order.
pub open spec fn clarity_kinds_of(name: Seq<char>, befores: Seq<Seq<char>>) -> Seq<ClarityCandidateKind> {
    if name == "rust-inline-exact-single-use-helper"@ {
        seq![ClarityCandidateKind::Forwarding, ClarityCandidateKind::Wrapper]
    } else if name == "rust-inline-single-use-conversion-allocation"@ {
        seq![ClarityCandidateKind::ConversionAllocation]
    } else if is_dead_code_recipe(name) {
        seq![ClarityCandidateKind::DeadCode]
    } else if name == "rust-factor-equivalent-branch-fragments"@ && exists|i: int|
        0 <= i < befores.len() && is_error_text(#[trigger] befores[i]) {
        seq![ClarityCandidateKind::RepeatedError]
    } else {
        Seq::empty()
    }
}

fn any_error_fragment(befores: &Vec<String>) -> (r: bool)
    ensures
        r == exists|i: int| 0 <= i < befores@.len() && is_error_text(#[trigger] befores@[i]@),
{
    let n = befores.len();
    let mut i: usize = 0;
    while i < n
        invariant
            n == befores@.len(),
            i <= n,
            forall|k: int| 0 <= k < i ==> !is_error_text(#[trigger] befores@[k]@),
        decreases n - i,
    {
        if is_error_fragment(befores[i].as_str()) {
            return true;
        }
        i = i + 1;
    }
    false
}

/// The texts of a sequence of strings.
pub open spec fn texts(v: Seq<String>) -> Seq<Seq<char>> {
    v.map_values(|s: String| s@)
}

/// The clarity families of a candidate of the recipe named `name` whose
/// edits replace `befores`.
pub fn clarity_kinds(name: &str, befores: &Vec<String>) -> (r: Vec<ClarityCandidateKind>)
    ensures
        r@ == clarity_kinds_of(name@, texts(befores@)),
{
    let error = any_error_fragment(befores);
    proof {
        if error {
            let i = choose|i: int| 0 <= i < befores@.len() && is_error_text(#[trigger] befores@[i]@);
            assert(texts(befores@)[i] == befores@[i]@);
        }
        if exists|i: int| 0 <= i < texts(befores@).len() && is_error_text(#[trigger] texts(befores@)[i]) {
            let i = choose|i: int| 0 <= i < texts(befores@).len() && is_error_text(#[trigger] texts(befores@)[i]);
            assert(is_error_text(befores@[i]@));
        }
    }
    if compare_str(name, "rust-inline-exact-single-use-helper") == 0 {
        vec![ClarityCandidateKind::Forwarding, ClarityCandidateKind::Wrapper]
    } else if compare_str(name, "rust-inline-single-use-conversion-allocation") == 0 {
        vec![ClarityCandidateKind::ConversionAllocation]
    } else if compare_str(name, "rust-remove-unreachable-literal-statement") == 0 || compare_str(
        name,
        "rust-remove-literal-dead-arm",
    ) == 0 || compare_str(name, "rust-remove-unused-pure-literal-expression") == 0 || compare_str(
        name,
        "rust-remove-independent-unused-literal-local",
    ) == 0 {
        vec![ClarityCandidateKind::DeadCode]
    } else if compare_str(name, "rust-factor-equivalent-branch-fragments") == 0 && error {
        vec![ClarityCandidateKind::RepeatedError]
    } else {
        Vec::new()
    }
}

/// The texts that a candidate's edits replace.
pub open spec fn candidate_befores(c: TransformationCandidate) -> Seq<Seq<char>> {
    c.spec_draft().edits@.map_values(|e: crate::target::TransformationEdit| e.before@)
}

/// The clarity families of a candidate.
pub open spec fn candidate_kinds(c: TransformationCandidate) -> Seq<ClarityCandidateKind> {
    clarity_kinds_of(c.spec_draft().recipe.spec_draft().name@, candidate_befores(c))
}

/// A candidate with clarity families is grounded in data-flow and
/// program-dependence evidence.
pub open spec fn grounded(c: TransformationCandidate) -> bool {
    let layers = c.spec_draft().recipe.spec_draft().required_layers@;
    candidate_kinds(c).len() > 0 ==> layers.contains(GraphEvidenceLayer::ProgramDependence) && layers.contains(
        GraphEvidenceLayer::DataFlow,
    )
}

/// The clarity record of a candidate.
pub open spec fn clarity_view(c: TransformationCandidate) -> ClarityView {
    ClarityView {
        schema: GRAPH_GROUNDED_CLARITY_CANDIDATE_SCHEMA@,
        candidate: c.spec_id(),
        kinds: candidate_kinds(c),
        graph_layers: c.spec_draft().recipe.spec_draft().required_layers@,
    }
}

/// The clarity records of the candidates that have clarity families, in
/// input order.
pub open spec fn clarity_views(cs: Seq<TransformationCandidate>) -> Seq<ClarityView>
    decreases cs.len(),
{
    if cs.len() == 0 {
        Seq::empty()
    } else {
        clarity_views(cs.drop_last()) + if candidate_kinds(cs.last()).len() > 0 {
            seq![clarity_view(cs.last())]
        } else {
            Seq::empty()
        }
    }
}

/// The views of a sequence of clarity records.
pub open spec fn record_views(v: Seq<GraphGroundedClarityCandidate>) -> Seq<ClarityView> {
    v.map_values(|r: GraphGroundedClarityCandidate| r@)
}

fn edit_befores(c: &TransformationCandidate) -> (r: Vec<String>)
    ensures
        texts(r@) == candidate_befores(*c),
{
    let edits = c.edits();
    let n = edits.len();
    let mut out: Vec<String> = Vec::new();
    let mut i: usize = 0;
    while i < n
        invariant
            n == edits@.len(),
            edits@ == c.spec_draft().edits@,
            i <= n,
            out@.len() == i,
            forall|k: int| 0 <= k < i ==> (#[trigger] out@[k])@ == edits@[k].before@,
        decreases n - i,
    {
        out.push(edits[i].before.clone());
        i = i + 1;
    }
    assert(texts(out@) =~= candidate_befores(*c));
    out
}

/// The clarity records of the candidates that have clarity families,
/// ordered by candidate identity. Refused when such a candidate's recipe
/// does not require both data-flow and program-dependence evidence.
pub fn graph_grounded_clarity_candidates(candidates: &Vec<TransformationCandidate>) -> (r: Result<
    Vec<GraphGroundedClarityCandidate>,
    String,
>)
    ensures
        r is Ok <==> forall|i: int| 0 <= i < candidates@.len() ==> grounded(#[trigger] candidates@[i]),
        r matches Ok(out) ==> keys_sorted(out@) && record_views(out@).to_multiset() == clarity_views(
            candidates@,
        ).to_multiset(),
{
    let n = candidates.len();
    let mut output: Vec<GraphGroundedClarityCandidate> = Vec::new();
    let mut i: usize = 0;
    while i < n
        invariant
            n == candidates@.len(),
            i <= n,
            forall|k: int| 0 <= k < i ==> grounded(#[trigger] candidates@[k]),
            record_views(output@) == clarity_views(candidates@.subrange(0, i as int)),
        decreases n - i,
    {
        let c = &candidates[i];
        let recipe = c.recipe();
        let befores = edit_befores(c);
        let kinds = clarity_kinds(recipe.name(), &befores);
        proof {
            assert(candidates@.subrange(0, i + 1).drop_last() =~= candidates@.subrange(0, i as int));
            assert(candidates@.subrange(0, i + 1).last() == candidates@[i as int]);
        }
        if kinds.len() > 0 {
            let layers = recipe.required_layers();
            let mut owned: Vec<GraphEvidenceLayer> = Vec::new();
            let m = layers.len();
            let mut k: usize = 0;
            while k < m
                invariant
                    m == layers@.len(),
                    k <= m,
                    owned@ == layers@.subrange(0, k as int),
                decreases m - k,
            {
                owned.push(layers[k]);
                assert(owned@ =~= layers@.subrange(0, k + 1));
                k = k + 1;
            }
            assert(owned@ =~= layers@);
            if !contains_layer(&owned, GraphEvidenceLayer::ProgramDependence) || !contains_layer(
                &owned,
                GraphEvidenceLayer::DataFlow,
            ) {
                let mut message = "clarity candidate ".to_owned();
                string_append(&mut message, c.id());
                string_append(&mut message, " lacks required graph grounding");
                return Err(message);
            }
            let record = GraphGroundedClarityCandidate {
                schema: GRAPH_GROUNDED_CLARITY_CANDIDATE_SCHEMA.to_owned(),
                candidate: c.id().to_owned(),
                kinds,
                graph_layers: owned,
            };
            let ghost before = output@;
            output.push(record);
            proof {
                assert(record@ == clarity_view(candidates@[i as int]));
                assert(record_views(output@) =~= record_views(before).push(record@));
            }
        } else {
            proof {
                assert(clarity_views(candidates@.subrange(0, i + 1)) =~= clarity_views(
                    candidates@.subrange(0, i as int),
                ));
            }
        }
        i = i + 1;
    }
    assert(candidates@.subrange(0, n as int) =~= candidates@);
    let sorted = sort_by_key(output);
    proof {
        lemma_map_values_multiset(sorted@, output@, |r: GraphGroundedClarityCandidate| r@);
    }
    Ok(sorted)
}

} // verus!
