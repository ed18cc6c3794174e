//! Plain-value models of the analysis vocabulary that recipes and candidates
//! are written in: graph evidence layers, safety classes and source spans.

use vstd::prelude::*;

verus! {

/// A layer of retained graph evidence, declared in dependency order.
#[derive(Clone, Copy, Debug, PartialEq, Eq, Structural, Hash)]
pub enum GraphEvidenceLayer {
    ScopeGraph,
    Resolution,
    ControlFlow,
    ControlRegions,
    NonStructuredControl,
    DataFlow,
    ProgramDependence,
    SystemDependence,
}

impl GraphEvidenceLayer {
    /// Position of the layer in the canonical order.
    pub open spec fn spec_rank(self) -> nat {
        match self {
            GraphEvidenceLayer::ScopeGraph => 0,
            GraphEvidenceLayer::Resolution => 1,
            GraphEvidenceLayer::ControlFlow => 2,
            GraphEvidenceLayer::ControlRegions => 3,
            GraphEvidenceLayer::NonStructuredControl => 4,
            GraphEvidenceLayer::DataFlow => 5,
            GraphEvidenceLayer::ProgramDependence => 6,
            GraphEvidenceLayer::SystemDependence => 7,
        }
    }

    pub fn rank(&self) -> (r: u8)
        ensures
            r as nat == self.spec_rank(),
    {
        match self {
            GraphEvidenceLayer::ScopeGraph => 0,
            GraphEvidenceLayer::Resolution => 1,
            GraphEvidenceLayer::ControlFlow => 2,
            GraphEvidenceLayer::ControlRegions => 3,
            GraphEvidenceLayer::NonStructuredControl => 4,
            GraphEvidenceLayer::DataFlow => 5,
            GraphEvidenceLayer::ProgramDependence => 6,
            GraphEvidenceLayer::SystemDependence => 7,
        }
    }
}

impl View for GraphEvidenceLayer {
    type V = GraphEvidenceLayer;

    open spec fn view(&self) -> GraphEvidenceLayer {
        *self
    }
}

impl crate::order::Keyed for GraphEvidenceLayer {
    open spec fn key(v: GraphEvidenceLayer) -> Seq<int> {
        seq![v.spec_rank() as int]
    }

    fn precedes(&self, other: &Self) -> (r: bool) {
        proof {
            crate::order::lemma_lex_single(self.spec_rank() as int, other.spec_rank() as int);
        }
        self.rank() < other.rank()
    }
}

/// The wire name of a layer.
pub open spec fn layer_name(layer: GraphEvidenceLayer) -> Seq<char> {
    match layer {
        GraphEvidenceLayer::ScopeGraph => "scope-graph"@,
        GraphEvidenceLayer::Resolution => "resolution"@,
        GraphEvidenceLayer::ControlFlow => "control-flow"@,
        GraphEvidenceLayer::ControlRegions => "control-regions"@,
        GraphEvidenceLayer::NonStructuredControl => "non-structured-control"@,
        GraphEvidenceLayer::DataFlow => "data-flow"@,
        GraphEvidenceLayer::ProgramDependence => "program-dependence"@,
        GraphEvidenceLayer::SystemDependence => "system-dependence"@,
    }
}

impl crate::json::JsonValue for GraphEvidenceLayer {
    open spec fn json(v: GraphEvidenceLayer) -> Seq<char> {
        crate::json::json_str(layer_name(v))
    }

    fn write_json(&self, out: &mut String) {
        let name = match self {
            GraphEvidenceLayer::ScopeGraph => "scope-graph",
            GraphEvidenceLayer::Resolution => "resolution",
            GraphEvidenceLayer::ControlFlow => "control-flow",
            GraphEvidenceLayer::ControlRegions => "control-regions",
            GraphEvidenceLayer::NonStructuredControl => "non-structured-control",
            GraphEvidenceLayer::DataFlow => "data-flow",
            GraphEvidenceLayer::ProgramDependence => "program-dependence",
            GraphEvidenceLayer::SystemDependence => "system-dependence",
        };
        crate::json::push_json_str(out, name);
    }
}

/// Whether `layers` holds every direct base of each of its layers.
pub fn dependency_closed(layers: &Vec<GraphEvidenceLayer>) -> (r: bool)
    ensures
        r == layers_dependency_closed(layers@),
{
    let n = layers.len();
    let mut present = [false, false, false, false, false, false, false, false];
    let mut i: usize = 0;
    while i < n
        invariant
            n == layers@.len(),
            i <= n,
            forall|k: int| 0 <= k < 8 ==> present[k] == exists|j: int| 0 <= j < i && #[trigger] layers@[j].spec_rank() == k,
        decreases n - i,
    {
        let r = layers[i].rank() as usize;
        present[r] = true;
        i = i + 1;
    }
    let ok = (!present[1] || present[0]) && (!present[3] || present[2]) && (!present[4] || present[3]) && (!present[5]
        || present[3]) && (!present[6] || (present[5] && present[4])) && (!present[7] || present[6]);
    proof {
        assert forall|l: GraphEvidenceLayer| #[trigger] layers@.contains(l) == present[l.spec_rank() as int] by {
            if present[l.spec_rank() as int] {
                let j = choose|j: int| 0 <= j < n && #[trigger] layers@[j].spec_rank() == l.spec_rank();
                assert(layers@[j] == l);
            }
            if layers@.contains(l) {
                let j = choose|j: int| 0 <= j < n && layers@[j] == l;
                assert(layers@[j].spec_rank() == l.spec_rank());
            }
        }
        if ok {
            assert forall|i: int, base: GraphEvidenceLayer|
                0 <= i < layers@.len() && #[trigger] layer_depends_on(layers@[i], base) implies layers@.contains(base) by {
                assert(layers@.contains(layers@[i]));
            }
        } else {
            let l0 = GraphEvidenceLayer::ScopeGraph;
            let l1 = GraphEvidenceLayer::Resolution;
            let l2 = GraphEvidenceLayer::ControlFlow;
            let l3 = GraphEvidenceLayer::ControlRegions;
            let l4 = GraphEvidenceLayer::NonStructuredControl;
            let l5 = GraphEvidenceLayer::DataFlow;
            let l6 = GraphEvidenceLayer::ProgramDependence;
            let l7 = GraphEvidenceLayer::SystemDependence;
            assert(layers@.contains(l0) == present[0]);
            assert(layers@.contains(l1) == present[1]);
            assert(layers@.contains(l2) == present[2]);
            assert(layers@.contains(l3) == present[3]);
            assert(layers@.contains(l4) == present[4]);
            assert(layers@.contains(l5) == present[5]);
            assert(layers@.contains(l6) == present[6]);
            assert(layers@.contains(l7) == present[7]);
            let (l, b) = if present[1] && !present[0] {
                (l1, l0)
            } else if present[3] && !present[2] {
                (l3, l2)
            } else if present[4] && !present[3] {
                (l4, l3)
            } else if present[5] && !present[3] {
                (l5, l3)
            } else if present[6] && !present[5] {
                (l6, l5)
            } else if present[6] && !present[4] {
                (l6, l4)
            } else {
                (l7, l6)
            };
            let j = choose|j: int| 0 <= j < n && layers@[j] == l;
            assert(layer_depends_on(layers@[j], b));
            assert(!layers@.contains(b));
        }
    }
    ok
}

/// The layers whose evidence a layer is derived from.
pub open spec fn layer_depends_on(layer: GraphEvidenceLayer, base: GraphEvidenceLayer) -> bool {
    match layer {
        GraphEvidenceLayer::ScopeGraph => false,
        GraphEvidenceLayer::Resolution => base == GraphEvidenceLayer::ScopeGraph,
        GraphEvidenceLayer::ControlFlow => false,
        GraphEvidenceLayer::ControlRegions => base == GraphEvidenceLayer::ControlFlow,
        GraphEvidenceLayer::NonStructuredControl => base == GraphEvidenceLayer::ControlRegions,
        GraphEvidenceLayer::DataFlow => base == GraphEvidenceLayer::ControlRegions,
        GraphEvidenceLayer::ProgramDependence => base == GraphEvidenceLayer::DataFlow || base
            == GraphEvidenceLayer::NonStructuredControl,
        GraphEvidenceLayer::SystemDependence => base == GraphEvidenceLayer::ProgramDependence,
    }
}

/// A set of layers is dependency-closed when it holds every direct base of
/// each of its layers (and so, transitively, every base).
pub open spec fn layers_dependency_closed(layers: Seq<GraphEvidenceLayer>) -> bool {
    forall|i: int, base: GraphEvidenceLayer|
        0 <= i < layers.len() && #[trigger] layer_depends_on(layers[i], base) ==> layers.contains(
            base,
        )
}

/// How much authority a rewrite carries, from fully automatic to report-only.
#[derive(Clone, Copy, Debug, PartialEq, Eq, Structural, Hash)]
pub enum SafetyClass {
    SafeAuto,
    AnalyzerConfirmed,
    SafeWithPrecondition,
    RiskySuggest,
    LlmOnly,
    NeverAuto,
}

/// The wire name of a safety class.
pub open spec fn safety_name(safety: SafetyClass) -> Seq<char> {
    match safety {
        SafetyClass::SafeAuto => "safe-auto"@,
        SafetyClass::AnalyzerConfirmed => "analyzer-confirmed"@,
        SafetyClass::SafeWithPrecondition => "safe-with-precondition"@,
        SafetyClass::RiskySuggest => "risky-suggest"@,
        SafetyClass::LlmOnly => "llm-only"@,
        SafetyClass::NeverAuto => "never-auto"@,
    }
}

pub fn push_safety_json(out: &mut String, safety: SafetyClass)
    ensures
        final(out)@ == old(out)@ + crate::json::json_str(safety_name(safety)),
{
    let name = match safety {
        SafetyClass::SafeAuto => "safe-auto",
        SafetyClass::AnalyzerConfirmed => "analyzer-confirmed",
        SafetyClass::SafeWithPrecondition => "safe-with-precondition",
        SafetyClass::RiskySuggest => "risky-suggest",
        SafetyClass::LlmOnly => "llm-only",
        SafetyClass::NeverAuto => "never-auto",
    };
    crate::json::push_json_str(out, name);
}

/// Rank of a safety class: lower is more permissive.
pub open spec fn spec_safety_rank(safety: SafetyClass) -> nat {
    match safety {
        SafetyClass::SafeAuto => 0,
        SafetyClass::AnalyzerConfirmed => 1,
        SafetyClass::SafeWithPrecondition => 2,
        SafetyClass::RiskySuggest => 3,
        SafetyClass::LlmOnly => 4,
        SafetyClass::NeverAuto => 5,
    }
}

pub fn safety_rank(safety: SafetyClass) -> (r: u8)
    ensures
        r as nat == spec_safety_rank(safety),
{
    match safety {
        SafetyClass::SafeAuto => 0,
        SafetyClass::AnalyzerConfirmed => 1,
        SafetyClass::SafeWithPrecondition => 2,
        SafetyClass::RiskySuggest => 3,
        SafetyClass::LlmOnly => 4,
        SafetyClass::NeverAuto => 5,
    }
}

/// A source span: one-based lines, zero-based byte offsets.
#[derive(Clone, Copy, Debug, PartialEq, Eq, Structural, Hash)]
pub struct Span {
    pub start_line: usize,
    pub end_line: usize,
    pub start_byte: usize,
    pub end_byte: usize,
}

impl Span {
    pub fn new(start_line: usize, end_line: usize, start_byte: usize, end_byte: usize) -> (s: Span)
        ensures
            s == (Span { start_line, end_line, start_byte, end_byte }),
    {
        Span { start_line, end_line, start_byte, end_byte }
    }
}

} // verus!
