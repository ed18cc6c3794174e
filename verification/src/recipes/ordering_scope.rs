//! The scope and resolution evidence the ordering recipes read, and the
//! selection of the blocks they may reorder.

use vstd::prelude::*;
use crate::candidate::GraphEligibilityDecision;
use crate::evidence::CapabilitySupport;
use crate::order::compare_str;
use crate::target::{NodeKey, NodeKeyView};
use crate::text::{starts_with, trim_start, trimmed_start_starts_with};
use super::block_order::{are_runs, maximal_run, runs};
use super::ordering::OrderingKind;

verus! {

/// Capability of the facts that justify moving an import.
pub const IMPORTS_EXPORTS: &'static str = "imports-exports";
/// Capability of the facts that justify moving a declaration.
pub const LEXICAL_SCOPES: &'static str = "lexical-scopes";

/// What a retained scope fact says.
#[derive(Clone, Debug)]
pub enum ScopeFactData {
    /// A file scope without a parent.
    FileScope,
    /// An import into `scope`; `simple` for module and selective forms.
    Import { scope: String, simple: bool, conditional: bool },
    /// An export, with the local fact it exports when there is one.
    Export { local_target: Option<String> },
    /// A declaration in `scope`.
    Declaration { scope: String, private: bool, hoisted: bool },
    /// The definition of `declaration`; `function` for a plain function.
    Definition { declaration: String, function: bool },
    /// A binding, with the definition it targets when it targets one.
    Binding { definition: Option<String>, hoisted: bool },
    /// A dynamic-scope boundary over the listed scopes.
    DynamicBoundary { scopes: Vec<String> },
    /// One declaration shadowing another.
    Shadowing { shadowing: String, shadowed: String },
    /// Any other fact, or a scope that is not a root file scope.
    Other,
}

/// A retained scope fact with the evidence it rests on.
#[derive(Clone, Debug)]
pub struct ScopeFact {
    pub key: String,
    /// The syntax node the fact was read from.
    pub node: NodeKey,
    pub data: ScopeFactData,
    pub capability: String,
    pub support: CapabilitySupport,
    pub authority: Option<String>,
    /// The fact's coverage is complete, with no reason given.
    pub complete: bool,
    pub recovered: bool,
}

/// A retained resolution result.
#[derive(Clone, Debug)]
pub struct ResolutionRecord {
    pub key: String,
    /// The status is unique.
    pub unique: bool,
    /// The coverage is complete.
    pub complete: bool,
    pub has_authority: bool,
    /// The scope facts the result was read from.
    pub source_facts: Vec<String>,
    /// The scope facts that the endpoints of its preferred candidate name.
    pub preferred_endpoints: Vec<String>,
}

/// The syntax node of a name.
#[derive(Clone, Debug)]
pub struct NameNode {
    pub key: NodeKey,
    pub text: String,
}

/// A named top-level child of a source file.
#[derive(Clone, Debug)]
pub struct TopLevelItem {
    pub key: NodeKey,
    pub kind: String,
    pub text: String,
    /// Neither the item nor any descendant has an error, a comment, an
    /// attribute or a macro.
    pub clean: bool,
    /// The child in the `name` field, when there is one.
    pub name: Option<NameNode>,
}

/// A parsed source file.
#[derive(Clone, Debug)]
pub struct SourceFile {
    pub key: NodeKey,
    pub text: String,
    pub rust: bool,
    pub has_error: bool,
    /// The named children, in order.
    pub children: Vec<TopLevelItem>,
}

/// The scope and resolution projections of a project with the eligibility
/// decisions the two ordering recipes received.
#[derive(Clone, Debug)]
pub struct OrderingProjection {
    pub id: String,
    pub snapshot: String,
    pub analysis: String,
    pub scope_graph: String,
    pub resolution_graph: String,
    pub facts: Vec<ScopeFact>,
    pub results: Vec<ResolutionRecord>,
    pub files: Vec<SourceFile>,
    pub import_eligibility: GraphEligibilityDecision,
    pub function_eligibility: GraphEligibilityDecision,
}

/// The fact is complete, unrecovered, provided and authoritative for the
/// capability.
pub open spec fn exact_fact(f: ScopeFact, capability: Seq<char>) -> bool {
    &&& f.capability@ == capability
    &&& f.support == CapabilitySupport::Provided
    &&& (f.authority matches Some(a) && (a@ == "adapter"@ || a@ == "compiler"@))
    &&& f.complete
    &&& !f.recovered
}

pub fn is_exact_fact(f: &ScopeFact, capability: &str) -> (r: bool)
    ensures
        r == exact_fact(*f, capability@),
{
    let authoritative = match &f.authority {
        Some(a) => compare_str(a.as_str(), "adapter") == 0 || compare_str(a.as_str(), "compiler") == 0,
        None => false,
    };
    compare_str(f.capability.as_str(), capability) == 0 && f.support == CapabilitySupport::Provided
        && authoritative && f.complete && !f.recovered
}

/// The positions of the facts that satisfy `p`, in order.
pub open spec fn fact_positions(facts: Seq<ScopeFact>, p: spec_fn(ScopeFact) -> bool) -> Seq<int>
    decreases facts.len(),
{
    if facts.len() == 0 {
        Seq::empty()
    } else {
        let rest = fact_positions(facts.drop_last(), p);
        if p(facts.last()) {
            rest.push(facts.len() - 1)
        } else {
            rest
        }
    }
}

/// The one fact that satisfies `p`, when exactly one does.
pub open spec fn unique_fact(facts: Seq<ScopeFact>, p: spec_fn(ScopeFact) -> bool) -> Option<int> {
    let found = fact_positions(facts, p);
    if found.len() == 1 {
        Some(found[0])
    } else {
        None
    }
}

/// Some fact satisfies `p`.
pub open spec fn some_fact(facts: Seq<ScopeFact>, p: spec_fn(ScopeFact) -> bool) -> bool {
    exists|i: int| 0 <= i < facts.len() && p(#[trigger] facts[i])
}

proof fn lemma_fact_positions(facts: Seq<ScopeFact>, p: spec_fn(ScopeFact) -> bool)
    ensures
        forall|k: int| 0 <= k < fact_positions(facts, p).len() ==> 0 <= #[trigger] fact_positions(facts, p)[k]
            < facts.len() && p(facts[fact_positions(facts, p)[k]]),
        fact_positions(facts, p).len() == 0 <==> !some_fact(facts, p),
    decreases facts.len(),
{
    if facts.len() > 0 {
        let init = facts.drop_last();
        lemma_fact_positions(init, p);
        assert forall|i: int| 0 <= i < init.len() implies init[i] == facts[i] by {}
        if some_fact(facts, p) && !p(facts.last()) {
            let i = choose|i: int| 0 <= i < facts.len() && p(#[trigger] facts[i]);
            assert(i < init.len());
            assert(p(init[i]));
        }
        if some_fact(init, p) {
            let i = choose|i: int| 0 <= i < init.len() && p(#[trigger] init[i]);
            assert(p(facts[i]));
        }
    }
}

/// What a scan of the facts looks for.
pub enum FactQuery {
    /// The root file scope read from a node.
    FileScopeAt(NodeKey),
    /// An import read from a node.
    ImportAt(NodeKey),
    /// An export read from a node.
    ExportAt(NodeKey),
    /// A declaration read from a node.
    DeclarationAt(NodeKey),
    /// The plain-function definition of a declaration.
    FunctionDefinitionOf(String),
    /// An exact hoisted binding that targets a definition.
    HoistedBindingOf(String),
}

pub open spec fn query_holds(q: FactQuery, f: ScopeFact) -> bool {
    match q {
        FactQuery::FileScopeAt(k) => f.node@ == k@ && f.data is FileScope,
        FactQuery::ImportAt(k) => f.node@ == k@ && f.data is Import,
        FactQuery::ExportAt(k) => f.node@ == k@ && f.data is Export,
        FactQuery::DeclarationAt(k) => f.node@ == k@ && f.data is Declaration,
        FactQuery::FunctionDefinitionOf(d) => f.data matches ScopeFactData::Definition { declaration, function }
            && declaration@ == d@ && function,
        FactQuery::HoistedBindingOf(d) => (f.data matches ScopeFactData::Binding { definition, hoisted }
            && definition matches Some(t) && t@ == d@ && hoisted) && exact_fact(f, LEXICAL_SCOPES@),
    }
}

pub open spec fn query(q: FactQuery) -> spec_fn(ScopeFact) -> bool {
    |f: ScopeFact| query_holds(q, f)
}

fn query_matches(q: &FactQuery, f: &ScopeFact) -> (r: bool)
    ensures
        r == query_holds(*q, *f),
{
    match q {
        FactQuery::FileScopeAt(k) => f.node.same_node(k) && matches!(f.data, ScopeFactData::FileScope),
        FactQuery::ImportAt(k) => f.node.same_node(k) && matches!(f.data, ScopeFactData::Import { .. }),
        FactQuery::ExportAt(k) => f.node.same_node(k) && matches!(f.data, ScopeFactData::Export { .. }),
        FactQuery::DeclarationAt(k) => f.node.same_node(k) && matches!(f.data, ScopeFactData::Declaration { .. }),
        FactQuery::FunctionDefinitionOf(d) => match &f.data {
            ScopeFactData::Definition { declaration, function } => *function && compare_str(
                declaration.as_str(),
                d.as_str(),
            ) == 0,
            _ => false,
        },
        FactQuery::HoistedBindingOf(d) => {
            let targets = match &f.data {
                ScopeFactData::Binding { definition: Some(t), hoisted } => *hoisted && compare_str(
                    t.as_str(),
                    d.as_str(),
                ) == 0,
                _ => false,
            };
            targets && is_exact_fact(f, LEXICAL_SCOPES)
        },
    }
}

/// The one fact that answers the query, when exactly one does.
pub fn find_unique_fact(facts: &Vec<ScopeFact>, q: &FactQuery) -> (r: Option<usize>)
    ensures
        match r {
            Some(i) => unique_fact(facts@, query(*q)) == Some(i as int),
            None => unique_fact(facts@, query(*q)) is None,
        },
{
    let ghost p = query(*q);
    let n = facts.len();
    let mut found: Option<usize> = None;
    let mut i: usize = 0;
    while i < n
        invariant
            n == facts@.len(),
            i <= n,
            p == query(*q),
            match found {
                Some(j) => fact_positions(facts@.subrange(0, i as int), p) == seq![j as int],
                None => fact_positions(facts@.subrange(0, i as int), p).len() == 0,
            },
        decreases n - i,
    {
        let hit = query_matches(q, &facts[i]);
        proof {
            let sub = facts@.subrange(0, i + 1);
            assert(sub.drop_last() =~= facts@.subrange(0, i as int));
            assert(sub.last() == facts@[i as int]);
        }
        if hit {
            match found {
                Some(_) => {
                    proof {
                        lemma_positions_grow(facts@, p, (i + 1) as int);
                    }
                    return None;
                },
                None => {
                    found = Some(i);
                },
            }
        }
        i = i + 1;
    }
    assert(facts@.subrange(0, n as int) =~= facts@);
    found
}

/// Whether some fact answers the query.
pub fn any_fact(facts: &Vec<ScopeFact>, q: &FactQuery) -> (r: bool)
    ensures
        r == some_fact(facts@, query(*q)),
{
    let n = facts.len();
    let mut i: usize = 0;
    while i < n
        invariant
            n == facts@.len(),
            i <= n,
            forall|j: int| 0 <= j < i ==> !query_holds(*q, #[trigger] facts@[j]),
        decreases n - i,
    {
        if query_matches(q, &facts[i]) {
            assert(query(*q)(facts@[i as int]));
            return true;
        }
        i = i + 1;
    }
    false
}

/// The positions found in a prefix are a prefix of those found in the whole.
proof fn lemma_positions_grow(facts: Seq<ScopeFact>, p: spec_fn(ScopeFact) -> bool, m: int)
    requires
        0 <= m <= facts.len(),
    ensures
        fact_positions(facts, p).len() >= fact_positions(facts.subrange(0, m), p).len(),
    decreases facts.len() - m,
{
    if m < facts.len() {
        lemma_positions_grow(facts, p, m + 1);
        let a = facts.subrange(0, m + 1);
        assert(a.drop_last() =~= facts.subrange(0, m));
    } else {
        assert(facts.subrange(0, m) =~= facts);
    }
}


/// An import the recipe may move: a simple, unconditional import into the
/// scope, with exact import evidence.
pub open spec fn import_ok(f: ScopeFact, scope: Seq<char>) -> bool {
    &&& f.data matches ScopeFactData::Import { scope: s, simple, conditional } && s@ == scope && simple
        && !conditional
    &&& exact_fact(f, IMPORTS_EXPORTS@)
}

/// A declaration the recipe may move: private and hoisted in the scope, with
/// exact lexical evidence.
pub open spec fn declaration_ok(f: ScopeFact, scope: Seq<char>) -> bool {
    &&& f.data matches ScopeFactData::Declaration { scope: s, private, hoisted } && s@ == scope && private
        && hoisted
    &&& exact_fact(f, LEXICAL_SCOPES@)
}

/// The import fact of a sibling: the one import read from it, when that
/// import may move and no export was read from the sibling.
pub open spec fn import_fact_of(facts: Seq<ScopeFact>, scope: Seq<char>, item: TopLevelItem) -> Option<int> {
    match unique_fact(facts, query(FactQuery::ImportAt(item.key))) {
        None => None,
        Some(i) => if import_ok(facts[i], scope) && !some_fact(facts, query(FactQuery::ExportAt(item.key))) {
            Some(i)
        } else {
            None
        },
    }
}

/// The declaration and definition facts of a sibling: the one declaration
/// read from its name, when it may move, its one plain-function definition
/// with exact evidence, which an exact hoisted binding targets.
pub open spec fn function_facts_of(facts: Seq<ScopeFact>, scope: Seq<char>, item: TopLevelItem) -> Option<
    (int, int),
> {
    match item.name {
        None => None,
        Some(name) => match unique_fact(facts, query(FactQuery::DeclarationAt(name.key))) {
            None => None,
            Some(d) => if !declaration_ok(facts[d], scope) {
                None
            } else {
                match unique_fact(facts, query(FactQuery::FunctionDefinitionOf(facts[d].key))) {
                    None => None,
                    Some(e) => if exact_fact(facts[e], LEXICAL_SCOPES@) && some_fact(
                        facts,
                        query(FactQuery::HoistedBindingOf(facts[e].key)),
                    ) {
                        Some((d, e))
                    } else {
                        None
                    },
                }
            },
        },
    }
}

pub fn import_fact(facts: &Vec<ScopeFact>, scope: &str, item: &TopLevelItem) -> (r: Option<usize>)
    ensures
        match r {
            Some(i) => import_fact_of(facts@, scope@, *item) == Some(i as int),
            None => import_fact_of(facts@, scope@, *item) is None,
        },
{
    let i = find_unique_fact(facts, &FactQuery::ImportAt(item.key.duplicate()))?;
    proof {
        lemma_fact_positions(facts@, query(FactQuery::ImportAt(item.key)));
    }
    let f = &facts[i];
    let ok = match &f.data {
        ScopeFactData::Import { scope: s, simple, conditional } => compare_str(s.as_str(), scope) == 0 && *simple
            && !*conditional,
        _ => false,
    };
    if ok && is_exact_fact(f, IMPORTS_EXPORTS) && !any_fact(facts, &FactQuery::ExportAt(item.key.duplicate())) {
        Some(i)
    } else {
        None
    }
}

pub fn function_facts(facts: &Vec<ScopeFact>, scope: &str, item: &TopLevelItem) -> (r: Option<(usize, usize)>)
    ensures
        match r {
            Some((d, e)) => function_facts_of(facts@, scope@, *item) == Some((d as int, e as int)),
            None => function_facts_of(facts@, scope@, *item) is None,
        },
{
    let name = match &item.name {
        Some(n) => n,
        None => {
            return None;
        },
    };
    let d = find_unique_fact(facts, &FactQuery::DeclarationAt(name.key.duplicate()))?;
    proof {
        lemma_fact_positions(facts@, query(FactQuery::DeclarationAt(name.key)));
    }
    let decl = &facts[d];
    let ok = match &decl.data {
        ScopeFactData::Declaration { scope: s, private, hoisted } => compare_str(s.as_str(), scope) == 0
            && *private && *hoisted,
        _ => false,
    };
    if !ok || !is_exact_fact(decl, LEXICAL_SCOPES) {
        return None;
    }
    let e = find_unique_fact(facts, &FactQuery::FunctionDefinitionOf(decl.key.clone()))?;
    proof {
        lemma_fact_positions(facts@, query(FactQuery::FunctionDefinitionOf(decl.key)));
    }
    let def = &facts[e];
    if is_exact_fact(def, LEXICAL_SCOPES) && any_fact(facts, &FactQuery::HoistedBindingOf(def.key.clone())) {
        Some((d, e))
    } else {
        None
    }
}

/// A top-level sibling the recipe of `kind` may move: a clean `use`
/// declaration or a clean `fn` item, written plainly.
pub open spec fn simple_item(item: TopLevelItem, kind: OrderingKind) -> bool {
    let (grammar, word) = match kind {
        OrderingKind::Imports => ("use_declaration"@, "use "@),
        OrderingKind::Functions => ("function_item"@, "fn "@),
    };
    &&& item.kind@ == grammar
    &&& word.len() <= trim_start(item.text@).len()
    &&& trim_start(item.text@).subrange(0, word.len() as int) == word
    &&& item.clean
}

fn is_simple_item(item: &TopLevelItem, kind: OrderingKind) -> (r: bool)
    ensures
        r == simple_item(*item, kind),
{
    let (grammar, word) = match kind {
        OrderingKind::Imports => ("use_declaration", "use "),
        OrderingKind::Functions => ("function_item", "fn "),
    };
    compare_str(item.kind.as_str(), grammar) == 0 && trimmed_start_starts_with(item.text.as_str(), word)
        && item.clean
}

/// Which siblings the recipe of `kind` may move.
pub fn simple_items(children: &Vec<TopLevelItem>, kind: OrderingKind) -> (r: Vec<bool>)
    ensures
        r@.len() == children@.len(),
        forall|i: int| 0 <= i < r@.len() ==> r@[i] == simple_item(#[trigger] children@[i], kind),
{
    let mut out: Vec<bool> = Vec::new();
    let n = children.len();
    let mut i: usize = 0;
    while i < n
        invariant
            n == children@.len(),
            i <= n,
            out@.len() == i,
            forall|k: int| 0 <= k < i ==> out@[k] == simple_item(#[trigger] children@[k], kind),
        decreases n - i,
    {
        out.push(is_simple_item(&children[i], kind));
        i = i + 1;
    }
    out
}

/// The facts of a block, in sibling order: each sibling's import fact, or
/// each sibling's declaration and definition facts.
pub open spec fn block_facts(facts: Seq<ScopeFact>, scope: Seq<char>, items: Seq<TopLevelItem>, kind: OrderingKind) -> Option<
    Seq<int>,
>
    decreases items.len(),
{
    if items.len() == 0 {
        Some(Seq::empty())
    } else {
        match block_facts(facts, scope, items.drop_last(), kind) {
            None => None,
            Some(found) => match kind {
                OrderingKind::Imports => match import_fact_of(facts, scope, items.last()) {
                    None => None,
                    Some(i) => Some(found.push(i)),
                },
                OrderingKind::Functions => match function_facts_of(facts, scope, items.last()) {
                    None => None,
                    Some((d, e)) => Some(found.push(d).push(e)),
                },
            },
        }
    }
}

/// Some fact makes the scope order-sensitive for the selected facts: a
/// dynamic boundary over the scope, a shadowing that involves a selected
/// fact, or an export of a selected fact.
pub open spec fn order_sensitive(facts: Seq<ScopeFact>, scope: Seq<char>, selected: Set<Seq<char>>) -> bool {
    exists|i: int| 0 <= i < facts.len() && #[trigger] sensitive_fact(facts[i], scope, selected)
}

pub open spec fn sensitive_fact(f: ScopeFact, scope: Seq<char>, selected: Set<Seq<char>>) -> bool {
    match f.data {
        ScopeFactData::DynamicBoundary { scopes } => exists|k: int| 0 <= k < scopes@.len() && (#[trigger] scopes@[k])@ == scope,
        ScopeFactData::Shadowing { shadowing, shadowed } => selected.contains(shadowing@) || selected.contains(shadowed@),
        ScopeFactData::Export { local_target } => local_target matches Some(t) && selected.contains(t@),
        _ => false,
    }
}

/// The keys of the facts at the given positions.
pub open spec fn fact_keys(facts: Seq<ScopeFact>, idx: Seq<int>) -> Set<Seq<char>> {
    Set::new(|k: Seq<char>| exists|j: int| 0 <= j < idx.len() && facts[#[trigger] idx[j]].key@ == k)
}

/// Every resolution result is unique, complete and authoritative.
pub open spec fn results_settled(results: Seq<ResolutionRecord>) -> bool {
    forall|i: int| 0 <= i < results.len() ==> (#[trigger] results[i]).unique && results[i].complete
        && results[i].has_authority
}

/// The facts of a block the recipe of `kind` may reorder: every sibling's
/// facts are selected, the scope is not order-sensitive for them (for
/// imports, for none), and for functions every resolution result is settled.
pub open spec fn block_selected(
    p: OrderingProjection,
    scope: Seq<char>,
    items: Seq<TopLevelItem>,
    kind: OrderingKind,
) -> Option<Seq<int>> {
    match block_facts(p.facts@, scope, items, kind) {
        None => None,
        Some(idx) => {
            let selected = match kind {
                OrderingKind::Imports => Set::empty(),
                OrderingKind::Functions => fact_keys(p.facts@, idx),
            };
            if order_sensitive(p.facts@, scope, selected) {
                None
            } else if kind == OrderingKind::Functions && !results_settled(p.results@) {
                None
            } else {
                Some(idx)
            }
        },
    }
}

/// Positions as integers.
pub open spec fn int_seq(v: Seq<usize>) -> Seq<int> {
    v.map_values(|u: usize| u as int)
}

/// The facts of a block, as `block_facts` gives them.
fn collect_block_facts(facts: &Vec<ScopeFact>, scope: &str, items: &[TopLevelItem], kind: OrderingKind) -> (r: Option<
    Vec<usize>,
>)
    ensures
        match r {
            Some(v) => block_facts(facts@, scope@, items@, kind) == Some(int_seq(v@)) && forall|k: int|
                0 <= k < v@.len() ==> v@[k] < facts@.len(),
            None => block_facts(facts@, scope@, items@, kind) is None,
        },
{
    let mut out: Vec<usize> = Vec::new();
    let n = items.len();
    let mut i: usize = 0;
    assert(items@.subrange(0, 0) =~= Seq::<TopLevelItem>::empty());
    assert(int_seq(out@) =~= Seq::<int>::empty());
    while i < n
        invariant
            n == items@.len(),
            i <= n,
            block_facts(facts@, scope@, items@.subrange(0, i as int), kind) == Some(int_seq(out@)),
            forall|k: int| 0 <= k < out@.len() ==> out@[k] < facts@.len(),
        decreases n - i,
    {
        let ghost before = out@;
        proof {
            let sub = items@.subrange(0, i + 1);
            assert(sub.drop_last() =~= items@.subrange(0, i as int));
            assert(sub.last() == items@[i as int]);
        }
        match kind {
            OrderingKind::Imports => match import_fact(facts, scope, &items[i]) {
                None => {
                    proof {
                        lemma_block_facts_none_stays(facts@, scope@, items@, kind, (i + 1) as int);
                    }
                    return None;
                },
                Some(f) => {
                    proof {
                        lemma_fact_positions(facts@, query(FactQuery::ImportAt(items@[i as int].key)));
                    }
                    out.push(f);
                    assert(int_seq(out@) =~= int_seq(before).push(f as int));
                },
            },
            OrderingKind::Functions => match function_facts(facts, scope, &items[i]) {
                None => {
                    proof {
                        lemma_block_facts_none_stays(facts@, scope@, items@, kind, (i + 1) as int);
                    }
                    return None;
                },
                Some((d, e)) => {
                    proof {
                        lemma_function_facts_in_range(facts@, scope@, items@[i as int]);
                    }
                    out.push(d);
                    out.push(e);
                    assert(int_seq(out@) =~= int_seq(before).push(d as int).push(e as int));
                },
            },
        }
        i = i + 1;
    }
    assert(items@.subrange(0, n as int) =~= items@);
    Some(out)
}

proof fn lemma_function_facts_in_range(facts: Seq<ScopeFact>, scope: Seq<char>, item: TopLevelItem)
    requires
        function_facts_of(facts, scope, item) is Some,
    ensures
        0 <= function_facts_of(facts, scope, item)->Some_0.0 < facts.len(),
        0 <= function_facts_of(facts, scope, item)->Some_0.1 < facts.len(),
{
    let name = item.name->Some_0;
    lemma_fact_positions(facts, query(FactQuery::DeclarationAt(name.key)));
    let d = unique_fact(facts, query(FactQuery::DeclarationAt(name.key)))->Some_0;
    lemma_fact_positions(facts, query(FactQuery::FunctionDefinitionOf(facts[d].key)));
}

proof fn lemma_block_facts_none_stays(
    facts: Seq<ScopeFact>,
    scope: Seq<char>,
    items: Seq<TopLevelItem>,
    kind: OrderingKind,
    m: int,
)
    requires
        0 <= m <= items.len(),
        block_facts(facts, scope, items.subrange(0, m), kind) is None,
    ensures
        block_facts(facts, scope, items, kind) is None,
    decreases items.len() - m,
{
    if m < items.len() {
        let sub = items.subrange(0, m + 1);
        assert(sub.drop_last() =~= items.subrange(0, m));
        lemma_block_facts_none_stays(facts, scope, items, kind, m + 1);
    } else {
        assert(items.subrange(0, m) =~= items);
    }
}

/// Whether a key is among the keys of the facts at the given positions.
pub fn key_selected(facts: &Vec<ScopeFact>, idx: &Vec<usize>, key: &str) -> (r: bool)
    requires
        forall|k: int| 0 <= k < idx@.len() ==> idx@[k] < facts@.len(),
    ensures
        r == fact_keys(facts@, int_seq(idx@)).contains(key@),
{
    let n = idx.len();
    let mut j: usize = 0;
    while j < n
        invariant
            n == idx@.len(),
            j <= n,
            forall|k: int| 0 <= k < idx@.len() ==> idx@[k] < facts@.len(),
            forall|k: int| 0 <= k < j ==> facts@[int_seq(idx@)[k]].key@ != key@,
        decreases n - j,
    {
        if compare_str(facts[idx[j]].key.as_str(), key) == 0 {
            assert(facts@[#[trigger] int_seq(idx@)[j as int]].key@ == key@);
            return true;
        }
        j = j + 1;
    }
    false
}

fn sensitive(f: &ScopeFact, facts: &Vec<ScopeFact>, scope: &str, idx: &Vec<usize>) -> (r: bool)
    requires
        forall|k: int| 0 <= k < idx@.len() ==> idx@[k] < facts@.len(),
    ensures
        r == sensitive_fact(*f, scope@, fact_keys(facts@, int_seq(idx@))),
{
    match &f.data {
        ScopeFactData::DynamicBoundary { scopes } => {
            let n = scopes.len();
            let mut k: usize = 0;
            while k < n
                invariant
                    n == scopes@.len(),
                    k <= n,
                    f.data is DynamicBoundary && f.data->DynamicBoundary_scopes == *scopes,
                    forall|j: int| 0 <= j < k ==> (#[trigger] scopes@[j])@ != scope@,
                decreases n - k,
            {
                if compare_str(scopes[k].as_str(), scope) == 0 {
                    assert((scopes@[k as int])@ == scope@);
                    return true;
                }
                k = k + 1;
            }
            false
        },
        ScopeFactData::Shadowing { shadowing, shadowed } => key_selected(facts, idx, shadowing.as_str())
            || key_selected(facts, idx, shadowed.as_str()),
        ScopeFactData::Export { local_target: Some(t) } => key_selected(facts, idx, t.as_str()),
        _ => false,
    }
}

/// Whether some fact makes the scope order-sensitive for the facts at the
/// given positions.
fn scope_order_sensitive(facts: &Vec<ScopeFact>, scope: &str, idx: &Vec<usize>) -> (r: bool)
    requires
        forall|k: int| 0 <= k < idx@.len() ==> idx@[k] < facts@.len(),
    ensures
        r == order_sensitive(facts@, scope@, fact_keys(facts@, int_seq(idx@))),
{
    let n = facts.len();
    let mut i: usize = 0;
    while i < n
        invariant
            n == facts@.len(),
            i <= n,
            forall|k: int| 0 <= k < idx@.len() ==> idx@[k] < facts@.len(),
            forall|j: int| 0 <= j < i ==> !#[trigger] sensitive_fact(facts@[j], scope@, fact_keys(facts@, int_seq(idx@))),
        decreases n - i,
    {
        if sensitive(&facts[i], facts, scope, idx) {
            return true;
        }
        i = i + 1;
    }
    false
}

fn settled(results: &Vec<ResolutionRecord>) -> (r: bool)
    ensures
        r == results_settled(results@),
{
    let n = results.len();
    let mut i: usize = 0;
    while i < n
        invariant
            n == results@.len(),
            i <= n,
            forall|j: int| 0 <= j < i ==> (#[trigger] results@[j]).unique && results@[j].complete
                && results@[j].has_authority,
        decreases n - i,
    {
        let r = &results[i];
        if !(r.unique && r.complete && r.has_authority) {
            return false;
        }
        i = i + 1;
    }
    true
}

/// The facts of a block that the recipe of `kind` may reorder, as
/// `block_selected` gives them.
pub fn select_block(p: &OrderingProjection, scope: &str, items: &[TopLevelItem], kind: OrderingKind) -> (r: Option<
    Vec<usize>,
>)
    ensures
        match r {
            Some(v) => block_selected(*p, scope@, items@, kind) == Some(int_seq(v@)) && forall|k: int|
                0 <= k < v@.len() ==> v@[k] < p.facts@.len(),
            None => block_selected(*p, scope@, items@, kind) is None,
        },
{
    let idx = collect_block_facts(&p.facts, scope, items, kind)?;
    let empty: Vec<usize> = Vec::new();
    let sensitive = match kind {
        OrderingKind::Imports => {
            assert(fact_keys(p.facts@, int_seq(empty@)) =~= Set::<Seq<char>>::empty());
            scope_order_sensitive(&p.facts, scope, &empty)
        },
        OrderingKind::Functions => scope_order_sensitive(&p.facts, scope, &idx),
    };
    if sensitive {
        return None;
    }
    if kind == OrderingKind::Functions && !settled(&p.results) {
        return None;
    }
    Some(idx)
}

/// Which siblings of a file the recipe of `kind` may move.
pub open spec fn accepts_of(file: SourceFile, kind: OrderingKind) -> Seq<bool> {
    Seq::new(file.children@.len(), |i: int| simple_item(file.children@[i], kind))
}

/// The root file scope of a file: the one file scope read from its root,
/// for an error-free Rust file.
pub open spec fn file_scope_of(p: OrderingProjection, fi: int) -> Option<int> {
    let file = p.files@[fi];
    if !file.rust || file.has_error {
        None
    } else {
        unique_fact(p.facts@, query(FactQuery::FileScopeAt(file.key)))
    }
}

/// The recipe of `kind` is eligible.
pub open spec fn kind_eligible(p: OrderingProjection, kind: OrderingKind) -> bool {
    match kind {
        OrderingKind::Imports => p.import_eligibility.eligible,
        OrderingKind::Functions => p.function_eligibility.eligible,
    }
}

/// `[a, b)` of file `fi` is a block the recipe of `kind` may reorder: the
/// file has a root scope, the recipe is eligible, the siblings form a
/// maximal run of movable siblings, and their facts are selected.
pub open spec fn selected_block(p: OrderingProjection, fi: int, a: int, b: int, kind: OrderingKind) -> bool {
    &&& 0 <= fi < p.files@.len()
    &&& file_scope_of(p, fi) is Some
    &&& kind_eligible(p, kind)
    &&& maximal_run(accepts_of(p.files@[fi], kind), a, b)
    &&& block_selected(
        p,
        p.facts@[file_scope_of(p, fi)->Some_0].key@,
        p.files@[fi].children@.subrange(a, b),
        kind,
    ) is Some
}

pub open spec fn kind_rank(kind: OrderingKind) -> int {
    match kind {
        OrderingKind::Imports => 0,
        OrderingKind::Functions => 1,
    }
}

/// A block of file `fi`, from `a` to `b`, of `kind`.
pub type Block = (usize, usize, usize, OrderingKind);

/// `x` comes before the position `(fi, rank, a)`: an earlier file, an
/// earlier kind in the same file, or an earlier start.
pub open spec fn block_before(x: Block, fi: int, rank: int, a: int) -> bool {
    ||| (x.0 as int) < fi
    ||| (x.0 as int) == fi && kind_rank(x.3) < rank
    ||| (x.0 as int) == fi && kind_rank(x.3) == rank && (x.1 as int) < a
}

/// The blocks are the selected blocks of the projection, each once.
pub open spec fn lists_selected_blocks(p: OrderingProjection, blocks: Seq<Block>) -> bool {
    &&& forall|k: int| 0 <= k < blocks.len() ==> selected_block(
        p,
        (#[trigger] blocks[k]).0 as int,
        blocks[k].1 as int,
        blocks[k].2 as int,
        blocks[k].3,
    )
    &&& forall|i: int, j: int| 0 <= i < j < blocks.len() ==> blocks[i] != blocks[j]
    &&& forall|fi: int, a: int, b: int, kind: OrderingKind| #[trigger] selected_block(p, fi, a, b, kind) ==> exists|k: int|
        0 <= k < blocks.len() && (#[trigger] blocks[k]) == (fi as usize, a as usize, b as usize, kind)
}

/// The root file scope of a file, as `file_scope_of` gives it.
pub fn file_scope(p: &OrderingProjection, fi: usize) -> (r: Option<usize>)
    requires
        fi < p.files@.len(),
    ensures
        match r {
            Some(i) => file_scope_of(*p, fi as int) == Some(i as int) && i < p.facts@.len(),
            None => file_scope_of(*p, fi as int) is None,
        },
{
    let file = &p.files[fi];
    if !file.rust || file.has_error {
        return None;
    }
    let r = find_unique_fact(&p.facts, &FactQuery::FileScopeAt(file.key.duplicate()));
    proof {
        lemma_fact_positions(p.facts@, query(FactQuery::FileScopeAt(file.key)));
    }
    r
}

/// The blocks of a projection that the ordering recipes may reorder, in
/// file order, imports before functions, and by position.
pub fn selected_blocks(p: &OrderingProjection) -> (r: Vec<Block>)
    ensures
        lists_selected_blocks(*p, r@),
        forall|k: int| 0 <= k < r@.len() ==> (#[trigger] r@[k]).2 <= p.files@[r@[k].0 as int].children@.len(),
{
    let mut out: Vec<Block> = Vec::new();
    let nf = p.files.len();
    let mut fi: usize = 0;
    while fi < nf
        invariant
            nf == p.files@.len(),
            fi <= nf,
            forall|k: int| 0 <= k < out@.len() ==> selected_block(
                *p,
                (#[trigger] out@[k]).0 as int,
                out@[k].1 as int,
                out@[k].2 as int,
                out@[k].3,
            ),
            forall|k: int| 0 <= k < out@.len() ==> block_before(#[trigger] out@[k], fi as int, 0, 0),
            forall|i: int, j: int| 0 <= i < j < out@.len() ==> out@[i] != out@[j],
            forall|k: int| 0 <= k < out@.len() ==> (#[trigger] out@[k]).2 <= p.files@[out@[k].0 as int].children@.len(),
            forall|f: int, a: int, b: int, kind: OrderingKind| #[trigger] selected_block(*p, f, a, b, kind) && f < fi
                ==> exists|k: int| 0 <= k < out@.len() && (#[trigger] out@[k]) == (f as usize, a as usize, b as usize, kind),
        decreases nf - fi,
    {
        match file_scope(p, fi) {
            None => {},
            Some(si) => {
                let file = &p.files[fi];
                let scope = p.facts[si].key.as_str();
                let mut pass: usize = 0;
                while pass < 2
                    invariant
                        nf == p.files@.len(),
                        fi < nf,
                        pass <= 2,
                        *file == p.files@[fi as int],
                        file_scope_of(*p, fi as int) == Some(si as int),
                        si < p.facts@.len(),
                        scope@ == p.facts@[si as int].key@,
                        forall|k: int| 0 <= k < out@.len() ==> selected_block(
                            *p,
                            (#[trigger] out@[k]).0 as int,
                            out@[k].1 as int,
                            out@[k].2 as int,
                            out@[k].3,
                        ),
                        forall|k: int| 0 <= k < out@.len() ==> block_before(#[trigger] out@[k], fi as int, pass as int, 0),
                        forall|i: int, j: int| 0 <= i < j < out@.len() ==> out@[i] != out@[j],
                        forall|k: int| 0 <= k < out@.len() ==> (#[trigger] out@[k]).2 <= p.files@[out@[k].0 as int].children@.len(),
                        forall|f: int, a: int, b: int, kind: OrderingKind| #[trigger] selected_block(*p, f, a, b, kind) && (f < fi || (f
                            == fi && kind_rank(kind) < pass)) ==> exists|k: int|
                            0 <= k < out@.len() && (#[trigger] out@[k]) == (f as usize, a as usize, b as usize, kind),
                    decreases 2 - pass,
                {
                    let kind = if pass == 0 {
                        OrderingKind::Imports
                    } else {
                        OrderingKind::Functions
                    };
                    let eligible = match kind {
                        OrderingKind::Imports => p.import_eligibility.eligible,
                        OrderingKind::Functions => p.function_eligibility.eligible,
                    };
                    if eligible {
                        let accepts = simple_items(&file.children, kind);
                        assert(accepts@ =~= accepts_of(*file, kind));
                        let rs = runs(&accepts);
                        let nr = rs.len();
                        let mut j: usize = 0;
                        while j < nr
                            invariant
                                nf == p.files@.len(),
                                fi < nf,
                                *file == p.files@[fi as int],
                                file_scope_of(*p, fi as int) == Some(si as int),
                                si < p.facts@.len(),
                                scope@ == p.facts@[si as int].key@,
                                kind_rank(kind) == pass,
                                kind_eligible(*p, kind),
                                nr == rs@.len(),
                                j <= nr,
                                are_runs(accepts_of(*file, kind), rs@),
                                forall|k: int| 0 <= k < out@.len() ==> selected_block(
                                    *p,
                                    (#[trigger] out@[k]).0 as int,
                                    out@[k].1 as int,
                                    out@[k].2 as int,
                                    out@[k].3,
                                ),
                                forall|k: int| 0 <= k < out@.len() ==> block_before(
                                    #[trigger] out@[k],
                                    fi as int,
                                    pass as int,
                                    if j < nr { rs@[j as int].0 as int } else { file.children@.len() as int + 1 },
                                ),
                                forall|i: int, l: int| 0 <= i < l < out@.len() ==> out@[i] != out@[l],
                                forall|k: int| 0 <= k < out@.len() ==> (#[trigger] out@[k]).2 <= p.files@[out@[k].0 as int].children@.len(),
                                forall|f: int, a: int, b: int, kd: OrderingKind| #[trigger] selected_block(*p, f, a, b, kd) && (f < fi
                                    || (f == fi && kind_rank(kd) < pass)) ==> exists|k: int|
                                    0 <= k < out@.len() && (#[trigger] out@[k]) == (f as usize, a as usize, b as usize, kd),
                                forall|m: int, b: int| 0 <= m < j && #[trigger] selected_block(*p, fi as int, rs@[m].0 as int, b, kind) ==> exists|k: int|
                                    0 <= k < out@.len() && (#[trigger] out@[k]) == (fi, rs@[m].0, b as usize, kind),
                            decreases nr - j,
                        {
                            let (a, b) = rs[j];
                            proof {
                                assert(maximal_run(accepts_of(*file, kind), a as int, b as int));
                            }
                            let items = slice_of(&file.children, a, b);
                            match select_block(p, scope, items, kind) {
                                Some(_) => {
                                    let ghost before = out@;
                                    out.push((fi, a, b, kind));
                                    proof {
                                        assert(selected_block(*p, fi as int, a as int, b as int, kind));
                                        assert forall|k: int| 0 <= k < out@.len() implies block_before(
                                            #[trigger] out@[k],
                                            fi as int,
                                            pass as int,
                                            if j + 1 < nr { rs@[j + 1].0 as int } else { file.children@.len() as int + 1 },
                                        ) by {
                                            if j + 1 < nr {
                                                assert(rs@[j as int].1 < rs@[j + 1].0);
                                            }
                                            if k < before.len() {
                                                assert(out@[k] == before[k]);
                                            }
                                        }
                                        assert forall|i: int, l: int| 0 <= i < l < out@.len() implies out@[i] != out@[l] by {
                                            if l == before.len() {
                                                assert(block_before(before[i], fi as int, pass as int, a as int));
                                            } else {
                                                assert(out@[i] == before[i]);
                                                assert(out@[l] == before[l]);
                                            }
                                        }
                                        assert forall|f: int, a2: int, b2: int, kd: OrderingKind| #[trigger] selected_block(
                                            *p,
                                            f,
                                            a2,
                                            b2,
                                            kd,
                                        ) && (f < fi || (f == fi && kind_rank(kd) < pass)) implies exists|k: int|
                                            0 <= k < out@.len() && (#[trigger] out@[k]) == (f as usize, a2 as usize, b2 as usize, kd) by {
                                            let k = choose|k: int| 0 <= k < before.len() && (#[trigger] before[k]) == (f as usize, a2 as usize, b2 as usize, kd);
                                            assert(out@[k] == before[k]);
                                        }
                                        assert forall|m: int, b2: int| 0 <= m < j + 1 && #[trigger] selected_block(
                                            *p,
                                            fi as int,
                                            rs@[m].0 as int,
                                            b2,
                                            kind,
                                        ) implies exists|k: int|
                                            0 <= k < out@.len() && (#[trigger] out@[k]) == (fi, rs@[m].0, b2 as usize, kind) by {
                                            if m < j {
                                                let k = choose|k: int| 0 <= k < before.len() && (#[trigger] before[k]) == (fi, rs@[m].0, b2 as usize, kind);
                                                assert(out@[k] == before[k]);
                                            } else {
                                                assert(b2 == b) by {
                                                    if b2 < b {
                                                        assert(accepts_of(*file, kind)[b2]);
                                                    }
                                                    if b < b2 {
                                                        assert(accepts_of(*file, kind)[b as int]);
                                                    }
                                                }
                                                assert(out@[before.len() as int] == (fi, rs@[m].0, b2 as usize, kind));
                                            }
                                        }
                                    }
                                },
                                None => {
                                    proof {
                                        assert forall|bb: int| !#[trigger] selected_block(*p, fi as int, a as int, bb, kind)
                                            by {
                                            if selected_block(*p, fi as int, a as int, bb, kind) {
                                                assert(bb == b) by {
                                                    if bb < b {
                                                        assert(accepts_of(*file, kind)[bb]);
                                                    }
                                                    if b < bb {
                                                        assert(accepts_of(*file, kind)[b as int]);
                                                    }
                                                }
                                            }
                                        }
                                        assert forall|k: int| 0 <= k < out@.len() implies block_before(
                                            #[trigger] out@[k],
                                            fi as int,
                                            pass as int,
                                            if j + 1 < nr { rs@[j + 1].0 as int } else { file.children@.len() as int + 1 },
                                        ) by {
                                            if j + 1 < nr {
                                                assert(rs@[j as int].1 < rs@[j + 1].0);
                                            }
                                        }
                                    }
                                },
                            }
                            j = j + 1;
                        }
                        proof {
                            assert forall|f: int, a: int, b: int, kd: OrderingKind| #[trigger] selected_block(*p, f, a, b, kd) && (f < fi
                                || (f == fi && kind_rank(kd) < pass + 1)) implies exists|k: int|
                                0 <= k < out@.len() && (#[trigger] out@[k]) == (f as usize, a as usize, b as usize, kd) by {
                                if f == fi && kind_rank(kd) == pass {
                                    assert(kd == kind);
                                    vstd::std_specs::vec::axiom_spec_len(&file.children);
                                    assert(0 <= a && b <= file.children@.len());
                                    let m = choose|m: int| 0 <= m < rs@.len() && (#[trigger] rs@[m]) == (a as usize, b as usize);
                                    assert(rs@[m].0 as int == a);
                                    assert(selected_block(*p, fi as int, rs@[m].0 as int, b, kind));
                                }
                            }
                        }
                    } else {
                        proof {
                            assert forall|f: int, a: int, b: int, kd: OrderingKind| #[trigger] selected_block(*p, f, a, b, kd) && (f < fi
                                || (f == fi && kind_rank(kd) < pass + 1)) implies exists|k: int|
                                0 <= k < out@.len() && (#[trigger] out@[k]) == (f as usize, a as usize, b as usize, kd) by {
                                if f == fi && kind_rank(kd) == pass {
                                    assert(kd == kind);
                                }
                            }
                        }
                    }
                    pass = pass + 1;
                }
            },
        }
        proof {
            assert forall|f: int, a: int, b: int, kind: OrderingKind| #[trigger] selected_block(*p, f, a, b, kind) && f < fi + 1
                implies exists|k: int| 0 <= k < out@.len() && (#[trigger] out@[k]) == (f as usize, a as usize, b as usize, kind) by {
                if f == fi {
                    assert(kind_rank(kind) < 2);
                }
            }
        }
        fi = fi + 1;
    }
    out
}

/// The siblings from `a` to `b`.
fn slice_of(v: &Vec<TopLevelItem>, a: usize, b: usize) -> (r: &[TopLevelItem])
    requires
        a <= b <= v@.len(),
    ensures
        r@ == v@.subrange(a as int, b as int),
{
    vstd::slice::slice_subrange(v.as_slice(), a, b)
}
} // verus!
