//! What the syntax shapes and sites that the detectors rewrite guarantee of
//! the tree and the graphs they come from: the conditions under which a
//! rewrite keeps the behaviour of the code it replaces.

use vstd::prelude::*;
use super::retained::{
    first_match, lemma_first_match_found, lemma_sites_in_range, node_step, non_structured_key_is,
    scan_graphs, scan_nodes, site_in_range, graph_lookups, unreachable_sites_of, RetainedProjection, SyntaxNode,
    UnreachableSite,
};
use super::branch_detect::{branch_shape_of, field_child, fills_field};
use super::branch_detect::{branch_site_ok, branch_sites_of, lemma_branch_sites_ok};
use super::merge_detect::{
    alternative_of, condition_binds, is_let_kind, lemma_merge_sites_ok, let_below, let_below_from, merge_shape_of,
    merge_site_ok, merge_sites_of, opt_int, single_if_in_block_of,
};
use super::chain_detect::{
    chain_from, chain_shape_of, chain_site_ok, chain_sites_of, equality_case_of, lemma_chain_sites_ok, ChainCase,
};
use super::split_detect::{
    action_roots, action_slices, lemma_split_sites_ok, split_shape_of, split_site_ok, split_sites_of, SplitSite,
};
use super::slice::flow_closure;

verus! {

/// One step of a walk down the tree: the node after position `i` is a
/// child of the node at it.
pub open spec fn child_step(nodes: Seq<SyntaxNode>, path: Seq<int>, i: int) -> bool {
    exists|j: int|
        0 <= j < nodes[path[i]].children@.len() && #[trigger] nodes[path[i]].children@[j] as int == path[i + 1]
}

/// A walk down the tree: positions in the tree, each after the first a
/// child of the one before it.
pub open spec fn descent(nodes: Seq<SyntaxNode>, path: Seq<int>) -> bool {
    &&& path.len() >= 1
    &&& forall|i: int| 0 <= i < path.len() ==> 0 <= #[trigger] path[i] < nodes.len()
    &&& forall|i: int| 0 <= i < path.len() - 1 ==> #[trigger] child_step(nodes, path, i)
}

/// Node `c` binds nothing: neither it nor any node below it is a `let`
/// condition or a `let` chain.
pub open spec fn binds_nothing(nodes: Seq<SyntaxNode>, c: int) -> bool {
    forall|path: Seq<int>|
        #![trigger descent(nodes, path), path[0]]
        descent(nodes, path) && path[0] == c ==> nodes[path.last()].kind@ != "let_condition"@
            && nodes[path.last()].kind@ != "let_chain"@
}

proof fn lemma_descent_tail(nodes: Seq<SyntaxNode>, path: Seq<int>)
    requires
        descent(nodes, path),
        path.len() >= 2,
    ensures
        descent(nodes, path.drop_first()),
        path.drop_first()[0] == path[1],
        path.drop_first().last() == path.last(),
{
    let t = path.drop_first();
    assert forall|i: int| 0 <= i < t.len() implies 0 <= #[trigger] t[i] < nodes.len() by {
        assert(t[i] == path[i + 1]);
    }
    assert forall|i: int| 0 <= i < t.len() - 1 implies #[trigger] child_step(nodes, t, i) by {
        assert(child_step(nodes, path, i + 1));
        assert(t[i] == path[i + 1] && t[i + 1] == path[i + 2]);
    }
}

proof fn lemma_let_below_none(nodes: Seq<SyntaxNode>, n: int, depth: nat)
    requires
        0 <= n < nodes.len(),
        let_below(nodes, n, depth) == Ok::<bool, ()>(false),
    ensures
        forall|path: Seq<int>|
            #![trigger descent(nodes, path), path[0]]
            descent(nodes, path) && path[0] == n && path.len() >= 2 ==> !is_let_kind(nodes[path.last()]),
    decreases depth, nodes[n].children@.len() + 1,
{
    lemma_let_below_from_none(nodes, n, 0, depth);
    assert forall|path: Seq<int>|
        #![trigger descent(nodes, path), path[0]]
        descent(nodes, path) && path[0] == n && path.len() >= 2 implies !is_let_kind(nodes[path.last()]) by {
        assert(child_step(nodes, path, 0));
        let ch = nodes[n].children@;
        let j = choose|j: int| 0 <= j < ch.len() && #[trigger] ch[j] as int == path[1];
        assert(ch[j] as int == path[1]);
    }
}

proof fn lemma_let_below_from_none(nodes: Seq<SyntaxNode>, n: int, k: int, depth: nat)
    requires
        0 <= n < nodes.len(),
        0 <= k,
        let_below_from(nodes, n, k, depth) == Ok::<bool, ()>(false),
    ensures
        forall|path: Seq<int>, j: int|
            #![trigger descent(nodes, path), nodes[n].children@[j]]
            descent(nodes, path) && path[0] == n && path.len() >= 2 && k <= j < nodes[n].children@.len()
                && nodes[n].children@[j] as int == path[1] ==> !is_let_kind(nodes[path.last()]),
    decreases depth, nodes[n].children@.len() - k,
{
    let ch = nodes[n].children@;
    if k < ch.len() {
        let c = ch[k] as int;
        assert(c < nodes.len() && !is_let_kind(nodes[c]));
        if nodes[c].children@.len() == 0 {
            lemma_let_below_from_none(nodes, n, k + 1, depth);
        } else {
            assert(depth > 0);
            lemma_let_below_none(nodes, c, (depth - 1) as nat);
            lemma_let_below_from_none(nodes, n, k + 1, depth);
        }
        assert forall|path: Seq<int>, j: int|
            #![trigger descent(nodes, path), nodes[n].children@[j]]
            descent(nodes, path) && path[0] == n && path.len() >= 2 && k <= j < ch.len() && ch[j] as int
                == path[1] implies !is_let_kind(nodes[path.last()]) by {
            if path[1] == c {
                if path.len() > 2 {
                    lemma_descent_tail(nodes, path);
                    let t = path.drop_first();
                    assert(child_step(nodes, t, 0));
                    assert(nodes[c].children@.len() > 0);
                    assert(descent(nodes, t) && t[0] == c && t.len() >= 2);
                }
            } else {
                assert(j != k);
                assert(nodes[n].children@[j] == ch[j]);
            }
        }
    }
}

/// A condition that `condition_binds` clears binds nothing.
pub proof fn lemma_condition_binds_nothing(nodes: Seq<SyntaxNode>, c: int)
    requires
        0 <= c < nodes.len(),
        condition_binds(nodes, c) == Ok::<bool, ()>(false),
    ensures
        binds_nothing(nodes, c),
{
    lemma_let_below_none(nodes, c, nodes.len());
    assert forall|path: Seq<int>|
        #![trigger descent(nodes, path), path[0]]
        descent(nodes, path) && path[0] == c implies nodes[path.last()].kind@ != "let_condition"@
            && nodes[path.last()].kind@ != "let_chain"@ by {
        if path.len() == 1 {
            assert(path.last() == path[0]);
        } else {
            assert(!is_let_kind(nodes[path.last()]));
        }
    }
}

/// A child found by field lies in the tree.
proof fn lemma_field_child_bounds(nodes: Seq<SyntaxNode>, n: int, field: Seq<char>)
    requires
        field_child(nodes, n, field) matches Ok(Some(_)),
    ensures
        0 <= field_child(nodes, n, field)->Ok_0->Some_0 < nodes.len(),
{
    lemma_first_match_found(nodes[n].children@, fills_field(nodes, field));
}

/// An `||` merge turns `if a A else if b B [else F]` into
/// `if (a) || (b) A [else F]`, which runs the same code for every truth
/// value of `a` and `b` only when `A` and `B` are the same block. So: the
/// outer branch's condition and consequence are the merge's left condition
/// and success body, a block; its alternative is the inner branch, whose
/// condition is the right condition, whose consequence has the same text
/// as the success body, and whose alternative is the fallback; and neither
/// condition binds.
pub proof fn law_or_merge_shares_success(nodes: Seq<SyntaxNode>, o: int)
    requires
        0 <= o < nodes.len(),
        nodes.len() <= usize::MAX,
        merge_shape_of(nodes, o) matches Ok(Some(m)) && m.kind is OrSharedSuccess,
    ensures
        ({
            let m = merge_shape_of(nodes, o)->Ok_0->Some_0;
            &&& field_child(nodes, o, "condition"@) == Ok::<Option<int>, ()>(Some(m.left as int))
            &&& field_child(nodes, o, "consequence"@) == Ok::<Option<int>, ()>(Some(m.success as int))
            &&& alternative_of(nodes, o) == Ok::<Option<int>, ()>(Some(m.inner as int))
            &&& field_child(nodes, m.inner as int, "condition"@) == Ok::<Option<int>, ()>(Some(m.right as int))
            &&& nodes[m.success as int].kind@ == "block"@
            &&& exists|t: int|
                field_child(nodes, m.inner as int, "consequence"@) == Ok::<Option<int>, ()>(Some(t))
                    && #[trigger] nodes[t].text@ == nodes[m.success as int].text@
            &&& alternative_of(nodes, m.inner as int) == Ok::<Option<int>, ()>(opt_int(m.fallback))
            &&& binds_nothing(nodes, m.left as int)
            &&& binds_nothing(nodes, m.right as int)
        }),
{
    let m = merge_shape_of(nodes, o)->Ok_0->Some_0;
    lemma_field_child_bounds(nodes, o, "condition"@);
    lemma_field_child_bounds(nodes, o, "consequence"@);
    let left = field_child(nodes, o, "condition"@)->Ok_0->Some_0;
    let outer_then = field_child(nodes, o, "consequence"@)->Ok_0->Some_0;
    lemma_condition_binds_nothing(nodes, left);
    let inner = alternative_of(nodes, o)->Ok_0->Some_0;
    lemma_field_child_bounds(nodes, o, "alternative"@);
    assert(0 <= inner <= usize::MAX);
    lemma_field_child_bounds(nodes, inner, "condition"@);
    lemma_field_child_bounds(nodes, inner, "consequence"@);
    let right = field_child(nodes, inner, "condition"@)->Ok_0->Some_0;
    lemma_condition_binds_nothing(nodes, right);
    let inner_then = field_child(nodes, inner, "consequence"@)->Ok_0->Some_0;
    assert(nodes[inner_then].text@ == nodes[m.success as int].text@);
    if field_child(nodes, inner, "alternative"@) matches Ok(Some(_)) {
        lemma_field_child_bounds(nodes, inner, "alternative"@);
    }
    if alternative_of(nodes, inner) is Ok && alternative_of(nodes, inner)->Ok_0 is Some {
        let f = alternative_of(nodes, inner)->Ok_0->Some_0;
        assert(0 <= f <= usize::MAX);
    }
}

/// A split stores the branch's predicate in a boolean temporary and tests
/// it before each action, which keeps the branch's behaviour only when the
/// predicate binds nothing. So: the split's predicate is the branch's
/// condition, neither it nor any node below it is a `let` condition or
/// `let` chain, and the branch has no alternative.
pub proof fn law_split_predicate_binds_nothing(nodes: Seq<SyntaxNode>, b: int)
    requires
        0 <= b < nodes.len(),
        split_shape_of(nodes, b) matches Ok(Some(_)),
    ensures
        ({
            let pred = split_shape_of(nodes, b)->Ok_0->Some_0.0;
            &&& field_child(nodes, b, "condition"@) == Ok::<Option<int>, ()>(Some(pred))
            &&& binds_nothing(nodes, pred)
            &&& field_child(nodes, b, "alternative"@) == Ok::<Option<int>, ()>(None)
        }),
{
    lemma_field_child_bounds(nodes, b, "condition"@);
    let pred = field_child(nodes, b, "condition"@)->Ok_0->Some_0;
    lemma_condition_binds_nothing(nodes, pred);
}

/// Factoring a branch binds its condition to a boolean once, which only an
/// expression allows. So the condition of a factored branch is the
/// branch's condition child and is neither a `let` condition nor a `let`
/// chain.
pub proof fn law_branch_condition_is_expression(nodes: Seq<SyntaxNode>, b: int)
    requires
        branch_shape_of(nodes, b) matches Ok(Some(_)),
    ensures
        ({
            let c = branch_shape_of(nodes, b)->Ok_0->Some_0.0;
            &&& field_child(nodes, b, "condition"@) == Ok::<Option<int>, ()>(Some(c))
            &&& nodes[c].kind@ != "let_condition"@
            &&& nodes[c].kind@ != "let_chain"@
        }),
{
}

/// A chain case compares the chain's subject by value: its pattern is a
/// path or a literal (never a bare identifier, which a match arm would
/// bind instead of compare), its subject is an identifier with the text of
/// the first case's subject, no earlier case holds the same pattern text,
/// and its body, which becomes the arm's body, is an error-free block.
pub open spec fn cases_compare_by_value(nodes: Seq<SyntaxNode>, cases: Seq<ChainCase>) -> bool {
    &&& forall|i: int|
        #![trigger cases[i]]
        0 <= i < cases.len() ==> {
            let k = nodes[cases[i].pattern as int].kind@;
            &&& k == "scoped_identifier"@ || k == "integer_literal"@ || k == "char_literal"@ || k
                == "string_literal"@ || k == "boolean_literal"@
            &&& k != "identifier"@
            &&& nodes[cases[i].subject as int].kind@ == "identifier"@
            &&& nodes[cases[i].subject as int].text@ == nodes[cases[0].subject as int].text@
            &&& nodes[cases[i].body as int].kind@ == "block"@
            &&& !nodes[cases[i].body as int].has_error
        }
    &&& forall|i: int, j: int|
        #![trigger cases[i], cases[j]]
        0 <= i < j < cases.len() ==> nodes[cases[i].pattern as int].text@ != nodes[cases[j].pattern as int].text@
}

proof fn lemma_pattern_kinds_not_identifier()
    ensures
        "scoped_identifier"@ != "identifier"@,
        "integer_literal"@ != "identifier"@,
        "char_literal"@ != "identifier"@,
        "string_literal"@ != "identifier"@,
        "boolean_literal"@ != "identifier"@,
{
    reveal_strlit("identifier");
    reveal_strlit("scoped_identifier");
    reveal_strlit("integer_literal");
    reveal_strlit("char_literal");
    reveal_strlit("string_literal");
    reveal_strlit("boolean_literal");
    assert("identifier"@.len() == 10);
}

proof fn lemma_equality_case(nodes: Seq<SyntaxNode>, c: int)
    requires
        equality_case_of(nodes, c) matches Ok(Some(_)),
    ensures
        ({
            let sp = equality_case_of(nodes, c)->Ok_0->Some_0;
            let k = nodes[sp.1].kind@;
            &&& 0 <= sp.0 < nodes.len()
            &&& 0 <= sp.1 < nodes.len()
            &&& nodes[sp.0].kind@ == "identifier"@
            &&& k == "scoped_identifier"@ || k == "integer_literal"@ || k == "char_literal"@ || k
                == "string_literal"@ || k == "boolean_literal"@
        }),
{
    lemma_field_child_bounds(nodes, c, "left"@);
    lemma_field_child_bounds(nodes, c, "right"@);
}

proof fn lemma_chain_from_compares(nodes: Seq<SyntaxNode>, current: int, cases: Seq<ChainCase>)
    requires
        nodes.len() <= usize::MAX,
        cases_compare_by_value(nodes, cases),
        chain_from(nodes, current, cases) matches Ok(Some(_)),
    ensures
        cases_compare_by_value(nodes, chain_from(nodes, current, cases)->Ok_0->Some_0.0),
    decreases 6 - cases.len(),
{
    lemma_pattern_kinds_not_identifier();
    if cases.len() < 6 {
        let c = field_child(nodes, current, "condition"@)->Ok_0->Some_0;
        lemma_equality_case(nodes, c);
        let sp = equality_case_of(nodes, c)->Ok_0->Some_0;
        lemma_field_child_bounds(nodes, current, "consequence"@);
        let body = field_child(nodes, current, "consequence"@)->Ok_0->Some_0;
        let new_case = ChainCase {
            branch: current as usize,
            subject: sp.0 as usize,
            pattern: sp.1 as usize,
            body: body as usize,
        };
        let now = cases.push(new_case);
        assert(new_case.pattern as int == sp.1 && new_case.subject as int == sp.0 && new_case.body as int == body);
        assert forall|i: int| 0 <= i < cases.len() implies nodes[(#[trigger] cases[i]).pattern as int].text@
            != nodes[sp.1].text@ by {
            if nodes[cases[i].pattern as int].text@ == nodes[sp.1].text@ {
                assert(super::chain_detect::seen_pattern(nodes, cases, nodes[sp.1].text@));
            }
        }
        assert(cases_compare_by_value(nodes, now)) by {
            assert forall|i: int| #![trigger now[i]] 0 <= i < now.len() implies {
                let k = nodes[now[i].pattern as int].kind@;
                &&& k == "scoped_identifier"@ || k == "integer_literal"@ || k == "char_literal"@ || k
                    == "string_literal"@ || k == "boolean_literal"@
                &&& k != "identifier"@
                &&& nodes[now[i].subject as int].kind@ == "identifier"@
                &&& nodes[now[i].subject as int].text@ == nodes[now[0].subject as int].text@
                &&& nodes[now[i].body as int].kind@ == "block"@
                &&& !nodes[now[i].body as int].has_error
            } by {
                if i < cases.len() {
                    assert(now[i] == cases[i]);
                    assert(now[0] == cases[0]);
                } else {
                    assert(now[i] == new_case);
                    if cases.len() > 0 {
                        assert(now[0] == cases[0]);
                        assert(nodes[cases[0].subject as int].text@ == nodes[sp.0].text@);
                    } else {
                        assert(now[0] == new_case);
                    }
                }
            }
            assert forall|i: int, j: int| #![trigger now[i], now[j]] 0 <= i < j < now.len() implies nodes[now[i].pattern as int].text@
                != nodes[now[j].pattern as int].text@ by {
                assert(now[i] == cases[i]);
                if j < cases.len() {
                    assert(now[j] == cases[j]);
                }
            }
        }
        match chain_from(nodes, current, cases)->Ok_0->Some_0 {
            _ => {
                let alt = field_child(nodes, current, "alternative"@)->Ok_0->Some_0;
                let ts = super::branch_detect::named_children_of(nodes, alt)->Ok_0;
                match first_match(ts, super::chain_detect::is_if_node(nodes)) {
                    Some(k) => {
                        lemma_chain_from_compares(nodes, ts[k] as int, now);
                    },
                    None => {},
                }
            },
        }
    }
}

/// An if/else-if chain becomes a `match` on its subject with one arm per
/// case and a final `_` arm. The match picks the same arm as the chain for
/// every value of the subject only when each case compares by value: each
/// pattern is a path or a literal, never a bare identifier; each case
/// compares the same identifier subject; and no pattern text repeats.
pub proof fn law_chain_cases_compare_by_value(nodes: Seq<SyntaxNode>, b: int)
    requires
        nodes.len() <= usize::MAX,
        chain_shape_of(nodes, b) matches Ok(Some(_)),
    ensures
        cases_compare_by_value(nodes, chain_shape_of(nodes, b)->Ok_0->Some_0.0),
{
    lemma_chain_from_compares(nodes, b, Seq::empty());
}

/// What the graphs say of an unreachable-literal site, so that every
/// condition its candidate records as settled is backed by the projection:
/// the site's positions lie in the projection; its dependence node is
/// unreachable and has a source; its control point
/// and region relation are the node's; the relation is neither reachable
/// nor dominated; the region graph is the dependence graph's and has no
/// residuals; and the non-structured-control graph is the dependence
/// graph's and holds no facts.
pub open spec fn unreachable_site_backed(p: RetainedProjection, s: UnreachableSite) -> bool {
    let g = p.dependence_graphs@[s.graph as int];
    let n = g.nodes@[s.node as int];
    let region = p.region_graphs@[s.region as int];
    let rel = region.relations@[s.relation as int];
    let nsc = p.non_structured_graphs@[s.non_structured as int];
    &&& site_in_range(p, s)
    &&& g.eligibility.eligible
    &&& !n.reachable
    &&& n.source is Some
    &&& p.flow_graphs@[s.flow as int].key@ == g.flow_graph@
    &&& p.flow_graphs@[s.flow as int].points@[s.point as int].key@ == n.point@
    &&& region.key@ == g.region_graph@
    &&& rel.key@ == n.region_point@
    &&& !rel.reachable
    &&& !rel.dominated
    &&& !region.has_residuals
    &&& nsc.key@ == g.non_structured_graph@
    &&& !nsc.has_facts
}

proof fn lemma_node_step_backed(
    p: RetainedProjection,
    gi: int,
    ni: int,
    l: (int, int, int, int),
    claimed: Set<super::super::target::NodeKeyView>,
)
    requires
        0 <= gi < p.dependence_graphs@.len(),
        0 <= ni < p.dependence_graphs@[gi].nodes@.len(),
        p.dependence_graphs@[gi].eligibility.eligible,
        graph_lookups(p, gi) == Ok::<(int, int, int, int), ()>(l),
        site_in_range(p, node_step(p, gi, ni, l, claimed)->Ok_0.0->Some_0),
        node_step(p, gi, ni, l, claimed) matches Ok((Some(_), _)),
    ensures
        unreachable_site_backed(p, node_step(p, gi, ni, l, claimed)->Ok_0.0->Some_0),
{
    let g = p.dependence_graphs@[gi];
    let n = g.nodes@[ni];
    lemma_first_match_found(p.flow_graphs@, super::retained::flow_key_is(g.flow_graph@));
    lemma_first_match_found(p.region_graphs@, super::retained::region_key_is(g.region_graph@));
    lemma_first_match_found(p.non_structured_graphs@, non_structured_key_is(g.non_structured_graph@));
    let flow = p.flow_graphs@[l.0];
    let region = p.region_graphs@[l.1];
    lemma_first_match_found(flow.points@, super::retained::point_key_is(n.point@));
    lemma_first_match_found(region.relations@, super::retained::relation_key_is(n.region_point@));
    vstd::std_specs::vec::axiom_spec_len(&p.dependence_graphs);
    vstd::std_specs::vec::axiom_spec_len(&g.nodes);
    vstd::std_specs::vec::axiom_spec_len(&p.flow_graphs);
    vstd::std_specs::vec::axiom_spec_len(&flow.points);
    vstd::std_specs::vec::axiom_spec_len(&p.region_graphs);
    vstd::std_specs::vec::axiom_spec_len(&region.relations);
    vstd::std_specs::vec::axiom_spec_len(&p.non_structured_graphs);
    let site = node_step(p, gi, ni, l, claimed)->Ok_0.0->Some_0;
    assert(site.graph as int == gi && site.node as int == ni);
    assert(site.flow as int == l.0 && site.region as int == l.1 && site.non_structured as int == l.2);
}

proof fn lemma_scan_nodes_backed(
    p: RetainedProjection,
    gi: int,
    l: (int, int, int, int),
    claimed: Set<super::super::target::NodeKeyView>,
    k: nat,
)
    requires
        0 <= gi < p.dependence_graphs@.len(),
        k <= p.dependence_graphs@[gi].nodes@.len(),
        p.dependence_graphs@[gi].eligibility.eligible,
        graph_lookups(p, gi) == Ok::<(int, int, int, int), ()>(l),
        scan_nodes(p, gi, l, claimed, k) is Ok,
        forall|i: int| 0 <= i < scan_nodes(p, gi, l, claimed, k)->Ok_0.0.len() ==> site_in_range(
            p,
            #[trigger] scan_nodes(p, gi, l, claimed, k)->Ok_0.0[i],
        ),
    ensures
        forall|i: int| 0 <= i < scan_nodes(p, gi, l, claimed, k)->Ok_0.0.len() ==> unreachable_site_backed(
            p,
            #[trigger] scan_nodes(p, gi, l, claimed, k)->Ok_0.0[i],
        ),
    decreases k,
{
    if k > 0 {
        let prev = scan_nodes(p, gi, l, claimed, (k - 1) as nat)->Ok_0;
        let all = scan_nodes(p, gi, l, claimed, k)->Ok_0.0;
        assert forall|i: int| 0 <= i < prev.0.len() implies site_in_range(p, #[trigger] prev.0[i]) by {
            assert(all[i] == prev.0[i]);
            assert(site_in_range(p, all[i]));
        }
        lemma_scan_nodes_backed(p, gi, l, claimed, (k - 1) as nat);
        let step = node_step(p, gi, k - 1, l, prev.1);
        if step matches Ok((Some(_), _)) {
            assert(all[prev.0.len() as int] == step->Ok_0.0->Some_0);
            assert(site_in_range(p, all[prev.0.len() as int]));
            lemma_node_step_backed(p, gi, k - 1, l, prev.1);
        }
        assert forall|i: int| 0 <= i < all.len() implies unreachable_site_backed(p, #[trigger] all[i]) by {
            if i < prev.0.len() {
                assert(all[i] == prev.0[i]);
            }
        }
    }
}

proof fn lemma_scan_graphs_backed(p: RetainedProjection, j: nat)
    requires
        j <= p.dependence_graphs@.len(),
        scan_graphs(p, j) is Ok,
    ensures
        forall|i: int| 0 <= i < scan_graphs(p, j)->Ok_0.0.len() ==> unreachable_site_backed(
            p,
            #[trigger] scan_graphs(p, j)->Ok_0.0[i],
        ),
    decreases j,
{
    if j > 0 {
        lemma_scan_graphs_backed(p, (j - 1) as nat);
        lemma_sites_in_range(p, j);
        let prev = scan_graphs(p, (j - 1) as nat)->Ok_0;
        let g = p.dependence_graphs@[j - 1];
        if g.eligibility.eligible {
            let l = graph_lookups(p, j - 1)->Ok_0;
            let more = scan_nodes(p, j - 1, l, prev.1, g.nodes@.len())->Ok_0.0;
            let all = scan_graphs(p, j)->Ok_0.0;
            assert forall|i: int| 0 <= i < more.len() implies site_in_range(p, #[trigger] more[i]) by {
                assert(all[i + prev.0.len()] == more[i]);
                assert(site_in_range(p, all[i + prev.0.len()]));
            }
            lemma_scan_nodes_backed(p, j - 1, l, prev.1, g.nodes@.len());
            assert forall|i: int| 0 <= i < all.len() implies unreachable_site_backed(p, #[trigger] all[i]) by {
                if i < prev.0.len() {
                    assert(all[i] == prev.0[i]);
                } else {
                    assert(all[i] == more[i - prev.0.len()]);
                }
            }
        }
    }
}

/// An unreachable literal statement is deleted only where the projection
/// backs every condition the candidate records as settled: for every site
/// of a projection, its dependence graph is eligible, its node is
/// unreachable, its region relation is neither reachable nor dominated,
/// its region graph has no residuals, and the callable's non-structured
/// control graph holds no facts (see `unreachable_site_backed`).
pub proof fn law_unreachable_sites_backed(p: RetainedProjection)
    requires
        unreachable_sites_of(p) is Ok,
    ensures
        forall|i: int|
            0 <= i < unreachable_sites_of(p)->Ok_0.len() ==> unreachable_site_backed(
                p,
                #[trigger] unreachable_sites_of(p)->Ok_0[i],
            ),
{
    lemma_scan_graphs_backed(p, p.dependence_graphs@.len());
}

/// Every `||` merge site of a projection shares its success body: the
/// inner branch's consequence has the text of the success body, so the
/// merged branch runs the same block as before (see
/// `law_or_merge_shares_success`).
pub proof fn law_or_merge_sites_share_success(p: RetainedProjection)
    requires
        merge_sites_of(p) is Ok,
    ensures
        forall|i: int|
            0 <= i < merge_sites_of(p)->Ok_0.len() && (#[trigger] merge_sites_of(p)->Ok_0[i]).shape.kind
                is OrSharedSuccess ==> {
                let m = merge_sites_of(p)->Ok_0[i].shape;
                &&& alternative_of(p.syntax@, merge_sites_of(p)->Ok_0[i].outer as int) == Ok::<Option<int>, ()>(
                    Some(m.inner as int),
                )
                &&& exists|t: int|
                    field_child(p.syntax@, m.inner as int, "consequence"@) == Ok::<Option<int>, ()>(Some(t))
                        && #[trigger] p.syntax@[t].text@ == p.syntax@[m.success as int].text@
            },
{
    lemma_merge_sites_ok(p, p.dependence_graphs@.len());
    vstd::std_specs::vec::axiom_spec_len(&p.syntax);
    let sites = merge_sites_of(p)->Ok_0;
    assert forall|i: int|
        0 <= i < sites.len() && (#[trigger] sites[i]).shape.kind is OrSharedSuccess implies {
            let m = sites[i].shape;
            &&& alternative_of(p.syntax@, sites[i].outer as int) == Ok::<Option<int>, ()>(Some(m.inner as int))
            &&& exists|t: int|
                field_child(p.syntax@, m.inner as int, "consequence"@) == Ok::<Option<int>, ()>(Some(t))
                    && #[trigger] p.syntax@[t].text@ == p.syntax@[m.success as int].text@
        } by {
        assert(merge_site_ok(p, sites[i]));
        law_or_merge_shares_success(p.syntax@, sites[i].outer as int);
    }
}

/// Every chain site of a projection compares by value (see
/// `law_chain_cases_compare_by_value`).
pub proof fn law_chain_sites_compare_by_value(p: RetainedProjection)
    requires
        chain_sites_of(p) is Ok,
    ensures
        forall|i: int|
            0 <= i < chain_sites_of(p)->Ok_0.len() ==> cases_compare_by_value(
                p.syntax@,
                chain_shape_of(p.syntax@, (#[trigger] chain_sites_of(p)->Ok_0[i]).branch as int)->Ok_0->Some_0.0,
            ),
{
    lemma_chain_sites_ok(p, p.dependence_graphs@.len());
    vstd::std_specs::vec::axiom_spec_len(&p.syntax);
    let sites = chain_sites_of(p)->Ok_0;
    assert forall|i: int| 0 <= i < sites.len() implies cases_compare_by_value(
        p.syntax@,
        chain_shape_of(p.syntax@, (#[trigger] sites[i]).branch as int)->Ok_0->Some_0.0,
    ) by {
        assert(chain_site_ok(p, sites[i]));
        law_chain_cases_compare_by_value(p.syntax@, sites[i].branch as int);
    }
}

/// The predicate of every split site of a projection binds nothing (see
/// `law_split_predicate_binds_nothing`).
pub proof fn law_split_sites_bind_nothing(p: RetainedProjection)
    requires
        split_sites_of(p) is Ok,
    ensures
        forall|i: int|
            0 <= i < split_sites_of(p)->Ok_0.len() ==> binds_nothing(
                p.syntax@,
                split_shape_of(p.syntax@, (#[trigger] split_sites_of(p)->Ok_0[i]).branch as int)->Ok_0->Some_0.0,
            ),
{
    lemma_split_sites_ok(p, p.dependence_graphs@.len());
    let sites = split_sites_of(p)->Ok_0;
    assert forall|i: int| 0 <= i < sites.len() implies binds_nothing(
        p.syntax@,
        split_shape_of(p.syntax@, (#[trigger] sites[i]).branch as int)->Ok_0->Some_0.0,
    ) by {
        assert(split_site_ok(p, sites[i]));
        law_split_predicate_binds_nothing(p.syntax@, sites[i].branch as int);
    }
}

/// The condition of every branch-fragment site of a projection is an
/// expression, neither a `let` condition nor a `let` chain (see
/// `law_branch_condition_is_expression`).
pub proof fn law_branch_sites_have_expression_conditions(p: RetainedProjection)
    requires
        branch_sites_of(p) is Ok,
    ensures
        forall|i: int|
            0 <= i < branch_sites_of(p)->Ok_0.len() ==> {
                let c = branch_shape_of(p.syntax@, (#[trigger] branch_sites_of(p)->Ok_0[i]).branch as int)->Ok_0->Some_0.0;
                p.syntax@[c].kind@ != "let_condition"@ && p.syntax@[c].kind@ != "let_chain"@
            },
{
    lemma_branch_sites_ok(p, p.dependence_graphs@.len());
    let sites = branch_sites_of(p)->Ok_0;
    assert forall|i: int| 0 <= i < sites.len() implies {
        let c = branch_shape_of(p.syntax@, (#[trigger] sites[i]).branch as int)->Ok_0->Some_0.0;
        p.syntax@[c].kind@ != "let_condition"@ && p.syntax@[c].kind@ != "let_chain"@
    } by {
        assert(branch_site_ok(p, sites[i]));
        law_branch_condition_is_expression(p.syntax@, sites[i].branch as int);
    }
}

/// An `&&` merge turns `if a { if b B [else F] } [else F]` into
/// `if (a) && (b) B [else F]`, the same code for every truth value of `a`
/// and `b` only when the outer consequence holds nothing but the inner
/// branch and both branches fall back alike: both without an alternative,
/// or both with a block of the same text. So: the outer consequence holds
/// just the inner branch; the merge's conditions and success body are the
/// outer condition, the inner condition and the inner consequence; neither
/// condition binds; and either both alternatives are absent and there is no
/// fallback, or both are blocks with the same text and the outer one is the
/// fallback.
pub proof fn law_and_merge_falls_back_alike(nodes: Seq<SyntaxNode>, o: int)
    requires
        0 <= o < nodes.len(),
        nodes.len() <= usize::MAX,
        merge_shape_of(nodes, o) matches Ok(Some(m)) && !(m.kind is OrSharedSuccess),
    ensures
        ({
            let m = merge_shape_of(nodes, o)->Ok_0->Some_0;
            &&& field_child(nodes, o, "condition"@) == Ok::<Option<int>, ()>(Some(m.left as int))
            &&& exists|t: int|
                field_child(nodes, o, "consequence"@) == Ok::<Option<int>, ()>(Some(t))
                    && #[trigger] single_if_in_block_of(nodes, t) == Ok::<Option<int>, ()>(Some(m.inner as int))
            &&& field_child(nodes, m.inner as int, "condition"@) == Ok::<Option<int>, ()>(Some(m.right as int))
            &&& field_child(nodes, m.inner as int, "consequence"@) == Ok::<Option<int>, ()>(Some(m.success as int))
            &&& binds_nothing(nodes, m.left as int)
            &&& binds_nothing(nodes, m.right as int)
            &&& match m.fallback {
                None => alternative_of(nodes, o) == Ok::<Option<int>, ()>(None) && alternative_of(
                    nodes,
                    m.inner as int,
                ) == Ok::<Option<int>, ()>(None),
                Some(f) => alternative_of(nodes, o) == Ok::<Option<int>, ()>(Some(f as int)) && exists|g: int|
                    alternative_of(nodes, m.inner as int) == Ok::<Option<int>, ()>(Some(g)) && nodes[f as int].kind@
                        == "block"@ && nodes[g].kind@ == "block"@ && #[trigger] nodes[g].text@ == nodes[f as int].text@,
            }
        }),
{
    let m = merge_shape_of(nodes, o)->Ok_0->Some_0;
    lemma_field_child_bounds(nodes, o, "condition"@);
    lemma_field_child_bounds(nodes, o, "consequence"@);
    let left = field_child(nodes, o, "condition"@)->Ok_0->Some_0;
    lemma_condition_binds_nothing(nodes, left);
    let outer_then = field_child(nodes, o, "consequence"@)->Ok_0->Some_0;
    lemma_single_if_bounds(nodes, outer_then);
    let inner = single_if_in_block_of(nodes, outer_then)->Ok_0->Some_0;
    lemma_field_child_bounds(nodes, inner, "condition"@);
    lemma_field_child_bounds(nodes, inner, "consequence"@);
    let right = field_child(nodes, inner, "condition"@)->Ok_0->Some_0;
    lemma_condition_binds_nothing(nodes, right);
    if field_child(nodes, o, "alternative"@) matches Ok(Some(_)) {
        lemma_field_child_bounds(nodes, o, "alternative"@);
    }
    if alternative_of(nodes, o) is Ok && alternative_of(nodes, o)->Ok_0 is Some {
        let f = alternative_of(nodes, o)->Ok_0->Some_0;
        assert(0 <= f <= usize::MAX);
    }
}

proof fn lemma_single_if_bounds(nodes: Seq<SyntaxNode>, b: int)
    requires
        single_if_in_block_of(nodes, b) matches Ok(Some(_)),
    ensures
        0 <= single_if_in_block_of(nodes, b)->Ok_0->Some_0 <= usize::MAX,
{
}

/// The actions of a split site: the direct calls of its branch.
pub open spec fn split_actions(p: RetainedProjection, site: SplitSite) -> Seq<usize> {
    split_shape_of(p.syntax@, site.branch as int)->Ok_0->Some_0.1
}

/// The flow slice of the `a`-th action of a split site: the flow closure,
/// in the site's dependence graph, of the nodes within that action.
pub open spec fn action_slice(p: RetainedProjection, site: SplitSite, a: int) -> Set<Seq<char>> {
    let g = p.dependence_graphs@[site.graph as int];
    flow_closure(g.edges@, action_roots(g.nodes@, p.syntax@[split_actions(p, site)[a] as int].key@))
}

/// Every node of an action's flow slice belongs to no other action's
/// slice: for every split site, the flow closures of the dependence nodes
/// within two different actions share no node, so the actions can run
/// under separate tests of the stored predicate.
pub proof fn law_split_sites_slices_disjoint(p: RetainedProjection)
    requires
        split_sites_of(p) is Ok,
    ensures
        forall|s: int, i: int, j: int, k: Seq<char>|
            0 <= s < split_sites_of(p)->Ok_0.len() && 0 <= i < j < split_actions(p, split_sites_of(p)->Ok_0[s]).len()
                && #[trigger] action_slice(p, split_sites_of(p)->Ok_0[s], i).contains(k) ==> !#[trigger] action_slice(
                p,
                split_sites_of(p)->Ok_0[s],
                j,
            ).contains(k),
{
    lemma_split_sites_ok(p, p.dependence_graphs@.len());
    let sites = split_sites_of(p)->Ok_0;
    assert forall|s: int, i: int, j: int, k: Seq<char>|
        0 <= s < sites.len() && 0 <= i < j < split_actions(p, sites[s]).len() && #[trigger] action_slice(
            p,
            sites[s],
            i,
        ).contains(k) implies !#[trigger] action_slice(p, sites[s], j).contains(k) by {
        let site = sites[s];
        assert(split_site_ok(p, site));
        let acts = split_actions(p, site);
        let g = p.dependence_graphs@[site.graph as int];
        let slices = action_slices(g.nodes@, g.edges@, p.syntax@, acts);
        assert(slices[i] == action_slice(p, site, i));
        assert(slices[j] == action_slice(p, site, j));
        assert(slices[i].contains(k));
    }
}

} // verus!
