//! Flow slices of a program-dependence graph: the nodes that data-flow
//! edges, followed either way, join to a set of roots.

use vstd::prelude::*;
use crate::impact::DependenceEdge;
use crate::order::{compare_str, insert_sorted_str, keys_strictly_increasing, view_set};

verus! {

/// A data-flow edge joins `a` to `b`, in either direction.
pub open spec fn edge_joins(e: DependenceEdge, a: Seq<char>, b: Seq<char>) -> bool {
    e.flow && ((e.from@ == a && e.to@ == b) || (e.to@ == a && e.from@ == b))
}

pub open spec fn flow_adjacent(edges: Seq<DependenceEdge>, a: Seq<char>, b: Seq<char>) -> bool {
    exists|k: int| 0 <= k < edges.len() && #[trigger] edge_joins(edges[k], a, b)
}

pub open spec fn path_step(edges: Seq<DependenceEdge>, path: Seq<Seq<char>>, i: int) -> bool {
    flow_adjacent(edges, path[i], path[i + 1])
}

/// A path from a root along data-flow edges.
pub open spec fn is_flow_path(edges: Seq<DependenceEdge>, roots: Set<Seq<char>>, path: Seq<Seq<char>>) -> bool {
    &&& path.len() > 0
    &&& roots.contains(path[0])
    &&& forall|i: int| 0 <= i < path.len() - 1 ==> #[trigger] path_step(edges, path, i)
}

/// The flow slice of a set of roots: every node some path from a root
/// along data-flow edges reaches.
pub open spec fn flow_closure(edges: Seq<DependenceEdge>, roots: Set<Seq<char>>) -> Set<Seq<char>> {
    Set::new(|k: Seq<char>| exists|path: Seq<Seq<char>>| #[trigger] is_flow_path(edges, roots, path) && path.last() == k)
}

/// No data-flow edge leads out of the set.
pub open spec fn flow_closed(edges: Seq<DependenceEdge>, s: Set<Seq<char>>) -> bool {
    forall|a: Seq<char>, b: Seq<char>| s.contains(a) && #[trigger] flow_adjacent(edges, a, b) ==> s.contains(b)
}

/// A set closed under data-flow edges that holds the roots holds their
/// whole slice.
pub proof fn lemma_closed_holds_closure(edges: Seq<DependenceEdge>, roots: Set<Seq<char>>, s: Set<Seq<char>>)
    requires
        roots.subset_of(s),
        flow_closed(edges, s),
    ensures
        flow_closure(edges, roots).subset_of(s),
{
    assert forall|k: Seq<char>| flow_closure(edges, roots).contains(k) implies s.contains(k) by {
        let path = choose|path: Seq<Seq<char>>| #[trigger] is_flow_path(edges, roots, path) && path.last() == k;
        lemma_path_in_closed(edges, roots, s, path);
    }
}

proof fn lemma_path_in_closed(edges: Seq<DependenceEdge>, roots: Set<Seq<char>>, s: Set<Seq<char>>, path: Seq<Seq<char>>)
    requires
        roots.subset_of(s),
        flow_closed(edges, s),
        is_flow_path(edges, roots, path),
    ensures
        s.contains(path.last()),
    decreases path.len(),
{
    if path.len() > 1 {
        let pre = path.drop_last();
        assert forall|i: int| 0 <= i < pre.len() - 1 implies #[trigger] path_step(edges, pre, i) by {
            assert(path_step(edges, path, i));
            assert(pre[i] == path[i] && pre[i + 1] == path[i + 1]);
        }
        lemma_path_in_closed(edges, roots, s, pre);
        assert(path_step(edges, path, path.len() - 2));
        assert(pre.last() == path[path.len() - 2]);
    }
}

/// A slice holds its roots.
pub proof fn lemma_roots_in_closure(edges: Seq<DependenceEdge>, roots: Set<Seq<char>>, r: Seq<char>)
    requires
        roots.contains(r),
    ensures
        flow_closure(edges, roots).contains(r),
{
    let path = seq![r];
    assert(is_flow_path(edges, roots, path));
}

/// A slice holds what a data-flow edge joins to one of its nodes.
pub proof fn lemma_closure_extends(edges: Seq<DependenceEdge>, roots: Set<Seq<char>>, a: Seq<char>, b: Seq<char>)
    requires
        flow_closure(edges, roots).contains(a),
        flow_adjacent(edges, a, b),
    ensures
        flow_closure(edges, roots).contains(b),
{
    let path = choose|path: Seq<Seq<char>>| #[trigger] is_flow_path(edges, roots, path) && path.last() == a;
    let longer = path.push(b);
    assert forall|i: int| 0 <= i < longer.len() - 1 implies #[trigger] path_step(edges, longer, i) by {
        if i < path.len() - 1 {
            assert(path_step(edges, path, i));
            assert(longer[i] == path[i] && longer[i + 1] == path[i + 1]);
        } else {
            assert(longer[i] == a && longer[i + 1] == b);
        }
    }
    assert(is_flow_path(edges, roots, longer));
}

/// A data-flow edge both of whose ends lie in the set.
pub open spec fn covered(e: DependenceEdge, s: Set<Seq<char>>) -> bool {
    e.flow && s.contains(e.from@) && s.contains(e.to@)
}

/// How many edges the set covers.
pub open spec fn covered_count(edges: Seq<DependenceEdge>, s: Set<Seq<char>>) -> nat
    decreases edges.len(),
{
    if edges.len() == 0 {
        0
    } else {
        covered_count(edges.drop_last(), s) + if covered(edges.last(), s) {
            1nat
        } else {
            0nat
        }
    }
}

proof fn lemma_covered_bounds(edges: Seq<DependenceEdge>, s: Set<Seq<char>>, t: Set<Seq<char>>)
    requires
        s.subset_of(t),
    ensures
        covered_count(edges, s) <= covered_count(edges, t),
        covered_count(edges, t) <= edges.len(),
    decreases edges.len(),
{
    if edges.len() > 0 {
        lemma_covered_bounds(edges.drop_last(), s, t);
    }
}

proof fn lemma_covered_grows(edges: Seq<DependenceEdge>, s: Set<Seq<char>>, t: Set<Seq<char>>, k: int)
    requires
        s.subset_of(t),
        0 <= k < edges.len(),
        covered(edges[k], t),
        !covered(edges[k], s),
    ensures
        covered_count(edges, s) < covered_count(edges, t),
    decreases edges.len(),
{
    lemma_covered_bounds(edges.drop_last(), s, t);
    if k < edges.len() - 1 {
        assert(edges.drop_last()[k] == edges[k]);
        lemma_covered_grows(edges.drop_last(), s, t, k);
    }
}

pub open spec fn texts(v: Seq<String>) -> Seq<Seq<char>> {
    v.map_values(|s: String| s@)
}

/// A node waits in the queue from position `head` on.
pub open spec fn pending(queue: Seq<String>, head: int, a: Seq<char>) -> bool {
    exists|i: int| head <= i < queue.len() && (#[trigger] queue[i])@ == a
}

/// The flow slice of the roots, in strictly increasing key order.
pub fn flow_slice(edges: &Vec<DependenceEdge>, roots: &Vec<String>) -> (r: Vec<String>)
    requires
        keys_strictly_increasing(roots@),
    ensures
        keys_strictly_increasing(r@),
        view_set(r@) == flow_closure(edges@, view_set(roots@)),
{
    let ghost rs = view_set(roots@);
    let mut seen: Vec<String> = Vec::new();
    let mut queue: Vec<String> = Vec::new();
    let mut i: usize = 0;
    assert(view_set(seen@) =~= Set::<Seq<char>>::empty());
    while i < roots.len()
        invariant
            i <= roots@.len(),
            rs == view_set(roots@),
            keys_strictly_increasing(roots@),
            keys_strictly_increasing(seen@),
            view_set(seen@) =~= view_set(roots@.subrange(0, i as int)),
            queue@.len() == i,
            forall|x: int| 0 <= x < i ==> (#[trigger] queue@[x])@ == roots@[x]@,
        decreases roots@.len() - i,
    {
        let ghost before = view_set(seen@);
        insert_sorted_str(&mut seen, roots[i].clone());
        queue.push(roots[i].clone());
        proof {
            assert(view_set(roots@.subrange(0, i + 1)) =~= view_set(roots@.subrange(0, i as int)).insert(roots@[i as int]@)) by {
                assert forall|t: Seq<char>| view_set(roots@.subrange(0, i + 1)).contains(t) implies view_set(
                    roots@.subrange(0, i as int),
                ).insert(roots@[i as int]@).contains(t) by {
                    let j = choose|j: int| 0 <= j < i + 1 && (#[trigger] roots@.subrange(0, i + 1)[j])@ == t;
                    if j < i {
                        assert(roots@.subrange(0, i as int)[j] == roots@.subrange(0, i + 1)[j]);
                    }
                }
                assert forall|t: Seq<char>| view_set(roots@.subrange(0, i as int)).insert(roots@[i as int]@).contains(t)
                    implies view_set(roots@.subrange(0, i + 1)).contains(t) by {
                    if t == roots@[i as int]@ {
                        assert(roots@.subrange(0, i + 1)[i as int] == roots@[i as int]);
                    } else {
                        let j = choose|j: int| 0 <= j < i && (#[trigger] roots@.subrange(0, i as int)[j])@ == t;
                        assert(roots@.subrange(0, i + 1)[j] == roots@.subrange(0, i as int)[j]);
                    }
                }
            }
        }
        i = i + 1;
    }
    assert(roots@.subrange(0, roots@.len() as int) =~= roots@);
    proof {
        assert forall|x: int, y: int| 0 <= x < y < queue@.len() implies queue@[x]@ != queue@[y]@ by {
            crate::order::lemma_strictly_increasing_all(roots@, x, y);
            crate::order::lemma_lex_irreflexive(crate::order::str_key(roots@[x]@));
        }
        assert forall|t: Seq<char>| view_set(seen@).contains(t) implies flow_closure(edges@, rs).contains(t) by {
            lemma_roots_in_closure(edges@, rs, t);
        }
        assert forall|x: int| 0 <= x < queue@.len() implies view_set(seen@).contains(#[trigger] queue@[x]@) by {
            assert(roots@[x]@ == queue@[x]@);
        }
    }
    let mut head: usize = 0;
    proof {
        assert forall|a: Seq<char>| view_set(seen@).contains(a) implies #[trigger] pending(queue@, 0, a) by {
            let j = choose|j: int| 0 <= j < roots@.len() && (#[trigger] roots@[j])@ == a;
            assert(queue@[j]@ == a);
        }
    }
    while head < queue.len()
        invariant
            head <= queue@.len(),
            rs == view_set(roots@),
            keys_strictly_increasing(seen@),
            rs.subset_of(view_set(seen@)),
            view_set(seen@).subset_of(flow_closure(edges@, rs)),
            forall|x: int| 0 <= x < queue@.len() ==> view_set(seen@).contains(#[trigger] queue@[x]@),
            forall|x: int, y: int| 0 <= x < y < queue@.len() ==> queue@[x]@ != queue@[y]@,
            forall|a: Seq<char>, b: Seq<char>|
                view_set(seen@).contains(a) && !pending(queue@, head as int, a) && #[trigger] flow_adjacent(edges@, a, b)
                    ==> view_set(seen@).contains(b),
        decreases edges@.len() - covered_count(edges@, view_set(seen@)), queue@.len() - head,
    {
        let cur = queue[head].clone();
        let ghost start_seen = view_set(seen@);
        let ghost start_queue = queue@;
        let ghost start_head = head;
        head = head + 1;
        let mut k: usize = 0;
        let mut pushed = false;
        proof {
            lemma_covered_bounds(edges@, start_seen, start_seen);
        }
        while k < edges.len()
            invariant
                k <= edges@.len(),
                head == start_head + 1,
                start_head < start_queue.len(),
                cur@ == start_queue[start_head as int]@,
                rs.subset_of(start_seen),
                start_seen.subset_of(view_set(seen@)),
                keys_strictly_increasing(seen@),
                view_set(seen@).subset_of(flow_closure(edges@, rs)),
                start_seen.contains(cur@),
                queue@.len() >= start_queue.len(),
                forall|x: int| 0 <= x < start_queue.len() ==> (#[trigger] queue@[x]) == start_queue[x],
                forall|x: int| 0 <= x < queue@.len() ==> view_set(seen@).contains(#[trigger] queue@[x]@),
                forall|x: int, y: int| 0 <= x < y < queue@.len() ==> queue@[x]@ != queue@[y]@,
                forall|x: int| start_queue.len() <= x < queue@.len() ==> !start_seen.contains(#[trigger] queue@[x]@),
                forall|t: Seq<char>| view_set(seen@).contains(t) && !start_seen.contains(t) ==> #[trigger] pending(
                    queue@,
                    start_queue.len() as int,
                    t,
                ),
                forall|j: int, b: Seq<char>| 0 <= j < k && #[trigger] edge_joins(edges@[j], cur@, b) ==> view_set(seen@).contains(b),
                covered_count(edges@, start_seen) <= covered_count(edges@, view_set(seen@)),
                covered_count(edges@, view_set(seen@)) <= edges@.len(),
                pushed ==> covered_count(edges@, start_seen) < covered_count(edges@, view_set(seen@)),
                !pushed ==> queue@.len() == start_queue.len(),
            decreases edges@.len() - k,
        {
            let e = &edges[k];
            if e.flow {
                let next: Option<&String> = if compare_str(e.from.as_str(), cur.as_str()) == 0 {
                    Some(&e.to)
                } else if compare_str(e.to.as_str(), cur.as_str()) == 0 {
                    Some(&e.from)
                } else {
                    None
                };
                match next {
                    Some(b) => {
                        let ghost before = view_set(seen@);
                        let ghost before_queue = queue@;
                        let fresh = insert_sorted_str(&mut seen, b.clone());
                        proof {
                            assert(edge_joins(edges@[k as int], cur@, b@));
                            assert(flow_adjacent(edges@, cur@, b@));
                            lemma_closure_extends(edges@, rs, cur@, b@);
                            assert(before.subset_of(view_set(seen@)));
                            lemma_covered_bounds(edges@, before, view_set(seen@));
                            lemma_covered_bounds(edges@, start_seen, before);
                            if fresh {
                                assert(covered(edges@[k as int], view_set(seen@)));
                                assert(!before.contains(b@));
                                lemma_covered_grows(edges@, start_seen, view_set(seen@), k as int);
                            }
                        }
                        if fresh {
                            queue.push(b.clone());
                            pushed = true;
                            proof {
                                assert forall|x: int, y: int| 0 <= x < y < queue@.len() implies queue@[x]@ != queue@[y]@ by {
                                    if y == queue@.len() - 1 {
                                        assert(queue@[x] == before_queue[x]);
                                        assert(before.contains(before_queue[x]@));
                                    } else {
                                        assert(queue@[x] == before_queue[x] && queue@[y] == before_queue[y]);
                                    }
                                }
                                assert forall|x: int| 0 <= x < queue@.len() implies view_set(seen@).contains(#[trigger] queue@[x]@) by {
                                    if x < queue@.len() - 1 {
                                        assert(queue@[x] == before_queue[x]);
                                    }
                                }
                                assert forall|x: int| start_queue.len() <= x < queue@.len() implies !start_seen.contains(
                                    #[trigger] queue@[x]@,
                                ) by {
                                    if x < queue@.len() - 1 {
                                        assert(queue@[x] == before_queue[x]);
                                    }
                                }
                                assert forall|x: int| 0 <= x < start_queue.len() implies (#[trigger] queue@[x]) == start_queue[x] by {
                                    assert(queue@[x] == before_queue[x]);
                                }
                                assert forall|t: Seq<char>| view_set(seen@).contains(t) && !start_seen.contains(t) implies #[trigger] pending(
                                    queue@,
                                    start_queue.len() as int,
                                    t,
                                ) by {
                                    if t == b@ {
                                        assert(queue@[queue@.len() - 1]@ == t);
                                    } else {
                                        assert(before.contains(t));
                                        assert(pending(before_queue, start_queue.len() as int, t));
                                        let x = choose|x: int| start_queue.len() <= x < before_queue.len() && (#[trigger] before_queue[x])@ == t;
                                        assert(queue@[x] == before_queue[x]);
                                    }
                                }
                            }
                        } else {
                            proof {
                                assert(view_set(seen@) =~= before);
                            }
                        }
                        proof {
                            assert forall|j: int, c: Seq<char>| 0 <= j < k + 1 && #[trigger] edge_joins(edges@[j], cur@, c) implies view_set(
                                seen@,
                            ).contains(c) by {
                                if j == k {
                                    if e.from@ == cur@ {
                                        assert(c == b@);
                                    } else {
                                        assert(c == b@);
                                    }
                                }
                            }
                        }
                    },
                    None => {
                        proof {
                            assert forall|j: int, c: Seq<char>| 0 <= j < k + 1 && #[trigger] edge_joins(edges@[j], cur@, c) implies view_set(
                                seen@,
                            ).contains(c) by {
                                if j == k {
                                    assert(!edge_joins(edges@[j], cur@, c));
                                }
                            }
                        }
                    },
                }
            } else {
                proof {
                    assert forall|j: int, c: Seq<char>| 0 <= j < k + 1 && #[trigger] edge_joins(edges@[j], cur@, c) implies view_set(
                        seen@,
                    ).contains(c) by {
                        if j == k {
                            assert(!edge_joins(edges@[j], cur@, c));
                        }
                    }
                }
            }
            k = k + 1;
        }
        proof {
            assert forall|a: Seq<char>, b: Seq<char>|
                view_set(seen@).contains(a) && !pending(queue@, head as int, a) && #[trigger] flow_adjacent(edges@, a, b)
                    implies view_set(seen@).contains(b) by {
                if a == cur@ {
                    let j = choose|j: int| 0 <= j < edges@.len() && #[trigger] edge_joins(edges@[j], a, b);
                } else if start_seen.contains(a) {
                    if pending(start_queue, start_head as int, a) {
                        let i = choose|i: int| start_head <= i < start_queue.len() && (#[trigger] start_queue[i])@ == a;
                        if i == start_head {
                        } else {
                            assert(queue@[i] == start_queue[i]);
                            assert(pending(queue@, head as int, a));
                        }
                    }
                } else {
                    assert(pending(queue@, start_queue.len() as int, a));
                    let x = choose|x: int| start_queue.len() <= x < queue@.len() && (#[trigger] queue@[x])@ == a;
                    assert(pending(queue@, head as int, a));
                }
            }
        }
    }
    proof {
        assert(flow_closed(edges@, view_set(seen@))) by {
            assert forall|a: Seq<char>, b: Seq<char>| view_set(seen@).contains(a) && #[trigger] flow_adjacent(edges@, a, b)
                implies view_set(seen@).contains(b) by {
                assert(!pending(queue@, head as int, a));
            }
        }
        lemma_closed_holds_closure(edges@, rs, view_set(seen@));
        assert(view_set(seen@) =~= flow_closure(edges@, rs));
    }
    seen
}

} // verus!
