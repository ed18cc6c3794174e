//! Canonical orders. Every record that the contracts keep in canonical order
//! has a key: a sequence of integers compared lexicographically. Keys of
//! strings are their character codes shifted by one and closed by a zero, so
//! that keys of tuples are the concatenation of the keys of their parts.

use vstd::prelude::*;

verus! {

broadcast use vstd::seq_lib::group_seq_properties;

/// Strict lexicographic order on integer sequences (a proper prefix is less).
pub open spec fn lex_lt(a: Seq<int>, b: Seq<int>) -> bool
    decreases a.len(),
{
    if b.len() == 0 {
        false
    } else if a.len() == 0 {
        true
    } else if a[0] < b[0] {
        true
    } else if a[0] > b[0] {
        false
    } else {
        lex_lt(a.drop_first(), b.drop_first())
    }
}

pub proof fn lemma_lex_irreflexive(a: Seq<int>)
    ensures
        !lex_lt(a, a),
    decreases a.len(),
{
    if a.len() > 0 {
        lemma_lex_irreflexive(a.drop_first());
    }
}

pub proof fn lemma_lex_asymmetric(a: Seq<int>, b: Seq<int>)
    ensures
        !(lex_lt(a, b) && lex_lt(b, a)),
    decreases a.len(),
{
    if a.len() > 0 && b.len() > 0 && a[0] == b[0] {
        lemma_lex_asymmetric(a.drop_first(), b.drop_first());
    }
}

pub proof fn lemma_lex_transitive(a: Seq<int>, b: Seq<int>, c: Seq<int>)
    requires
        lex_lt(a, b),
        lex_lt(b, c),
    ensures
        lex_lt(a, c),
    decreases a.len(),
{
    if a.len() > 0 && b.len() > 0 && c.len() > 0 && a[0] == b[0] && b[0] == c[0] {
        lemma_lex_transitive(a.drop_first(), b.drop_first(), c.drop_first());
    }
}

pub proof fn lemma_lex_total(a: Seq<int>, b: Seq<int>)
    ensures
        a != b ==> lex_lt(a, b) || lex_lt(b, a),
    decreases a.len(),
{
    if a.len() > 0 && b.len() > 0 && a[0] == b[0] {
        lemma_lex_total(a.drop_first(), b.drop_first());
        if a.drop_first() == b.drop_first() {
            assert(a =~= seq![a[0]] + a.drop_first());
            assert(b =~= seq![b[0]] + b.drop_first());
        }
    } else if a.len() == 0 && b.len() == 0 {
        assert(a =~= b);
    }
}

/// `a` and `b` agree with each other as far as the shorter one goes.
pub open spec fn prefix_related(a: Seq<int>, b: Seq<int>) -> bool {
    if a.len() <= b.len() {
        b.subrange(0, a.len() as int) == a
    } else {
        a.subrange(0, b.len() as int) == b
    }
}

/// Comparing concatenations: when neither head is a proper prefix of the
/// other, the heads decide unless they are equal.
pub proof fn lemma_lex_concat(a: Seq<int>, x: Seq<int>, b: Seq<int>, y: Seq<int>)
    requires
        a == b || !prefix_related(a, b),
    ensures
        a == b ==> lex_lt(a + x, b + y) == lex_lt(x, y),
        a != b ==> lex_lt(a + x, b + y) == lex_lt(a, b),
    decreases a.len(),
{
    if a.len() == 0 {
        if b.len() == 0 {
            assert(a + x =~= x);
            assert(b + y =~= y);
        } else {
            assert(b.subrange(0, 0) =~= a);
        }
    } else if b.len() == 0 {
        assert(a.subrange(0, 0) =~= b);
    } else {
        assert((a + x).drop_first() =~= a.drop_first() + x);
        assert((b + y).drop_first() =~= b.drop_first() + y);
        assert((a + x)[0] == a[0]);
        assert((b + y)[0] == b[0]);
        if a[0] == b[0] {
            if a == b {
                assert(a.drop_first() == b.drop_first());
            } else {
                if a.drop_first() == b.drop_first() {
                    assert(a =~= seq![a[0]] + a.drop_first());
                    assert(b =~= seq![b[0]] + b.drop_first());
                }
                let a1 = a.drop_first();
                let b1 = b.drop_first();
                if prefix_related(a1, b1) {
                    if a1.len() <= b1.len() {
                        assert forall|k: int| 0 <= k < a.len() implies b.subrange(
                            0,
                            a.len() as int,
                        )[k] == a[k] by {
                            if k > 0 {
                                assert(b1.subrange(0, a1.len() as int)[k - 1] == a1[k - 1]);
                            }
                        }
                        assert(b.subrange(0, a.len() as int) =~= a);
                    } else {
                        assert forall|k: int| 0 <= k < b.len() implies a.subrange(
                            0,
                            b.len() as int,
                        )[k] == b[k] by {
                            if k > 0 {
                                assert(a1.subrange(0, b1.len() as int)[k - 1] == b1[k - 1]);
                            }
                        }
                        assert(a.subrange(0, b.len() as int) =~= b);
                    }
                    assert(false);
                }
            }
            lemma_lex_concat(a.drop_first(), x, b.drop_first(), y);
        }
    }
}

/// Keys of one integer compare as the integers do.
pub proof fn lemma_lex_single(a: int, b: int)
    ensures
        lex_lt(seq![a], seq![b]) == (a < b),
{
    assert(seq![a].drop_first() =~= Seq::<int>::empty());
    assert(seq![b].drop_first() =~= Seq::<int>::empty());
    assert(!lex_lt(Seq::<int>::empty(), Seq::<int>::empty()));
}

/// Key of a string: each code shifted by one, closed by zero.
pub open spec fn str_key(s: Seq<char>) -> Seq<int> {
    s.map_values(|c: char| c as int + 1).push(0)
}

pub proof fn lemma_str_key_injective(a: Seq<char>, b: Seq<char>)
    ensures
        str_key(a) == str_key(b) ==> a == b,
{
    if str_key(a) == str_key(b) {
        assert(str_key(a).len() == a.len() + 1);
        assert(str_key(b).len() == b.len() + 1);
        assert(a.len() == b.len());
        assert forall|i: int| 0 <= i < a.len() implies a[i] == b[i] by {
            assert(str_key(a)[i] == str_key(b)[i]);
            assert((a[i] as int) + 1 == (b[i] as int) + 1);
        }
        assert(a =~= b);
    }
}

/// Character codes are nonnegative.
pub proof fn lemma_char_code_nonnegative(c: char)
    ensures
        c as int >= 0,
{
}

/// Keys of distinct strings are not prefixes of each other.
pub proof fn lemma_str_key_prefix_free(a: Seq<char>, b: Seq<char>)
    ensures
        a != b ==> !prefix_related(str_key(a), str_key(b)),
{
    if a != b && prefix_related(str_key(a), str_key(b)) {
        let ka = str_key(a);
        let kb = str_key(b);
        if a.len() == b.len() {
            assert forall|i: int| 0 <= i < a.len() implies a[i] == b[i] by {
                assert(kb.subrange(0, ka.len() as int)[i] == kb[i]);
                assert(ka[i] == a[i] as int + 1);
                assert(kb[i] == b[i] as int + 1);
            }
            assert(a =~= b);
        } else if a.len() < b.len() {
            assert(kb.subrange(0, ka.len() as int)[a.len() as int] == kb[a.len() as int]);
            assert(ka[a.len() as int] == 0);
            assert(kb[a.len() as int] == b[a.len() as int] as int + 1);
            lemma_char_code_nonnegative(b[a.len() as int]);
        } else {
            assert(ka.subrange(0, kb.len() as int)[b.len() as int] == ka[b.len() as int]);
            assert(kb[b.len() as int] == 0);
            assert(ka[b.len() as int] == a[b.len() as int] as int + 1);
            lemma_char_code_nonnegative(a[b.len() as int]);
        }
    }
}

/// Keys of a single integer are never proper prefixes of each other.
pub proof fn lemma_single_prefix_free(a: int, b: int)
    ensures
        a != b ==> !prefix_related(seq![a], seq![b]),
{
    if a != b && prefix_related(seq![a], seq![b]) {
        assert(seq![b].subrange(0, 1)[0] == b);
    }
}

/// Compare two strings in the order of their keys: negative, zero or positive.
pub fn compare_str(a: &str, b: &str) -> (r: i8)
    ensures
        r < 0 <==> lex_lt(str_key(a@), str_key(b@)),
        r == 0 <==> a@ == b@,
        r > 0 <==> lex_lt(str_key(b@), str_key(a@)),
{
    let n = a.unicode_len();
    let m = b.unicode_len();
    let ghost ka = str_key(a@);
    let ghost kb = str_key(b@);
    let mut i: usize = 0;
    while i < n && i < m
        invariant
            n == a@.len(),
            m == b@.len(),
            ka == str_key(a@),
            kb == str_key(b@),
            i <= n,
            i <= m,
            forall|j: int| 0 <= j < i ==> a@[j] == b@[j],
        decreases n - i,
    {
        let ca = a.get_char(i);
        let cb = b.get_char(i);
        if ca != cb {
            proof {
                assert(ka.subrange(i as int, ka.len() as int)[0] == ka[i as int]);
                assert(kb.subrange(i as int, kb.len() as int)[0] == kb[i as int]);
                assert(ka[i as int] == a@[i as int] as int + 1);
                assert(kb[i as int] == b@[i as int] as int + 1);
                assert(ka.subrange(0, i as int) =~= kb.subrange(0, i as int));
                lemma_lex_concat(ka.subrange(0, i as int), ka.subrange(i as int, ka.len() as int),
                    kb.subrange(0, i as int), kb.subrange(i as int, kb.len() as int));
                lemma_lex_concat(kb.subrange(0, i as int), kb.subrange(i as int, kb.len() as int),
                    ka.subrange(0, i as int), ka.subrange(i as int, ka.len() as int));
                assert(ka =~= ka.subrange(0, i as int) + ka.subrange(i as int, ka.len() as int));
                assert(kb =~= kb.subrange(0, i as int) + kb.subrange(i as int, kb.len() as int));
            }
            if (ca as u32) < (cb as u32) {
                proof {
                    lemma_lex_asymmetric(ka, kb);
                }
                return -1;
            } else {
                proof {
                    lemma_lex_asymmetric(ka, kb);
                }
                return 1;
            }
        }
        i = i + 1;
    }
    proof {
        assert(ka.subrange(0, i as int) =~= kb.subrange(0, i as int));
        assert(ka.subrange(i as int, ka.len() as int)[0] == ka[i as int]);
        assert(kb.subrange(i as int, kb.len() as int)[0] == kb[i as int]);
        if i < n {
            assert(ka[i as int] == a@[i as int] as int + 1);
        } else {
            assert(ka[i as int] == 0);
        }
        if i < m {
            assert(kb[i as int] == b@[i as int] as int + 1);
        } else {
            assert(kb[i as int] == 0);
        }
        lemma_lex_concat(ka.subrange(0, i as int), ka.subrange(i as int, ka.len() as int),
            kb.subrange(0, i as int), kb.subrange(i as int, kb.len() as int));
        lemma_lex_concat(kb.subrange(0, i as int), kb.subrange(i as int, kb.len() as int),
            ka.subrange(0, i as int), ka.subrange(i as int, ka.len() as int));
        assert(ka =~= ka.subrange(0, i as int) + ka.subrange(i as int, ka.len() as int));
        assert(kb =~= kb.subrange(0, i as int) + kb.subrange(i as int, kb.len() as int));
        lemma_lex_asymmetric(ka, kb);
    }
    let ghost ra = ka.subrange(i as int, ka.len() as int);
    let ghost rb = kb.subrange(i as int, kb.len() as int);
    if n == m {
        proof {
            assert(a@ =~= b@);
            lemma_lex_irreflexive(ka);
        }
        0
    } else if n < m {
        proof {
            assert(ka.len() == n + 1);
            assert(kb.len() == m + 1);
            assert(ra.len() == 1 && rb.len() > 1);
            assert(i == n);
            assert(ra[0] == ka[i as int]);
            assert(ka[i as int] == 0);
            assert(rb[0] == kb[i as int]);
            assert(kb[i as int] == b@[i as int] as int + 1);
            lemma_char_code_nonnegative(b@[i as int]);
            assert(ra[0] < rb[0]);
            assert(lex_lt(ra, rb));
        }
        1 - 2
    } else {
        proof {
            assert(ka.len() == n + 1);
            assert(kb.len() == m + 1);
            assert(rb.len() == 1 && ra.len() > 1);
            assert(i == m);
            assert(rb[0] == kb[i as int]);
            assert(kb[i as int] == 0);
            assert(ra[0] == ka[i as int]);
            assert(ka[i as int] == a@[i as int] as int + 1);
            lemma_char_code_nonnegative(a@[i as int]);
            assert(rb[0] < ra[0]);
            assert(lex_lt(rb, ra));
        }
        1
    }
}

/// A record kept in canonical order by the key of its view.
pub trait Keyed: View + Sized {
    spec fn key(v: Self::V) -> Seq<int>;

    fn precedes(&self, other: &Self) -> (r: bool)
        ensures
            r == lex_lt(Self::key(self@), Self::key(other@)),
    ;
}

impl Keyed for String {
    open spec fn key(v: Seq<char>) -> Seq<int> {
        str_key(v)
    }

    fn precedes(&self, other: &Self) -> (r: bool) {
        compare_str(self.as_str(), other.as_str()) < 0
    }
}

/// Every later element's key is at least every earlier element's key.
pub open spec fn keys_sorted<T: Keyed>(s: Seq<T>) -> bool {
    forall|i: int, j: int| 0 <= i < j < s.len() ==> !lex_lt(T::key(s[j]@), T::key(s[i]@))
}

/// The key at `i` is strictly below the key at `i + 1`.
pub open spec fn key_lt_at<T: Keyed>(s: Seq<T>, i: int) -> bool {
    lex_lt(T::key(s[i]@), T::key(s[i + 1]@))
}

/// Each element's key is strictly below the next one's.
pub open spec fn keys_strictly_increasing<T: Keyed>(s: Seq<T>) -> bool {
    forall|i: int| 0 <= i < s.len() - 1 ==> #[trigger] key_lt_at(s, i)
}

/// Every pair of elements has distinct keys.
pub open spec fn keys_distinct<T: Keyed>(s: Seq<T>) -> bool {
    forall|i: int, j: int| 0 <= i < j < s.len() ==> T::key(s[i]@) != T::key(s[j]@)
}

/// Two sequences with the same multiset have the same members.
pub proof fn lemma_same_members<T>(c: Seq<T>, d: Seq<T>, x: T)
    requires
        c.to_multiset() == d.to_multiset(),
    ensures
        c.contains(x) <==> d.contains(x),
{
    broadcast use vstd::seq_lib::to_multiset_contains;
    assert(c.contains(x) <==> c.to_multiset().count(x) > 0);
    assert(d.contains(x) <==> d.to_multiset().count(x) > 0);
}

/// A sorted arrangement of a sequence whose keys are distinct is strictly
/// increasing.
pub proof fn lemma_arranged_distinct_increasing<T: Keyed>(c: Seq<T>, d: Seq<T>)
    requires
        c.to_multiset() == d.to_multiset(),
        keys_sorted(c),
        keys_distinct(d),
    ensures
        keys_strictly_increasing(c),
{
    broadcast use vstd::seq_lib::to_multiset_contains;
    assert forall|i: int, j: int| 0 <= i < d.len() && 0 <= j < d.len() && i != j implies d[i] != d[j] by {
        if i < j {
            assert(T::key(d[i]@) != T::key(d[j]@));
        } else {
            assert(T::key(d[j]@) != T::key(d[i]@));
        }
    }
    assert(d.no_duplicates());
    d.lemma_multiset_has_no_duplicates();
    assert forall|x: T| c.to_multiset().contains(x) implies c.to_multiset().count(x) == 1 by {
        assert(d.to_multiset().contains(x));
    }
    c.lemma_multiset_has_no_duplicates_conv();
    assert forall|i: int| 0 <= i < c.len() - 1 implies #[trigger] key_lt_at(c, i) by {
        let x = c[i];
        let y = c[i + 1];
        assert(c.contains(x));
        assert(c.contains(y));
        lemma_same_members(c, d, x);
        lemma_same_members(c, d, y);
        let p = choose|p: int| 0 <= p < d.len() && d[p] == x;
        let q = choose|q: int| 0 <= q < d.len() && d[q] == y;
        assert(x != y);
        assert(p != q);
        if p < q {
            assert(T::key(d[p]@) != T::key(d[q]@));
        } else {
            assert(T::key(d[q]@) != T::key(d[p]@));
        }
        lemma_lex_total(T::key(x@), T::key(y@));
        assert(!lex_lt(T::key(c[i + 1]@), T::key(c[i]@)));
    }
}

/// Strictly increasing adjacent keys make every pair of keys ordered.
pub proof fn lemma_strictly_increasing_all<T: Keyed>(s: Seq<T>, i: int, j: int)
    requires
        keys_strictly_increasing(s),
        0 <= i < j < s.len(),
    ensures
        lex_lt(T::key(s[i]@), T::key(s[j]@)),
    decreases j - i,
{
    if j == i + 1 {
        assert(key_lt_at(s, i));
    } else {
        lemma_strictly_increasing_all(s, i, j - 1);
        assert(key_lt_at(s, j - 1));
        lemma_lex_transitive(T::key(s[i]@), T::key(s[j - 1]@), T::key(s[j]@));
    }
}

/// Inserting an element adds it to the multiset of a sequence.
pub proof fn lemma_insert_multiset<T>(s: Seq<T>, i: int, x: T)
    requires
        0 <= i <= s.len(),
    ensures
        s.insert(i, x).to_multiset() == s.to_multiset().insert(x),
{
    let t = s.insert(i, x);
    s.insert_ensures(i, x);
    assert(t.remove(i) =~= s);
    t.to_multiset_ensures();
    assert(t[i] == x);
    assert(t.to_multiset().count(x) > 0);
    assert(s.to_multiset() =~= t.to_multiset().remove(x));
    assert(t.to_multiset() =~= s.to_multiset().insert(x));
}

/// Whether the keys of the elements strictly increase.
pub fn strictly_increasing<T: Keyed>(v: &Vec<T>) -> (r: bool)
    ensures
        r == keys_strictly_increasing(v@),
{
    let n = v.len();
    if n < 2 {
        return true;
    }
    let mut i: usize = 0;
    while i < n - 1
        invariant
            n == v@.len(),
            n >= 2,
            i <= n - 1,
            forall|k: int| 0 <= k < i ==> #[trigger] key_lt_at(v@, k),
        decreases n - i,
    {
        if !v[i].precedes(&v[i + 1]) {
            assert(!key_lt_at(v@, i as int));
            return false;
        }
        i = i + 1;
    }
    true
}

/// Stable insertion sort by key.
pub fn sort_by_key<T: Keyed>(v: Vec<T>) -> (r: Vec<T>)
    ensures
        r@.to_multiset() == v@.to_multiset(),
        r@.len() == v@.len(),
        keys_sorted(r@),
{
    let mut rest = v;
    let mut out: Vec<T> = Vec::new();
    let ghost orig = rest@;
    proof {
        out@.to_multiset_ensures();
        assert(out@.to_multiset() =~= vstd::multiset::Multiset::empty());
        assert(rest@.to_multiset() =~= out@.to_multiset().add(rest@.to_multiset()));
    }
    while rest.len() > 0
        invariant
            out@.to_multiset().add(rest@.to_multiset()) == orig.to_multiset(),
            out@.len() + rest@.len() == orig.len(),
            keys_sorted(out@),
        decreases rest@.len(),
    {
        let ghost before_rest = rest@;
        let x = rest.remove(0);
        proof {
            before_rest.to_multiset_ensures();
            assert(rest@ =~= before_rest.remove(0));
        }
        let mut p: usize = 0;
        while p < out.len() && !x.precedes(&out[p])
            invariant
                p <= out@.len(),
                forall|k: int| 0 <= k < p ==> !lex_lt(T::key(x@), T::key(#[trigger] out@[k]@)),
            decreases out@.len() - p,
        {
            p = p + 1;
        }
        let ghost before_out = out@;
        out.insert(p, x);
        proof {
            lemma_insert_multiset(before_out, p as int, x);
            assert(out@ == before_out.insert(p as int, x));
            before_out.insert_ensures(p as int, x);
            assert forall|i: int, j: int| 0 <= i < j < out@.len() implies !lex_lt(
                T::key(out@[j]@),
                T::key(out@[i]@),
            ) by {
                if j < p {
                    assert(out@[i] == before_out[i]);
                    assert(out@[j] == before_out[j]);
                } else if j == p {
                    assert(out@[i] == before_out[i]);
                } else if i == p {
                    assert(out@[j] == before_out[j - 1]);
                    assert(lex_lt(T::key(x@), T::key(before_out[p as int]@)));
                    if lex_lt(T::key(before_out[j - 1]@), T::key(x@)) {
                        lemma_lex_transitive(
                            T::key(before_out[j - 1]@),
                            T::key(x@),
                            T::key(before_out[p as int]@),
                        );
                        if p < j - 1 {
                            assert(!lex_lt(
                                T::key(before_out[j - 1]@),
                                T::key(before_out[p as int]@),
                            ));
                        } else {
                            lemma_lex_irreflexive(T::key(before_out[p as int]@));
                        }
                    }
                } else if i < p {
                    assert(out@[i] == before_out[i]);
                    assert(out@[j] == before_out[j - 1]);
                } else {
                    assert(out@[i] == before_out[i - 1]);
                    assert(out@[j] == before_out[j - 1]);
                }
            }
            assert(before_rest.to_multiset() =~= before_rest.remove(0).to_multiset().insert(
                before_rest[0],
            ));
            assert(out@.to_multiset().add(rest@.to_multiset()) =~= before_out.to_multiset().add(
                before_rest.to_multiset(),
            ));
        }
    }
    proof {
        rest@.to_multiset_ensures();
        assert(rest@.to_multiset() =~= vstd::multiset::Multiset::empty());
        assert(out@.to_multiset() =~= out@.to_multiset().add(rest@.to_multiset()));
        orig.to_multiset_ensures();
        out@.to_multiset_ensures();
    }
    out
}

/// The first element of a sorted sequence has the least key.
proof fn lemma_sorted_first_least<T: Keyed>(b: Seq<T>, j: int)
    requires
        keys_sorted(b),
        0 < j < b.len(),
    ensures
        !lex_lt(T::key(b[j]@), T::key(b[0]@)),
{
}

/// Two arrangements of the same elements are equal when one has strictly
/// increasing keys and the other is sorted by key.
pub proof fn lemma_sorted_arrangement_unique<T: Keyed>(a: Seq<T>, b: Seq<T>)
    requires
        a.to_multiset() == b.to_multiset(),
        keys_strictly_increasing(a),
        keys_sorted(b),
    ensures
        a == b,
    decreases a.len(),
{
    a.to_multiset_ensures();
    b.to_multiset_ensures();
    if a.len() == 0 {
        assert(b.len() == 0);
        assert(a =~= b);
    } else {
        assert(b.len() == a.len());
        // b[0] occurs in a, a[0] occurs in b
        assert(b.contains(b[0]));
        assert(a.to_multiset().count(b[0]) > 0);
        assert(a.contains(b[0]));
        let i = choose|i: int| 0 <= i < a.len() && a[i] == b[0];
        assert(a.contains(a[0]));
        assert(b.to_multiset().count(a[0]) > 0);
        assert(b.contains(a[0]));
        let j = choose|j: int| 0 <= j < b.len() && b[j] == a[0];
        if i != 0 {
            lemma_strictly_increasing_all(a, 0, i);
            // key(a[0]) < key(a[i]) = key(b[0]) <= key(b[j]) = key(a[0])
            if j == 0 {
                lemma_lex_irreflexive(T::key(a[0]@));
            } else {
                lemma_sorted_first_least(b, j);
                lemma_lex_total(T::key(b[j]@), T::key(b[0]@));
                if T::key(b[j]@) == T::key(b[0]@) {
                    lemma_lex_irreflexive(T::key(a[0]@));
                } else {
                    lemma_lex_transitive(T::key(a[0]@), T::key(b[0]@), T::key(b[j]@));
                    lemma_lex_irreflexive(T::key(a[0]@));
                }
            }
            assert(false);
        }
        assert(a[0] == b[0]);
        let a1 = a.drop_first();
        let b1 = b.drop_first();
        assert(a1 =~= a.remove(0));
        assert(b1 =~= b.remove(0));
        assert(a1.to_multiset() == a.to_multiset().remove(a[0]));
        assert(b1.to_multiset() == b.to_multiset().remove(b[0]));
        assert forall|k: int| 0 <= k < a1.len() - 1 implies #[trigger] key_lt_at(a1, k) by {
            assert(key_lt_at(a, k + 1));
        }
        assert forall|x: int, y: int| 0 <= x < y < b1.len() implies !lex_lt(
            T::key(b1[y]@),
            T::key(b1[x]@),
        ) by {
            assert(b1[y] == b[y + 1]);
            assert(b1[x] == b[x + 1]);
        }
        lemma_sorted_arrangement_unique(a1, b1);
        assert(a =~= seq![a[0]] + a1);
        assert(b =~= seq![b[0]] + b1);
    }
}


/// The strings that a sequence of strings holds.
pub open spec fn view_set(v: Seq<String>) -> Set<Seq<char>> {
    Set::new(|s: Seq<char>| exists|i: int| 0 <= i < v.len() && (#[trigger] v[i])@ == s)
}

/// Inserts a string into a vector kept in strictly increasing order of key,
/// unless an equal string is already there; reports whether it inserted.
pub fn insert_sorted_str(v: &mut Vec<String>, x: String) -> (inserted: bool)
    requires
        keys_strictly_increasing(old(v)@),
    ensures
        keys_strictly_increasing(final(v)@),
        view_set(final(v)@) == view_set(old(v)@).insert(x@),
        inserted == !view_set(old(v)@).contains(x@),
{
    let ghost old_v = v@;
    let n = v.len();
    let mut p: usize = 0;
    while p < n && v[p].precedes(&x)
        invariant
            n == v@.len(),
            v@ == old_v,
            p <= n,
            forall|k: int| 0 <= k < p ==> lex_lt(str_key((#[trigger] v@[k])@), str_key(x@)),
        decreases n - p,
    {
        p = p + 1;
    }
    if p < n && compare_str(v[p].as_str(), x.as_str()) == 0 {
        proof {
            assert(view_set(old_v).contains(x@));
            assert(view_set(old_v).insert(x@) =~= view_set(old_v));
        }
        return false;
    }
    proof {
        if p < n {
            lemma_lex_total(str_key(old_v[p as int]@), str_key(x@));
            lemma_str_key_injective(old_v[p as int]@, x@);
            assert(lex_lt(str_key(x@), str_key(old_v[p as int]@)));
        }
        assert forall|k: int| 0 <= k < old_v.len() implies (#[trigger] old_v[k])@ != x@ by {
            if k < p {
                lemma_lex_irreflexive(str_key(x@));
            } else {
                if k > p {
                    lemma_strictly_increasing_all(old_v, p as int, k);
                    lemma_lex_transitive(str_key(x@), str_key(old_v[p as int]@), str_key(old_v[k]@));
                }
                lemma_lex_irreflexive(str_key(x@));
            }
        }
        assert(!view_set(old_v).contains(x@));
    }
    v.insert(p, x);
    proof {
        let nv = v@;
        assert(nv == old_v.insert(p as int, x));
        assert forall|k: int| 0 <= k < nv.len() - 1 implies #[trigger] key_lt_at(nv, k) by {
            if k + 1 < p {
                assert(key_lt_at(old_v, k));
            } else if k + 1 == p {
                assert(nv[k] == old_v[k]);
            } else if k == p {
                assert(nv[k + 1] == old_v[k]);
            } else {
                assert(nv[k] == old_v[k - 1]);
                assert(nv[k + 1] == old_v[k]);
                assert(key_lt_at(old_v, k - 1));
            }
        }
        assert forall|s: Seq<char>| view_set(nv).contains(s) <==> view_set(old_v).insert(x@).contains(s) by {
            if view_set(nv).contains(s) {
                let i = choose|i: int| 0 <= i < nv.len() && (#[trigger] nv[i])@ == s;
                if i < p {
                    assert(old_v[i] == nv[i]);
                } else if i > p {
                    assert(old_v[i - 1] == nv[i]);
                }
            }
            if view_set(old_v).contains(s) {
                let i = choose|i: int| 0 <= i < old_v.len() && (#[trigger] old_v[i])@ == s;
                if i < p {
                    assert(nv[i] == old_v[i]);
                } else {
                    assert(nv[i + 1] == old_v[i]);
                }
            }
            if s == x@ {
                assert(nv[p as int] == x);
            }
        }
        assert(view_set(nv) =~= view_set(old_v).insert(x@));
    }
    true
}


/// Two arrangements of the same elements map to arrangements of the same
/// images.
pub proof fn lemma_map_values_multiset<A, B>(s1: Seq<A>, s2: Seq<A>, f: spec_fn(A) -> B)
    requires
        s1.to_multiset() == s2.to_multiset(),
    ensures
        s1.map_values(f).to_multiset() == s2.map_values(f).to_multiset(),
    decreases s1.len(),
{
    s1.to_multiset_ensures();
    s2.to_multiset_ensures();
    if s1.len() == 0 {
        assert(s2.len() == 0);
        assert(s1.map_values(f) =~= s2.map_values(f));
    } else {
        let x = s1.last();
        let t1 = s1.drop_last();
        assert(s1 =~= t1.push(x));
        t1.to_multiset_ensures();
        assert(s2.to_multiset().count(x) > 0);
        assert(s2.contains(x));
        let j = choose|j: int| 0 <= j < s2.len() && s2[j] == x;
        let t2 = s2.remove(j);
        t2.to_multiset_ensures();
        assert(t1.to_multiset() =~= t2.to_multiset()) by {
            assert(t1.to_multiset() == s1.to_multiset().remove(x));
            assert(t2.to_multiset() == s2.to_multiset().remove(s2[j]));
        }
        lemma_map_values_multiset(t1, t2, f);
        let m1 = t1.map_values(f);
        let m2 = t2.map_values(f);
        assert(s1.map_values(f) =~= m1.push(f(x)));
        m1.to_multiset_ensures();
        assert(s2.map_values(f) =~= m2.insert(j, f(x)));
        lemma_insert_multiset(m2, j, f(x));
    }
}

} // verus!
