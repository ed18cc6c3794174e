//! Runs of adjacent orderable siblings and their canonical rewrite.

use vstd::prelude::*;
use vstd::utf8::{decode_utf8, encode_utf8, is_char_boundary};
use crate::json::string_append;
use crate::model::Span;
use crate::order::{
    compare_str, keys_sorted, keys_strictly_increasing, key_lt_at, lemma_lex_total, lemma_str_key_injective,
    sort_by_key, str_key, strictly_increasing, Keyed,
};
use super::ordering::OrderingRecipeError;

verus! {

/// `[a, b)` is a maximal stretch of at least two accepted positions.
pub open spec fn maximal_run(accepts: Seq<bool>, a: int, b: int) -> bool {
    &&& 0 <= a
    &&& a + 2 <= b
    &&& b <= accepts.len()
    &&& forall|k: int| a <= k < b ==> #[trigger] accepts[k]
    &&& (a == 0 || !accepts[a - 1])
    &&& (b == accepts.len() || !accepts[b])
}

/// The runs are the maximal stretches of at least two accepted positions,
/// each once, in ascending order.
pub open spec fn are_runs(accepts: Seq<bool>, runs: Seq<(usize, usize)>) -> bool {
    &&& forall|i: int| 0 <= i < runs.len() ==> maximal_run(accepts, (#[trigger] runs[i]).0 as int, runs[i].1 as int)
    &&& forall|i: int, j: int| 0 <= i < j < runs.len() ==> (#[trigger] runs[i]).1 < (#[trigger] runs[j]).0
    &&& forall|a: int, b: int| #[trigger] maximal_run(accepts, a, b) ==> exists|i: int|
        0 <= i < runs.len() && (#[trigger] runs[i]) == (a as usize, b as usize)
}

/// The maximal runs of at least two adjacent accepted siblings, as
/// half-open position ranges in ascending order.
pub fn runs(accepts: &Vec<bool>) -> (r: Vec<(usize, usize)>)
    ensures
        are_runs(accepts@, r@),
{
    let n = accepts.len();
    let mut out: Vec<(usize, usize)> = Vec::new();
    let mut start: Option<usize> = None;
    let mut i: usize = 0;
    while i < n
        invariant
            n == accepts@.len(),
            i <= n,
            forall|j: int| 0 <= j < out@.len() ==> maximal_run(accepts@, (#[trigger] out@[j]).0 as int, out@[j].1 as int),
            forall|j: int| 0 <= j < out@.len() ==> (#[trigger] out@[j]).1 < i,
            forall|j: int, l: int| 0 <= j < l < out@.len() ==> (#[trigger] out@[j]).1 < (#[trigger] out@[l]).0,
            forall|a: int, b: int| #[trigger] maximal_run(accepts@, a, b) && b < i ==> exists|j: int|
                0 <= j < out@.len() && (#[trigger] out@[j]) == (a as usize, b as usize),
            match start {
                Some(s) => s < i && (s == 0 || !accepts@[s - 1]) && forall|k: int| s <= k < i ==> #[trigger] accepts@[k]
                    && forall|j: int| 0 <= j < out@.len() ==> (#[trigger] out@[j]).1 < s,
                None => i == 0 || !accepts@[i - 1],
            },
        decreases n - i,
    {
        let ghost before = out@;
        let ghost st = start;
        if accepts[i] {
            if start.is_none() {
                start = Some(i);
            }
        } else {
            if let Some(s) = start {
                if i - s >= 2 {
                    out.push((s, i));
                }
            }
            start = None;
        }
        proof {
            assert forall|a: int, b: int| #[trigger] maximal_run(accepts@, a, b) && b < i + 1 implies exists|j: int|
                0 <= j < out@.len() && (#[trigger] out@[j]) == (a as usize, b as usize) by {
                if b < i {
                    let j = choose|j: int| 0 <= j < before.len() && (#[trigger] before[j]) == (a as usize, b as usize);
                    assert(out@[j] == before[j]);
                } else {
                    assert(b == i);
                    assert(!accepts@[i as int]);
                    if let Some(s) = st {
                        if a < s {
                            assert(accepts@[s - 1]);
                        }
                        if s < a {
                            assert(accepts@[a - 1]);
                        }
                        assert(out@[before.len() as int] == (a as usize, b as usize));
                    } else {
                        assert(accepts@[i - 1]);
                    }
                }
            }
        }
        i = i + 1;
    }
    if let Some(s) = start {
        if n - s >= 2 {
            let ghost before = out@;
            out.push((s, n));
            proof {
                assert forall|a: int, b: int| #[trigger] maximal_run(accepts@, a, b) implies exists|j: int|
                    0 <= j < out@.len() && (#[trigger] out@[j]) == (a as usize, b as usize) by {
                    if b < n {
                        let j = choose|j: int| 0 <= j < before.len() && (#[trigger] before[j]) == (a as usize, b as usize);
                        assert(out@[j] == before[j]);
                    } else {
                        if a < s {
                            assert(accepts@[s - 1]);
                        }
                        if s < a {
                            assert(accepts@[a - 1]);
                        }
                        assert(out@[before.len() as int] == (a as usize, b as usize));
                    }
                }
            }
            return out;
        }
    }
    proof {
        assert forall|a: int, b: int| #[trigger] maximal_run(accepts@, a, b) implies exists|j: int|
            0 <= j < out@.len() && (#[trigger] out@[j]) == (a as usize, b as usize) by {
            if b == n {
                if let Some(s) = start {
                    if a < s {
                        assert(accepts@[s - 1]);
                    }
                    if s < a {
                        assert(accepts@[a - 1]);
                    }
                } else {
                    assert(accepts@[n - 1]);
                }
            }
        }
    }
    out
}


/// `str::get` over a byte range: the text between two byte offsets when
/// both lie on character boundaries of the text, in order, and nothing
/// otherwise.
#[verifier::external_body]
fn byte_slice(s: &str, start: usize, end: usize) -> (r: Option<&str>)
    ensures
        r is Some <==> slice_ok(encode_utf8(s@), start as int, end as int),
        r matches Some(t) ==> encode_utf8(t@) == encode_utf8(s@).subrange(start as int, end as int),
{
    s.get(start..end)
}

/// One sibling of a block: the key it is ordered by, its exact text, and
/// where it stands in the source.
#[derive(Clone, Debug)]
pub struct BlockItem {
    pub key: String,
    pub text: String,
    pub start_byte: usize,
    pub end_byte: usize,
    pub start_row: usize,
    pub end_row: usize,
}

impl View for BlockItem {
    type V = BlockItem;

    open spec fn view(&self) -> BlockItem {
        *self
    }
}

impl Keyed for BlockItem {
    /// Siblings are ordered by key.
    open spec fn key(v: BlockItem) -> Seq<int> {
        str_key(v.key@)
    }

    fn precedes(&self, other: &Self) -> (r: bool) {
        compare_str(self.key.as_str(), other.key.as_str()) < 0
    }
}

/// The guarded rewrite of an out-of-order block: the span it replaces, the
/// exact text there, and the text in canonical order.
#[derive(Clone, Debug)]
pub struct BlockRewrite {
    pub span: Span,
    pub before: String,
    pub after: String,
}

/// No two siblings share a key.
pub open spec fn distinct_keys(s: Seq<BlockItem>) -> bool {
    forall|i: int, j: int| 0 <= i < j < s.len() ==> (#[trigger] s[i]).key@ != (#[trigger] s[j]).key@
}

/// `[a, b)` is a byte range of the text that starts and ends on character
/// boundaries.
pub open spec fn slice_ok(bytes: Seq<u8>, a: int, b: int) -> bool {
    a <= b && b <= bytes.len() && is_char_boundary(bytes, a) && is_char_boundary(bytes, b)
}

/// The text between sibling `i` and sibling `i + 1`.
pub open spec fn gap_text(bytes: Seq<u8>, items: Seq<BlockItem>, i: int) -> Seq<char> {
    decode_utf8(bytes.subrange(items[i].end_byte as int, items[i + 1].start_byte as int))
}

/// Every gap between adjacent siblings is a range of the text.
pub open spec fn gaps_ok(bytes: Seq<u8>, items: Seq<BlockItem>) -> bool {
    forall|i: int| 0 <= i < items.len() - 1 ==> #[trigger] slice_ok(
        bytes,
        items[i].end_byte as int,
        items[i + 1].start_byte as int,
    )
}

/// The first `n` siblings of `order`, each followed by the original gap at
/// its place but the last.
pub open spec fn interleaved(order: Seq<BlockItem>, bytes: Seq<u8>, items: Seq<BlockItem>, n: int) -> Seq<char>
    decreases n,
{
    if n <= 0 {
        Seq::empty()
    } else if n == 1 {
        order[0].text@
    } else {
        interleaved(order, bytes, items, n - 1) + gap_text(bytes, items, n - 2) + order[n - 1].text@
    }
}

/// The span of a block: from its first sibling to its last, with one-based
/// lines.
pub open spec fn block_span(items: Seq<BlockItem>) -> Span {
    Span {
        start_line: (items[0].start_row + 1) as usize,
        end_line: (items[items.len() - 1].end_row + 1) as usize,
        start_byte: items[0].start_byte,
        end_byte: items[items.len() - 1].end_byte,
    }
}

/// The rewrite is owed: at least two siblings, with distinct keys, out of
/// canonical order.
pub open spec fn rewrite_owed(items: Seq<BlockItem>) -> bool {
    items.len() >= 2 && distinct_keys(items) && !keys_strictly_increasing(items)
}

/// `w` rewrites the block: it replaces the exact text of the block's span
/// by the siblings in ascending key order, the gaps between them kept in
/// place.
pub open spec fn is_block_rewrite(w: BlockRewrite, bytes: Seq<u8>, items: Seq<BlockItem>) -> bool {
    let n = items.len() as int;
    &&& w.span == block_span(items)
    &&& w.before@ == decode_utf8(bytes.subrange(items[0].start_byte as int, items[n - 1].end_byte as int))
    &&& exists|order: Seq<BlockItem>|
        #![trigger interleaved(order, bytes, items, n)]
        order.to_multiset() == items.to_multiset() && keys_strictly_increasing(order) && w.after@
            == interleaved(order, bytes, items, n)
}

/// Keys that are distinct in one arrangement are distinct in every other.
proof fn lemma_distinct_keys_transfer(a: Seq<BlockItem>, b: Seq<BlockItem>)
    requires
        a.to_multiset() == b.to_multiset(),
        distinct_keys(a),
    ensures
        distinct_keys(b),
    decreases b.len(),
{
    if b.len() > 0 {
        let x = b.last();
        let b0 = b.drop_last();
        a.to_multiset_ensures();
        b.to_multiset_ensures();
        b0.to_multiset_ensures();
        assert(b =~= b0.push(x));
        assert(b.contains(x)) by {
            assert(b[b.len() - 1] == x);
        }
        assert(b.to_multiset().count(x) > 0);
        assert(a.to_multiset().count(x) > 0);
        assert(a.contains(x));
        let p = choose|p: int| 0 <= p < a.len() && a[p] == x;
        let a0 = a.remove(p);
        a0.to_multiset_ensures();
        assert(a0.to_multiset() =~= b0.to_multiset());
        assert forall|i: int, j: int| 0 <= i < j < a0.len() implies (#[trigger] a0[i]).key@ != (#[trigger] a0[j]).key@ by {
            let ii = if i < p { i } else { i + 1 };
            let jj = if j < p { j } else { j + 1 };
            assert(a0[i] == a[ii]);
            assert(a0[j] == a[jj]);
        }
        lemma_distinct_keys_transfer(a0, b0);
        assert forall|i: int, j: int| 0 <= i < j < b.len() implies (#[trigger] b[i]).key@ != (#[trigger] b[j]).key@ by {
            if j == b.len() - 1 {
                let y = b[i];
                assert(b0[i] == y);
                assert(b0.contains(y));
                assert(a0.to_multiset().count(y) > 0);
                assert(a0.contains(y));
                let q = choose|q: int| 0 <= q < a0.len() && a0[q] == y;
                let qq = if q < p { q } else { q + 1 };
                assert(a[qq] == y);
                assert(qq != p);
            } else {
                assert(b[i] == b0[i]);
                assert(b[j] == b0[j]);
            }
        }
    }
}

/// A sorted arrangement of distinct keys is strictly increasing.
proof fn lemma_sorted_distinct_increasing(s: Seq<BlockItem>)
    requires
        keys_sorted(s),
        distinct_keys(s),
    ensures
        keys_strictly_increasing(s),
{
    assert forall|i: int| 0 <= i < s.len() - 1 implies #[trigger] key_lt_at(s, i) by {
        lemma_lex_total(str_key(s[i].key@), str_key(s[i + 1].key@));
        lemma_str_key_injective(s[i].key@, s[i + 1].key@);
    }
}

/// Whether no two siblings share a key.
fn has_distinct_keys(items: &Vec<BlockItem>) -> (r: bool)
    ensures
        r == distinct_keys(items@),
{
    let n = items.len();
    let mut i: usize = 0;
    while i < n
        invariant
            n == items@.len(),
            i <= n,
            forall|a: int, b: int| 0 <= a < i && a < b < n ==> (#[trigger] items@[a]).key@ != (#[trigger] items@[b]).key@,
        decreases n - i,
    {
        let mut j: usize = i + 1;
        while j < n
            invariant
                n == items@.len(),
                i < n,
                i < j <= n,
                forall|a: int, b: int| 0 <= a < i && a < b < n ==> (#[trigger] items@[a]).key@ != (#[trigger] items@[b]).key@,
                forall|b: int| i < b < j ==> items@[i as int].key@ != (#[trigger] items@[b]).key@,
            decreases n - j,
        {
            if compare_str(items[i].key.as_str(), items[j].key.as_str()) == 0 {
                return false;
            }
            j = j + 1;
        }
        i = i + 1;
    }
    true
}

/// The canonical rewrite of a block of siblings read from `source`: nothing
/// when the block has fewer than two siblings, shares a key, or is already
/// in order; an inconsistent projection when the block or a gap between
/// siblings is no range of the source, or a row is out of range.
pub fn block_rewrite(source: &str, items: Vec<BlockItem>) -> (r: Result<Option<BlockRewrite>, OrderingRecipeError>)
    ensures
        !rewrite_owed(items@) ==> r matches Ok(None),
        rewrite_owed(items@) ==> {
            let bytes = encode_utf8(source@);
            let n = items@.len() as int;
            if !slice_ok(bytes, items@[0].start_byte as int, items@[n - 1].end_byte as int) {
                r matches Err(OrderingRecipeError::Projection(m)) && m@ == "ordering span escapes source"@
            } else if !gaps_ok(bytes, items@) {
                r matches Err(OrderingRecipeError::Projection(m)) && m@ == "ordering gap escapes source"@
            } else if items@[0].start_row == usize::MAX || items@[n - 1].end_row == usize::MAX {
                r matches Err(OrderingRecipeError::Projection(m)) && m@ == "ordering rows are out of range"@
            } else {
                r matches Ok(Some(w)) && is_block_rewrite(w, bytes, items@)
            }
        },
{
    let n = items.len();
    if n < 2 {
        return Ok(None);
    }
    if !has_distinct_keys(&items) {
        return Ok(None);
    }
    if strictly_increasing(&items) {
        return Ok(None);
    }
    let ghost bytes = encode_utf8(source@);
    let before = match byte_slice(source, items[0].start_byte, items[n - 1].end_byte) {
        Some(t) => t.to_owned(),
        None => {
            return Err(OrderingRecipeError::Projection("ordering span escapes source".to_owned()));
        },
    };
    proof {
        vstd::utf8::encode_utf8_decode_utf8(before@);
    }
    let mut gaps: Vec<String> = Vec::new();
    let mut k: usize = 0;
    while k < n - 1
        invariant
            n == items@.len(),
            n >= 2,
            k <= n - 1,
            bytes == encode_utf8(source@),
            rewrite_owed(items@),
            slice_ok(bytes, items@[0].start_byte as int, items@[n - 1].end_byte as int),
            gaps@.len() == k,
            forall|i: int| 0 <= i < k ==> #[trigger] slice_ok(
                bytes,
                items@[i].end_byte as int,
                items@[i + 1].start_byte as int,
            ),
            forall|i: int| 0 <= i < k ==> (#[trigger] gaps@[i])@ == gap_text(bytes, items@, i),
        decreases n - 1 - k,
    {
        match byte_slice(source, items[k].end_byte, items[k + 1].start_byte) {
            Some(t) => {
                let g = t.to_owned();
                proof {
                    vstd::utf8::encode_utf8_decode_utf8(g@);
                }
                gaps.push(g);
            },
            None => {
                proof {
                    assert(!slice_ok(bytes, items@[k as int].end_byte as int, items@[k + 1].start_byte as int));
                }
                return Err(OrderingRecipeError::Projection("ordering gap escapes source".to_owned()));
            },
        }
        k = k + 1;
    }
    if items[0].start_row == usize::MAX || items[n - 1].end_row == usize::MAX {
        return Err(OrderingRecipeError::Projection("ordering rows are out of range".to_owned()));
    }
    let span = Span {
        start_line: items[0].start_row + 1,
        end_line: items[n - 1].end_row + 1,
        start_byte: items[0].start_byte,
        end_byte: items[n - 1].end_byte,
    };
    let ghost original = items@;
    let sorted = sort_by_key(items);
    proof {
        lemma_distinct_keys_transfer(original, sorted@);
        lemma_sorted_distinct_increasing(sorted@);
    }
    let mut after = String::new();
    let mut m: usize = 0;
    while m < n
        invariant
            n == sorted@.len(),
            n == original.len(),
            n >= 2,
            m <= n,
            gaps@.len() == n - 1,
            forall|i: int| 0 <= i < n - 1 ==> (#[trigger] gaps@[i])@ == gap_text(bytes, original, i),
            after@ == interleaved(sorted@, bytes, original, m as int) + (if 0 < m < n { gaps@[m - 1]@ } else { Seq::empty() }),
        decreases n - m,
    {
        string_append(&mut after, sorted[m].text.as_str());
        if m + 1 < n {
            string_append(&mut after, gaps[m].as_str());
        }
        proof {
            reveal_with_fuel(interleaved, 2);
        }
        m = m + 1;
    }
    proof {
        assert(after@ =~= interleaved(sorted@, bytes, original, n as int));
    }
    Ok(Some(BlockRewrite { span, before, after }))
}
} // verus!
