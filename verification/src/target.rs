//! The retained node a candidate targets, the exact edits it proposes, and
//! the revision guards that bind each edit to the source it was made from.

use vstd::prelude::*;
use crate::contract::{invalid, RecipeContractError};
use crate::evidence::{entity_valid, lemma_pair_key, validate_entity, GraphEntityRef};
use crate::identity::{derive_id, derived_id};
use crate::json::{
    decimal, json_str, push_decimal, push_json_str, string_append, string_push, JsonValue,
};
use crate::model::Span;
use crate::order::{
    compare_str, keys_strictly_increasing, lemma_lex_single, lex_lt,
    str_key, strictly_increasing, Keyed,
};
use crate::text::{is_lower_digest_id, is_normal_relative_path, normal_relative_path};

verus! {

pub const REVISION_GUARD_DOMAIN: &'static str = "deslop.revision-guard/1";

/// A retained syntax node: its file and the anchor of its bytes and rows.
#[derive(Clone, Debug)]
pub struct NodeKey {
    pub path: String,
    pub start_byte: usize,
    pub end_byte: usize,
    pub start_row: usize,
    pub end_row: usize,
}

pub struct NodeKeyView {
    pub path: Seq<char>,
    pub start_byte: usize,
    pub end_byte: usize,
    pub start_row: usize,
    pub end_row: usize,
}

impl View for NodeKey {
    type V = NodeKeyView;

    open spec fn view(&self) -> NodeKeyView {
        NodeKeyView {
            path: self.path@,
            start_byte: self.start_byte,
            end_byte: self.end_byte,
            start_row: self.start_row,
            end_row: self.end_row,
        }
    }
}

impl NodeKey {
    pub fn duplicate(&self) -> (r: Self)
        ensures
            r == *self,
    {
        NodeKey {
            path: self.path.clone(),
            start_byte: self.start_byte,
            end_byte: self.end_byte,
            start_row: self.start_row,
            end_row: self.end_row,
        }
    }

    /// Whether two keys name the same node.
    pub fn same_node(&self, other: &NodeKey) -> (r: bool)
        ensures
            r == (self@ == other@),
    {
        compare_str(self.path.as_str(), other.path.as_str()) == 0 && self.start_byte
            == other.start_byte && self.end_byte == other.end_byte && self.start_row
            == other.start_row && self.end_row == other.end_row
    }
}

pub open spec fn node_json(n: NodeKeyView) -> Seq<char> {
    "{\"path\":"@ + json_str(n.path) + ",\"start_byte\":"@ + decimal(n.start_byte as nat)
        + ",\"end_byte\":"@ + decimal(n.end_byte as nat) + ",\"start_row\":"@ + decimal(
        n.start_row as nat,
    ) + ",\"end_row\":"@ + decimal(n.end_row as nat) + "}"@
}

pub fn push_node_json(out: &mut String, n: &NodeKey)
    ensures
        final(out)@ == old(out)@ + node_json(n@),
{
    string_append(out, "{\"path\":");
    push_json_str(out, n.path.as_str());
    string_append(out, ",\"start_byte\":");
    push_decimal(out, n.start_byte as u64);
    string_append(out, ",\"end_byte\":");
    push_decimal(out, n.end_byte as u64);
    string_append(out, ",\"start_row\":");
    push_decimal(out, n.start_row as u64);
    string_append(out, ",\"end_row\":");
    push_decimal(out, n.end_row as u64);
    string_append(out, "}");
    assert(final(out)@ =~= old(out)@ + node_json(n@));
}

pub open spec fn span_json(s: Span) -> Seq<char> {
    "{\"start_line\":"@ + decimal(s.start_line as nat) + ",\"end_line\":"@ + decimal(
        s.end_line as nat,
    ) + ",\"start_byte\":"@ + decimal(s.start_byte as nat) + ",\"end_byte\":"@ + decimal(
        s.end_byte as nat,
    ) + "}"@
}

pub fn push_span_json(out: &mut String, s: Span)
    ensures
        final(out)@ == old(out)@ + span_json(s),
{
    string_append(out, "{\"start_line\":");
    push_decimal(out, s.start_line as u64);
    string_append(out, ",\"end_line\":");
    push_decimal(out, s.end_line as u64);
    string_append(out, ",\"start_byte\":");
    push_decimal(out, s.start_byte as u64);
    string_append(out, ",\"end_byte\":");
    push_decimal(out, s.end_byte as u64);
    string_append(out, "}");
    assert(final(out)@ =~= old(out)@ + span_json(s));
}

/// A candidate span is nonempty and not reversed, with one-based lines.
pub open spec fn span_valid(s: Span) -> bool {
    s.start_line != 0 && s.end_line >= s.start_line && s.end_byte > s.start_byte
}

pub fn validate_span(s: Span) -> (r: Result<(), RecipeContractError>)
    ensures
        r is Ok <==> span_valid(s),
        r matches Err(e) ==> e is Invalid,
{
    if s.start_line == 0 || s.end_line < s.start_line || s.end_byte <= s.start_byte {
        return Err(invalid("candidate span is empty or reversed"));
    }
    Ok(())
}

pub fn validate_repo_path(path: &str) -> (r: Result<(), RecipeContractError>)
    ensures
        r is Ok <==> is_normal_relative_path(path@),
        r matches Err(e) ==> e is Invalid,
{
    if !normal_relative_path(path) {
        return Err(invalid("candidate paths must be normalized, nonempty, and root-relative"));
    }
    Ok(())
}

/// The structural fingerprint of a retained subtree.
#[derive(Clone, Debug)]
pub struct SubtreeFingerprint {
    pub root: NodeKey,
    pub digest: String,
}

/// What a candidate rewrites: a graph entity and its exact retained node.
#[derive(Clone, Debug)]
pub struct CandidateTarget {
    pub entity: GraphEntityRef,
    pub node: NodeKey,
    pub span: Span,
    pub subtree_fingerprint: Option<SubtreeFingerprint>,
}

pub open spec fn target_json(t: CandidateTarget) -> Seq<char> {
    "{\"entity\":"@ + GraphEntityRef::json(t.entity@) + ",\"node\":"@ + node_json(t.node@)
        + ",\"span\":"@ + span_json(t.span) + fingerprint_json(t.subtree_fingerprint) + "}"@
}

/// A present fingerprint is written as a field; an absent one is omitted.
pub open spec fn fingerprint_json(f: Option<SubtreeFingerprint>) -> Seq<char> {
    match f {
        Some(f) => ",\"subtree_fingerprint\":{\"root\":"@ + node_json(f.root@) + ",\"digest\":"@
            + json_str(f.digest@) + "}"@,
        None => Seq::empty(),
    }
}

fn push_fingerprint_json(out: &mut String, f: &Option<SubtreeFingerprint>)
    ensures
        final(out)@ == old(out)@ + fingerprint_json(*f),
{
    match f {
        Some(f) => {
            string_append(out, ",\"subtree_fingerprint\":{\"root\":");
            push_node_json(out, &f.root);
            string_append(out, ",\"digest\":");
            push_json_str(out, f.digest.as_str());
            string_append(out, "}");
        },
        None => {},
    }
    assert(final(out)@ =~= old(out)@ + fingerprint_json(*f));
}

pub fn push_target_json(out: &mut String, t: &CandidateTarget)
    ensures
        final(out)@ == old(out)@ + target_json(*t),
{
    string_append(out, "{\"entity\":");
    t.entity.write_json(out);
    string_append(out, ",\"node\":");
    push_node_json(out, &t.node);
    string_append(out, ",\"span\":");
    push_span_json(out, t.span);
    push_fingerprint_json(out, &t.subtree_fingerprint);
    string_append(out, "}");
    assert(final(out)@ =~= old(out)@ + target_json(*t));
}

/// The target names a valid entity, its span is valid and is exactly the
/// anchor of its node, its node's file is a normal relative path, and a
/// subtree fingerprint, if present, belongs to that node.
pub open spec fn target_valid(t: CandidateTarget) -> bool {
    &&& entity_valid(t.entity@)
    &&& span_valid(t.span)
    &&& t.span.start_byte == t.node.start_byte
    &&& t.span.end_byte == t.node.end_byte
    &&& t.span.start_line == t.node.start_row + 1
    &&& t.span.end_line == t.node.end_row + 1
    &&& is_normal_relative_path(t.node.path@)
    &&& (t.subtree_fingerprint matches Some(f) ==> f.root@ == t.node@)
}

pub fn validate_target(t: &CandidateTarget) -> (r: Result<(), RecipeContractError>)
    ensures
        r is Ok <==> target_valid(*t),
        r matches Err(e) ==> e is Invalid,
{
    validate_entity(&t.entity)?;
    validate_span(t.span)?;
    if t.span.start_byte != t.node.start_byte || t.span.end_byte != t.node.end_byte
        || t.node.start_row >= usize::MAX || t.node.end_row >= usize::MAX || t.span.start_line
        != t.node.start_row + 1 || t.span.end_line != t.node.end_row + 1 {
        return Err(invalid("candidate target span does not match its exact retained node"));
    }
    validate_repo_path(t.node.path.as_str())?;
    match &t.subtree_fingerprint {
        Some(f) => {
            if !f.root.same_node(&t.node) {
                return Err(
                    invalid(
                        "candidate subtree fingerprint does not belong to its exact target node",
                    ),
                );
            }
        },
        None => {},
    }
    Ok(())
}

/// The JSON text a revision guard is derived from: the edited file, the
/// span and the exact bytes the edit replaces.
pub open spec fn revision_guard_payload(path: Seq<char>, span: Span, before: Seq<char>) -> Seq<char> {
    "["@ + json_str(path) + ","@ + span_json(span) + ","@ + json_str(before) + "]"@
}

/// The revision guard of an edit of `before` at `span` of `path`.
pub open spec fn revision_guard_id(path: Seq<char>, span: Span, before: Seq<char>) -> Seq<char> {
    derived_id(REVISION_GUARD_DOMAIN@, "rvg1_"@, revision_guard_payload(path, span, before))
}

/// Derives the revision guard of an edit.
pub fn revision_guard(path: &str, span: Span, before: &str) -> (r: String)
    ensures
        r@ == revision_guard_id(path@, span, before@),
        is_lower_digest_id(r@, "rvg1_"@),
{
    let mut payload = String::new();
    string_push(&mut payload, '[');
    push_json_str(&mut payload, path);
    string_push(&mut payload, ',');
    push_span_json(&mut payload, span);
    string_push(&mut payload, ',');
    push_json_str(&mut payload, before);
    string_push(&mut payload, ']');
    proof {
        reveal_strlit("[");
        reveal_strlit(",");
        reveal_strlit("]");
    }
    assert(payload@ =~= revision_guard_payload(path@, span, before@));
    derive_id(REVISION_GUARD_DOMAIN, "rvg1_", payload.as_str())
}

/// One exact, revision-guarded replacement of the bytes of a node.
#[derive(Clone, Debug)]
pub struct TransformationEdit {
    pub target: NodeKey,
    pub span: Span,
    pub before: String,
    pub after: String,
    pub revision_guard: String,
}

pub struct TransformationEditView {
    pub target: NodeKeyView,
    pub span: Span,
    pub before: Seq<char>,
    pub after: Seq<char>,
    pub revision_guard: Seq<char>,
}

impl View for TransformationEdit {
    type V = TransformationEditView;

    open spec fn view(&self) -> TransformationEditView {
        TransformationEditView {
            target: self.target@,
            span: self.span,
            before: self.before@,
            after: self.after@,
            revision_guard: self.revision_guard@,
        }
    }
}

impl Keyed for TransformationEdit {
    /// Edits are ordered by file, then start byte, then end byte.
    open spec fn key(v: TransformationEditView) -> Seq<int> {
        str_key(v.target.path) + (seq![v.span.start_byte as int] + seq![v.span.end_byte as int])
    }

    fn precedes(&self, other: &Self) -> (r: bool) {
        let c = compare_str(self.target.path.as_str(), other.target.path.as_str());
        proof {
            crate::order::lemma_str_key_prefix_free(self.target.path@, other.target.path@);
            lemma_pair_key(
                str_key(self.target.path@),
                seq![self.span.start_byte as int] + seq![self.span.end_byte as int],
                str_key(other.target.path@),
                seq![other.span.start_byte as int] + seq![other.span.end_byte as int],
            );
            crate::order::lemma_single_prefix_free(self.span.start_byte as int, other.span.start_byte as int);
            lemma_pair_key(
                seq![self.span.start_byte as int],
                seq![self.span.end_byte as int],
                seq![other.span.start_byte as int],
                seq![other.span.end_byte as int],
            );
            lemma_lex_single(self.span.start_byte as int, other.span.start_byte as int);
            lemma_lex_single(self.span.end_byte as int, other.span.end_byte as int);
        }
        if c != 0 {
            return c < 0;
        }
        if self.span.start_byte != other.span.start_byte {
            return self.span.start_byte < other.span.start_byte;
        }
        self.span.end_byte < other.span.end_byte
    }
}

impl JsonValue for TransformationEdit {
    open spec fn json(v: TransformationEditView) -> Seq<char> {
        "{\"target\":"@ + node_json(v.target) + ",\"span\":"@ + span_json(v.span)
            + ",\"before\":"@ + json_str(v.before) + ",\"after\":"@ + json_str(v.after)
            + ",\"revision_guard\":"@ + json_str(v.revision_guard) + "}"@
    }

    fn write_json(&self, out: &mut String) {
        string_append(out, "{\"target\":");
        push_node_json(out, &self.target);
        string_append(out, ",\"span\":");
        push_span_json(out, self.span);
        string_append(out, ",\"before\":");
        push_json_str(out, self.before.as_str());
        string_append(out, ",\"after\":");
        push_json_str(out, self.after.as_str());
        string_append(out, ",\"revision_guard\":");
        push_json_str(out, self.revision_guard.as_str());
        string_append(out, "}");
        assert(final(out)@ =~= old(out)@ + Self::json(self@));
    }
}

impl TransformationEdit {
    /// Replaces the exact bytes `before` at `span` of `target` with `after`,
    /// guarded by the revision of those bytes.
    pub fn exact_node_replacement(target: NodeKey, span: Span, before: String, after: String) -> (e:
        TransformationEdit)
        ensures
            e.target == target,
            e.span == span,
            e.before == before,
            e.after == after,
            e.revision_guard@ == revision_guard_id(target.path@, span, before@),
    {
        let guard = revision_guard(target.path.as_str(), span, before.as_str());
        TransformationEdit { target, span, before, after, revision_guard: guard }
    }

    /// Deletes the exact bytes `before` at `span` of `target`.
    pub fn exact_node_deletion(target: NodeKey, span: Span, before: String) -> (e: TransformationEdit)
        ensures
            e.target == target,
            e.span == span,
            e.before == before,
            e.after@ == Seq::<char>::empty(),
            e.revision_guard@ == revision_guard_id(target.path@, span, before@),
    {
        Self::exact_node_replacement(target, span, before, String::new())
    }

    pub fn duplicate(&self) -> (r: Self)
        ensures
            r == *self,
    {
        TransformationEdit {
            target: self.target.duplicate(),
            span: self.span,
            before: self.before.clone(),
            after: self.after.clone(),
            revision_guard: self.revision_guard.clone(),
        }
    }
}

/// An edit stays inside its node, in a normal relative file, carries the
/// guard of the bytes it replaces, and changes them.
pub open spec fn edit_valid(e: TransformationEditView) -> bool {
    &&& span_valid(e.span)
    &&& is_normal_relative_path(e.target.path)
    &&& e.span.start_byte >= e.target.start_byte
    &&& e.span.end_byte <= e.target.end_byte
    &&& e.revision_guard == revision_guard_id(e.target.path, e.span, e.before)
    &&& e.before != e.after
}

/// Neighbouring edits of one file overlap.
pub open spec fn overlapping_neighbours(s: Seq<TransformationEdit>, i: int) -> bool {
    s[i].target.path@ == s[i + 1].target.path@ && s[i].span.end_byte > s[i + 1].span.start_byte
}

/// Every edit is valid, and the edits are in strictly increasing order
/// without overlaps.
pub open spec fn edits_valid(s: Seq<TransformationEdit>) -> bool {
    &&& forall|i: int| 0 <= i < s.len() ==> edit_valid((#[trigger] s[i])@)
    &&& keys_strictly_increasing(s)
    &&& forall|i: int| 0 <= i < s.len() - 1 ==> !#[trigger] overlapping_neighbours(s, i)
}

fn validate_edit(e: &TransformationEdit) -> (r: Result<(), RecipeContractError>)
    ensures
        r is Ok <==> edit_valid(e@),
        r matches Err(x) ==> x is Invalid,
{
    validate_span(e.span)?;
    validate_repo_path(e.target.path.as_str())?;
    if e.span.start_byte < e.target.start_byte || e.span.end_byte > e.target.end_byte {
        return Err(invalid("candidate edit escapes its exact target node"));
    }
    let expected = revision_guard(e.target.path.as_str(), e.span, e.before.as_str());
    if compare_str(e.revision_guard.as_str(), expected.as_str()) != 0 {
        return Err(invalid("candidate edit revision guard is stale"));
    }
    if compare_str(e.before.as_str(), e.after.as_str()) == 0 {
        return Err(invalid("candidate edit does not change source bytes"));
    }
    Ok(())
}

pub fn validate_edits(edits: &Vec<TransformationEdit>) -> (r: Result<(), RecipeContractError>)
    ensures
        r is Ok <==> edits_valid(edits@),
        r matches Err(e) ==> e is Invalid,
{
    let n = edits.len();
    let mut i: usize = 0;
    while i < n
        invariant
            n == edits@.len(),
            i <= n,
            forall|k: int| 0 <= k < i ==> edit_valid((#[trigger] edits@[k])@),
        decreases n - i,
    {
        validate_edit(&edits[i])?;
        i = i + 1;
    }
    if n == 0 {
        return Ok(());
    }
    let mut i: usize = 0;
    while i < n - 1
        invariant
            n == edits@.len(),
            n > 0,
            i <= n - 1,
            forall|k: int| 0 <= k < i ==> #[trigger] crate::order::key_lt_at(edits@, k),
            forall|k: int| 0 <= k < i ==> !#[trigger] overlapping_neighbours(edits@, k),
        decreases n - i,
    {
        let left = &edits[i];
        let right = &edits[i + 1];
        let ordered = left.precedes(right);
        let same_file = compare_str(left.target.path.as_str(), right.target.path.as_str()) == 0;
        if !ordered || (same_file && left.span.end_byte > right.span.start_byte) {
            proof {
                if !ordered {
                    assert(!crate::order::key_lt_at(edits@, i as int));
                } else {
                    assert(overlapping_neighbours(edits@, i as int));
                }
            }
            return Err(invalid("candidate edits are noncanonical, duplicate, or overlapping"));
        }
        i = i + 1;
    }
    Ok(())
}

} // verus!
