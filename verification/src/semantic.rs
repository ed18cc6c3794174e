//! Role-, scope- and comment-aware evidence for a guarded candidate.
//!
//! The evidence never changes a candidate or grants it write authority: it
//! records what identifiers and comments the candidate touches and whether
//! an automatic candidate stays automatic. An automatic candidate whose edit
//! would remove rationale text is blocked.

use vstd::prelude::*;
use crate::candidate::{CandidateDisposition, TransformationCandidate};
use crate::json::{
    json_array, json_items, json_null, json_opt_str, json_str, push_json_list, push_json_opt_str, push_json_str,
    string_append, text_view, JsonValue,
};
use crate::model::Span;
use crate::identity::{derive_plain_id, plain_digest_id};
use crate::order::{
    compare_str, insert_sorted_str, key_lt_at, keys_sorted, keys_strictly_increasing, lex_lt, sort_by_key,
    str_key, strictly_increasing, view_set, Keyed,
};
use crate::target::{push_span_json, span_json};
use crate::text::{contains_substring, contains_text, digest_id_matches, is_any_digest_id, is_trimmed_nonempty, trimmed_nonempty};

verus! {

pub const ROLE_SCOPE_COMMENT_EVIDENCE_SCHEMA: &'static str = "deslop.role-scope-comment-evidence/1";

/// The identity of a role/scope/comment evidence record.
#[derive(Clone, Debug, PartialEq, Eq)]
pub struct RoleScopeCommentEvidenceId {
    value: String,
}

impl View for RoleScopeCommentEvidenceId {
    type V = Seq<char>;

    closed spec fn view(&self) -> Seq<char> {
        self.value@
    }
}

impl RoleScopeCommentEvidenceId {
    /// The identity's text.
    pub fn as_str(&self) -> (r: &str)
        ensures
            r@ == self@,
    {
        self.value.as_str()
    }
}

/// The semantic role of an identifier occurrence.
#[derive(Clone, Copy, Debug, PartialEq, Eq, Structural, Hash, PartialOrd, Ord)]
pub enum IdentifierSemanticRole {
    Declaration,
    Definition,
    Parameter,
    Read,
    Write,
    CallTarget,
    TypeUse,
    PublicApiSurface,
}

pub open spec fn role_rank(role: IdentifierSemanticRole) -> nat {
    match role {
        IdentifierSemanticRole::Declaration => 0,
        IdentifierSemanticRole::Definition => 1,
        IdentifierSemanticRole::Parameter => 2,
        IdentifierSemanticRole::Read => 3,
        IdentifierSemanticRole::Write => 4,
        IdentifierSemanticRole::CallTarget => 5,
        IdentifierSemanticRole::TypeUse => 6,
        IdentifierSemanticRole::PublicApiSurface => 7,
    }
}

pub open spec fn role_name(role: IdentifierSemanticRole) -> Seq<char> {
    match role {
        IdentifierSemanticRole::Declaration => "declaration"@,
        IdentifierSemanticRole::Definition => "definition"@,
        IdentifierSemanticRole::Parameter => "parameter"@,
        IdentifierSemanticRole::Read => "read"@,
        IdentifierSemanticRole::Write => "write"@,
        IdentifierSemanticRole::CallTarget => "call-target"@,
        IdentifierSemanticRole::TypeUse => "type-use"@,
        IdentifierSemanticRole::PublicApiSurface => "public-api-surface"@,
    }
}

/// Reads, writes, call targets and type uses refer to a binding.
pub open spec fn spec_is_reference(role: IdentifierSemanticRole) -> bool {
    role == IdentifierSemanticRole::Read || role == IdentifierSemanticRole::Write || role
        == IdentifierSemanticRole::CallTarget || role == IdentifierSemanticRole::TypeUse
}

impl IdentifierSemanticRole {
    /// Whether the occurrence refers to a binding rather than introducing one.
    pub fn is_reference(self) -> (r: bool)
        ensures
            r == spec_is_reference(self),
    {
        match self {
            IdentifierSemanticRole::Read | IdentifierSemanticRole::Write | IdentifierSemanticRole::CallTarget
            | IdentifierSemanticRole::TypeUse => true,
            _ => false,
        }
    }

    fn rank(self) -> (r: u8)
        ensures
            r as nat == role_rank(self),
    {
        match self {
            IdentifierSemanticRole::Declaration => 0,
            IdentifierSemanticRole::Definition => 1,
            IdentifierSemanticRole::Parameter => 2,
            IdentifierSemanticRole::Read => 3,
            IdentifierSemanticRole::Write => 4,
            IdentifierSemanticRole::CallTarget => 5,
            IdentifierSemanticRole::TypeUse => 6,
            IdentifierSemanticRole::PublicApiSurface => 7,
        }
    }

    fn name(self) -> (r: &'static str)
        ensures
            r@ == role_name(self),
    {
        match self {
            IdentifierSemanticRole::Declaration => "declaration",
            IdentifierSemanticRole::Definition => "definition",
            IdentifierSemanticRole::Parameter => "parameter",
            IdentifierSemanticRole::Read => "read",
            IdentifierSemanticRole::Write => "write",
            IdentifierSemanticRole::CallTarget => "call-target",
            IdentifierSemanticRole::TypeUse => "type-use",
            IdentifierSemanticRole::PublicApiSurface => "public-api-surface",
        }
    }
}

/// How complete the facts of one kind are.
#[derive(Clone, Copy, Debug, PartialEq, Eq, Structural, Hash)]
pub enum FactCoverage {
    Complete,
    Partial,
}

pub open spec fn coverage_name(c: FactCoverage) -> Seq<char> {
    match c {
        FactCoverage::Complete => "complete"@,
        FactCoverage::Partial => "partial"@,
    }
}

/// How a reference resolved to bindings.
#[derive(Clone, Copy, Debug, PartialEq, Eq, Structural, Hash)]
pub enum ResolutionStatus {
    Unique,
    Ambiguous,
}

pub open spec fn resolution_name(r: ResolutionStatus) -> Seq<char> {
    match r {
        ResolutionStatus::Unique => "unique"@,
        ResolutionStatus::Ambiguous => "ambiguous"@,
    }
}

/// The intent of a comment.
#[derive(Clone, Copy, Debug, PartialEq, Eq, Structural, Hash, PartialOrd, Ord)]
pub enum CommentIntent {
    Ordinary,
    Documentation,
    Rationale,
    Suppression,
    Generated,
}

pub open spec fn intent_rank(intent: CommentIntent) -> nat {
    match intent {
        CommentIntent::Ordinary => 0,
        CommentIntent::Documentation => 1,
        CommentIntent::Rationale => 2,
        CommentIntent::Suppression => 3,
        CommentIntent::Generated => 4,
    }
}

pub open spec fn intent_name(intent: CommentIntent) -> Seq<char> {
    match intent {
        CommentIntent::Ordinary => "ordinary"@,
        CommentIntent::Documentation => "documentation"@,
        CommentIntent::Rationale => "rationale"@,
        CommentIntent::Suppression => "suppression"@,
        CommentIntent::Generated => "generated"@,
    }
}

impl CommentIntent {
    fn rank(self) -> (r: u8)
        ensures
            r as nat == intent_rank(self),
    {
        match self {
            CommentIntent::Ordinary => 0,
            CommentIntent::Documentation => 1,
            CommentIntent::Rationale => 2,
            CommentIntent::Suppression => 3,
            CommentIntent::Generated => 4,
        }
    }

    fn name(self) -> (r: &'static str)
        ensures
            r@ == intent_name(self),
    {
        match self {
            CommentIntent::Ordinary => "ordinary",
            CommentIntent::Documentation => "documentation",
            CommentIntent::Rationale => "rationale",
            CommentIntent::Suppression => "suppression",
            CommentIntent::Generated => "generated",
        }
    }
}

/// What the semantic evidence leaves of a candidate's disposition.
#[derive(Clone, Copy, Debug, PartialEq, Eq, Structural, Hash)]
pub enum SemanticEvidenceDisposition {
    AutomaticCompatible,
    ReviewRequired,
    AutomaticRationaleDeletionBlocked,
}

pub open spec fn semantic_disposition_name(d: SemanticEvidenceDisposition) -> Seq<char> {
    match d {
        SemanticEvidenceDisposition::AutomaticCompatible => "automatic-compatible"@,
        SemanticEvidenceDisposition::ReviewRequired => "review-required"@,
        SemanticEvidenceDisposition::AutomaticRationaleDeletionBlocked => "automatic-rationale-deletion-blocked"@,
    }
}

/// One identifier occurrence with its role, canonical roles, scope and
/// binding facts, and resolution.
#[derive(Clone, Debug)]
pub struct IdentifierSemanticEvidence {
    pub source_path: String,
    pub span: Span,
    pub spelling: String,
    pub role: IdentifierSemanticRole,
    pub canonical_roles: Vec<String>,
    pub scope_fact: String,
    pub binding_fact: Option<String>,
    pub resolution: Option<ResolutionStatus>,
}

/// One comment with its intent and owning scope fact.
#[derive(Clone, Debug)]
pub struct CommentSemanticEvidence {
    pub source_path: String,
    pub span: Span,
    pub text: String,
    pub intent: CommentIntent,
    pub owner_scope_fact: String,
}

impl View for IdentifierSemanticEvidence {
    type V = IdentifierSemanticEvidence;

    open spec fn view(&self) -> IdentifierSemanticEvidence {
        *self
    }
}

impl View for CommentSemanticEvidence {
    type V = CommentSemanticEvidence;

    open spec fn view(&self) -> CommentSemanticEvidence {
        *self
    }
}

/// The position of an occurrence: file, start byte and end byte.
pub open spec fn position_key(path: Seq<char>, span: Span) -> Seq<int> {
    str_key(path) + seq![span.start_byte as int, span.end_byte as int]
}

impl Keyed for IdentifierSemanticEvidence {
    /// Identifiers are ordered by position, then role, then scope fact.
    open spec fn key(v: IdentifierSemanticEvidence) -> Seq<int> {
        position_key(v.source_path@, v.span) + (seq![role_rank(v.role) as int] + str_key(v.scope_fact@))
    }

    fn precedes(&self, other: &Self) -> (r: bool) {
        let a = self;
        let b = other;
        let p = compare_str(a.source_path.as_str(), b.source_path.as_str());
        proof {
            lemma_position_then(
                a.source_path@,
                a.span,
                seq![role_rank(a.role) as int] + str_key(a.scope_fact@),
                b.source_path@,
                b.span,
                seq![role_rank(b.role) as int] + str_key(b.scope_fact@),
            );
            crate::order::lemma_str_key_prefix_free(a.scope_fact@, b.scope_fact@);
            crate::order::lemma_str_key_injective(a.scope_fact@, b.scope_fact@);
            crate::order::lemma_lex_irreflexive(str_key(a.scope_fact@));
            crate::evidence::lemma_pair_key(
                seq![role_rank(a.role) as int],
                str_key(a.scope_fact@),
                seq![role_rank(b.role) as int],
                str_key(b.scope_fact@),
            );
            crate::order::lemma_single_prefix_free(role_rank(a.role) as int, role_rank(b.role) as int);
            crate::order::lemma_lex_single(role_rank(a.role) as int, role_rank(b.role) as int);
        }
        if p != 0 {
            return p < 0;
        }
        if a.span.start_byte != b.span.start_byte {
            return a.span.start_byte < b.span.start_byte;
        }
        if a.span.end_byte != b.span.end_byte {
            return a.span.end_byte < b.span.end_byte;
        }
        let ra = a.role.rank();
        let rb = b.role.rank();
        if ra != rb {
            return ra < rb;
        }
        compare_str(a.scope_fact.as_str(), b.scope_fact.as_str()) < 0
    }
}

impl Keyed for CommentSemanticEvidence {
    /// Comments are ordered by position, then intent.
    open spec fn key(v: CommentSemanticEvidence) -> Seq<int> {
        position_key(v.source_path@, v.span) + seq![intent_rank(v.intent) as int]
    }

    fn precedes(&self, other: &Self) -> (r: bool) {
        let a = self;
        let b = other;
        let p = compare_str(a.source_path.as_str(), b.source_path.as_str());
        proof {
            lemma_position_then(
                a.source_path@,
                a.span,
                seq![intent_rank(a.intent) as int],
                b.source_path@,
                b.span,
                seq![intent_rank(b.intent) as int],
            );
            crate::order::lemma_lex_single(intent_rank(a.intent) as int, intent_rank(b.intent) as int);
        }
        if p != 0 {
            return p < 0;
        }
        if a.span.start_byte != b.span.start_byte {
            return a.span.start_byte < b.span.start_byte;
        }
        if a.span.end_byte != b.span.end_byte {
            return a.span.end_byte < b.span.end_byte;
        }
        a.intent.rank() < b.intent.rank()
    }
}

/// Keys that begin with a position compare by path, then start byte, then
/// end byte, then the rest.
pub proof fn lemma_position_then(
    pa: Seq<char>,
    sa: Span,
    ra: Seq<int>,
    pb: Seq<char>,
    sb: Span,
    rb: Seq<int>,
)
    ensures
        pa != pb ==> (lex_lt(position_key(pa, sa) + ra, position_key(pb, sb) + rb) == lex_lt(
            str_key(pa),
            str_key(pb),
        )),
        pa == pb && sa.start_byte != sb.start_byte ==> (lex_lt(
            position_key(pa, sa) + ra,
            position_key(pb, sb) + rb,
        ) == (sa.start_byte < sb.start_byte)),
        pa == pb && sa.start_byte == sb.start_byte && sa.end_byte != sb.end_byte ==> (lex_lt(
            position_key(pa, sa) + ra,
            position_key(pb, sb) + rb,
        ) == (sa.end_byte < sb.end_byte)),
        pa == pb && sa.start_byte == sb.start_byte && sa.end_byte == sb.end_byte ==> (lex_lt(
            position_key(pa, sa) + ra,
            position_key(pb, sb) + rb,
        ) == lex_lt(ra, rb)),
{
    let ka = str_key(pa);
    let kb = str_key(pb);
    let xa = seq![sa.start_byte as int];
    let xb = seq![sb.start_byte as int];
    let ya = seq![sa.end_byte as int];
    let yb = seq![sb.end_byte as int];
    assert(position_key(pa, sa) + ra =~= ka + (xa + (ya + ra)));
    assert(position_key(pb, sb) + rb =~= kb + (xb + (yb + rb)));
    crate::order::lemma_str_key_prefix_free(pa, pb);
    crate::order::lemma_str_key_injective(pa, pb);
    crate::evidence::lemma_pair_key(ka, xa + (ya + ra), kb, xb + (yb + rb));
    crate::order::lemma_single_prefix_free(sa.start_byte as int, sb.start_byte as int);
    crate::evidence::lemma_pair_key(xa, ya + ra, xb, yb + rb);
    crate::order::lemma_lex_single(sa.start_byte as int, sb.start_byte as int);
    crate::order::lemma_single_prefix_free(sa.end_byte as int, sb.end_byte as int);
    crate::evidence::lemma_pair_key(ya, ra, yb, rb);
    crate::order::lemma_lex_single(sa.end_byte as int, sb.end_byte as int);
}

/// Two byte ranges share at least one byte.
pub open spec fn spec_spans_overlap(left: Span, right: Span) -> bool {
    left.start_byte < right.end_byte && right.start_byte < left.end_byte
}

pub fn spans_overlap(left: Span, right: Span) -> (r: bool)
    ensures
        r == spec_spans_overlap(left, right),
{
    left.start_byte < right.end_byte && right.start_byte < left.end_byte
}

/// A semantic span is nonempty and not reversed.
pub open spec fn semantic_span_valid(span: Span) -> bool {
    span.start_byte < span.end_byte && span.start_line <= span.end_line
}

/// A scope or binding fact: `sf1_` and sixty-four hexadecimal digits.
pub open spec fn is_fact_key(value: Seq<char>) -> bool {
    is_any_digest_id(value, "sf1_"@)
}

/// Refuses text that is empty or has leading or trailing white space.
pub fn validate_text(label: &str, value: &str) -> (r: Result<(), String>)
    ensures
        r is Ok <==> is_trimmed_nonempty(value@),
{
    if !trimmed_nonempty(value) {
        let mut message = label.to_owned();
        string_append(&mut message, " must be nonempty and trimmed");
        return Err(message);
    }
    Ok(())
}

fn validate_span(span: Span) -> (r: Result<(), String>)
    ensures
        r is Ok <==> semantic_span_valid(span),
{
    if span.start_byte >= span.end_byte || span.start_line > span.end_line {
        return Err("semantic evidence span is empty or reversed".to_owned());
    }
    Ok(())
}

/// Refuses a value that is not `prefix` followed by sixty-four hexadecimal
/// digits.
pub fn validate_digest_id(value: &str, prefix: &str) -> (r: Result<(), String>)
    ensures
        r is Ok <==> is_any_digest_id(value@, prefix@),
{
    if !crate::text::starts_with(value, prefix) {
        let mut message = "identity must start with ".to_owned();
        string_append(&mut message, prefix);
        return Err(message);
    }
    if !digest_id_matches(value, prefix, false) {
        return Err("identity must contain one 64-character hexadecimal digest".to_owned());
    }
    Ok(())
}

/// Refuses a value that is not a fact key.
pub fn validate_fact_key(label: &str, value: &str) -> (r: Result<(), String>)
    ensures
        r is Ok <==> is_fact_key(value@),
{
    match validate_digest_id(value, "sf1_") {
        Ok(()) => Ok(()),
        Err(e) => {
            let mut message = label.to_owned();
            string_append(&mut message, ": ");
            string_append(&mut message, e.as_str());
            Err(message)
        },
    }
}

/// The resolution of an identifier fits its role: a reference resolves
/// uniquely to one binding fact; any other occurrence carries no resolution.
pub open spec fn resolution_fits(e: IdentifierSemanticEvidence) -> bool {
    if spec_is_reference(e.role) {
        e.resolution == Some(ResolutionStatus::Unique) && e.binding_fact is Some
    } else {
        e.resolution is None
    }
}

/// One identifier's evidence is well formed.
pub open spec fn identifier_valid(e: IdentifierSemanticEvidence) -> bool {
    &&& is_trimmed_nonempty(e.source_path@)
    &&& semantic_span_valid(e.span)
    &&& is_trimmed_nonempty(e.spelling@)
    &&& is_fact_key(e.scope_fact@)
    &&& e.canonical_roles@.len() > 0
    &&& resolution_fits(e)
    &&& e.binding_fact matches Some(b) ==> is_fact_key(b@)
}

/// One comment's evidence is well formed.
pub open spec fn comment_valid(e: CommentSemanticEvidence) -> bool {
    &&& is_trimmed_nonempty(e.source_path@)
    &&& semantic_span_valid(e.span)
    &&& is_trimmed_nonempty(e.text@)
    &&& is_fact_key(e.owner_scope_fact@)
}

/// No two identifiers share a file and byte range.
pub open spec fn identifier_positions_distinct(s: Seq<IdentifierSemanticEvidence>) -> bool {
    forall|i: int, j: int| 0 <= i < j < s.len() ==> position_key((#[trigger] s[i]).source_path@, s[i].span)
        != position_key((#[trigger] s[j]).source_path@, s[j].span)
}

/// No two comments share a file and byte range.
pub open spec fn comment_positions_distinct(s: Seq<CommentSemanticEvidence>) -> bool {
    forall|i: int, j: int| 0 <= i < j < s.len() ==> position_key((#[trigger] s[i]).source_path@, s[i].span)
        != position_key((#[trigger] s[j]).source_path@, s[j].span)
}

/// The identifiers are each well formed and at distinct positions.
pub open spec fn identifiers_valid(s: Seq<IdentifierSemanticEvidence>) -> bool {
    (forall|i: int| 0 <= i < s.len() ==> identifier_valid(#[trigger] s[i])) && identifier_positions_distinct(s)
}

/// The comments are each well formed and at distinct positions.
pub open spec fn comments_valid(s: Seq<CommentSemanticEvidence>) -> bool {
    (forall|i: int| 0 <= i < s.len() ==> comment_valid(#[trigger] s[i])) && comment_positions_distinct(s)
}

fn same_position(pa: &str, sa: Span, pb: &str, sb: Span) -> (r: bool)
    ensures
        r == (position_key(pa@, sa) == position_key(pb@, sb)),
{
    let p = compare_str(pa, pb);
    proof {
        crate::order::lemma_str_key_injective(pa@, pb@);
        let ka = position_key(pa@, sa);
        let kb = position_key(pb@, sb);
        if ka == kb {
            assert(ka.len() == pa@.len() + 3);
            assert(kb.len() == pb@.len() + 3);
            assert(str_key(pa@) =~= ka.subrange(0, pa@.len() as int + 1));
            assert(str_key(pb@) =~= kb.subrange(0, pb@.len() as int + 1));
            assert(ka[pa@.len() as int + 1] == sa.start_byte);
            assert(kb[pb@.len() as int + 1] == sb.start_byte);
            assert(ka[pa@.len() as int + 2] == sa.end_byte);
            assert(kb[pb@.len() as int + 2] == sb.end_byte);
        }
    }
    p == 0 && sa.start_byte == sb.start_byte && sa.end_byte == sb.end_byte
}

fn validate_identifier(item: &IdentifierSemanticEvidence) -> (r: Result<(), String>)
    ensures
        r is Ok <==> identifier_valid(*item),
{
    validate_text("identifier source path", item.source_path.as_str())?;
    validate_span(item.span)?;
    validate_text("identifier spelling", item.spelling.as_str())?;
    validate_fact_key("identifier scope fact", item.scope_fact.as_str())?;
    if item.canonical_roles.len() == 0 {
        return Err("identifier evidence requires at least one canonical role".to_owned());
    }
    if item.role.is_reference() {
        let unique = match item.resolution {
            Some(ResolutionStatus::Unique) => true,
            _ => false,
        };
        if !unique || item.binding_fact.is_none() {
            return Err("identifier references require one exact resolved binding".to_owned());
        }
    } else if item.resolution.is_some() {
        return Err("non-reference identifier evidence cannot carry resolution status".to_owned());
    }
    match &item.binding_fact {
        Some(binding) => validate_fact_key("identifier binding fact", binding.as_str()),
        None => Ok(()),
    }
}

/// Refuses identifier evidence that is malformed or names one position
/// twice.
pub fn validate_identifiers(evidence: &Vec<IdentifierSemanticEvidence>) -> (r: Result<(), String>)
    ensures
        r is Ok <==> identifiers_valid(evidence@),
{
    let n = evidence.len();
    let mut i: usize = 0;
    while i < n
        invariant
            n == evidence@.len(),
            i <= n,
            forall|k: int| 0 <= k < i ==> identifier_valid(#[trigger] evidence@[k]),
            identifier_positions_distinct(evidence@.subrange(0, i as int)),
        decreases n - i,
    {
        validate_identifier(&evidence[i])?;
        let mut k: usize = 0;
        while k < i
            invariant
                n == evidence@.len(),
                i < n,
                k <= i,
                forall|x: int| 0 <= x < k ==> position_key((#[trigger] evidence@[x]).source_path@, evidence@[x].span)
                    != position_key(evidence@[i as int].source_path@, evidence@[i as int].span),
            decreases i - k,
        {
            if same_position(evidence[k].source_path.as_str(), evidence[k].span, evidence[i].source_path.as_str(), evidence[i].span) {
                proof {
                    let s = evidence@;
                    assert(!identifier_positions_distinct(s)) by {
                        assert(position_key(s[k as int].source_path@, s[k as int].span) == position_key(
                            s[i as int].source_path@,
                            s[i as int].span,
                        ));
                    }
                }
                return Err("duplicate identifier evidence span".to_owned());
            }
            k = k + 1;
        }
        proof {
            let s = evidence@.subrange(0, i + 1);
            assert forall|a: int, b: int| 0 <= a < b < s.len() implies position_key(
                (#[trigger] s[a]).source_path@,
                s[a].span,
            ) != position_key((#[trigger] s[b]).source_path@, s[b].span) by {
                if b < i {
                    assert(evidence@.subrange(0, i as int)[a] == s[a]);
                    assert(evidence@.subrange(0, i as int)[b] == s[b]);
                }
            }
        }
        i = i + 1;
    }
    assert(evidence@.subrange(0, n as int) =~= evidence@);
    Ok(())
}

fn validate_comment(item: &CommentSemanticEvidence) -> (r: Result<(), String>)
    ensures
        r is Ok <==> comment_valid(*item),
{
    validate_text("comment source path", item.source_path.as_str())?;
    validate_span(item.span)?;
    validate_text("comment text", item.text.as_str())?;
    validate_fact_key("comment owner scope fact", item.owner_scope_fact.as_str())
}

/// Refuses comment evidence that is malformed or names one position twice.
pub fn validate_comments(evidence: &Vec<CommentSemanticEvidence>) -> (r: Result<(), String>)
    ensures
        r is Ok <==> comments_valid(evidence@),
{
    let n = evidence.len();
    let mut i: usize = 0;
    while i < n
        invariant
            n == evidence@.len(),
            i <= n,
            forall|k: int| 0 <= k < i ==> comment_valid(#[trigger] evidence@[k]),
            comment_positions_distinct(evidence@.subrange(0, i as int)),
        decreases n - i,
    {
        validate_comment(&evidence[i])?;
        let mut k: usize = 0;
        while k < i
            invariant
                n == evidence@.len(),
                i < n,
                k <= i,
                forall|x: int| 0 <= x < k ==> position_key((#[trigger] evidence@[x]).source_path@, evidence@[x].span)
                    != position_key(evidence@[i as int].source_path@, evidence@[i as int].span),
            decreases i - k,
        {
            if same_position(evidence[k].source_path.as_str(), evidence[k].span, evidence[i].source_path.as_str(), evidence[i].span) {
                proof {
                    let s = evidence@;
                    assert(!comment_positions_distinct(s)) by {
                        assert(position_key(s[k as int].source_path@, s[k as int].span) == position_key(
                            s[i as int].source_path@,
                            s[i as int].span,
                        ));
                    }
                }
                return Err("duplicate comment evidence span".to_owned());
            }
            k = k + 1;
        }
        proof {
            let s = evidence@.subrange(0, i + 1);
            assert forall|a: int, b: int| 0 <= a < b < s.len() implies position_key(
                (#[trigger] s[a]).source_path@,
                s[a].span,
            ) != position_key((#[trigger] s[b]).source_path@, s[b].span) by {
                if b < i {
                    assert(evidence@.subrange(0, i as int)[a] == s[a]);
                    assert(evidence@.subrange(0, i as int)[b] == s[b]);
                }
            }
        }
        i = i + 1;
    }
    assert(evidence@.subrange(0, n as int) =~= evidence@);
    Ok(())
}


/// Sorts roles by name and drops repeats.
pub fn canonical_role_list(roles: &Vec<String>) -> (r: Vec<String>)
    ensures
        keys_strictly_increasing(r@),
        view_set(r@) == view_set(roles@),
{
    let n = roles.len();
    let mut out: Vec<String> = Vec::new();
    let mut i: usize = 0;
    assert(view_set(out@) =~= view_set(roles@.subrange(0, 0)));
    while i < n
        invariant
            n == roles@.len(),
            i <= n,
            keys_strictly_increasing(out@),
            view_set(out@) == view_set(roles@.subrange(0, i as int)),
        decreases n - i,
    {
        insert_sorted_str(&mut out, roles[i].clone());
        proof {
            let a = roles@.subrange(0, i as int);
            let b = roles@.subrange(0, i + 1);
            assert(view_set(b) =~= view_set(a).insert(roles@[i as int]@)) by {
                assert forall|x: Seq<char>| view_set(b).contains(x) implies view_set(a).insert(roles@[i as int]@).contains(x) by {
                    let k = choose|k: int| 0 <= k < b.len() && (#[trigger] b[k])@ == x;
                    if k < i {
                        assert(a[k] == b[k]);
                    }
                }
                assert forall|x: Seq<char>| view_set(a).insert(roles@[i as int]@).contains(x) implies view_set(b).contains(x) by {
                    if x == roles@[i as int]@ {
                        assert(b[i as int] == roles@[i as int]);
                    } else {
                        let k = choose|k: int| 0 <= k < a.len() && (#[trigger] a[k])@ == x;
                        assert(b[k] == a[k]);
                    }
                }
            }
        }
        i = i + 1;
    }
    assert(roles@.subrange(0, n as int) =~= roles@);
    out
}

/// `b` is `a` with its canonical roles sorted by name and without repeats.
pub open spec fn roles_canonicalized(a: IdentifierSemanticEvidence, b: IdentifierSemanticEvidence) -> bool {
    &&& b.source_path == a.source_path
    &&& b.span == a.span
    &&& b.spelling == a.spelling
    &&& b.role == a.role
    &&& b.scope_fact == a.scope_fact
    &&& b.binding_fact == a.binding_fact
    &&& b.resolution == a.resolution
    &&& keys_strictly_increasing(b.canonical_roles@)
    &&& view_set(b.canonical_roles@) == view_set(a.canonical_roles@)
}

/// Identifiers in canonical form: each one's roles canonical, all of them
/// in key order.
pub open spec fn identifiers_canonical(s: Seq<IdentifierSemanticEvidence>) -> bool {
    keys_sorted(s) && forall|i: int| 0 <= i < s.len() ==> keys_strictly_increasing(
        (#[trigger] s[i]).canonical_roles@,
    )
}

/// `out` is the canonical form of the identifiers `input`: the same
/// occurrences with canonical roles, in key order.
pub open spec fn canonical_identifiers_of(out: Seq<IdentifierSemanticEvidence>, input: Seq<IdentifierSemanticEvidence>) -> bool {
    exists|mid: Seq<IdentifierSemanticEvidence>|
        mid.len() == input.len() && (forall|i: int| 0 <= i < input.len() ==> roles_canonicalized(
            #[trigger] input[i],
            mid[i],
        )) && out.to_multiset() == mid.to_multiset() && identifiers_canonical(out)
}

/// Canonical form of identifier evidence: roles sorted by name without
/// repeats, occurrences by file, byte range, role and scope fact.
pub fn canonicalize_identifiers(evidence: Vec<IdentifierSemanticEvidence>) -> (r: Vec<IdentifierSemanticEvidence>)
    ensures
        canonical_identifiers_of(r@, evidence@),
{
    let n = evidence.len();
    let mut mid: Vec<IdentifierSemanticEvidence> = Vec::new();
    let mut i: usize = 0;
    while i < n
        invariant
            n == evidence@.len(),
            i <= n,
            mid@.len() == i,
            forall|k: int| 0 <= k < i ==> roles_canonicalized(#[trigger] evidence@[k], mid@[k]),
        decreases n - i,
    {
        let item = &evidence[i];
        let roles = canonical_role_list(&item.canonical_roles);
        mid.push(IdentifierSemanticEvidence {
            source_path: item.source_path.clone(),
            span: item.span,
            spelling: item.spelling.clone(),
            role: item.role,
            canonical_roles: roles,
            scope_fact: item.scope_fact.clone(),
            binding_fact: item.binding_fact.clone(),
            resolution: item.resolution,
        });
        i = i + 1;
    }
    let ghost m = mid@;
    let sorted = sort_by_key(mid);
    proof {
        sorted@.to_multiset_ensures();
        m.to_multiset_ensures();
        assert forall|i: int| 0 <= i < sorted@.len() implies keys_strictly_increasing(
            (#[trigger] sorted@[i]).canonical_roles@,
        ) by {
            assert(sorted@.contains(sorted@[i]));
            assert(m.to_multiset().count(sorted@[i]) > 0);
            assert(m.contains(sorted@[i]));
            let k = choose|k: int| 0 <= k < m.len() && m[k] == sorted@[i];
            assert(roles_canonicalized(evidence@[k], m[k]));
        }
        assert(canonical_identifiers_of(sorted@, evidence@));
    }
    sorted
}

/// Canonical form of comment evidence: by file, byte range and intent.
pub fn canonicalize_comments(evidence: Vec<CommentSemanticEvidence>) -> (r: Vec<CommentSemanticEvidence>)
    ensures
        r@.to_multiset() == evidence@.to_multiset(),
        keys_sorted(r@),
{
    sort_by_key(evidence)
}

/// Keys of identifiers at different positions differ.
proof fn lemma_identifier_keys_differ(a: IdentifierSemanticEvidence, b: IdentifierSemanticEvidence)
    requires
        position_key(a.source_path@, a.span) != position_key(b.source_path@, b.span),
    ensures
        lex_lt(IdentifierSemanticEvidence::key(a), IdentifierSemanticEvidence::key(b)) || lex_lt(
            IdentifierSemanticEvidence::key(b),
            IdentifierSemanticEvidence::key(a),
        ),
{
    let ra = seq![role_rank(a.role) as int] + str_key(a.scope_fact@);
    let rb = seq![role_rank(b.role) as int] + str_key(b.scope_fact@);
    lemma_position_then(a.source_path@, a.span, ra, b.source_path@, b.span, rb);
    lemma_position_then(b.source_path@, b.span, rb, a.source_path@, a.span, ra);
    crate::order::lemma_lex_total(str_key(a.source_path@), str_key(b.source_path@));
    crate::order::lemma_str_key_injective(a.source_path@, b.source_path@);
}

/// Keys of comments at different positions differ.
proof fn lemma_comment_keys_differ(a: CommentSemanticEvidence, b: CommentSemanticEvidence)
    requires
        position_key(a.source_path@, a.span) != position_key(b.source_path@, b.span),
    ensures
        lex_lt(CommentSemanticEvidence::key(a), CommentSemanticEvidence::key(b)) || lex_lt(
            CommentSemanticEvidence::key(b),
            CommentSemanticEvidence::key(a),
        ),
{
    let ra = seq![intent_rank(a.intent) as int];
    let rb = seq![intent_rank(b.intent) as int];
    lemma_position_then(a.source_path@, a.span, ra, b.source_path@, b.span, rb);
    lemma_position_then(b.source_path@, b.span, rb, a.source_path@, a.span, ra);
    crate::order::lemma_lex_total(str_key(a.source_path@), str_key(b.source_path@));
    crate::order::lemma_str_key_injective(a.source_path@, b.source_path@);
}

/// Sorted identifiers at distinct positions are strictly increasing.
pub proof fn lemma_sorted_identifiers_strict(s: Seq<IdentifierSemanticEvidence>)
    requires
        keys_sorted(s),
        identifier_positions_distinct(s),
    ensures
        keys_strictly_increasing(s),
{
    assert forall|i: int| 0 <= i < s.len() - 1 implies #[trigger] key_lt_at(s, i) by {
        lemma_identifier_keys_differ(s[i], s[i + 1]);
    }
}

/// Sorted comments at distinct positions are strictly increasing.
pub proof fn lemma_sorted_comments_strict(s: Seq<CommentSemanticEvidence>)
    requires
        keys_sorted(s),
        comment_positions_distinct(s),
    ensures
        keys_strictly_increasing(s),
{
    assert forall|i: int| 0 <= i < s.len() - 1 implies #[trigger] key_lt_at(s, i) by {
        lemma_comment_keys_differ(s[i], s[i + 1]);
    }
}

/// An edit as the semantic evidence sees it: its file, span and
/// replacement text.
#[derive(Clone, Debug)]
pub struct SemanticEditRef {
    pub source_path: String,
    pub span: Span,
    pub after: String,
}

/// Some identifier is part of the public API surface.
pub open spec fn protected_identifier(ids: Seq<IdentifierSemanticEvidence>) -> bool {
    exists|i: int| 0 <= i < ids.len() && (#[trigger] ids[i]).role == IdentifierSemanticRole::PublicApiSurface
}

/// Documentation, rationale and suppression comments are protected.
pub open spec fn protected_intent(intent: CommentIntent) -> bool {
    intent == CommentIntent::Documentation || intent == CommentIntent::Rationale || intent
        == CommentIntent::Suppression
}

/// Some comment is protected.
pub open spec fn protected_comment(cs: Seq<CommentSemanticEvidence>) -> bool {
    exists|i: int| 0 <= i < cs.len() && protected_intent((#[trigger] cs[i]).intent)
}

/// An edit deletes a comment's text: it touches the comment's bytes and
/// its replacement does not keep the text.
pub open spec fn edit_deletes(e: SemanticEditRef, c: CommentSemanticEvidence) -> bool {
    e.source_path@ == c.source_path@ && spec_spans_overlap(e.span, c.span) && !contains_text(e.after@, c.text@)
}

/// Some edit deletes some rationale comment.
pub open spec fn deletes_rationale(edits: Seq<SemanticEditRef>, cs: Seq<CommentSemanticEvidence>) -> bool {
    exists|i: int, j: int|
        0 <= i < cs.len() && 0 <= j < edits.len() && (#[trigger] cs[i]).intent == CommentIntent::Rationale
            && edit_deletes(#[trigger] edits[j], cs[i])
}

/// The disposition the evidence leaves: an automatic candidate that deletes
/// rationale is blocked; one that needs review, or touches a public API
/// identifier or a protected comment, requires review; otherwise the
/// automatic disposition stands.
pub open spec fn disposition_of(
    candidate_disposition: CandidateDisposition,
    edits: Seq<SemanticEditRef>,
    ids: Seq<IdentifierSemanticEvidence>,
    cs: Seq<CommentSemanticEvidence>,
) -> SemanticEvidenceDisposition {
    if candidate_disposition == CandidateDisposition::Automatic && deletes_rationale(edits, cs) {
        SemanticEvidenceDisposition::AutomaticRationaleDeletionBlocked
    } else if candidate_disposition == CandidateDisposition::ReviewRequired || protected_identifier(ids)
        || protected_comment(cs) {
        SemanticEvidenceDisposition::ReviewRequired
    } else {
        SemanticEvidenceDisposition::AutomaticCompatible
    }
}

fn comment_deleted_by(edits: &Vec<SemanticEditRef>, c: &CommentSemanticEvidence) -> (r: bool)
    ensures
        r == exists|j: int| 0 <= j < edits@.len() && edit_deletes(#[trigger] edits@[j], *c),
{
    let n = edits.len();
    let mut j: usize = 0;
    while j < n
        invariant
            n == edits@.len(),
            j <= n,
            forall|k: int| 0 <= k < j ==> !edit_deletes(#[trigger] edits@[k], *c),
        decreases n - j,
    {
        let e = &edits[j];
        if compare_str(e.source_path.as_str(), c.source_path.as_str()) == 0 && spans_overlap(e.span, c.span)
            && !contains_substring(e.after.as_str(), c.text.as_str()) {
            return true;
        }
        j = j + 1;
    }
    false
}

/// The disposition that role, scope and comment evidence leaves a candidate.
pub fn semantic_disposition(
    candidate_disposition: CandidateDisposition,
    edits: &Vec<SemanticEditRef>,
    identifiers: &Vec<IdentifierSemanticEvidence>,
    comments: &Vec<CommentSemanticEvidence>,
) -> (d: SemanticEvidenceDisposition)
    ensures
        d == disposition_of(candidate_disposition, edits@, identifiers@, comments@),
{
    let ni = identifiers.len();
    let mut public = false;
    let mut i: usize = 0;
    while i < ni
        invariant
            ni == identifiers@.len(),
            i <= ni,
            public == exists|k: int| 0 <= k < i && (#[trigger] identifiers@[k]).role
                == IdentifierSemanticRole::PublicApiSurface,
        decreases ni - i,
    {
        if identifiers[i].role == IdentifierSemanticRole::PublicApiSurface {
            public = true;
        }
        i = i + 1;
    }
    let nc = comments.len();
    let mut protected = false;
    let mut deletes = false;
    let mut k: usize = 0;
    while k < nc
        invariant
            nc == comments@.len(),
            k <= nc,
            protected == exists|x: int| 0 <= x < k && protected_intent((#[trigger] comments@[x]).intent),
            deletes == exists|x: int, j: int|
                0 <= x < k && 0 <= j < edits@.len() && (#[trigger] comments@[x]).intent == CommentIntent::Rationale
                    && edit_deletes(#[trigger] edits@[j], comments@[x]),
        decreases nc - k,
    {
        let c = &comments[k];
        if c.intent == CommentIntent::Documentation || c.intent == CommentIntent::Rationale || c.intent
            == CommentIntent::Suppression {
            protected = true;
        }
        if c.intent == CommentIntent::Rationale && comment_deleted_by(edits, c) {
            deletes = true;
        }
        proof {
            if c.intent == CommentIntent::Rationale && exists|j: int| 0 <= j < edits@.len() && edit_deletes(
                #[trigger] edits@[j],
                *c,
            ) {
                let j = choose|j: int| 0 <= j < edits@.len() && edit_deletes(#[trigger] edits@[j], *c);
                assert(comments@[k as int].intent == CommentIntent::Rationale && edit_deletes(edits@[j], comments@[k as int]));
            }
        }
        k = k + 1;
    }
    if candidate_disposition == CandidateDisposition::Automatic && deletes {
        SemanticEvidenceDisposition::AutomaticRationaleDeletionBlocked
    } else if candidate_disposition == CandidateDisposition::ReviewRequired || public || protected {
        SemanticEvidenceDisposition::ReviewRequired
    } else {
        SemanticEvidenceDisposition::AutomaticCompatible
    }
}


pub open spec fn resolution_json(r: Option<ResolutionStatus>) -> Seq<char> {
    match r {
        Some(x) => json_str(resolution_name(x)),
        None => json_null(),
    }
}

fn push_resolution_json(out: &mut String, r: Option<ResolutionStatus>)
    ensures
        final(out)@ == old(out)@ + resolution_json(r),
{
    match r {
        Some(ResolutionStatus::Unique) => push_json_str(out, "unique"),
        Some(ResolutionStatus::Ambiguous) => push_json_str(out, "ambiguous"),
        None => {
            string_append(out, "null");
            proof {
                reveal_strlit("null");
            }
            assert(final(out)@ =~= old(out)@ + json_null());
        },
    }
}

fn push_coverage_json(out: &mut String, c: FactCoverage)
    ensures
        final(out)@ == old(out)@ + json_str(coverage_name(c)),
{
    match c {
        FactCoverage::Complete => push_json_str(out, "complete"),
        FactCoverage::Partial => push_json_str(out, "partial"),
    }
}

fn push_disposition_json(out: &mut String, d: SemanticEvidenceDisposition)
    ensures
        final(out)@ == old(out)@ + json_str(semantic_disposition_name(d)),
{
    match d {
        SemanticEvidenceDisposition::AutomaticCompatible => push_json_str(out, "automatic-compatible"),
        SemanticEvidenceDisposition::ReviewRequired => push_json_str(out, "review-required"),
        SemanticEvidenceDisposition::AutomaticRationaleDeletionBlocked => push_json_str(
            out,
            "automatic-rationale-deletion-blocked",
        ),
    }
}

impl JsonValue for IdentifierSemanticEvidence {
    open spec fn json(v: IdentifierSemanticEvidence) -> Seq<char> {
        "{\"source_path\":"@ + json_str(v.source_path@) + ",\"span\":"@ + span_json(v.span) + ",\"spelling\":"@
            + json_str(v.spelling@) + ",\"role\":"@ + json_str(role_name(v.role)) + ",\"canonical_roles\":"@
            + json_array(json_items(v.canonical_roles@)) + ",\"scope_fact\":"@ + json_str(v.scope_fact@)
            + ",\"binding_fact\":"@ + json_opt_str(text_view(v.binding_fact)) + ",\"resolution\":"@
            + resolution_json(v.resolution) + "}"@
    }

    #[verifier::rlimit(50)]
    fn write_json(&self, out: &mut String) {
        string_append(out, "{\"source_path\":");
        push_json_str(out, self.source_path.as_str());
        string_append(out, ",\"span\":");
        push_span_json(out, self.span);
        string_append(out, ",\"spelling\":");
        push_json_str(out, self.spelling.as_str());
        string_append(out, ",\"role\":");
        push_json_str(out, self.role.name());
        string_append(out, ",\"canonical_roles\":");
        push_json_list(out, &self.canonical_roles);
        string_append(out, ",\"scope_fact\":");
        push_json_str(out, self.scope_fact.as_str());
        string_append(out, ",\"binding_fact\":");
        push_json_opt_str(out, &self.binding_fact);
        string_append(out, ",\"resolution\":");
        push_resolution_json(out, self.resolution);
        string_append(out, "}");
        assert(final(out)@ =~= old(out)@ + Self::json(self@));
    }
}

impl JsonValue for CommentSemanticEvidence {
    open spec fn json(v: CommentSemanticEvidence) -> Seq<char> {
        "{\"source_path\":"@ + json_str(v.source_path@) + ",\"span\":"@ + span_json(v.span) + ",\"text\":"@
            + json_str(v.text@) + ",\"intent\":"@ + json_str(intent_name(v.intent)) + ",\"owner_scope_fact\":"@
            + json_str(v.owner_scope_fact@) + "}"@
    }

    fn write_json(&self, out: &mut String) {
        string_append(out, "{\"source_path\":");
        push_json_str(out, self.source_path.as_str());
        string_append(out, ",\"span\":");
        push_span_json(out, self.span);
        string_append(out, ",\"text\":");
        push_json_str(out, self.text.as_str());
        string_append(out, ",\"intent\":");
        push_json_str(out, self.intent.name());
        string_append(out, ",\"owner_scope_fact\":");
        push_json_str(out, self.owner_scope_fact.as_str());
        string_append(out, "}");
        assert(final(out)@ =~= old(out)@ + Self::json(self@));
    }
}

/// Role, scope and comment evidence as it stands: schema, identity,
/// candidate, the two coverages, the identifiers and comments, and the
/// disposition.
pub struct RoleScopeCommentEvidenceView {
    pub schema: Seq<char>,
    pub id: Seq<char>,
    pub candidate: Seq<char>,
    pub identifier_coverage: FactCoverage,
    pub comment_coverage: FactCoverage,
    pub identifiers: Seq<IdentifierSemanticEvidence>,
    pub comments: Seq<CommentSemanticEvidence>,
    pub disposition: SemanticEvidenceDisposition,
}

/// The JSON text an evidence record's identity is derived from: every
/// field but the identity, in declaration order.
pub open spec fn evidence_payload(v: RoleScopeCommentEvidenceView) -> Seq<char> {
    payload_text(
        v.schema,
        v.candidate,
        v.identifier_coverage,
        v.comment_coverage,
        v.identifiers,
        v.comments,
        v.disposition,
    )
}

/// The payload of the given fields.
pub open spec fn payload_text(
    schema: Seq<char>,
    candidate: Seq<char>,
    identifier_coverage: FactCoverage,
    comment_coverage: FactCoverage,
    identifiers: Seq<IdentifierSemanticEvidence>,
    comments: Seq<CommentSemanticEvidence>,
    disposition: SemanticEvidenceDisposition,
) -> Seq<char> {
    payload_head(schema, candidate, identifier_coverage, comment_coverage) + payload_tail(
        identifiers,
        comments,
        disposition,
    )
}

/// The payload up to the evidence lists.
pub open spec fn payload_head(
    schema: Seq<char>,
    candidate: Seq<char>,
    identifier_coverage: FactCoverage,
    comment_coverage: FactCoverage,
) -> Seq<char> {
    "{\"schema\":"@ + json_str(schema) + ",\"candidate\":"@ + json_str(candidate) + ",\"identifier_coverage\":"@
        + json_str(coverage_name(identifier_coverage)) + ",\"comment_coverage\":"@ + json_str(
        coverage_name(comment_coverage),
    )
}

/// The payload from the evidence lists on.
pub open spec fn payload_tail(
    identifiers: Seq<IdentifierSemanticEvidence>,
    comments: Seq<CommentSemanticEvidence>,
    disposition: SemanticEvidenceDisposition,
) -> Seq<char> {
    ",\"identifiers\":"@ + json_array(json_items(identifiers)) + ",\"comments\":"@ + json_array(
        json_items(comments),
    ) + ",\"disposition\":"@ + json_str(semantic_disposition_name(disposition)) + "}"@
}

/// A record is accepted when its schema is current; its identity has the
/// evidence form; both coverages are complete; its identifiers and comments
/// are valid and in canonical order; and its identity is the one its
/// fields derive.
pub open spec fn evidence_accepted(v: RoleScopeCommentEvidenceView) -> bool {
    &&& v.schema == ROLE_SCOPE_COMMENT_EVIDENCE_SCHEMA@
    &&& is_any_digest_id(v.id, "rsc1_"@)
    &&& v.identifier_coverage == FactCoverage::Complete
    &&& v.comment_coverage == FactCoverage::Complete
    &&& identifiers_valid(v.identifiers)
    &&& comments_valid(v.comments)
    &&& keys_strictly_increasing(v.identifiers)
    &&& forall|i: int| 0 <= i < v.identifiers.len() ==> keys_strictly_increasing(
        (#[trigger] v.identifiers[i]).canonical_roles@,
    )
    &&& keys_strictly_increasing(v.comments)
    &&& v.id == plain_digest_id("rsc1_"@, evidence_payload(v))
}

/// Role-, scope- and comment-aware evidence for one guarded candidate.
#[derive(Clone, Debug)]
pub struct RoleScopeCommentEvidence {
    schema: String,
    id: RoleScopeCommentEvidenceId,
    candidate: String,
    identifier_coverage: FactCoverage,
    comment_coverage: FactCoverage,
    identifiers: Vec<IdentifierSemanticEvidence>,
    comments: Vec<CommentSemanticEvidence>,
    disposition: SemanticEvidenceDisposition,
}

/// The fields of an evidence record as they travel.
#[derive(Clone, Debug)]
pub struct RoleScopeCommentEvidenceWire {
    pub schema: String,
    pub id: String,
    pub candidate: String,
    pub identifier_coverage: FactCoverage,
    pub comment_coverage: FactCoverage,
    pub identifiers: Vec<IdentifierSemanticEvidence>,
    pub comments: Vec<CommentSemanticEvidence>,
    pub disposition: SemanticEvidenceDisposition,
}

pub open spec fn wire_view(w: RoleScopeCommentEvidenceWire) -> RoleScopeCommentEvidenceView {
    RoleScopeCommentEvidenceView {
        schema: w.schema@,
        id: w.id@,
        candidate: w.candidate@,
        identifier_coverage: w.identifier_coverage,
        comment_coverage: w.comment_coverage,
        identifiers: w.identifiers@,
        comments: w.comments@,
        disposition: w.disposition,
    }
}

impl View for RoleScopeCommentEvidence {
    type V = RoleScopeCommentEvidenceView;

    closed spec fn view(&self) -> RoleScopeCommentEvidenceView {
        RoleScopeCommentEvidenceView {
            schema: self.schema@,
            id: self.id@,
            candidate: self.candidate@,
            identifier_coverage: self.identifier_coverage,
            comment_coverage: self.comment_coverage,
            identifiers: self.identifiers@,
            comments: self.comments@,
            disposition: self.disposition,
        }
    }
}

fn push_payload_head(
    out: &mut String,
    schema: &str,
    candidate: &str,
    identifier_coverage: FactCoverage,
    comment_coverage: FactCoverage,
)
    ensures
        final(out)@ == old(out)@ + payload_head(schema@, candidate@, identifier_coverage, comment_coverage),
{
    string_append(out, "{\"schema\":");
    push_json_str(out, schema);
    string_append(out, ",\"candidate\":");
    push_json_str(out, candidate);
    string_append(out, ",\"identifier_coverage\":");
    push_coverage_json(out, identifier_coverage);
    string_append(out, ",\"comment_coverage\":");
    push_coverage_json(out, comment_coverage);
    assert(final(out)@ =~= old(out)@ + payload_head(schema@, candidate@, identifier_coverage, comment_coverage));
}

fn push_payload_tail(
    out: &mut String,
    identifiers: &Vec<IdentifierSemanticEvidence>,
    comments: &Vec<CommentSemanticEvidence>,
    disposition: SemanticEvidenceDisposition,
)
    ensures
        final(out)@ == old(out)@ + payload_tail(identifiers@, comments@, disposition),
{
    string_append(out, ",\"identifiers\":");
    push_json_list(out, identifiers);
    string_append(out, ",\"comments\":");
    push_json_list(out, comments);
    string_append(out, ",\"disposition\":");
    push_disposition_json(out, disposition);
    string_append(out, "}");
    assert(final(out)@ =~= old(out)@ + payload_tail(identifiers@, comments@, disposition));
}

fn push_evidence_payload(
    out: &mut String,
    schema: &str,
    candidate: &str,
    identifier_coverage: FactCoverage,
    comment_coverage: FactCoverage,
    identifiers: &Vec<IdentifierSemanticEvidence>,
    comments: &Vec<CommentSemanticEvidence>,
    disposition: SemanticEvidenceDisposition,
)
    ensures
        final(out)@ == old(out)@ + payload_text(
            schema@,
            candidate@,
            identifier_coverage,
            comment_coverage,
            identifiers@,
            comments@,
            disposition,
        ),
{
    push_payload_head(out, schema, candidate, identifier_coverage, comment_coverage);
    push_payload_tail(out, identifiers, comments, disposition);
    assert(final(out)@ =~= old(out)@ + payload_text(
        schema@,
        candidate@,
        identifier_coverage,
        comment_coverage,
        identifiers@,
        comments@,
        disposition,
    ));
}

fn derive_evidence_id(
    schema: &str,
    candidate: &str,
    identifier_coverage: FactCoverage,
    comment_coverage: FactCoverage,
    identifiers: &Vec<IdentifierSemanticEvidence>,
    comments: &Vec<CommentSemanticEvidence>,
    disposition: SemanticEvidenceDisposition,
) -> (r: String)
    ensures
        r@ == plain_digest_id(
            "rsc1_"@,
            payload_text(
                schema@,
                candidate@,
                identifier_coverage,
                comment_coverage,
                identifiers@,
                comments@,
                disposition,
            ),
        ),
        crate::text::is_lower_digest_id(r@, "rsc1_"@),
{
    let mut payload = String::new();
    push_evidence_payload(
        &mut payload,
        schema,
        candidate,
        identifier_coverage,
        comment_coverage,
        identifiers,
        comments,
        disposition,
    );
    assert(payload@ =~= payload_text(
        schema@,
        candidate@,
        identifier_coverage,
        comment_coverage,
        identifiers@,
        comments@,
        disposition,
    ));
    derive_plain_id("rsc1_", payload.as_str())
}

fn roles_canonical(s: &Vec<IdentifierSemanticEvidence>) -> (r: bool)
    ensures
        r == forall|i: int| 0 <= i < s@.len() ==> keys_strictly_increasing((#[trigger] s@[i]).canonical_roles@),
{
    let n = s.len();
    let mut i: usize = 0;
    while i < n
        invariant
            n == s@.len(),
            i <= n,
            forall|k: int| 0 <= k < i ==> keys_strictly_increasing((#[trigger] s@[k]).canonical_roles@),
        decreases n - i,
    {
        if !strictly_increasing(&s[i].canonical_roles) {
            return false;
        }
        i = i + 1;
    }
    true
}

/// Checks every rule of `evidence_accepted` on the fields of a record.
fn validate_fields(
    schema: &str,
    id: &str,
    candidate: &str,
    identifier_coverage: FactCoverage,
    comment_coverage: FactCoverage,
    identifiers: &Vec<IdentifierSemanticEvidence>,
    comments: &Vec<CommentSemanticEvidence>,
    disposition: SemanticEvidenceDisposition,
) -> (r: Result<(), String>)
    ensures
        r is Ok <==> evidence_accepted(
            RoleScopeCommentEvidenceView {
                schema: schema@,
                id: id@,
                candidate: candidate@,
                identifier_coverage,
                comment_coverage,
                identifiers: identifiers@,
                comments: comments@,
                disposition,
            },
        ),
{
    if compare_str(schema, ROLE_SCOPE_COMMENT_EVIDENCE_SCHEMA) != 0 {
        return Err("unsupported role/scope/comment evidence schema".to_owned());
    }
    validate_digest_id(id, "rsc1_")?;
    if identifier_coverage != FactCoverage::Complete || comment_coverage != FactCoverage::Complete {
        return Err("role/scope and comment evidence must both be complete".to_owned());
    }
    validate_identifiers(identifiers)?;
    validate_comments(comments)?;
    if !strictly_increasing(identifiers) || !roles_canonical(identifiers) || !strictly_increasing(comments) {
        return Err("role/scope/comment evidence is not canonical".to_owned());
    }
    let expected = derive_evidence_id(
        schema,
        candidate,
        identifier_coverage,
        comment_coverage,
        identifiers,
        comments,
        disposition,
    );
    if compare_str(expected.as_str(), id) != 0 {
        return Err("role/scope/comment evidence identity is stale".to_owned());
    }
    Ok(())
}

/// What an evidence-building call is given: the coverage of each kind of
/// fact and the identifier and comment evidence.
#[derive(Clone, Debug)]
pub struct RoleScopeCommentEvidenceInput {
    pub identifier_coverage: FactCoverage,
    pub comment_coverage: FactCoverage,
    pub identifiers: Vec<IdentifierSemanticEvidence>,
    pub comments: Vec<CommentSemanticEvidence>,
}

/// The edits of a candidate as the semantic evidence sees them.
pub open spec fn edit_refs(c: TransformationCandidate) -> Seq<SemanticEditRef> {
    c.spec_draft().edits@.map_values(
        |e: crate::target::TransformationEdit|
            SemanticEditRef { source_path: e.target.path, span: e.span, after: e.after },
    )
}

fn candidate_edit_refs(c: &TransformationCandidate) -> (r: Vec<SemanticEditRef>)
    ensures
        r@ == edit_refs(*c),
{
    let edits = c.edits();
    let n = edits.len();
    let mut out: Vec<SemanticEditRef> = Vec::new();
    let mut i: usize = 0;
    while i < n
        invariant
            n == edits@.len(),
            edits@ == c.spec_draft().edits@,
            i <= n,
            out@ == edit_refs(*c).subrange(0, i as int),
        decreases n - i,
    {
        let e = &edits[i];
        out.push(SemanticEditRef { source_path: e.target.path.clone(), span: e.span, after: e.after.clone() });
        assert(out@ =~= edit_refs(*c).subrange(0, i + 1));
        i = i + 1;
    }
    assert(out@ =~= edit_refs(*c));
    out
}

impl RoleScopeCommentEvidence {
    pub fn id(&self) -> (r: &RoleScopeCommentEvidenceId)
        ensures
            r@ == self@.id,
    {
        &self.id
    }

    pub fn candidate(&self) -> (r: &str)
        ensures
            r@ == self@.candidate,
    {
        self.candidate.as_str()
    }

    pub fn identifiers(&self) -> (r: &[IdentifierSemanticEvidence])
        ensures
            r@ == self@.identifiers,
    {
        self.identifiers.as_slice()
    }

    pub fn comments(&self) -> (r: &[CommentSemanticEvidence])
        ensures
            r@ == self@.comments,
    {
        self.comments.as_slice()
    }

    pub fn disposition(&self) -> (r: SemanticEvidenceDisposition)
        ensures
            r == self@.disposition,
    {
        self.disposition
    }

    /// The record's fields as they travel.
    pub fn into_wire(self) -> (w: RoleScopeCommentEvidenceWire)
        ensures
            wire_view(w) == self@,
    {
        RoleScopeCommentEvidenceWire {
            schema: self.schema,
            id: self.id.value,
            candidate: self.candidate,
            identifier_coverage: self.identifier_coverage,
            comment_coverage: self.comment_coverage,
            identifiers: self.identifiers,
            comments: self.comments,
            disposition: self.disposition,
        }
    }

    /// Rebuilds a record from its travelling fields, refusing any that is
    /// not accepted.
    pub fn from_wire(w: RoleScopeCommentEvidenceWire) -> (r: Result<RoleScopeCommentEvidence, String>)
        ensures
            r is Ok <==> evidence_accepted(wire_view(w)),
            r matches Ok(e) ==> e@ == wire_view(w),
    {
        validate_fields(
            w.schema.as_str(),
            w.id.as_str(),
            w.candidate.as_str(),
            w.identifier_coverage,
            w.comment_coverage,
            &w.identifiers,
            &w.comments,
            w.disposition,
        )?;
        Ok(RoleScopeCommentEvidence {
            schema: w.schema,
            id: RoleScopeCommentEvidenceId { value: w.id },
            candidate: w.candidate,
            identifier_coverage: w.identifier_coverage,
            comment_coverage: w.comment_coverage,
            identifiers: w.identifiers,
            comments: w.comments,
            disposition: w.disposition,
        })
    }

    /// Checks the record against every rule it was built under.
    pub fn validate(&self) -> (r: Result<(), String>)
        ensures
            r is Ok <==> evidence_accepted(self@),
    {
        validate_fields(
            self.schema.as_str(),
            self.id.value.as_str(),
            self.candidate.as_str(),
            self.identifier_coverage,
            self.comment_coverage,
            &self.identifiers,
            &self.comments,
            self.disposition,
        )
    }
}


/// Some canonical form of the given identifiers and comments is invalid.
pub open spec fn canonical_forms_invalid(
    identifiers: Seq<IdentifierSemanticEvidence>,
    comments: Seq<CommentSemanticEvidence>,
) -> bool {
    exists|ids: Seq<IdentifierSemanticEvidence>, cs: Seq<CommentSemanticEvidence>|
        canonical_identifiers_of(ids, identifiers) && cs.to_multiset() == comments.to_multiset() && keys_sorted(
            cs,
        ) && !(#[trigger] identifiers_valid(ids) && #[trigger] comments_valid(cs))
}

/// Builds the role, scope and comment evidence of a candidate. Both
/// coverages must be complete; the identifiers and comments are brought to
/// canonical form and must then be valid. The record names the candidate,
/// holds the canonical evidence, and carries the disposition that the
/// evidence leaves the candidate's own disposition.
pub fn role_scope_comment_evidence(
    candidate: &TransformationCandidate,
    input: RoleScopeCommentEvidenceInput,
) -> (r: Result<RoleScopeCommentEvidence, String>)
    ensures
        input.identifier_coverage != FactCoverage::Complete || input.comment_coverage != FactCoverage::Complete
            ==> r is Err,
        r is Err && input.identifier_coverage == FactCoverage::Complete && input.comment_coverage
            == FactCoverage::Complete ==> canonical_forms_invalid(input.identifiers@, input.comments@),
        r matches Ok(e) ==> {
            &&& evidence_accepted(e@)
            &&& e@.candidate == candidate.spec_id()
            &&& canonical_identifiers_of(e@.identifiers, input.identifiers@)
            &&& e@.comments.to_multiset() == input.comments@.to_multiset()
            &&& e@.disposition == disposition_of(
                candidate.spec_draft().disposition,
                edit_refs(*candidate),
                e@.identifiers,
                e@.comments,
            )
        },
{
    if input.identifier_coverage != FactCoverage::Complete || input.comment_coverage != FactCoverage::Complete {
        return Err("role/scope and comment evidence must both be complete".to_owned());
    }
    let ghost original = input;
    let RoleScopeCommentEvidenceInput { identifier_coverage, comment_coverage, identifiers, comments } = input;
    let identifiers = canonicalize_identifiers(identifiers);
    let comments = canonicalize_comments(comments);
    let valid_ids = validate_identifiers(&identifiers);
    let valid_comments = validate_comments(&comments);
    if valid_ids.is_err() || valid_comments.is_err() {
        proof {
            assert(!(identifiers_valid(identifiers@) && comments_valid(comments@)));
            assert(canonical_forms_invalid(original.identifiers@, original.comments@));
        }
        match valid_ids {
            Err(e) => {
                return Err(e);
            },
            Ok(()) => {},
        }
        match valid_comments {
            Err(e) => {
                return Err(e);
            },
            Ok(()) => {},
        }
    }
    let edits = candidate_edit_refs(candidate);
    let disposition = semantic_disposition(candidate.disposition(), &edits, &identifiers, &comments);
    let schema = ROLE_SCOPE_COMMENT_EVIDENCE_SCHEMA.to_owned();
    let candidate_id = candidate.id().to_owned();
    let id = derive_evidence_id(
        schema.as_str(),
        candidate_id.as_str(),
        identifier_coverage,
        comment_coverage,
        &identifiers,
        &comments,
        disposition,
    );
    proof {
        lemma_sorted_identifiers_strict(identifiers@);
        lemma_sorted_comments_strict(comments@);
        assert forall|i: int| "rsc1_"@.len() <= i < id@.len() implies crate::text::is_any_hex(#[trigger] id@[i]) by {
            assert(crate::text::is_lower_hex(id@[i]));
        }
    }
    let record = RoleScopeCommentEvidence {
        schema,
        id: RoleScopeCommentEvidenceId { value: id },
        candidate: candidate_id,
        identifier_coverage,
        comment_coverage,
        identifiers,
        comments,
        disposition,
    };
    assert(evidence_accepted(record@));
    Ok(record)
}


/// Semantic evidence never makes a candidate more automatic than it was:
/// it leaves the automatic disposition only to an automatic candidate.
pub proof fn lemma_evidence_grants_no_authority(
    candidate_disposition: CandidateDisposition,
    edits: Seq<SemanticEditRef>,
    ids: Seq<IdentifierSemanticEvidence>,
    cs: Seq<CommentSemanticEvidence>,
)
    ensures
        disposition_of(candidate_disposition, edits, ids, cs) == SemanticEvidenceDisposition::AutomaticCompatible
            ==> candidate_disposition == CandidateDisposition::Automatic,
        candidate_disposition == CandidateDisposition::ReviewRequired ==> disposition_of(
            candidate_disposition,
            edits,
            ids,
            cs,
        ) == SemanticEvidenceDisposition::ReviewRequired,
{
}

} // verus!
