//! The frozen evaluation corpus of the unreachable-literal recipe: its
//! shape, the cases it expands to, and the integer tallies an evaluation
//! reports.

use vstd::prelude::*;
use crate::contract::labeled_message;
use crate::identity::{derive_id, derived_id};
use crate::order::compare_str;
use crate::json::{
    decimal, json_opt_str, json_str, text_view, push_decimal, push_json_opt_str, push_json_str, string_append,
    string_push,
};

verus! {

pub const RECIPE_EVALUATION_CORPUS_SCHEMA: &'static str = "deslop.recipe-evaluation-corpus/1";

pub const RECIPE_EVALUATION_REPORT_SCHEMA: &'static str = "deslop.recipe-evaluation-report/1";

pub const CASE_ID_DOMAIN: &'static str = "deslop recipe evaluation case id v1";

/// Clusters of opportunities in the frozen corpus.
pub const FROZEN_POSITIVE_CLUSTERS: usize = 200;

/// Clusters of hard negatives in the frozen corpus.
pub const FROZEN_HARD_NEGATIVE_CLUSTERS: usize = 200;

/// Variants in each cluster of the frozen corpus.
pub const FROZEN_VARIANTS_PER_CLUSTER: usize = 5;

/// Whether a corpus case is an opportunity the recipe should take or a
/// hard negative it must leave alone.
#[derive(Clone, Copy, Debug, PartialEq, Eq, Structural, Hash, PartialOrd, Ord)]
pub enum CorpusLabel {
    Opportunity,
    HardNegative,
}

pub open spec fn label_name(label: CorpusLabel) -> Seq<char> {
    match label {
        CorpusLabel::Opportunity => "opportunity"@,
        CorpusLabel::HardNegative => "hard-negative"@,
    }
}

/// One expanded case of a frozen corpus.
#[derive(Clone, Debug, PartialEq, Eq)]
pub struct FrozenRecipeCase {
    pub id: String,
    pub cluster: String,
    pub label: CorpusLabel,
    pub source: String,
    pub target_text: Option<String>,
}

/// The resources an evaluation run may use.
#[derive(Clone, Copy, Debug, PartialEq, Eq, Structural)]
pub struct EvaluationResourceBudget {
    pub maximum_source_bytes: usize,
    pub maximum_candidates: usize,
    pub maximum_wall_time_ms: u64,
}

/// Confusion counts of an evaluation.
#[derive(Clone, Copy, Debug, PartialEq, Eq, Structural)]
pub struct RecipeEvaluationTotals {
    pub true_positive: usize,
    pub false_positive: usize,
    pub true_negative: usize,
    pub false_negative: usize,
}

/// Which evaluation thresholds held, and whether all of them did.
#[derive(Clone, Copy, Debug, PartialEq, Eq, Structural)]
pub struct RecipeEvaluationThresholdResults {
    pub precision: bool,
    pub recall: bool,
    pub hard_negative_fpr: bool,
    pub calibration: bool,
    pub passed: bool,
}

impl RecipeEvaluationThresholdResults {
    /// The results of the four thresholds; the evaluation passes exactly
    /// when all four hold.
    pub fn from_checks(precision: bool, recall: bool, hard_negative_fpr: bool, calibration: bool) -> (r:
        Self)
        ensures
            r.precision == precision,
            r.recall == recall,
            r.hard_negative_fpr == hard_negative_fpr,
            r.calibration == calibration,
            r.passed == (precision && recall && hard_negative_fpr && calibration),
    {
        RecipeEvaluationThresholdResults {
            precision,
            recall,
            hard_negative_fpr,
            calibration,
            passed: precision && recall && hard_negative_fpr && calibration,
        }
    }
}

/// Why an evaluation corpus or its observations were refused.
#[derive(Clone, Debug, PartialEq, Eq)]
pub enum RecipeEvaluationError {
    InvalidCorpus(String),
    InvalidObservations(String),
    Identity(String),
}

/// The message of an evaluation error.
pub open spec fn evaluation_error_message(e: RecipeEvaluationError) -> Seq<char> {
    match e {
        RecipeEvaluationError::InvalidCorpus(d) => "invalid recipe evaluation corpus: "@ + d@,
        RecipeEvaluationError::InvalidObservations(d) => "invalid recipe evaluation observations: "@ + d@,
        RecipeEvaluationError::Identity(d) => "recipe evaluation identity failed: "@ + d@,
    }
}

impl RecipeEvaluationError {
    /// The message of the error.
    pub fn message(&self) -> (m: String)
        ensures
            m@ == evaluation_error_message(*self),
    {
        match self {
            RecipeEvaluationError::InvalidCorpus(d) => labeled_message("invalid recipe evaluation corpus: ", d.as_str()),
            RecipeEvaluationError::InvalidObservations(d) => labeled_message(
                "invalid recipe evaluation observations: ",
                d.as_str(),
            ),
            RecipeEvaluationError::Identity(d) => labeled_message("recipe evaluation identity failed: ", d.as_str()),
        }
    }
}

/// `s` padded on the left with zeros to at least `width` characters.
pub open spec fn zero_padded(s: Seq<char>, width: nat) -> Seq<char> {
    if s.len() >= width {
        s
    } else {
        Seq::new((width - s.len()) as nat, |_i: int| '0') + s
    }
}

fn push_padded(out: &mut String, n: u64, width: usize)
    ensures
        final(out)@ == old(out)@ + zero_padded(decimal(n as nat), width as nat),
{
    let mut digits = String::new();
    push_decimal(&mut digits, n);
    assert(digits@ =~= decimal(n as nat));
    let len = digits.unicode_len();
    let ghost start = out@;
    let mut k = len;
    while k < width
        invariant
            len == digits@.len(),
            len <= k,
            k <= width || k == len,
            out@ == start + Seq::new((k - len) as nat, |_i: int| '0'),
        decreases width - k,
    {
        let ghost before = out@;
        string_push(out, '0');
        assert(out@ =~= start + Seq::new((k + 1 - len) as nat, |_i: int| '0'));
        k = k + 1;
    }
    string_append(out, digits.as_str());
    proof {
        if len >= width {
            assert(k == len);
            assert(out@ =~= start + decimal(n as nat));
        } else {
            assert(k == width);
            assert(out@ =~= start + zero_padded(decimal(n as nat), width as nat));
        }
    }
}

/// The literal that a case of the given family, layout and variant uses.
pub open spec fn case_literal(family: nat, layout: nat, variant: nat) -> Seq<char> {
    if family == 0 {
        decimal(layout * 10 + variant)
    } else if family == 1 {
        decimal(layout) + "."@ + decimal(variant)
    } else if family == 2 {
        if variant % 2 == 0 {
            "true"@
        } else {
            "false"@
        }
    } else if family == 3 {
        seq!['\'', (97 + variant) as char, '\'']
    } else {
        "\"layout-"@ + decimal(layout) + "-variant-"@ + decimal(variant) + "\""@
    }
}

/// The identity of a cluster: its label and its three-digit number.
pub open spec fn cluster_id(label: CorpusLabel, cluster: nat) -> Seq<char> {
    match label {
        CorpusLabel::Opportunity => "positive-"@ + zero_padded(decimal(cluster), 3),
        CorpusLabel::HardNegative => "hard-negative-"@ + zero_padded(decimal(cluster), 3),
    }
}

/// The opening of a case's function, up to and including its layout comment.
pub open spec fn source_head(kind: Seq<char>, cluster: nat, variant: nat, params: Seq<char>, layout: nat) -> Seq<
    char,
> {
    "fn "@ + kind + "_"@ + decimal(cluster) + "_"@ + decimal(variant) + "("@ + params + ") { /* layout-"@
        + zero_padded(decimal(layout), 2) + " */ "@
}

/// The Rust source of a case.
pub open spec fn case_source(label: CorpusLabel, cluster: nat, variant: nat) -> Seq<char> {
    let family = cluster % 5;
    let layout = cluster / 5;
    let literal = case_literal(family, layout, variant);
    let tail = " }\n"@;
    match label {
        CorpusLabel::Opportunity => source_head("positive"@, cluster, variant, Seq::empty(), layout)
            + "return; "@ + literal + ";"@ + tail,
        CorpusLabel::HardNegative => if family == 0 {
            source_head("negative"@, cluster, variant, Seq::empty(), layout) + literal + ";"@ + tail
        } else if family == 1 {
            source_head("negative"@, cluster, variant, Seq::empty(), layout) + "return; sink_"@
                + decimal(layout) + "_"@ + decimal(variant) + "();"@ + tail
        } else if family == 2 {
            source_head("negative"@, cluster, variant, Seq::empty(), layout) + "return; "@
                + decimal(variant) + " + "@ + decimal(variant + 1) + ";"@ + tail
        } else if family == 3 {
            source_head("negative"@, cluster, variant, Seq::empty(), layout) + "return; VALUE_"@
                + decimal(layout) + "_"@ + decimal(variant) + ";"@ + tail
        } else {
            source_head("negative"@, cluster, variant, "flag: bool"@, layout) + "if flag { return; } "@
                + literal + ";"@ + tail
        },
    }
}

/// The text an opportunity's edit removes; hard negatives have none.
pub open spec fn case_target(label: CorpusLabel, cluster: nat, variant: nat) -> Option<Seq<char>> {
    match label {
        CorpusLabel::Opportunity => Some(case_literal(cluster % 5, cluster / 5, variant) + ";"@),
        CorpusLabel::HardNegative => None,
    }
}

/// The JSON array a case's identity is derived from: label, cluster,
/// variant, source and target text.
pub open spec fn case_payload(label: CorpusLabel, cluster: nat, variant: nat) -> Seq<char> {
    "["@ + json_str(label_name(label)) + ","@ + json_str(cluster_id(label, cluster)) + ","@ + decimal(
        variant,
    ) + ","@ + json_str(case_source(label, cluster, variant)) + ","@ + json_opt_str(
        case_target(label, cluster, variant),
    ) + "]"@
}

/// A case is the one the corpus generator makes for a label, cluster and
/// variant.
pub open spec fn is_case(c: FrozenRecipeCase, label: CorpusLabel, cluster: nat, variant: nat) -> bool {
    &&& c.label == label
    &&& c.cluster@ == cluster_id(label, cluster)
    &&& c.source@ == case_source(label, cluster, variant)
    &&& text_view(c.target_text) == case_target(label, cluster, variant)
    &&& c.id@ == derived_id(CASE_ID_DOMAIN@, "b2c1_"@, case_payload(label, cluster, variant))
}

fn push_literal(out: &mut String, family: usize, layout: usize, variant: usize)
    requires
        family < 5,
        family == 0 ==> layout * 10 + variant <= usize::MAX,
        variant < 159,
    ensures
        final(out)@ == old(out)@ + case_literal(family as nat, layout as nat, variant as nat),
{
    let ghost start = out@;
    if family == 0 {
        push_decimal(out, (layout * 10 + variant) as u64);
    } else if family == 1 {
        push_decimal(out, layout as u64);
        string_append(out, ".");
        push_decimal(out, variant as u64);
        proof {
            reveal_strlit(".");
        }
    } else if family == 2 {
        if variant % 2 == 0 {
            string_append(out, "true");
            proof {
                reveal_strlit("true");
            }
        } else {
            string_append(out, "false");
            proof {
                reveal_strlit("false");
            }
        }
    } else if family == 3 {
        let code: u8 = 97u8 + (variant as u8);
        string_push(out, '\'');
        string_push(out, code as char);
        string_push(out, '\'');
    } else {
        string_append(out, "\"layout-");
        push_decimal(out, layout as u64);
        string_append(out, "-variant-");
        push_decimal(out, variant as u64);
        string_append(out, "\"");
        proof {
            reveal_strlit("\"layout-");
            reveal_strlit("-variant-");
            reveal_strlit("\"");
        }
    }
    assert(out@ =~= start + case_literal(family as nat, layout as nat, variant as nat));
}

fn push_cluster_id(out: &mut String, label: CorpusLabel, cluster: usize)
    ensures
        final(out)@ == old(out)@ + cluster_id(label, cluster as nat),
{
    let ghost start = out@;
    match label {
        CorpusLabel::Opportunity => {
            string_append(out, "positive-");
            proof {
                reveal_strlit("positive-");
            }
        },
        CorpusLabel::HardNegative => {
            string_append(out, "hard-negative-");
            proof {
                reveal_strlit("hard-negative-");
            }
        },
    }
    push_padded(out, cluster as u64, 3);
    assert(out@ =~= start + cluster_id(label, cluster as nat));
}

fn push_source_head(out: &mut String, kind: &str, cluster: usize, variant: usize, params: &str)
    ensures
        final(out)@ == old(out)@ + source_head(kind@, cluster as nat, variant as nat, params@, (cluster / 5) as nat),
{
    let ghost start = out@;
    string_append(out, "fn ");
    string_append(out, kind);
    string_append(out, "_");
    push_decimal(out, cluster as u64);
    string_append(out, "_");
    push_decimal(out, variant as u64);
    string_append(out, "(");
    string_append(out, params);
    string_append(out, ") { /* layout-");
    push_padded(out, (cluster / 5) as u64, 2);
    string_append(out, " */ ");
    proof {
        reveal_strlit("fn ");
        reveal_strlit("_");
        reveal_strlit("(");
        reveal_strlit(") { /* layout-");
        reveal_strlit(" */ ");
    }
    assert(out@ =~= start + source_head(kind@, cluster as nat, variant as nat, params@, (cluster / 5) as nat));
}

fn case_source_text(label: CorpusLabel, cluster: usize, variant: usize) -> (s: String)
    requires
        cluster % 5 == 0 ==> (cluster / 5) * 10 + variant <= usize::MAX,
        variant < 159,
    ensures
        s@ == case_source(label, cluster as nat, variant as nat),
{
    let family = cluster % 5;
    let layout = cluster / 5;
    let mut out = String::new();
    let tail = " }\n";
    proof {
        reveal_strlit(" }\n");
        reveal_strlit("return; ");
        reveal_strlit(";");
        reveal_strlit("return; sink_");
        reveal_strlit("_");
        reveal_strlit("();");
        reveal_strlit(" + ");
        reveal_strlit("return; VALUE_");
        reveal_strlit("if flag { return; } ");
        reveal_strlit("");
    }
    match label {
        CorpusLabel::Opportunity => {
            push_source_head(&mut out, "positive", cluster, variant, "");
            string_append(&mut out, "return; ");
            push_literal(&mut out, family, layout, variant);
            string_append(&mut out, ";");
        },
        CorpusLabel::HardNegative => {
            if family == 0 {
                push_source_head(&mut out, "negative", cluster, variant, "");
                push_literal(&mut out, family, layout, variant);
                string_append(&mut out, ";");
            } else if family == 1 {
                push_source_head(&mut out, "negative", cluster, variant, "");
                string_append(&mut out, "return; sink_");
                push_decimal(&mut out, layout as u64);
                string_append(&mut out, "_");
                push_decimal(&mut out, variant as u64);
                string_append(&mut out, "();");
            } else if family == 2 {
                push_source_head(&mut out, "negative", cluster, variant, "");
                string_append(&mut out, "return; ");
                push_decimal(&mut out, variant as u64);
                string_append(&mut out, " + ");
                push_decimal(&mut out, (variant + 1) as u64);
                string_append(&mut out, ";");
            } else if family == 3 {
                push_source_head(&mut out, "negative", cluster, variant, "");
                string_append(&mut out, "return; VALUE_");
                push_decimal(&mut out, layout as u64);
                string_append(&mut out, "_");
                push_decimal(&mut out, variant as u64);
                string_append(&mut out, ";");
            } else {
                push_source_head(&mut out, "negative", cluster, variant, "flag: bool");
                string_append(&mut out, "if flag { return; } ");
                push_literal(&mut out, family, layout, variant);
                string_append(&mut out, ";");
            }
        },
    }
    string_append(&mut out, tail);
    assert(out@ =~= case_source(label, cluster as nat, variant as nat));
    out
}

/// The case that the corpus generator makes for a label, cluster and
/// variant, with its content-derived identity.
pub fn case(label: CorpusLabel, cluster: usize, variant: usize) -> (c: FrozenRecipeCase)
    requires
        cluster % 5 == 0 ==> (cluster / 5) * 10 + variant <= usize::MAX,
        variant < 159,
    ensures
        is_case(c, label, cluster as nat, variant as nat),
{
    let source = case_source_text(label, cluster, variant);
    let target_text = match label {
        CorpusLabel::Opportunity => {
            let mut t = String::new();
            push_literal(&mut t, cluster % 5, cluster / 5, variant);
            string_append(&mut t, ";");
            proof {
                reveal_strlit(";");
            }
            assert(t@ =~= case_literal((cluster % 5) as nat, (cluster / 5) as nat, variant as nat) + ";"@);
            Some(t)
        },
        CorpusLabel::HardNegative => None,
    };
    let mut cluster_text = String::new();
    push_cluster_id(&mut cluster_text, label, cluster);
    assert(cluster_text@ =~= cluster_id(label, cluster as nat));
    let mut payload = String::new();
    string_append(&mut payload, "[");
    match label {
        CorpusLabel::Opportunity => push_json_str(&mut payload, "opportunity"),
        CorpusLabel::HardNegative => push_json_str(&mut payload, "hard-negative"),
    }
    string_append(&mut payload, ",");
    push_json_str(&mut payload, cluster_text.as_str());
    string_append(&mut payload, ",");
    push_decimal(&mut payload, variant as u64);
    string_append(&mut payload, ",");
    push_json_str(&mut payload, source.as_str());
    string_append(&mut payload, ",");
    push_json_opt_str(&mut payload, &target_text);
    string_append(&mut payload, "]");
    proof {
        reveal_strlit("[");
        reveal_strlit(",");
        reveal_strlit("]");
        let t = text_view(target_text);
        assert(t == case_target(label, cluster as nat, variant as nat));
        assert(payload@ =~= case_payload(label, cluster as nat, variant as nat));
    }
    let id = derive_id(CASE_ID_DOMAIN, "b2c1_", payload.as_str());
    FrozenRecipeCase { id, cluster: cluster_text, label, source, target_text }
}


/// The label, cluster and variant of each case of one label, cluster by
/// cluster and variant by variant.
pub open spec fn label_keys(label: CorpusLabel, clusters: nat, variants: nat) -> Seq<(CorpusLabel, nat, nat)>
    decreases clusters,
{
    if clusters == 0 {
        Seq::empty()
    } else {
        label_keys(label, (clusters - 1) as nat, variants) + Seq::new(
            variants,
            |k: int| (label, (clusters - 1) as nat, k as nat),
        )
    }
}

/// The label, cluster and variant of each case of a corpus: the
/// opportunities first, then the hard negatives.
pub open spec fn corpus_keys(positive_clusters: nat, hard_negative_clusters: nat, variants: nat) -> Seq<
    (CorpusLabel, nat, nat),
> {
    label_keys(CorpusLabel::Opportunity, positive_clusters, variants) + label_keys(
        CorpusLabel::HardNegative,
        hard_negative_clusters,
        variants,
    )
}

/// A corpus holds, in order, the cases its keys name.
pub open spec fn expands_to(cases: Seq<FrozenRecipeCase>, keys: Seq<(CorpusLabel, nat, nat)>) -> bool {
    &&& cases.len() == keys.len()
    &&& forall|i: int| 0 <= i < cases.len() ==> is_case(#[trigger] cases[i], keys[i].0, keys[i].1, keys[i].2)
}

pub proof fn lemma_label_keys_len(label: CorpusLabel, clusters: nat, variants: nat)
    ensures
        label_keys(label, clusters, variants).len() == clusters * variants,
    decreases clusters,
{
    if clusters > 0 {
        let prev = (clusters - 1) as nat;
        lemma_label_keys_len(label, prev, variants);
        assert(label_keys(label, clusters, variants).len() == prev * variants + variants);
        assert(prev * variants + variants == clusters * variants) by (nonlinear_arith)
            requires
                prev + 1 == clusters,
        ;
    } else {
        assert(clusters * variants == 0) by (nonlinear_arith)
            requires
                clusters == 0,
        ;
    }
}

/// Every key of one label carries that label, a cluster below the count
/// and a variant below the count.
pub proof fn lemma_label_keys_bounds(label: CorpusLabel, clusters: nat, variants: nat, i: int)
    requires
        0 <= i < label_keys(label, clusters, variants).len(),
    ensures
        label_keys(label, clusters, variants)[i].0 == label,
        label_keys(label, clusters, variants)[i].1 < clusters,
        label_keys(label, clusters, variants)[i].2 < variants,
    decreases clusters,
{
    let prev = label_keys(label, (clusters - 1) as nat, variants);
    if i < prev.len() {
        lemma_label_keys_bounds(label, (clusters - 1) as nat, variants, i);
    }
}

fn push_label_cases(
    out: &mut Vec<FrozenRecipeCase>,
    label: CorpusLabel,
    clusters: usize,
    variants: usize,
    done: Ghost<Seq<(CorpusLabel, nat, nat)>>,
)
    requires
        (clusters / 5) * 10 + variants <= usize::MAX,
        variants < 159,
        expands_to(old(out)@, done@),
    ensures
        expands_to(final(out)@, done@ + label_keys(label, clusters as nat, variants as nat)),
{
    let mut c: usize = 0;
    while c < clusters
        invariant
            c <= clusters,
            (clusters / 5) * 10 + variants <= usize::MAX,
            variants < 159,
            expands_to(out@, done@ + label_keys(label, c as nat, variants as nat)),
        decreases clusters - c,
    {
        let ghost base = done@ + label_keys(label, c as nat, variants as nat);
        let mut v: usize = 0;
        while v < variants
            invariant
                c < clusters,
                (clusters / 5) * 10 + variants <= usize::MAX,
                variants < 159,
                v <= variants,
                expands_to(out@, base + Seq::new(v as nat, |k: int| (label, c as nat, k as nat))),
            decreases variants - v,
        {
            let ghost before = out@;
            proof {
                vstd::arithmetic::div_mod::lemma_div_is_ordered(c as int, clusters as int, 5);
            }
            out.push(case(label, c, v));
            proof {
                let keys = base + Seq::new((v + 1) as nat, |k: int| (label, c as nat, k as nat));
                assert forall|i: int| 0 <= i < out@.len() implies is_case(
                    #[trigger] out@[i],
                    keys[i].0,
                    keys[i].1,
                    keys[i].2,
                ) by {
                    if i < before.len() {
                        assert(out@[i] == before[i]);
                        assert(keys[i] == (base + Seq::new(v as nat, |k: int| (label, c as nat, k as nat)))[i]);
                    }
                }
            }
            v = v + 1;
        }
        proof {
            assert(label_keys(label, (c + 1) as nat, variants as nat) == label_keys(label, c as nat, variants as nat)
                + Seq::new(variants as nat, |k: int| (label, c as nat, k as nat)));
            assert(base + Seq::new(variants as nat, |k: int| (label, c as nat, k as nat)) =~= done@
                + label_keys(label, (c + 1) as nat, variants as nat));
        }
        c = c + 1;
    }
}

/// The cases of a corpus with the given numbers of opportunity clusters,
/// hard-negative clusters and variants per cluster.
pub fn expand_cases(positive_clusters: usize, hard_negative_clusters: usize, variants_per_cluster: usize) -> (r:
    Vec<FrozenRecipeCase>)
    requires
        (positive_clusters / 5) * 10 + variants_per_cluster <= usize::MAX,
        (hard_negative_clusters / 5) * 10 + variants_per_cluster <= usize::MAX,
        variants_per_cluster < 159,
    ensures
        expands_to(
            r@,
            corpus_keys(
                positive_clusters as nat,
                hard_negative_clusters as nat,
                variants_per_cluster as nat,
            ),
        ),
{
    let mut cases: Vec<FrozenRecipeCase> = Vec::new();
    assert(expands_to(cases@, Seq::empty()));
    push_label_cases(&mut cases, CorpusLabel::Opportunity, positive_clusters, variants_per_cluster, Ghost(Seq::empty()));
    push_label_cases(
        &mut cases,
        CorpusLabel::HardNegative,
        hard_negative_clusters,
        variants_per_cluster,
        Ghost(label_keys(CorpusLabel::Opportunity, positive_clusters as nat, variants_per_cluster as nat)),
    );
    proof {
        assert(Seq::<(CorpusLabel, nat, nat)>::empty() + label_keys(
            CorpusLabel::Opportunity,
            positive_clusters as nat,
            variants_per_cluster as nat,
        ) =~= label_keys(CorpusLabel::Opportunity, positive_clusters as nat, variants_per_cluster as nat));
    }
    cases
}

/// The keys of the frozen unreachable-literal corpus.
pub open spec fn frozen_keys() -> Seq<(CorpusLabel, nat, nat)> {
    corpus_keys(
        FROZEN_POSITIVE_CLUSTERS as nat,
        FROZEN_HARD_NEGATIVE_CLUSTERS as nat,
        FROZEN_VARIANTS_PER_CLUSTER as nat,
    )
}

/// The cases of the frozen unreachable-literal Rust corpus: two hundred
/// opportunity clusters, then two hundred hard-negative clusters, five
/// variants each.
pub fn frozen_unreachable_rust_cases() -> (r: Result<Vec<FrozenRecipeCase>, RecipeEvaluationError>)
    ensures
        r matches Ok(cases) && expands_to(cases@, frozen_keys()),
{
    Ok(expand_cases(FROZEN_POSITIVE_CLUSTERS, FROZEN_HARD_NEGATIVE_CLUSTERS, FROZEN_VARIANTS_PER_CLUSTER))
}

/// The frozen corpus has a thousand opportunities followed by a thousand
/// hard negatives.
pub proof fn lemma_frozen_corpus_shape()
    ensures
        frozen_keys().len() == 2000,
        forall|i: int| 0 <= i < 1000 ==> (#[trigger] frozen_keys()[i]).0 == CorpusLabel::Opportunity,
        forall|i: int| 1000 <= i < 2000 ==> (#[trigger] frozen_keys()[i]).0 == CorpusLabel::HardNegative,
{
    lemma_label_keys_len(CorpusLabel::Opportunity, 200, 5);
    lemma_label_keys_len(CorpusLabel::HardNegative, 200, 5);
    assert forall|i: int| 0 <= i < 1000 implies (#[trigger] frozen_keys()[i]).0 == CorpusLabel::Opportunity by {
        lemma_label_keys_bounds(CorpusLabel::Opportunity, 200, 5, i);
    }
    assert forall|i: int| 1000 <= i < 2000 implies (#[trigger] frozen_keys()[i]).0 == CorpusLabel::HardNegative by {
        lemma_label_keys_bounds(CorpusLabel::HardNegative, 200, 5, i - 1000);
    }
}


/// The observations name each case exactly once: as many observations as
/// cases, no identity twice, every confidence valid, and every observed
/// identity a case identity and every case identity observed.
pub open spec fn observations_close(
    cases: Seq<FrozenRecipeCase>,
    ids: Seq<String>,
    confidence_valid: Seq<bool>,
) -> bool {
    &&& ids.len() == cases.len()
    &&& confidence_valid.len() == ids.len()
    &&& forall|i: int, k: int| 0 <= i < k < ids.len() ==> (#[trigger] ids[i])@ != (#[trigger] ids[k])@
    &&& forall|i: int| 0 <= i < confidence_valid.len() ==> #[trigger] confidence_valid[i]
    &&& forall|i: int| 0 <= i < ids.len() ==> id_in_cases(cases, (#[trigger] ids[i])@)
    &&& forall|j: int| 0 <= j < cases.len() ==> id_in_ids(ids, (#[trigger] cases[j]).id@)
}

/// Some case has the identity.
pub open spec fn id_in_cases(cases: Seq<FrozenRecipeCase>, id: Seq<char>) -> bool {
    exists|j: int| 0 <= j < cases.len() && (#[trigger] cases[j]).id@ == id
}

/// An observation names the identity and has the given emission.
pub open spec fn emitted_by(ids: Seq<String>, emitted: Seq<bool>, id: Seq<char>, value: bool) -> bool {
    exists|i: int| 0 <= i < ids.len() && (#[trigger] ids[i])@ == id && emitted[i] == value
}

/// Some observation names the identity.
pub open spec fn id_in_ids(ids: Seq<String>, id: Seq<char>) -> bool {
    exists|i: int| 0 <= i < ids.len() && (#[trigger] ids[i])@ == id
}

fn index_of_id(ids: &Vec<String>, id: &str) -> (r: Option<usize>)
    ensures
        r matches Some(i) ==> i < ids@.len() && ids@[i as int]@ == id@,
        r is None ==> forall|i: int| 0 <= i < ids@.len() ==> (#[trigger] ids@[i])@ != id@,
{
    let n = ids.len();
    let mut i: usize = 0;
    while i < n
        invariant
            n == ids@.len(),
            i <= n,
            forall|k: int| 0 <= k < i ==> (#[trigger] ids@[k])@ != id@,
        decreases n - i,
    {
        if compare_str(ids[i].as_str(), id) == 0 {
            return Some(i);
        }
        i = i + 1;
    }
    None
}

fn case_index_of_id(cases: &Vec<FrozenRecipeCase>, id: &str) -> (r: Option<usize>)
    ensures
        r matches Some(j) ==> j < cases@.len() && cases@[j as int].id@ == id@,
        r is None ==> forall|j: int| 0 <= j < cases@.len() ==> (#[trigger] cases@[j]).id@ != id@,
{
    let n = cases.len();
    let mut j: usize = 0;
    while j < n
        invariant
            n == cases@.len(),
            j <= n,
            forall|k: int| 0 <= k < j ==> (#[trigger] cases@[k]).id@ != id@,
        decreases n - j,
    {
        if compare_str(cases[j].id.as_str(), id) == 0 {
            return Some(j);
        }
        j = j + 1;
    }
    None
}

/// Matches observations to the cases of a corpus by case identity and
/// gives, in case order, whether the recipe emitted a candidate on each.
/// Observations are refused unless there is one per case, no identity
/// repeats, every confidence is valid, and the observed identities are
/// exactly the case identities.
pub fn observed_emissions(
    cases: &Vec<FrozenRecipeCase>,
    ids: &Vec<String>,
    emitted: &Vec<bool>,
    confidence_valid: &Vec<bool>,
) -> (r: Result<Vec<bool>, RecipeEvaluationError>)
    requires
        emitted@.len() == ids@.len(),
    ensures
        r is Ok <==> observations_close(cases@, ids@, confidence_valid@),
        r matches Err(e) ==> e is InvalidObservations,
        r matches Ok(e) ==> e@.len() == cases@.len() && forall|j: int| 0 <= j < cases@.len() ==> emitted_by(
            ids@,
            emitted@,
            (#[trigger] cases@[j]).id@,
            e@[j],
        ),
{
    let n = ids.len();
    if n != cases.len() {
        return Err(
            RecipeEvaluationError::InvalidObservations(
                "observations must number exactly the frozen corpus cases".to_owned(),
            ),
        );
    }
    if confidence_valid.len() != n {
        return Err(
            RecipeEvaluationError::InvalidObservations(
                "case identities must be unique and confidence must be finite within [0,1]".to_owned(),
            ),
        );
    }
    let mut i: usize = 0;
    while i < n
        invariant
            n == ids@.len(),
            n == confidence_valid@.len(),
            i <= n,
            forall|a: int, k: int| 0 <= a < k < i ==> (#[trigger] ids@[a])@ != (#[trigger] ids@[k])@,
            forall|a: int| 0 <= a < i ==> #[trigger] confidence_valid@[a],
        decreases n - i,
    {
        let mut k: usize = 0;
        while k < i
            invariant
                n == ids@.len(),
                i < n,
                k <= i,
                forall|a: int| 0 <= a < k ==> (#[trigger] ids@[a])@ != ids@[i as int]@,
            decreases i - k,
        {
            if compare_str(ids[k].as_str(), ids[i].as_str()) == 0 {
                return Err(
                    RecipeEvaluationError::InvalidObservations(
                        "case identities must be unique and confidence must be finite within [0,1]".to_owned(),
                    ),
                );
            }
            k = k + 1;
        }
        if !confidence_valid[i] {
            return Err(
                RecipeEvaluationError::InvalidObservations(
                    "case identities must be unique and confidence must be finite within [0,1]".to_owned(),
                ),
            );
        }
        i = i + 1;
    }
    let mut a: usize = 0;
    while a < n
        invariant
            n == ids@.len(),
            n == cases@.len(),
            n == confidence_valid@.len(),
            forall|p: int, k: int| 0 <= p < k < n ==> (#[trigger] ids@[p])@ != (#[trigger] ids@[k])@,
            forall|p: int| 0 <= p < n ==> #[trigger] confidence_valid@[p],
            a <= n,
            forall|x: int| 0 <= x < a ==> id_in_cases(cases@, (#[trigger] ids@[x])@),
        decreases n - a,
    {
        match case_index_of_id(cases, ids[a].as_str()) {
            Some(j) => {
                assert(cases@[j as int].id@ == ids@[a as int]@);
            },
            None => {
                return Err(
                    RecipeEvaluationError::InvalidObservations(
                        "observations do not close exactly over the frozen corpus".to_owned(),
                    ),
                );
            },
        }
        a = a + 1;
    }
    let m = cases.len();
    let mut out: Vec<bool> = Vec::new();
    let mut j: usize = 0;
    while j < m
        invariant
            m == cases@.len(),
            n == ids@.len(),
            n == emitted@.len(),
            n == m,
            n == confidence_valid@.len(),
            forall|p: int, k: int| 0 <= p < k < n ==> (#[trigger] ids@[p])@ != (#[trigger] ids@[k])@,
            forall|p: int| 0 <= p < n ==> #[trigger] confidence_valid@[p],
            forall|x: int| 0 <= x < n ==> id_in_cases(cases@, (#[trigger] ids@[x])@),
            j <= m,
            out@.len() == j,
            forall|x: int| 0 <= x < j ==> emitted_by(ids@, emitted@, (#[trigger] cases@[x]).id@, out@[x]),
        decreases m - j,
    {
        match index_of_id(ids, cases[j].id.as_str()) {
            Some(y) => {
                out.push(emitted[y]);
                proof {
                    assert(ids@[y as int]@ == cases@[j as int].id@);
                    assert forall|x: int| 0 <= x < j + 1 implies emitted_by(
                        ids@,
                        emitted@,
                        (#[trigger] cases@[x]).id@,
                        out@[x],
                    ) by {
                        if x == j {
                            assert(ids@[y as int]@ == cases@[x].id@ && out@[x] == emitted@[y as int]);
                        }
                    }
                }
            },
            None => {
                proof {
                    assert(!observations_close(cases@, ids@, confidence_valid@)) by {
                        if observations_close(cases@, ids@, confidence_valid@) {
                            assert(id_in_ids(ids@, cases@[j as int].id@));
                        }
                    }
                }
                return Err(
                    RecipeEvaluationError::InvalidObservations(
                        "observations do not close exactly over the frozen corpus".to_owned(),
                    ),
                );
            },
        }
        j = j + 1;
    }
    proof {
        assert forall|x: int| 0 <= x < m implies id_in_ids(ids@, (#[trigger] cases@[x]).id@) by {
            assert(emitted_by(ids@, emitted@, cases@[x].id@, out@[x]));
            let y = choose|y: int| 0 <= y < ids@.len() && (#[trigger] ids@[y])@ == cases@[x].id@ && emitted@[y]
                == out@[x];
        }
    }
    Ok(out)
}


/// Cases of the first `n` with the given label and emission.
pub open spec fn raw_count(cases: Seq<FrozenRecipeCase>, e: Seq<bool>, label: CorpusLabel, emitted: bool, n: nat) -> nat
    decreases n,
{
    if n == 0 {
        0
    } else {
        raw_count(cases, e, label, emitted, (n - 1) as nat) + if cases[n - 1].label == label && e[n - 1]
            == emitted {
            1nat
        } else {
            0nat
        }
    }
}

/// Two cases belong to the same cluster of the same label.
pub open spec fn same_group(a: FrozenRecipeCase, b: FrozenRecipeCase) -> bool {
    a.cluster@ == b.cluster@ && a.label == b.label
}

/// The case is the first of its cluster.
pub open spec fn starts_group(cases: Seq<FrozenRecipeCase>, j: int) -> bool {
    forall|k: int| 0 <= k < j ==> !same_group(#[trigger] cases[k], cases[j])
}

/// Every case of the cluster emitted.
pub open spec fn group_all_emitted(cases: Seq<FrozenRecipeCase>, e: Seq<bool>, j: int) -> bool {
    forall|k: int| 0 <= k < cases.len() && same_group(#[trigger] cases[k], cases[j]) ==> e[k]
}

/// Some case of the cluster emitted.
pub open spec fn group_any_emitted(cases: Seq<FrozenRecipeCase>, e: Seq<bool>, j: int) -> bool {
    exists|k: int| 0 <= k < cases.len() && same_group(#[trigger] cases[k], cases[j]) && e[k]
}

/// A cluster counts as acted on: an opportunity cluster when every one of
/// its cases emitted, a hard-negative cluster when any of its cases did.
pub open spec fn group_acted(cases: Seq<FrozenRecipeCase>, e: Seq<bool>, j: int) -> bool {
    if cases[j].label == CorpusLabel::Opportunity {
        group_all_emitted(cases, e, j)
    } else {
        group_any_emitted(cases, e, j)
    }
}

/// Clusters, among those starting in the first `n` cases, with the given
/// label and verdict.
pub open spec fn cluster_count(cases: Seq<FrozenRecipeCase>, e: Seq<bool>, label: CorpusLabel, acted: bool, n: nat) -> nat
    decreases n,
{
    if n == 0 {
        0
    } else {
        cluster_count(cases, e, label, acted, (n - 1) as nat) + if starts_group(cases, n - 1) && cases[n
            - 1].label == label && group_acted(cases, e, n - 1) == acted {
            1nat
        } else {
            0nat
        }
    }
}

/// Counts per case: an emitted opportunity is a true positive, a silent one
/// a false negative; an emitted hard negative is a false positive, a silent
/// one a true negative.
pub open spec fn raw_totals_of(t: RecipeEvaluationTotals, cases: Seq<FrozenRecipeCase>, e: Seq<bool>) -> bool {
    &&& t.true_positive == raw_count(cases, e, CorpusLabel::Opportunity, true, cases.len())
    &&& t.false_negative == raw_count(cases, e, CorpusLabel::Opportunity, false, cases.len())
    &&& t.false_positive == raw_count(cases, e, CorpusLabel::HardNegative, true, cases.len())
    &&& t.true_negative == raw_count(cases, e, CorpusLabel::HardNegative, false, cases.len())
}

/// Counts per cluster, with the verdicts of `group_acted`.
pub open spec fn cluster_totals_of(t: RecipeEvaluationTotals, cases: Seq<FrozenRecipeCase>, e: Seq<bool>) -> bool {
    &&& t.true_positive == cluster_count(cases, e, CorpusLabel::Opportunity, true, cases.len())
    &&& t.false_negative == cluster_count(cases, e, CorpusLabel::Opportunity, false, cases.len())
    &&& t.false_positive == cluster_count(cases, e, CorpusLabel::HardNegative, true, cases.len())
    &&& t.true_negative == cluster_count(cases, e, CorpusLabel::HardNegative, false, cases.len())
}

/// The per-case counts of an evaluation: every case falls in exactly one
/// of the four counts.
pub fn raw_totals(cases: &Vec<FrozenRecipeCase>, emitted: &Vec<bool>) -> (t: RecipeEvaluationTotals)
    requires
        emitted@.len() == cases@.len(),
    ensures
        raw_totals_of(t, cases@, emitted@),
        t.true_positive + t.false_positive + t.true_negative + t.false_negative == cases@.len(),
{
    let n = cases.len();
    let mut t = RecipeEvaluationTotals { true_positive: 0, false_positive: 0, true_negative: 0, false_negative: 0 };
    let mut j: usize = 0;
    while j < n
        invariant
            n == cases@.len(),
            n == emitted@.len(),
            j <= n,
            t.true_positive == raw_count(cases@, emitted@, CorpusLabel::Opportunity, true, j as nat),
            t.false_negative == raw_count(cases@, emitted@, CorpusLabel::Opportunity, false, j as nat),
            t.false_positive == raw_count(cases@, emitted@, CorpusLabel::HardNegative, true, j as nat),
            t.true_negative == raw_count(cases@, emitted@, CorpusLabel::HardNegative, false, j as nat),
            t.true_positive + t.false_positive + t.true_negative + t.false_negative == j,
        decreases n - j,
    {
        match (cases[j].label, emitted[j]) {
            (CorpusLabel::Opportunity, true) => t.true_positive = t.true_positive + 1,
            (CorpusLabel::Opportunity, false) => t.false_negative = t.false_negative + 1,
            (CorpusLabel::HardNegative, true) => t.false_positive = t.false_positive + 1,
            (CorpusLabel::HardNegative, false) => t.true_negative = t.true_negative + 1,
        }
        j = j + 1;
    }
    t
}

fn same_group_exec(a: &FrozenRecipeCase, b: &FrozenRecipeCase) -> (r: bool)
    ensures
        r == same_group(*a, *b),
{
    a.label == b.label && compare_str(a.cluster.as_str(), b.cluster.as_str()) == 0
}

/// The per-cluster counts of an evaluation: each cluster, keyed by its
/// identity and label, counts once.
pub fn cluster_totals(cases: &Vec<FrozenRecipeCase>, emitted: &Vec<bool>) -> (t: RecipeEvaluationTotals)
    requires
        emitted@.len() == cases@.len(),
    ensures
        cluster_totals_of(t, cases@, emitted@),
        t.true_positive + t.false_positive + t.true_negative + t.false_negative <= cases@.len(),
{
    let n = cases.len();
    let mut t = RecipeEvaluationTotals { true_positive: 0, false_positive: 0, true_negative: 0, false_negative: 0 };
    let mut j: usize = 0;
    while j < n
        invariant
            n == cases@.len(),
            n == emitted@.len(),
            j <= n,
            t.true_positive == cluster_count(cases@, emitted@, CorpusLabel::Opportunity, true, j as nat),
            t.false_negative == cluster_count(cases@, emitted@, CorpusLabel::Opportunity, false, j as nat),
            t.false_positive == cluster_count(cases@, emitted@, CorpusLabel::HardNegative, true, j as nat),
            t.true_negative == cluster_count(cases@, emitted@, CorpusLabel::HardNegative, false, j as nat),
            t.true_positive + t.false_positive + t.true_negative + t.false_negative <= j,
        decreases n - j,
    {
        let mut first = true;
        let mut k: usize = 0;
        while k < j
            invariant
                n == cases@.len(),
                j < n,
                k <= j,
                first == forall|x: int| 0 <= x < k ==> !same_group(#[trigger] cases@[x], cases@[j as int]),
            decreases j - k,
        {
            if same_group_exec(&cases[k], &cases[j]) {
                first = false;
            }
            k = k + 1;
        }
        if first {
            let mut all = true;
            let mut any = false;
            let mut x: usize = 0;
            while x < n
                invariant
                    n == cases@.len(),
                    n == emitted@.len(),
                    j < n,
                    x <= n,
                    all == forall|y: int| 0 <= y < x && same_group(#[trigger] cases@[y], cases@[j as int]) ==> emitted@[y],
                    any == exists|y: int| 0 <= y < x && same_group(#[trigger] cases@[y], cases@[j as int]) && emitted@[y],
                decreases n - x,
            {
                if same_group_exec(&cases[x], &cases[j]) {
                    if emitted[x] {
                        any = true;
                    } else {
                        all = false;
                    }
                }
                proof {
                    if same_group(cases@[x as int], cases@[j as int]) && emitted@[x as int] {
                        assert(any);
                    }
                }
                x = x + 1;
            }
            match cases[j].label {
                CorpusLabel::Opportunity => {
                    if all {
                        t.true_positive = t.true_positive + 1;
                    } else {
                        t.false_negative = t.false_negative + 1;
                    }
                },
                CorpusLabel::HardNegative => {
                    if any {
                        t.false_positive = t.false_positive + 1;
                    } else {
                        t.true_negative = t.true_negative + 1;
                    }
                },
            }
        }
        j = j + 1;
    }
    t
}


/// Observations that emit on every opportunity and on no hard negative
/// have no false positive and no false negative, per case or per cluster.
pub proof fn lemma_perfect_observations_are_clean(cases: Seq<FrozenRecipeCase>, e: Seq<bool>, n: nat)
    requires
        e.len() == cases.len(),
        n <= cases.len(),
        forall|j: int| 0 <= j < cases.len() ==> e[j] == (#[trigger] cases[j].label == CorpusLabel::Opportunity),
    ensures
        raw_count(cases, e, CorpusLabel::Opportunity, false, n) == 0,
        raw_count(cases, e, CorpusLabel::HardNegative, true, n) == 0,
        cluster_count(cases, e, CorpusLabel::Opportunity, false, n) == 0,
        cluster_count(cases, e, CorpusLabel::HardNegative, true, n) == 0,
    decreases n,
{
    if n > 0 {
        lemma_perfect_observations_are_clean(cases, e, (n - 1) as nat);
        let j = n - 1;
        if cases[j].label == CorpusLabel::Opportunity {
            assert forall|k: int| 0 <= k < cases.len() && same_group(#[trigger] cases[k], cases[j]) implies e[k] by {
                assert(e[k] == (cases[k].label == CorpusLabel::Opportunity));
            }
            assert(group_acted(cases, e, j));
        } else {
            assert(!group_any_emitted(cases, e, j)) by {
                if group_any_emitted(cases, e, j) {
                    let k = choose|k: int| 0 <= k < cases.len() && same_group(#[trigger] cases[k], cases[j]) && e[k];
                    assert(e[k] == (cases[k].label == CorpusLabel::Opportunity));
                }
            }
        }
    }
}

/// Every case has a first case of its cluster at or before it.
proof fn lemma_group_has_start(cases: Seq<FrozenRecipeCase>, j: int) -> (s: int)
    requires
        0 <= j < cases.len(),
    ensures
        0 <= s <= j,
        same_group(cases[s], cases[j]),
        starts_group(cases, s),
    decreases j,
{
    if starts_group(cases, j) {
        j
    } else {
        let k = choose|k: int| 0 <= k < j && same_group(#[trigger] cases[k], cases[j]);
        lemma_group_has_start(cases, k)
    }
}

proof fn lemma_cluster_count_positive(
    cases: Seq<FrozenRecipeCase>,
    e: Seq<bool>,
    label: CorpusLabel,
    acted: bool,
    n: nat,
    s: int,
)
    requires
        0 <= s < n,
        starts_group(cases, s),
        cases[s].label == label,
        group_acted(cases, e, s) == acted,
    ensures
        cluster_count(cases, e, label, acted, n) >= 1,
    decreases n,
{
    if s < n - 1 {
        lemma_cluster_count_positive(cases, e, label, acted, (n - 1) as nat, s);
    }
}

/// A hard negative on which the recipe emitted makes its whole cluster a
/// false positive.
pub proof fn lemma_emitted_hard_negative_is_cluster_false_positive(
    cases: Seq<FrozenRecipeCase>,
    e: Seq<bool>,
    j: int,
)
    requires
        e.len() == cases.len(),
        0 <= j < cases.len(),
        cases[j].label == CorpusLabel::HardNegative,
        e[j],
    ensures
        cluster_count(cases, e, CorpusLabel::HardNegative, true, cases.len()) >= 1,
{
    let s = lemma_group_has_start(cases, j);
    assert(same_group(cases[j], cases[s]));
    assert(group_any_emitted(cases, e, s));
    lemma_cluster_count_positive(cases, e, CorpusLabel::HardNegative, true, cases.len(), s);
}

} // verus!
