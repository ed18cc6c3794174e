//! The recipe contract: the records a transformation recipe is made of, the
//! canonical checks each of them must pass, and the content-addressed
//! recipe itself.

use vstd::prelude::*;
use crate::json::{
    json_array, json_bool, json_items, json_opt_str, json_str, push_json_bool, push_json_list,
    push_json_opt_str, push_json_str, string_append, JsonValue,
};
use crate::model::{dependency_closed, layer_name, layers_dependency_closed, GraphEvidenceLayer};
use crate::order::{compare_str, keys_strictly_increasing, lemma_lex_single, str_key, strictly_increasing, Keyed};
use crate::text::{canonical_text, is_canonical_text};

verus! {

pub const TRANSFORMATION_RECIPE_SCHEMA: &'static str = "deslop.transformation-recipe/1";

pub const RECIPE_ID_DOMAIN: &'static str = "deslop.transformation-recipe-id/1";

/// The family of source transformation a recipe belongs to.
#[derive(Clone, Copy, Debug, PartialEq, Eq, Structural, Hash)]
pub enum TransformationFamily {
    BranchControl,
    FunctionExpression,
    DependencyModule,
    CloneCeremonyDeadCode,
}

pub open spec fn family_name(f: TransformationFamily) -> Seq<char> {
    match f {
        TransformationFamily::BranchControl => "branch-control"@,
        TransformationFamily::FunctionExpression => "function-expression"@,
        TransformationFamily::DependencyModule => "dependency-module"@,
        TransformationFamily::CloneCeremonyDeadCode => "clone-ceremony-dead-code"@,
    }
}

pub fn push_family_json(out: &mut String, f: TransformationFamily)
    ensures
        final(out)@ == old(out)@ + json_str(family_name(f)),
{
    let name = match f {
        TransformationFamily::BranchControl => "branch-control",
        TransformationFamily::FunctionExpression => "function-expression",
        TransformationFamily::DependencyModule => "dependency-module",
        TransformationFamily::CloneCeremonyDeadCode => "clone-ceremony-dead-code",
    };
    push_json_str(out, name);
}

/// The state of a proof obligation.
#[derive(Clone, Copy, Debug, PartialEq, Eq, Structural, Hash)]
pub enum ProofState {
    Proven,
    Disproven,
    Unknown,
}

/// The role a fixture plays in a recipe's frozen evidence.
#[derive(Clone, Copy, Debug, PartialEq, Eq, Structural, Hash)]
pub enum RecipeFixtureRole {
    Positive,
    NoOp,
    MinimalCounterexample,
    AdversarialNearMiss,
}

pub open spec fn role_rank(r: RecipeFixtureRole) -> nat {
    match r {
        RecipeFixtureRole::Positive => 0,
        RecipeFixtureRole::NoOp => 1,
        RecipeFixtureRole::MinimalCounterexample => 2,
        RecipeFixtureRole::AdversarialNearMiss => 3,
    }
}

pub fn fixture_role_rank(r: RecipeFixtureRole) -> (n: u8)
    ensures
        n as nat == role_rank(r),
{
    match r {
        RecipeFixtureRole::Positive => 0,
        RecipeFixtureRole::NoOp => 1,
        RecipeFixtureRole::MinimalCounterexample => 2,
        RecipeFixtureRole::AdversarialNearMiss => 3,
    }
}

pub open spec fn role_name(r: RecipeFixtureRole) -> Seq<char> {
    match r {
        RecipeFixtureRole::Positive => "positive"@,
        RecipeFixtureRole::NoOp => "no-op"@,
        RecipeFixtureRole::MinimalCounterexample => "minimal-counterexample"@,
        RecipeFixtureRole::AdversarialNearMiss => "adversarial-near-miss"@,
    }
}

/// The outcome a fixture expects from the detector.
#[derive(Clone, Copy, Debug, PartialEq, Eq, Structural, Hash)]
pub enum FixtureExpectation {
    Candidate,
    NoCandidate,
    ReviewRequired,
}

pub open spec fn expectation_name(e: FixtureExpectation) -> Seq<char> {
    match e {
        FixtureExpectation::Candidate => "candidate"@,
        FixtureExpectation::NoCandidate => "no-candidate"@,
        FixtureExpectation::ReviewRequired => "review-required"@,
    }
}

/// A named obligation a recipe requires or forbids, checked on one layer.
#[derive(Clone, Debug)]
pub struct RecipeCondition {
    pub key: String,
    pub description: String,
    pub layer: GraphEvidenceLayer,
}

pub struct RecipeConditionView {
    pub key: Seq<char>,
    pub description: Seq<char>,
    pub layer: GraphEvidenceLayer,
}

impl View for RecipeCondition {
    type V = RecipeConditionView;

    open spec fn view(&self) -> RecipeConditionView {
        RecipeConditionView {
            key: self.key@,
            description: self.description@,
            layer: self.layer,
        }
    }
}

impl Keyed for RecipeCondition {
    open spec fn key(v: RecipeConditionView) -> Seq<int> {
        str_key(v.key)
    }

    fn precedes(&self, other: &Self) -> (r: bool) {
        compare_str(self.key.as_str(), other.key.as_str()) < 0
    }
}

impl JsonValue for RecipeCondition {
    open spec fn json(v: RecipeConditionView) -> Seq<char> {
        "{\"key\":"@ + json_str(v.key) + ",\"description\":"@ + json_str(v.description)
            + ",\"layer\":"@ + json_str(layer_name(v.layer)) + "}"@
    }

    fn write_json(&self, out: &mut String) {
        string_append(out, "{\"key\":");
        push_json_str(out, self.key.as_str());
        string_append(out, ",\"description\":");
        push_json_str(out, self.description.as_str());
        string_append(out, ",\"layer\":");
        self.layer.write_json(out);
        string_append(out, "}");
        assert(final(out)@ =~= old(out)@ + Self::json(self@));
    }
}

impl RecipeCondition {
    /// A copy of the condition.
    pub fn duplicate(&self) -> (r: Self)
        ensures
            r == *self,
    {
        RecipeCondition { key: self.key.clone(), description: self.description.clone(), layer: self.layer }
    }
}

/// One frozen fixture of a recipe.
#[derive(Clone, Debug)]
pub struct RecipeFixture {
    pub role: RecipeFixtureRole,
    pub name: String,
    pub expectation: FixtureExpectation,
    pub description: String,
}

pub struct RecipeFixtureView {
    pub role: RecipeFixtureRole,
    pub name: Seq<char>,
    pub expectation: FixtureExpectation,
    pub description: Seq<char>,
}

impl View for RecipeFixture {
    type V = RecipeFixtureView;

    open spec fn view(&self) -> RecipeFixtureView {
        RecipeFixtureView {
            role: self.role,
            name: self.name@,
            expectation: self.expectation,
            description: self.description@,
        }
    }
}

impl Keyed for RecipeFixture {
    open spec fn key(v: RecipeFixtureView) -> Seq<int> {
        seq![role_rank(v.role) as int]
    }

    fn precedes(&self, other: &Self) -> (r: bool) {
        proof {
            lemma_lex_single(role_rank(self.role) as int, role_rank(other.role) as int);
        }
        fixture_role_rank(self.role) < fixture_role_rank(other.role)
    }
}

impl JsonValue for RecipeFixture {
    open spec fn json(v: RecipeFixtureView) -> Seq<char> {
        "{\"role\":"@ + json_str(role_name(v.role)) + ",\"name\":"@ + json_str(v.name)
            + ",\"expectation\":"@ + json_str(expectation_name(v.expectation))
            + ",\"description\":"@ + json_str(v.description) + "}"@
    }

    fn write_json(&self, out: &mut String) {
        string_append(out, "{\"role\":");
        let role = match self.role {
            RecipeFixtureRole::Positive => "positive",
            RecipeFixtureRole::NoOp => "no-op",
            RecipeFixtureRole::MinimalCounterexample => "minimal-counterexample",
            RecipeFixtureRole::AdversarialNearMiss => "adversarial-near-miss",
        };
        push_json_str(out, role);
        string_append(out, ",\"name\":");
        push_json_str(out, self.name.as_str());
        string_append(out, ",\"expectation\":");
        let expectation = match self.expectation {
            FixtureExpectation::Candidate => "candidate",
            FixtureExpectation::NoCandidate => "no-candidate",
            FixtureExpectation::ReviewRequired => "review-required",
        };
        push_json_str(out, expectation);
        string_append(out, ",\"description\":");
        push_json_str(out, self.description.as_str());
        string_append(out, "}");
        assert(final(out)@ =~= old(out)@ + Self::json(self@));
    }
}

impl RecipeFixture {
    pub fn duplicate(&self) -> (r: Self)
        ensures
            r == *self,
    {
        RecipeFixture {
            role: self.role,
            name: self.name.clone(),
            expectation: self.expectation,
            description: self.description.clone(),
        }
    }
}

/// The kind of check a validation step performs.
#[derive(Clone, Copy, Debug, PartialEq, Eq, Structural, Hash)]
pub enum ValidationStepKind {
    Parse,
    Format,
    StaticAnalysis,
    Build,
    Test,
    GraphDelta,
    Custom,
}

pub open spec fn step_kind_name(k: ValidationStepKind) -> Seq<char> {
    match k {
        ValidationStepKind::Parse => "parse"@,
        ValidationStepKind::Format => "format"@,
        ValidationStepKind::StaticAnalysis => "static-analysis"@,
        ValidationStepKind::Build => "build"@,
        ValidationStepKind::Test => "test"@,
        ValidationStepKind::GraphDelta => "graph-delta"@,
        ValidationStepKind::Custom => "custom"@,
    }
}

/// One step of a validation plan.
#[derive(Clone, Debug)]
pub struct ValidationStep {
    pub key: String,
    pub kind: ValidationStepKind,
    pub description: String,
    pub command: Option<String>,
    pub required: bool,
}

pub struct ValidationStepView {
    pub key: Seq<char>,
    pub kind: ValidationStepKind,
    pub description: Seq<char>,
    pub command: Option<Seq<char>>,
    pub required: bool,
}

pub open spec fn opt_view(o: Option<String>) -> Option<Seq<char>> {
    match o {
        Some(s) => Some(s@),
        None => None,
    }
}

impl View for ValidationStep {
    type V = ValidationStepView;

    open spec fn view(&self) -> ValidationStepView {
        ValidationStepView {
            key: self.key@,
            kind: self.kind,
            description: self.description@,
            command: opt_view(self.command),
            required: self.required,
        }
    }
}

impl Keyed for ValidationStep {
    open spec fn key(v: ValidationStepView) -> Seq<int> {
        str_key(v.key)
    }

    fn precedes(&self, other: &Self) -> (r: bool) {
        compare_str(self.key.as_str(), other.key.as_str()) < 0
    }
}

impl JsonValue for ValidationStep {
    open spec fn json(v: ValidationStepView) -> Seq<char> {
        "{\"key\":"@ + json_str(v.key) + ",\"kind\":"@ + json_str(step_kind_name(v.kind))
            + ",\"description\":"@ + json_str(v.description) + ",\"command\":"@ + json_opt_str(
            v.command,
        ) + ",\"required\":"@ + json_bool(v.required) + "}"@
    }

    fn write_json(&self, out: &mut String) {
        string_append(out, "{\"key\":");
        push_json_str(out, self.key.as_str());
        string_append(out, ",\"kind\":");
        let kind = match self.kind {
            ValidationStepKind::Parse => "parse",
            ValidationStepKind::Format => "format",
            ValidationStepKind::StaticAnalysis => "static-analysis",
            ValidationStepKind::Build => "build",
            ValidationStepKind::Test => "test",
            ValidationStepKind::GraphDelta => "graph-delta",
            ValidationStepKind::Custom => "custom",
        };
        push_json_str(out, kind);
        string_append(out, ",\"description\":");
        push_json_str(out, self.description.as_str());
        string_append(out, ",\"command\":");
        push_json_opt_str(out, &self.command);
        string_append(out, ",\"required\":");
        push_json_bool(out, self.required);
        string_append(out, "}");
        assert(final(out)@ =~= old(out)@ + Self::json(self@));
    }
}

impl ValidationStep {
    pub fn duplicate(&self) -> (r: Self)
        ensures
            r == *self,
    {
        let command = match &self.command {
            Some(c) => Some(c.clone()),
            None => None,
        };
        ValidationStep {
            key: self.key.clone(),
            kind: self.kind,
            description: self.description.clone(),
            command,
            required: self.required,
        }
    }
}

/// The checks a transformation must pass after it is applied.
#[derive(Clone, Debug)]
pub struct ValidationPlan {
    pub steps: Vec<ValidationStep>,
}

/// How a transformation is undone.
#[derive(Clone, Copy, Debug, PartialEq, Eq, Structural, Hash)]
pub enum RollbackStrategy {
    ReverseExactEdits,
}

/// The rollback a recipe promises, and the validation steps it re-runs.
#[derive(Clone, Debug)]
pub struct RollbackPlan {
    pub strategy: RollbackStrategy,
    pub require_revision_guards: bool,
    pub validation_steps: Vec<String>,
}

pub open spec fn validation_plan_json(p: ValidationPlan) -> Seq<char> {
    "{\"steps\":"@ + json_array(json_items(p.steps@)) + "}"@
}

pub open spec fn rollback_plan_json(r: RollbackPlan) -> Seq<char> {
    "{\"strategy\":"@ + json_str("reverse-exact-edits"@) + ",\"require_revision_guards\":"@
        + json_bool(r.require_revision_guards) + ",\"validation_steps\":"@ + json_array(
        json_items(r.validation_steps@),
    ) + "}"@
}

pub fn push_validation_plan_json(out: &mut String, p: &ValidationPlan)
    ensures
        final(out)@ == old(out)@ + validation_plan_json(*p),
{
    string_append(out, "{\"steps\":");
    push_json_list(out, &p.steps);
    string_append(out, "}");
    assert(final(out)@ =~= old(out)@ + validation_plan_json(*p));
}

pub fn push_rollback_plan_json(out: &mut String, r: &RollbackPlan)
    ensures
        final(out)@ == old(out)@ + rollback_plan_json(*r),
{
    string_append(out, "{\"strategy\":");
    push_json_str(out, "reverse-exact-edits");
    string_append(out, ",\"require_revision_guards\":");
    push_json_bool(out, r.require_revision_guards);
    string_append(out, ",\"validation_steps\":");
    push_json_list(out, &r.validation_steps);
    string_append(out, "}");
    assert(final(out)@ =~= old(out)@ + rollback_plan_json(*r));
}

/// Why a contract record was refused.
#[derive(Clone, Debug)]
pub enum RecipeContractError {
    Invalid(String),
    Identity(String),
}

/// A message made of a label and a detail.
pub fn labeled_message(label: &str, detail: &str) -> (m: String)
    ensures
        m@ == label@ + detail@,
{
    let mut out = label.to_owned();
    string_append(&mut out, detail);
    out
}

/// The message of a contract error: its kind, then its detail.
pub open spec fn contract_error_message(e: RecipeContractError) -> Seq<char> {
    match e {
        RecipeContractError::Invalid(d) => "invalid transformation contract: "@ + d@,
        RecipeContractError::Identity(d) => "transformation identity failed: "@ + d@,
    }
}

impl RecipeContractError {
    /// The message of the error.
    pub fn message(&self) -> (m: String)
        ensures
            m@ == contract_error_message(*self),
    {
        match self {
            RecipeContractError::Invalid(d) => labeled_message("invalid transformation contract: ", d.as_str()),
            RecipeContractError::Identity(d) => labeled_message("transformation identity failed: ", d.as_str()),
        }
    }
}

pub fn invalid(detail: &str) -> (e: RecipeContractError)
    ensures
        e is Invalid,
        e->Invalid_0@ == detail@,
{
    RecipeContractError::Invalid(detail.to_owned())
}

/// An error whose message is `label` followed by `suffix`.
pub fn invalid_labeled(label: &str, suffix: &str) -> (e: RecipeContractError)
    ensures
        e is Invalid,
{
    let mut message = label.to_owned();
    message.append(suffix);
    RecipeContractError::Invalid(message)
}

/// Refuses text that is empty, untrimmed or holds a control character.
pub fn validate_text(label: &str, value: &str) -> (r: Result<(), RecipeContractError>)
    ensures
        r is Ok <==> is_canonical_text(value@),
        r matches Err(e) ==> e is Invalid,
{
    if !canonical_text(value) {
        return Err(invalid_labeled(label, " must be canonical nonempty control-free text"));
    }
    Ok(())
}

/// Layers are nonempty, in strictly increasing canonical order, and closed
/// under the layers they derive from.
pub open spec fn layers_valid(layers: Seq<GraphEvidenceLayer>) -> bool {
    &&& layers.len() > 0
    &&& keys_strictly_increasing(layers)
    &&& layers_dependency_closed(layers)
}

/// Conditions are in strictly increasing key order with canonical texts.
pub open spec fn conditions_valid(conditions: Seq<RecipeCondition>) -> bool {
    &&& keys_strictly_increasing(conditions)
    &&& forall|i: int|
        0 <= i < conditions.len() ==> is_canonical_text((#[trigger] conditions[i]).key@)
            && is_canonical_text(conditions[i].description@)
}

pub fn validate_conditions(label: &str, conditions: &Vec<RecipeCondition>) -> (r: Result<
    (),
    RecipeContractError,
>)
    ensures
        r is Ok <==> conditions_valid(conditions@),
        r matches Err(e) ==> e is Invalid,
{
    if !strictly_increasing(conditions) {
        return Err(invalid_labeled(label, " are not canonical and distinct"));
    }
    let n = conditions.len();
    let mut i: usize = 0;
    while i < n
        invariant
            n == conditions@.len(),
            i <= n,
            forall|k: int|
                0 <= k < i ==> is_canonical_text((#[trigger] conditions@[k]).key@)
                    && is_canonical_text(conditions@[k].description@),
        decreases n - i,
    {
        let condition = &conditions[i];
        validate_text("condition key", condition.key.as_str())?;
        validate_text("condition description", condition.description.as_str())?;
        assert(is_canonical_text(conditions@[i as int].key@));
        assert(is_canonical_text(conditions@[i as int].description@));
        i = i + 1;
    }
    Ok(())
}

/// The role expected at each position of a recipe's fixtures.
pub open spec fn canonical_role(k: int) -> RecipeFixtureRole {
    if k == 0 {
        RecipeFixtureRole::Positive
    } else if k == 1 {
        RecipeFixtureRole::NoOp
    } else if k == 2 {
        RecipeFixtureRole::MinimalCounterexample
    } else {
        RecipeFixtureRole::AdversarialNearMiss
    }
}

/// The fixture convention: a positive fixture expects a candidate, a no-op
/// fixture none, and counterexamples and near misses either none or review.
pub open spec fn role_allows(role: RecipeFixtureRole, expectation: FixtureExpectation) -> bool {
    match role {
        RecipeFixtureRole::Positive => expectation == FixtureExpectation::Candidate,
        RecipeFixtureRole::NoOp => expectation == FixtureExpectation::NoCandidate,
        _ => expectation == FixtureExpectation::NoCandidate || expectation
            == FixtureExpectation::ReviewRequired,
    }
}

/// Exactly the four canonical fixture roles, in order, each with canonical
/// texts and an expectation the convention allows.
pub open spec fn fixtures_valid(fixtures: Seq<RecipeFixture>) -> bool {
    &&& fixtures.len() == 4
    &&& forall|k: int| 0 <= k < 4 ==> (#[trigger] fixtures[k]).role == canonical_role(k)
    &&& forall|k: int|
        0 <= k < 4 ==> is_canonical_text((#[trigger] fixtures[k]).name@) && is_canonical_text(
            fixtures[k].description@,
        ) && role_allows(fixtures[k].role, fixtures[k].expectation)
}

pub fn validate_fixtures(fixtures: &Vec<RecipeFixture>) -> (r: Result<(), RecipeContractError>)
    ensures
        r is Ok <==> fixtures_valid(fixtures@),
        r matches Err(e) ==> e is Invalid,
{
    if fixtures.len() != 4 || fixtures[0].role != RecipeFixtureRole::Positive || fixtures[1].role
        != RecipeFixtureRole::NoOp || fixtures[2].role != RecipeFixtureRole::MinimalCounterexample
        || fixtures[3].role != RecipeFixtureRole::AdversarialNearMiss {
        return Err(
            invalid("recipe fixtures must contain exactly the four canonical fixture roles"),
        );
    }
    let mut i: usize = 0;
    while i < 4
        invariant
            fixtures@.len() == 4,
            forall|k: int| 0 <= k < 4 ==> (#[trigger] fixtures@[k]).role == canonical_role(k),
            i <= 4,
            forall|k: int|
                0 <= k < i ==> is_canonical_text((#[trigger] fixtures@[k]).name@)
                    && is_canonical_text(fixtures@[k].description@) && role_allows(
                    fixtures@[k].role,
                    fixtures@[k].expectation,
                ),
        decreases 4 - i,
    {
        let fixture = &fixtures[i];
        validate_text("fixture name", fixture.name.as_str())?;
        validate_text("fixture description", fixture.description.as_str())?;
        let allowed = match fixture.role {
            RecipeFixtureRole::Positive => fixture.expectation == FixtureExpectation::Candidate,
            RecipeFixtureRole::NoOp => fixture.expectation == FixtureExpectation::NoCandidate,
            _ => fixture.expectation == FixtureExpectation::NoCandidate || fixture.expectation
                == FixtureExpectation::ReviewRequired,
        };
        if !allowed {
            return Err(invalid("fixture role and expected outcome contradict the convention"));
        }
        i = i + 1;
    }
    Ok(())
}

/// A validation step with canonical texts; a custom step names its command.
pub open spec fn step_valid(step: ValidationStep) -> bool {
    &&& is_canonical_text(step.key@)
    &&& is_canonical_text(step.description@)
    &&& (step.command matches Some(c) ==> is_canonical_text(c@))
    &&& (step.kind == ValidationStepKind::Custom ==> step.command is Some)
}

pub open spec fn has_required_step(steps: Seq<ValidationStep>, kind: ValidationStepKind) -> bool {
    exists|j: int| 0 <= j < steps.len() && (#[trigger] steps[j]).required && steps[j].kind == kind
}

/// A nonempty plan of valid steps in strictly increasing key order that
/// includes required parse and graph-delta checks.
pub open spec fn validation_plan_valid(plan: ValidationPlan) -> bool {
    &&& plan.steps@.len() > 0
    &&& keys_strictly_increasing(plan.steps@)
    &&& forall|i: int| 0 <= i < plan.steps@.len() ==> step_valid(#[trigger] plan.steps@[i])
    &&& has_required_step(plan.steps@, ValidationStepKind::Parse)
    &&& has_required_step(plan.steps@, ValidationStepKind::GraphDelta)
}

fn find_required_step(steps: &Vec<ValidationStep>, kind: ValidationStepKind) -> (r: bool)
    ensures
        r == has_required_step(steps@, kind),
{
    let n = steps.len();
    let mut i: usize = 0;
    while i < n
        invariant
            n == steps@.len(),
            i <= n,
            forall|j: int| 0 <= j < i ==> !((#[trigger] steps@[j]).required && steps@[j].kind == kind),
        decreases n - i,
    {
        if steps[i].required && steps[i].kind == kind {
            return true;
        }
        i = i + 1;
    }
    false
}

pub fn validate_validation_plan(plan: &ValidationPlan) -> (r: Result<(), RecipeContractError>)
    ensures
        r is Ok <==> validation_plan_valid(*plan),
        r matches Err(e) ==> e is Invalid,
{
    if plan.steps.len() == 0 || !strictly_increasing(&plan.steps) {
        return Err(invalid("validation steps must be canonical, nonempty, and distinct"));
    }
    let n = plan.steps.len();
    let mut i: usize = 0;
    while i < n
        invariant
            n == plan.steps@.len(),
            i <= n,
            forall|k: int| 0 <= k < i ==> step_valid(#[trigger] plan.steps@[k]),
        decreases n - i,
    {
        let step = &plan.steps[i];
        validate_text("validation-step key", step.key.as_str())?;
        validate_text("validation-step description", step.description.as_str())?;
        match &step.command {
            Some(command) => {
                validate_text("validation-step command", command.as_str())?;
            },
            None => {},
        }
        if step.kind == ValidationStepKind::Custom && step.command.is_none() {
            return Err(invalid("custom validation step requires an exact command"));
        }
        i = i + 1;
    }
    if !find_required_step(&plan.steps, ValidationStepKind::Parse) || !find_required_step(
        &plan.steps,
        ValidationStepKind::GraphDelta,
    ) {
        return Err(invalid("validation plan requires parse and graph-delta checks"));
    }
    Ok(())
}

/// Whether a plan has a step with the given key.
pub open spec fn plan_has_key(plan: ValidationPlan, key: Seq<char>) -> bool {
    exists|j: int| 0 <= j < plan.steps@.len() && (#[trigger] plan.steps@[j]).key@ == key
}

/// Rollback requires revision guards and re-runs a nonempty, strictly
/// increasing list of canonical keys of the validation plan's steps.
pub open spec fn rollback_plan_valid(rollback: RollbackPlan, plan: ValidationPlan) -> bool {
    &&& rollback.require_revision_guards
    &&& rollback.validation_steps@.len() > 0
    &&& keys_strictly_increasing(rollback.validation_steps@)
    &&& forall|i: int|
        0 <= i < rollback.validation_steps@.len() ==> is_canonical_text(
            (#[trigger] rollback.validation_steps@[i])@,
        ) && plan_has_key(plan, rollback.validation_steps@[i]@)
}

fn plan_contains_key(plan: &ValidationPlan, key: &str) -> (r: bool)
    ensures
        r == plan_has_key(*plan, key@),
{
    let n = plan.steps.len();
    let mut i: usize = 0;
    while i < n
        invariant
            n == plan.steps@.len(),
            i <= n,
            forall|j: int| 0 <= j < i ==> (#[trigger] plan.steps@[j]).key@ != key@,
        decreases n - i,
    {
        if compare_str(plan.steps[i].key.as_str(), key) == 0 {
            return true;
        }
        i = i + 1;
    }
    false
}

pub fn validate_rollback_plan(rollback: &RollbackPlan, validation: &ValidationPlan) -> (r: Result<
    (),
    RecipeContractError,
>)
    ensures
        r is Ok <==> rollback_plan_valid(*rollback, *validation),
        r matches Err(e) ==> e is Invalid,
{
    if !rollback.require_revision_guards || rollback.validation_steps.len() == 0 {
        return Err(invalid("rollback requires exact revision guards and validation steps"));
    }
    if !strictly_increasing(&rollback.validation_steps) {
        return Err(invalid("rollback validation-step keys must be canonical and distinct"));
    }
    let n = rollback.validation_steps.len();
    let mut i: usize = 0;
    while i < n
        invariant
            n == rollback.validation_steps@.len(),
            i <= n,
            forall|k: int|
                0 <= k < i ==> is_canonical_text((#[trigger] rollback.validation_steps@[k])@)
                    && plan_has_key(*validation, rollback.validation_steps@[k]@),
        decreases n - i,
    {
        let key = rollback.validation_steps[i].as_str();
        if !canonical_text(key) || !plan_contains_key(validation, key) {
            return Err(invalid("rollback references a missing or invalid validation step"));
        }
        i = i + 1;
    }
    Ok(())
}

} // verus!
