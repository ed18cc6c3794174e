use deslop_recipes::candidate::{
    CandidateDisposition, CandidateSource, GraphEligibilityDecision, TransformationCandidate,
    TransformationCandidateDraft,
};
use deslop_recipes::clarity::{
    clarity_kinds, graph_grounded_clarity_candidates, is_error_fragment, ClarityCandidateKind,
};
use deslop_recipes::contract::{
    FixtureExpectation, ProofState, RecipeCondition, RecipeFixture, RecipeFixtureRole, RollbackPlan,
    RollbackStrategy, TransformationFamily, ValidationPlan, ValidationStep, ValidationStepKind,
};
use deslop_recipes::evidence::{
    ConditionEvidence, ConditionResult, ExpectedGraphChange, ExpectedGraphDelta, GraphChangeKind,
    GraphEntityRef, ImpactDirection,
};
use deslop_recipes::impact::{program_dependence_impact_cone, DependenceEdge, DependenceGraph};
use deslop_recipes::model::{GraphEvidenceLayer, SafetyClass, Span};
use deslop_recipes::recipe::{TransformationRecipe, TransformationRecipeDraft};
use deslop_recipes::recipes::branch::{branch_graph_evidence, equivalent_branch_factoring_recipe};
use deslop_recipes::recipes::catalog::{audit_candidate_in_catalog, audit_m5_candidate, enabled_rust_recipe_catalog};
use deslop_recipes::recipes::inline_helper::inline_single_use_helper_recipe;
use deslop_recipes::recipes::unreachable::unreachable_literal_statement_recipe;
use deslop_recipes::semantic::{
    canonicalize_identifiers, role_scope_comment_evidence, semantic_disposition, validate_comments,
    validate_identifiers, CommentIntent, CommentSemanticEvidence, FactCoverage, IdentifierSemanticEvidence,
    IdentifierSemanticRole, ResolutionStatus, RoleScopeCommentEvidence, RoleScopeCommentEvidenceInput,
    SemanticEditRef, SemanticEvidenceDisposition,
};
use deslop_recipes::target::{CandidateTarget, NodeKey, TransformationEdit};

fn digest(prefix: &str, fill: char) -> String {
    format!("{prefix}{}", fill.to_string().repeat(64))
}

fn node() -> NodeKey {
    NodeKey { path: "src/lib.rs".into(), start_byte: 20, end_byte: 22, start_row: 0, end_row: 0 }
}

fn target_entity() -> GraphEntityRef {
    GraphEntityRef { layer: GraphEvidenceLayer::ProgramDependence, graph: "pdg".into(), entity: "n1".into() }
}

fn results(conditions: &[RecipeCondition], state: ProofState) -> Vec<ConditionResult> {
    conditions
        .iter()
        .map(|condition| ConditionResult {
            condition: condition.key.clone(),
            state,
            evidence: vec![ConditionEvidence {
                entity: GraphEntityRef { layer: condition.layer, graph: "graph".into(), entity: "point".into() },
                detail: "Retained evidence decides this condition.".into(),
                capability: None,
                support: None,
                authority: None,
            }],
        })
        .collect()
}

fn draft_for(recipe: TransformationRecipe, disposition: CandidateDisposition, safety: SafetyClass) -> TransformationCandidateDraft {
    let graphs = vec![DependenceGraph {
        key: "pdg".into(),
        nodes: vec!["n0".into(), "n1".into()],
        edges: vec![DependenceEdge { key: "e_n0_n1".into(), from: "n0".into(), to: "n1".into(), flow: true }],
    }];
    let impact = program_dependence_impact_cone(&graphs, "pdg", "n1", ImpactDirection::Bidirectional, 8).unwrap();
    let span = Span::new(1, 1, 20, 22);
    TransformationCandidateDraft {
        source: CandidateSource {
            project_snapshot: digest("ps1_", 'a'),
            analysis: digest("pa1_", 'b'),
            program_dependence_projection: digest("pj1_", 'c'),
        },
        target: CandidateTarget { entity: target_entity(), node: node(), span, subtree_fingerprint: None },
        eligibility: GraphEligibilityDecision {
            consumer: recipe.id().into(),
            required_layers: recipe.required_layers().to_vec(),
            eligible: true,
        },
        required_results: results(recipe.required_conditions(), ProofState::Proven),
        forbidden_results: results(recipe.forbidden_conditions(), ProofState::Disproven),
        impact,
        expected_delta: ExpectedGraphDelta {
            changes: vec![ExpectedGraphChange {
                kind: GraphChangeKind::Remove,
                entity: target_entity(),
                rationale: "The unreachable statement leaves the graph.".into(),
            }],
        },
        edits: vec![TransformationEdit::exact_node_deletion(node(), span, "1;".into())],
        safety,
        disposition,
        validation_plan: recipe.validation_plan().clone(),
        rollback_plan: recipe.rollback_plan().clone(),
        recipe,
    }
}

fn unreachable_candidate() -> TransformationCandidate {
    let recipe = unreachable_literal_statement_recipe().unwrap();
    TransformationCandidate::new(draft_for(recipe, CandidateDisposition::Automatic, SafetyClass::SafeAuto)).unwrap()
}

fn outside_recipe() -> TransformationRecipe {
    TransformationRecipe::new(TransformationRecipeDraft {
        name: "remove-unreachable-statement".into(),
        version: "1.0.0".into(),
        family: TransformationFamily::CloneCeremonyDeadCode,
        required_layers: vec![GraphEvidenceLayer::ControlFlow],
        required_conditions: vec![RecipeCondition {
            key: "entry-unreachable".into(),
            description: "The retained control point is unreachable from callable entry.".into(),
            layer: GraphEvidenceLayer::ControlFlow,
        }],
        forbidden_conditions: vec![RecipeCondition {
            key: "conservative-control".into(),
            description: "The retained path contains conservative control evidence.".into(),
            layer: GraphEvidenceLayer::ControlFlow,
        }],
        maximum_safety: SafetyClass::SafeWithPrecondition,
        validation_plan: ValidationPlan {
            steps: vec![
                ValidationStep {
                    key: "parse".into(),
                    kind: ValidationStepKind::Parse,
                    description: "Parse the exact edited source.".into(),
                    command: None,
                    required: true,
                },
                ValidationStep {
                    key: "graph-delta".into(),
                    kind: ValidationStepKind::GraphDelta,
                    description: "Compare the actual and expected graph delta.".into(),
                    command: None,
                    required: true,
                },
            ],
        },
        rollback_plan: RollbackPlan {
            strategy: RollbackStrategy::ReverseExactEdits,
            require_revision_guards: true,
            validation_steps: vec!["graph-delta".into(), "parse".into()],
        },
        fixtures: vec![
            RecipeFixture {
                role: RecipeFixtureRole::Positive,
                name: "positive".into(),
                expectation: FixtureExpectation::Candidate,
                description: "A candidate is proposed.".into(),
            },
            RecipeFixture {
                role: RecipeFixtureRole::NoOp,
                name: "no-op".into(),
                expectation: FixtureExpectation::NoCandidate,
                description: "Nothing is proposed.".into(),
            },
            RecipeFixture {
                role: RecipeFixtureRole::MinimalCounterexample,
                name: "counterexample".into(),
                expectation: FixtureExpectation::NoCandidate,
                description: "The smallest refusal.".into(),
            },
            RecipeFixture {
                role: RecipeFixtureRole::AdversarialNearMiss,
                name: "near-miss".into(),
                expectation: FixtureExpectation::NoCandidate,
                description: "A near miss is refused.".into(),
            },
        ],
    })
    .unwrap()
}

#[test]
fn valid_automatic_candidate_is_built_validated_and_audited() {
    let candidate = unreachable_candidate();
    assert!(candidate.id().starts_with("tcn1_"));
    assert_eq!(candidate.id().len(), 5 + 64);
    assert!(candidate.validate().is_ok());
    assert_eq!(candidate.disposition(), CandidateDisposition::Automatic);
    assert!(audit_m5_candidate(&candidate).is_ok());
    let rebuilt = TransformationCandidate::from_wire(candidate.clone().into_wire()).unwrap();
    assert_eq!(rebuilt.id(), candidate.id());
}

#[test]
fn candidate_identity_changes_with_its_content() {
    let recipe = unreachable_literal_statement_recipe().unwrap();
    let mut draft = draft_for(recipe, CandidateDisposition::Automatic, SafetyClass::SafeAuto);
    draft.expected_delta.changes[0].rationale = "Another rationale.".into();
    let other = TransformationCandidate::new(draft).unwrap();
    assert_ne!(other.id(), unreachable_candidate().id());
}

#[test]
fn candidate_wire_rejects_tampering_and_unproven_automation() {
    let mut tampered = unreachable_candidate().into_wire();
    tampered.draft.edits[0].after = "2;".into();
    assert!(TransformationCandidate::from_wire(tampered).is_err());

    let recipe = unreachable_literal_statement_recipe().unwrap();
    let mut draft = draft_for(recipe, CandidateDisposition::Automatic, SafetyClass::SafeAuto);
    draft.required_results[0].state = ProofState::Unknown;
    assert!(TransformationCandidate::new(draft).is_err());

    let recipe = unreachable_literal_statement_recipe().unwrap();
    let mut draft = draft_for(recipe, CandidateDisposition::ReviewRequired, SafetyClass::SafeAuto);
    draft.required_results[0].state = ProofState::Unknown;
    assert!(TransformationCandidate::new(draft).is_ok());
}

#[test]
fn audit_refuses_candidates_outside_the_catalog() {
    let candidate = TransformationCandidate::new(draft_for(
        outside_recipe(),
        CandidateDisposition::ReviewRequired,
        SafetyClass::SafeWithPrecondition,
    ))
    .unwrap();
    let error = audit_m5_candidate(&candidate).unwrap_err();
    assert_eq!(error, format!("candidate {} belongs to a detector outside the enabled catalog", candidate.id()));

    let catalog = enabled_rust_recipe_catalog().unwrap();
    assert!(audit_candidate_in_catalog(&catalog, &unreachable_candidate()).is_ok());
    assert!(audit_candidate_in_catalog(&vec![], &unreachable_candidate()).is_err());
}

#[test]
fn branch_factoring_without_error_semantics_is_not_relabelled() {
    let recipe = equivalent_branch_factoring_recipe().unwrap();
    assert!(clarity_kinds(recipe.name(), &vec!["if flag { log(); } else { log(); }".to_string()]).is_empty());
}

#[test]
fn clarity_kinds_follow_the_recipe_family() {
    assert_eq!(
        clarity_kinds(inline_single_use_helper_recipe().unwrap().name(), &vec![]),
        vec![ClarityCandidateKind::Forwarding, ClarityCandidateKind::Wrapper]
    );
    assert_eq!(
        clarity_kinds("rust-inline-single-use-conversion-allocation", &vec![]),
        vec![ClarityCandidateKind::ConversionAllocation]
    );
    assert_eq!(
        clarity_kinds(
            equivalent_branch_factoring_recipe().unwrap().name(),
            &vec!["if failed { return Err(problem); } else { return Err(problem); }".to_string()],
        ),
        vec![ClarityCandidateKind::RepeatedError]
    );
    assert_eq!(
        clarity_kinds(unreachable_literal_statement_recipe().unwrap().name(), &vec![]),
        vec![ClarityCandidateKind::DeadCode]
    );
    assert!(clarity_kinds("rust-sort-simple-import-block", &vec![]).is_empty());
    assert!(is_error_fragment("panic!(\"no\")"));
    assert!(is_error_fragment("unreachable!()"));
    assert!(!is_error_fragment("Ok(value)"));
}

#[test]
fn clarity_records_require_data_flow_and_dependence_grounding() {
    let error = graph_grounded_clarity_candidates(&vec![unreachable_candidate()]).unwrap_err();
    assert!(error.ends_with("lacks required graph grounding"), "{error}");
    let outside = TransformationCandidate::new(draft_for(
        outside_recipe(),
        CandidateDisposition::ReviewRequired,
        SafetyClass::SafeWithPrecondition,
    ))
    .unwrap();
    assert!(graph_grounded_clarity_candidates(&vec![outside]).unwrap().is_empty());
}

fn scope(byte: char) -> String {
    digest("sf1_", byte)
}

fn identifier(scope_fact: String, start: usize) -> IdentifierSemanticEvidence {
    IdentifierSemanticEvidence {
        source_path: "src/lib.rs".into(),
        span: Span::new(1, 1, start, start + 5),
        spelling: "value".into(),
        role: IdentifierSemanticRole::Read,
        canonical_roles: vec!["expression".into(), "read".into()],
        scope_fact,
        binding_fact: Some(scope('b')),
        resolution: Some(ResolutionStatus::Unique),
    }
}

fn rationale() -> CommentSemanticEvidence {
    CommentSemanticEvidence {
        source_path: "src/lib.rs".into(),
        span: Span::new(1, 1, 10, 32),
        text: "// SAFETY: invariant".into(),
        intent: CommentIntent::Rationale,
        owner_scope_fact: scope('1'),
    }
}

#[test]
fn same_spelling_in_distinct_scopes_remains_distinct_and_canonical() {
    let identifiers = canonicalize_identifiers(vec![identifier(scope('2'), 20), identifier(scope('1'), 10)]);
    validate_identifiers(&identifiers).unwrap();

    assert_eq!(identifiers.len(), 2);
    assert_ne!(identifiers[0].scope_fact, identifiers[1].scope_fact);
    assert_eq!(identifiers[0].span.start_byte, 10);
    let mut ambiguous = identifier(scope('3'), 30);
    ambiguous.resolution = Some(ResolutionStatus::Ambiguous);
    assert!(validate_identifiers(&vec![ambiguous]).is_err());
}

#[test]
fn automatic_rationale_deletion_is_blocked_but_exact_retention_requires_review() {
    let rationale = rationale();
    validate_comments(&vec![rationale.clone()]).unwrap();
    assert_eq!(
        semantic_disposition(
            CandidateDisposition::Automatic,
            &vec![SemanticEditRef {
                source_path: "src/lib.rs".into(),
                span: Span::new(1, 1, 0, 40),
                after: "replacement();".into(),
            }],
            &vec![],
            &vec![rationale.clone()],
        ),
        SemanticEvidenceDisposition::AutomaticRationaleDeletionBlocked
    );
    assert_eq!(
        semantic_disposition(
            CandidateDisposition::Automatic,
            &vec![SemanticEditRef {
                source_path: "src/lib.rs".into(),
                span: Span::new(1, 1, 0, 40),
                after: "// SAFETY: invariant\nreplacement();".into(),
            }],
            &vec![],
            &vec![rationale],
        ),
        SemanticEvidenceDisposition::ReviewRequired
    );
}

#[test]
fn public_api_and_comment_intents_are_protected_roles() {
    let mut public = identifier(scope('1'), 0);
    public.role = IdentifierSemanticRole::PublicApiSurface;
    public.resolution = None;
    public.binding_fact = Some(scope('b'));
    validate_identifiers(&vec![public.clone()]).unwrap();
    assert_eq!(
        semantic_disposition(CandidateDisposition::Automatic, &vec![], &vec![public], &vec![]),
        SemanticEvidenceDisposition::ReviewRequired
    );
    for intent in [CommentIntent::Documentation, CommentIntent::Rationale, CommentIntent::Suppression] {
        assert!(matches!(
            intent,
            CommentIntent::Documentation | CommentIntent::Rationale | CommentIntent::Suppression
        ));
    }
}

#[test]
fn partial_authority_and_duplicate_spans_fail_closed() {
    assert_ne!(FactCoverage::Partial, FactCoverage::Complete);
    let evidence = identifier(scope('1'), 10);
    assert!(validate_identifiers(&vec![evidence.clone(), evidence]).is_err());
}

#[test]
fn ordinary_evidence_leaves_an_automatic_candidate_automatic() {
    let mut ordinary = rationale();
    ordinary.intent = CommentIntent::Ordinary;
    assert_eq!(
        semantic_disposition(
            CandidateDisposition::Automatic,
            &vec![],
            &vec![identifier(scope('1'), 0)],
            &vec![ordinary.clone()],
        ),
        SemanticEvidenceDisposition::AutomaticCompatible
    );
    assert_eq!(
        semantic_disposition(CandidateDisposition::ReviewRequired, &vec![], &vec![], &vec![ordinary]),
        SemanticEvidenceDisposition::ReviewRequired
    );
}

fn input(coverage: FactCoverage) -> RoleScopeCommentEvidenceInput {
    let mut roles = identifier(scope('2'), 40);
    roles.canonical_roles = vec!["read".into(), "expression".into(), "read".into()];
    RoleScopeCommentEvidenceInput {
        identifier_coverage: FactCoverage::Complete,
        comment_coverage: coverage,
        identifiers: vec![roles, identifier(scope('1'), 30)],
        comments: vec![rationale()],
    }
}

#[test]
fn role_scope_comment_evidence_is_canonical_and_content_addressed() {
    let candidate = unreachable_candidate();
    let record = role_scope_comment_evidence(&candidate, input(FactCoverage::Complete)).unwrap();
    assert!(record.id().as_str().starts_with("rsc1_"));
    assert_eq!(record.id().as_str().len(), 5 + 64);
    assert_eq!(record.candidate(), candidate.id());
    assert_eq!(record.identifiers()[0].span.start_byte, 30);
    assert_eq!(record.identifiers()[1].canonical_roles, vec!["expression".to_string(), "read".to_string()]);
    assert_eq!(record.disposition(), SemanticEvidenceDisposition::AutomaticRationaleDeletionBlocked);
    assert!(record.validate().is_ok());

    let again = role_scope_comment_evidence(&candidate, input(FactCoverage::Complete)).unwrap();
    assert_eq!(again.id(), record.id());

    let wire = record.clone().into_wire();
    let rebuilt = RoleScopeCommentEvidence::from_wire(wire.clone()).unwrap();
    assert_eq!(rebuilt.id(), record.id());
    let mut stale = wire;
    stale.disposition = SemanticEvidenceDisposition::ReviewRequired;
    assert!(RoleScopeCommentEvidence::from_wire(stale).is_err());
}

#[test]
fn role_scope_comment_evidence_requires_complete_valid_evidence() {
    let candidate = unreachable_candidate();
    assert_eq!(
        role_scope_comment_evidence(&candidate, input(FactCoverage::Partial)).unwrap_err(),
        "role/scope and comment evidence must both be complete"
    );
    let mut duplicated = input(FactCoverage::Complete);
    duplicated.comments.push(rationale());
    assert!(role_scope_comment_evidence(&candidate, duplicated).is_err());
}

#[test]
fn branch_graph_evidence_collects_obligations_and_counter_evidence() {
    let recipe = equivalent_branch_factoring_recipe().unwrap();
    let mut layers: Vec<GraphEvidenceLayer> = recipe.required_conditions().iter().map(|c| c.layer).collect();
    layers.sort_by_key(|l| format!("{l:?}"));
    layers.dedup();
    let candidate = TransformationCandidate::new(draft_for(
        recipe,
        CandidateDisposition::ReviewRequired,
        SafetyClass::SafeWithPrecondition,
    ))
    .unwrap();
    let evidence = branch_graph_evidence(&candidate).unwrap();
    assert_eq!(evidence.before.len(), layers.len());
    for entity in &evidence.before {
        assert_eq!(entity.graph, "graph");
        assert_eq!(entity.entity, "point");
    }
    assert_eq!(evidence.counter_evidence.len(), candidate.forbidden_results().len());
    assert_eq!(evidence.after.changes.len(), candidate.expected_delta().changes.len());
    assert!(branch_graph_evidence(&unreachable_candidate()).is_none());
}
