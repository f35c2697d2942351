//! Resolution, reverse inference, evaluation, replay protection, audits and
//! the text helpers, on concrete values.

use engine::audit::AuditLog;
use engine::config::{EvidenceOption, PolicyDef, PredicateDef, QuestionEntry, Registry};
use engine::domain::{state_str, AssuranceLevel, Decision, Evidence, EvidenceState, Kind};
use engine::engine::{evaluate_request, new_challenge, plan_evidence, present, resolve_question, PresentOutcome};
use engine::evidence::{CredentialVerifier, MockCredentialVerifier, Presentation, VerificationResult};
use engine::inference::{build_plan, established_from_evidence, privacy_ordered, required_predicates};
use engine::policy::{evaluate, evidence_lookup};
use engine::replay::{generate_nonce, to_hex, Challenge, InMemoryReplayStore, NonceResult, ReplayStore};
use engine::resolution::{normalize, resolve_tier1, validate_proposal, ResolvedBy};
use engine::strmap::StrMap;
use engine::text::{join, split_char, trim, usize_to_decimal};
use engine::{build_replay_audit, build_verification_failure_audit, parse_eval_time};

fn s(x: &str) -> String {
    x.to_string()
}

fn opt(t: &str, a: AssuranceLevel) -> EvidenceOption {
    EvidenceOption { evidence_type: s(t), assurance: a }
}

/// The knowledge base: the question registry, the predicates and the policies.
fn registry() -> Registry {
    let questions = vec![
        QuestionEntry {
            canonical: s("age_over_18"),
            kind: Kind::Predicate,
            aliases: vec![s("is this user over 18"), s("can this user buy alcohol")],
        },
        QuestionEntry {
            canonical: s("BANK_ACCOUNT_OPENING_V1"),
            kind: Kind::Policy,
            aliases: vec![s("can this user open a bank account")],
        },
    ];
    let mut predicates = StrMap::new();
    predicates.insert(
        s("age_over_18"),
        PredicateDef {
            evidence: vec![
                opt("AGE_ATTESTATION", AssuranceLevel::High),
                opt("GOVERNMENT_IDENTITY", AssuranceLevel::High),
            ],
            prefer: Some(s("AGE_ATTESTATION")),
        },
    );
    predicates.insert(
        s("identity_verified"),
        PredicateDef { evidence: vec![opt("GOVERNMENT_IDENTITY", AssuranceLevel::High)], prefer: None },
    );
    predicates.insert(
        s("eu_resident"),
        PredicateDef {
            evidence: vec![opt("RESIDENCE_CREDENTIAL", AssuranceLevel::Substantial)],
            prefer: None,
        },
    );
    predicates.insert(
        s("consent_valid"),
        PredicateDef { evidence: vec![opt("CONSENT_RECORD", AssuranceLevel::Substantial)], prefer: None },
    );
    let mut policies = StrMap::new();
    policies.insert(
        s("BANK_ACCOUNT_OPENING_V1"),
        PolicyDef {
            version: 1,
            requires: vec![s("identity_verified"), s("age_over_18"), s("eu_resident"), s("consent_valid")],
        },
    );
    Registry { questions, predicates, policies }
}

fn ev(t: &str, st: EvidenceState) -> Evidence {
    Evidence { evidence_type: s(t), state: st }
}

fn t2020() -> engine::clock::DateTime {
    parse_eval_time(Some("2020-01-01T00:00:00Z")).unwrap()
}

fn types(v: &[engine::inference::EvidenceOptionOut]) -> Vec<String> {
    v.iter().map(|o| o.evidence_type.clone()).collect()
}

// ---- text and resolution ---------------------------------------------------

#[test]
fn normalize_lowercases_collapses_and_strips_punctuation() {
    assert_eq!(normalize("  Is  This User\t Over 18?!  "), "is this user over 18");
    assert_eq!(normalize("CAN this user buy alcohol..."), "can this user buy alcohol");
    assert_eq!(normalize("   "), "");
}

#[test]
fn text_helpers_exact_values() {
    assert_eq!(trim("  x y \n"), "x y");
    assert_eq!(split_char("a~b~~c", '~'), vec![s("a"), s("b"), s(""), s("c")]);
    assert_eq!(split_char("abc", '~'), vec![s("abc")]);
    assert_eq!(join(&[s("a"), s("b"), s("c")], "~"), "a~b~c");
    assert_eq!(usize_to_decimal(0), "0");
    assert_eq!(usize_to_decimal(1234), "1234");
    assert_eq!(state_str(EvidenceState::Revoked), "REVOKED");
    assert_eq!(ResolvedBy::LlmValidated.as_str(), "LLM_VALIDATED");
    assert_eq!(ResolvedBy::Registry.as_str(), "REGISTRY");
}

#[test]
fn canonical_match_is_case_sensitive_and_trimmed() {
    let r = registry();
    assert_eq!(resolve_tier1(&r, "  age_over_18 ").unwrap().canonical, "age_over_18");
    assert!(resolve_tier1(&r, "AGE_OVER_18").is_none());
    let bank = resolve_tier1(&r, "Can this user open a bank account?").unwrap();
    assert_eq!(bank.canonical, "BANK_ACCOUNT_OPENING_V1");
    assert_eq!(bank.kind, Kind::Policy);
}

#[test]
fn resolve_question_falls_back_to_validated_proposal() {
    let r = registry();
    let hit = resolve_question(&r, "is this user over 18", Some("BANK_ACCOUNT_OPENING_V1")).unwrap();
    assert_eq!(hit.canonical, "age_over_18");
    assert_eq!(hit.resolved_by, ResolvedBy::Registry);

    let llm = resolve_question(&r, "is this customer an adult", Some("age_over_18")).unwrap();
    assert_eq!(llm.canonical, "age_over_18");
    assert_eq!(llm.resolved_by, ResolvedBy::LlmValidated);

    assert!(resolve_question(&r, "is this customer an adult", Some("adult")).is_none());
    assert!(resolve_question(&r, "is this customer an adult", None).is_none());
    let policy = validate_proposal(&r, "BANK_ACCOUNT_OPENING_V1").unwrap();
    assert_eq!(policy.kind, Kind::Policy);
}

#[test]
fn registry_lookups() {
    let r = registry();
    assert!(r.is_canonical("eu_resident"));
    assert!(!r.is_canonical("pilot_a_plane"));
    assert_eq!(r.kind_of("BANK_ACCOUNT_OPENING_V1"), Some(Kind::Policy));
    assert_eq!(r.kind_of("consent_valid"), Some(Kind::Predicate));
    assert_eq!(r.kind_of("nope"), None);
    // sorted: upper case before lower case
    assert_eq!(r.supported_questions(), vec![s("BANK_ACCOUNT_OPENING_V1"), s("age_over_18")]);
}

// ---- reverse inference -----------------------------------------------------

#[test]
fn privacy_order_puts_preferred_first_and_dedups() {
    let def = PredicateDef {
        evidence: vec![
            opt("B", AssuranceLevel::High),
            opt("A", AssuranceLevel::Low),
            opt("B", AssuranceLevel::Low),
            opt("C", AssuranceLevel::Substantial),
        ],
        prefer: Some(s("A")),
    };
    let out = privacy_ordered(&def);
    assert_eq!(types(&out), vec![s("A"), s("B"), s("C")]);
    assert_eq!(out[0].assurance, AssuranceLevel::Low);
    assert_eq!(out[1].assurance, AssuranceLevel::High);

    // a preference the predicate does not accept changes nothing
    let def2 = PredicateDef { evidence: def.evidence, prefer: Some(s("Z")) };
    assert_eq!(types(&privacy_ordered(&def2)), vec![s("B"), s("A"), s("C")]);
}

#[test]
fn required_predicates_follow_config_order() {
    let r = registry();
    assert_eq!(
        required_predicates(&r, "BANK_ACCOUNT_OPENING_V1", Kind::Policy),
        vec![s("identity_verified"), s("age_over_18"), s("eu_resident"), s("consent_valid")]
    );
    assert_eq!(required_predicates(&r, "age_over_18", Kind::Predicate), vec![s("age_over_18")]);
    assert!(required_predicates(&r, "NO_SUCH_POLICY", Kind::Policy).is_empty());
}

#[test]
fn plan_requests_only_what_is_not_established() {
    let r = registry();
    let known = [ev("GOVERNMENT_IDENTITY", EvidenceState::Available)];
    let (kind, plan) = plan_evidence(&r, "BANK_ACCOUNT_OPENING_V1", &known).unwrap();
    assert_eq!(kind, Kind::Policy);
    // GOVERNMENT_IDENTITY establishes identity_verified and age_over_18
    let preds: Vec<String> = plan.predicates.iter().map(|p| p.predicate.clone()).collect();
    assert_eq!(preds, vec![s("eu_resident"), s("consent_valid")]);
    assert_eq!(plan.required_evidence, vec![s("RESIDENCE_CREDENTIAL"), s("CONSENT_RECORD")]);
    assert_eq!(plan.canonical, "BANK_ACCOUNT_OPENING_V1");

    // everything established: nothing requested
    let all = [
        ev("GOVERNMENT_IDENTITY", EvidenceState::Available),
        ev("RESIDENCE_CREDENTIAL", EvidenceState::Available),
        ev("CONSENT_RECORD", EvidenceState::Available),
    ];
    let (_, empty) = plan_evidence(&r, "BANK_ACCOUNT_OPENING_V1", &all).unwrap();
    assert!(empty.predicates.is_empty());
    assert!(empty.required_evidence.is_empty());

    assert!(plan_evidence(&r, "pilot_a_plane", &[]).is_none());
}

#[test]
fn established_from_evidence_and_build_plan() {
    let r = registry();
    let lookup = evidence_lookup(&[
        ev("AGE_ATTESTATION", EvidenceState::Expired),
        ev("CONSENT_RECORD", EvidenceState::Available),
    ]);
    let est = established_from_evidence(&r, "BANK_ACCOUNT_OPENING_V1", Kind::Policy, &lookup);
    assert_eq!(est.get("consent_valid"), Some(&true));
    assert_eq!(est.get("age_over_18"), Some(&false));
    assert_eq!(est.get("identity_verified"), Some(&false));
    assert_eq!(est.get("other"), None);
    let plan = build_plan(&r, "BANK_ACCOUNT_OPENING_V1", Kind::Policy, &est);
    assert_eq!(
        plan.required_evidence,
        vec![s("GOVERNMENT_IDENTITY"), s("AGE_ATTESTATION"), s("RESIDENCE_CREDENTIAL")]
    );
    assert_eq!(plan.predicates[1].preferred, "AGE_ATTESTATION");
    assert_eq!(types(&plan.predicates[1].evidence_options), vec![s("AGE_ATTESTATION"), s("GOVERNMENT_IDENTITY")]);
}

#[test]
fn evidence_lookup_later_entry_wins() {
    let m = evidence_lookup(&[
        ev("AGE_ATTESTATION", EvidenceState::Missing),
        ev("AGE_ATTESTATION", EvidenceState::Available),
    ]);
    assert_eq!(m.get("AGE_ATTESTATION"), Some(&EvidenceState::Available));
}

// ---- evaluation ------------------------------------------------------------

#[test]
fn expired_or_missing_evidence_is_unknown_not_deny() {
    let r = registry();
    for st in [EvidenceState::Expired, EvidenceState::Missing, EvidenceState::Unknown] {
        let d = evaluate(&r, "age_over_18", Kind::Predicate, &[ev("AGE_ATTESTATION", st)], t2020());
        assert_eq!(d.decision, Decision::Unknown);
        assert!(d.evidence_request_plan.is_some());
    }
    let d = evaluate(&r, "age_over_18", Kind::Predicate, &[ev("AGE_ATTESTATION", EvidenceState::Invalid)], t2020());
    assert_eq!(d.decision, Decision::Deny);
    assert!(d.evidence_request_plan.is_none());
    assert_eq!(d.reasons, vec![s("age_over_18 refuted (evidence: AGE_ATTESTATION, state: INVALID)")]);
}

#[test]
fn evaluation_report_exact_fields() {
    let r = registry();
    let d = evaluate(
        &r,
        "age_over_18",
        Kind::Predicate,
        &[ev("GOVERNMENT_IDENTITY", EvidenceState::Available), ev("CONSENT_RECORD", EvidenceState::Available)],
        t2020(),
    );
    assert_eq!(d.decision, Decision::Allow);
    assert_eq!(d.predicate, Some(s("age_over_18")));
    assert_eq!(d.policy_version, None);
    assert_eq!(d.satisfied_predicates, vec![s("age_over_18")]);
    assert_eq!(d.evidence_used[0].evidence_type, "GOVERNMENT_IDENTITY");
    assert_eq!(d.evidence_ignored.len(), 1);
    assert_eq!(d.evidence_ignored[0].evidence_type, "CONSENT_RECORD");
    assert_eq!(d.reasons, vec![s("age_over_18 established (evidence: GOVERNMENT_IDENTITY, state: AVAILABLE)")]);
    assert_eq!(d.evaluation_time, "2020-01-01T00:00:00Z");

    let u = evaluate(&r, "age_over_18", Kind::Predicate, &[], t2020());
    assert_eq!(u.reasons, vec![s("age_over_18 cannot currently be established (evidence: AGE_ATTESTATION, state: MISSING)")]);
    assert_eq!(u.missing_predicates, vec![s("age_over_18")]);
}

#[test]
fn policy_deny_on_revoked_identity() {
    let r = registry();
    let d = evaluate(
        &r,
        "BANK_ACCOUNT_OPENING_V1",
        Kind::Policy,
        &[ev("GOVERNMENT_IDENTITY", EvidenceState::Revoked), ev("RESIDENCE_CREDENTIAL", EvidenceState::Available)],
        t2020(),
    );
    assert_eq!(d.decision, Decision::Deny);
    assert_eq!(d.predicate, None);
    assert_eq!(d.policy_version, Some(1));
    assert_eq!(d.satisfied_predicates, vec![s("eu_resident")]);
    assert_eq!(d.missing_predicates, vec![s("consent_valid")]);
    assert_eq!(d.verified_claims.get("eu_resident"), Some(&true));
    assert_eq!(d.verified_claims.get("identity_verified"), None);
    assert!(d.evidence_request_plan.is_none());
}

#[test]
fn unknown_predicate_in_policy_is_unknown() {
    let mut r = registry();
    r.policies.insert(s("ODD_POLICY"), PolicyDef { version: 3, requires: vec![s("no_such_predicate")] });
    let d = evaluate(&r, "ODD_POLICY", Kind::Policy, &[], t2020());
    assert_eq!(d.decision, Decision::Unknown);
    assert_eq!(d.reasons, vec![s("no_such_predicate is not a known predicate")]);
    // the plan lists only known predicates
    assert!(d.evidence_request_plan.unwrap().predicates.is_empty());
}

#[test]
fn evaluate_request_builds_matching_audit() {
    let r = registry();
    assert!(evaluate_request(&r, "nope", &[], t2020(), s("a1"), s("q"), None, None).is_none());
    let (report, audit) = evaluate_request(
        &r,
        "BANK_ACCOUNT_OPENING_V1",
        &[ev("CONSENT_RECORD", EvidenceState::Available)],
        t2020(),
        s("a1"),
        s("can this user open a bank account"),
        Some(ResolvedBy::Registry),
        None,
    )
    .unwrap();
    assert_eq!(report.decision, Decision::Unknown);
    assert_eq!(audit.decision, Decision::Unknown);
    assert_eq!(audit.audit_id, "a1");
    assert_eq!(audit.policy, Some(s("BANK_ACCOUNT_OPENING_V1")));
    assert_eq!(audit.policy_version, Some(1));
    assert_eq!(audit.resolved_by, Some(s("REGISTRY")));
    assert_eq!(audit.predicates.get("consent_valid"), Some(&s("TRUE")));
    assert_eq!(audit.predicates.get("eu_resident"), Some(&s("UNKNOWN")));
}

// ---- replay protection -----------------------------------------------------

fn challenge(now: engine::clock::DateTime) -> Challenge {
    new_challenge(
        s("req-1"),
        s("nonce-1"),
        None,
        now,
        s("age_over_18"),
        Kind::Predicate,
        s("user-123"),
        vec![s("AGE_ATTESTATION")],
    )
    .unwrap()
}

#[test]
fn new_challenge_defaults_and_expiry() {
    let c = challenge(t2020());
    assert_eq!(c.audience, "relying-party-demo");
    assert_eq!(c.expires_at.unix_timestamp(), t2020().unix_timestamp() + 300);
    let far = parse_eval_time(Some("9999-12-31T23:59:00Z")).unwrap();
    assert!(new_challenge(s("r"), s("n"), Some(s("aud")), far, s("x"), Kind::Predicate, s("u"), vec![]).is_none());
}

#[test]
fn nonce_is_single_use() {
    let mut store = InMemoryReplayStore::new();
    store.put(challenge(t2020()));
    assert_eq!(store.get("req-1").unwrap().nonce, "nonce-1");
    assert!(store.get("req-2").is_none());
    let (r1, c1) = store.validate_and_consume("req-1", "nonce-1", "relying-party-demo", t2020());
    assert_eq!(r1, NonceResult::Accepted);
    assert_eq!(c1.unwrap().canonical, "age_over_18");
    let (r2, _) = store.validate_and_consume("req-1", "nonce-1", "relying-party-demo", t2020());
    assert_eq!(r2, NonceResult::NonceAlreadyConsumed);
}

#[test]
fn nonce_rejections() {
    let mut store = InMemoryReplayStore::new();
    store.put(challenge(t2020()));
    let aud = "relying-party-demo";
    assert_eq!(store.validate_and_consume("req-9", "nonce-1", aud, t2020()).0, NonceResult::UnknownNonce);
    assert_eq!(store.validate_and_consume("req-1", "nonce-2", aud, t2020()).0, NonceResult::UnknownNonce);
    assert_eq!(store.validate_and_consume("req-1", "nonce-1", "other", t2020()).0, NonceResult::WrongAudience);
    let late = t2020().checked_add_seconds(301).unwrap();
    assert_eq!(store.validate_and_consume("req-1", "nonce-1", aud, late).0, NonceResult::ExpiredNonce);
    // at expiry exactly it is still valid, and none of the rejections consumed it
    let edge = t2020().checked_add_seconds(300).unwrap();
    assert_eq!(store.validate_and_consume("req-1", "nonce-1", aud, edge).0, NonceResult::Accepted);
}

#[test]
fn nonce_generation() {
    assert_eq!(to_hex(&[0x00, 0xff, 0x1a]), "00ff1a");
    let n = generate_nonce();
    assert_eq!(n.len(), 64);
    assert!(n.chars().all(|c| c.is_ascii_hexdigit() && !c.is_ascii_uppercase()));
    assert_ne!(generate_nonce(), n);
}

fn mock_result(nonce: &str, aud: &str, evidence: Vec<Evidence>) -> VerificationResult {
    let p = Presentation {
        request_id: s("req-1"),
        nonce: s(nonce),
        audience: s(aud),
        evidence,
        ..Default::default()
    };
    MockCredentialVerifier.verify(&p, &challenge(t2020()), t2020())
}

#[test]
fn mock_verifier_keeps_available_evidence() {
    let vr = mock_result(
        "n",
        "a",
        vec![ev("AGE_ATTESTATION", EvidenceState::Available), ev("CONSENT_RECORD", EvidenceState::Revoked)],
    );
    assert!(vr.ok);
    assert_eq!(vr.verified_evidence.len(), 1);
    assert_eq!(vr.verified_evidence[0].evidence_type, "AGE_ATTESTATION");
    assert_eq!(vr.checks[0].name, "MOCK_VERIFIER");
    assert_eq!(vr.nonce, "n");
    assert_eq!(Presentation::default().signatures, "null");
}

#[test]
fn presenting_twice_is_replay_detected() {
    let r = registry();
    let ch = challenge(t2020());
    let mut store = InMemoryReplayStore::new();
    store.put(ch.clone());
    let mut log = AuditLog::new();
    let evidence = vec![ev("AGE_ATTESTATION", EvidenceState::Available)];

    let first = present(
        &mut store,
        &mut log,
        &r,
        "req-1",
        &ch,
        mock_result("nonce-1", "relying-party-demo", evidence.clone()),
        t2020(),
        s("audit-1"),
        s("is this user over 18"),
        Some(ResolvedBy::Registry),
        None,
    );
    match first {
        PresentOutcome::Decided { report, .. } => assert_eq!(report.decision, Decision::Allow),
        other => panic!("unexpected {:?}", other),
    }
    assert_eq!(log.get("audit-1").unwrap().decision, Decision::Allow);
    assert_eq!(log.get("audit-1").unwrap().verification_checks.len(), 1);

    let again = present(
        &mut store,
        &mut log,
        &r,
        "req-1",
        &ch,
        mock_result("nonce-1", "relying-party-demo", evidence),
        t2020(),
        s("audit-2"),
        s("is this user over 18"),
        None,
        None,
    );
    assert!(matches!(again, PresentOutcome::Replay));
    let a2 = log.get("audit-2").unwrap();
    assert_eq!(a2.decision, Decision::ReplayDetected);
    assert_eq!(a2.reasons, vec![s("NONCE_ALREADY_CONSUMED")]);
    assert_eq!(log.get("audit-1").unwrap().decision, Decision::Allow);
}

#[test]
fn failed_verification_denies_without_consuming() {
    let r = registry();
    let ch = challenge(t2020());
    let mut store = InMemoryReplayStore::new();
    store.put(ch.clone());
    let mut log = AuditLog::new();
    let mut vr = mock_result("nonce-1", "relying-party-demo", vec![]);
    vr.ok = false;
    vr.failed_check = Some(s("NONCE_MISMATCH"));
    let out = present(&mut store, &mut log, &r, "req-1", &ch, vr, t2020(), s("a"), s("q"), None, None);
    match out {
        PresentOutcome::VerificationFailed { failed_check, .. } => assert_eq!(failed_check, "NONCE_MISMATCH"),
        other => panic!("unexpected {:?}", other),
    }
    assert_eq!(log.get("a").unwrap().decision, Decision::Deny);
    assert_eq!(log.get("a").unwrap().reasons, vec![s("verification failed: NONCE_MISMATCH")]);
    // the nonce is still unconsumed
    let (res, _) = store.validate_and_consume("req-1", "nonce-1", "relying-party-demo", t2020());
    assert_eq!(res, NonceResult::Accepted);

    // a wrong audience is rejected without an audit
    let vr2 = mock_result("nonce-1", "elsewhere", vec![]);
    let out2 = present(&mut store, &mut log, &r, "req-1", &ch, vr2, t2020(), s("b"), s("q"), None, None);
    assert!(matches!(out2, PresentOutcome::NonceRejected { result: NonceResult::WrongAudience }));
    assert!(log.get("b").is_none());
}

// ---- audits ----------------------------------------------------------------

#[test]
fn audit_log_reads_back_what_was_recorded() {
    let mut log = AuditLog::new();
    assert!(log.get("x").is_none());
    log.record(build_replay_audit(s("x"), s("age_over_18"), s("NONCE_ALREADY_CONSUMED")));
    log.record(build_verification_failure_audit(s("y"), s("age_over_18"), s("INVALID_SIGNATURE"), vec![], 2, s("t")));
    let x = log.get("x").unwrap();
    assert_eq!(x.decision, Decision::ReplayDetected);
    assert_eq!(x.canonical, Some(s("age_over_18")));
    let y = log.get("y").unwrap();
    assert_eq!(y.decision, Decision::Deny);
    assert_eq!(y.disclosure_count, Some(2));
    assert_eq!(y.evaluation_time, "t");
    // recording again under an id replaces the earlier record
    log.record(build_replay_audit(s("y"), s("other"), s("r")));
    assert_eq!(log.get("y").unwrap().canonical, Some(s("other")));
    assert_eq!(log.get("x").unwrap().canonical, Some(s("age_over_18")));
}

#[test]
fn strmap_later_insert_wins() {
    let mut m: StrMap<u32> = StrMap::new();
    m.insert(s("a"), 1);
    m.insert(s("b"), 2);
    m.insert(s("a"), 3);
    assert_eq!(m.get("a"), Some(&3));
    assert_eq!(m.get("b"), Some(&2));
    assert!(m.contains_key("b"));
    assert!(!m.contains_key("c"));
}

#[test]
fn eval_time_parsing() {
    assert_eq!(t2020().unix_timestamp(), 1577836800);
    let t = parse_eval_time(Some("2020-01-01T02:00:00+02:00")).unwrap();
    assert_eq!(t.unix_timestamp(), 1577836800);
    assert_eq!(t.offset_seconds(), 7200);
    let e = parse_eval_time(Some("yesterday")).unwrap_err();
    assert!(e.starts_with("bad evaluationTime: "));
    let now = parse_eval_time(None).unwrap();
    assert_eq!(now.offset_seconds(), 0);
    assert!(now.is_after(&t2020()));
    assert!(!t2020().is_after(&t));
}

#[test]
fn plans_shrink_as_more_is_established() {
    let r = registry();
    let (_, none) = plan_evidence(&r, "BANK_ACCOUNT_OPENING_V1", &[]).unwrap();
    let (_, some) =
        plan_evidence(&r, "BANK_ACCOUNT_OPENING_V1", &[ev("AGE_ATTESTATION", EvidenceState::Available)]).unwrap();
    assert_eq!(none.required_evidence, vec![s("GOVERNMENT_IDENTITY"), s("AGE_ATTESTATION"), s("RESIDENCE_CREDENTIAL"), s("CONSENT_RECORD")]);
    assert_eq!(some.required_evidence, vec![s("GOVERNMENT_IDENTITY"), s("RESIDENCE_CREDENTIAL"), s("CONSENT_RECORD")]);
}

#[test]
fn normalized_text_is_single_spaced() {
    for q in ["  a \t b  ", "x?  ?", "Is   it ok?!", "\n\n"] {
        let n = normalize(q);
        assert_eq!(n.trim(), n);
        assert_eq!(n.split_whitespace().collect::<Vec<_>>().join(" "), n);
    }
    assert_eq!(normalize("x?  ?"), "x?");
}

#[test]
fn nonce_expiry_reads_the_evaluation_time() {
    let r = registry();
    let ch = challenge(t2020());
    let evidence = vec![ev("AGE_ATTESTATION", EvidenceState::Available)];

    // evaluated at a frozen time before the challenge expires: accepted and decided
    let mut store = InMemoryReplayStore::new();
    store.put(ch.clone());
    let mut log = AuditLog::new();
    let before = parse_eval_time(Some("2020-01-01T00:04:00Z")).unwrap();
    let out = present(
        &mut store,
        &mut log,
        &r,
        "req-1",
        &ch,
        mock_result("nonce-1", "relying-party-demo", evidence.clone()),
        before,
        s("t-1"),
        s("q"),
        None,
        None,
    );
    assert!(matches!(out, PresentOutcome::Decided { .. }));

    // evaluated past the expiry: EXPIRED_NONCE, no audit, nothing consumed
    let mut store = InMemoryReplayStore::new();
    store.put(ch.clone());
    let mut log = AuditLog::new();
    let after = parse_eval_time(Some("2020-01-01T00:05:01Z")).unwrap();
    let out = present(
        &mut store,
        &mut log,
        &r,
        "req-1",
        &ch,
        mock_result("nonce-1", "relying-party-demo", evidence),
        after,
        s("t-2"),
        s("q"),
        None,
        None,
    );
    assert!(matches!(out, PresentOutcome::NonceRejected { result: NonceResult::ExpiredNonce }));
    assert!(log.get("t-2").is_none());
}

#[test]
fn date_times_at_the_end_of_the_local_calendar() {
    // past year 9999 in UTC, but still 9999 at its own offset
    let t = parse_eval_time(Some("9999-12-31T23:00:00-10:00")).unwrap();
    let same = t.checked_add_seconds(0).unwrap();
    assert_eq!(same.unix_timestamp(), t.unix_timestamp());
    assert_eq!(same.offset_seconds(), -36000);
    let earlier = parse_eval_time(Some("9999-12-31T13:00:00-10:00")).unwrap();
    assert_eq!(earlier.checked_add_seconds(36000).unwrap().unix_timestamp(), t.unix_timestamp());
    // an hour on, the local date leaves the calendar
    assert!(t.checked_add_seconds(3600).is_none());
    let report = evaluate(&registry(), "age_over_18", Kind::Predicate, &[], t);
    assert_eq!(report.evaluation_time, "9999-12-31T23:00:00-10:00");
}
