//! Engine tests: resolution, reverse inference, evaluation, determinism.

use engine::config::{EvidenceOption, PolicyDef, PredicateDef, QuestionEntry, Registry};
use engine::domain::{AssuranceLevel, Decision, Evidence, EvidenceState, Kind};
use engine::resolution::{self, ResolvedBy};
use engine::strmap::StrMap;
use engine::{parse_eval_time, policy};

fn s(x: &str) -> String {
    x.to_string()
}

fn opt(t: &str, a: AssuranceLevel) -> EvidenceOption {
    EvidenceOption { evidence_type: s(t), assurance: a }
}

/// The knowledge base: the question registry, the predicates and the policies.
fn registry() -> Registry {
    let questions = vec![
        QuestionEntry {
            canonical: s("age_over_18"),
            kind: Kind::Predicate,
            aliases: vec![s("is this user over 18"), s("can this user buy alcohol")],
        },
        QuestionEntry {
            canonical: s("BANK_ACCOUNT_OPENING_V1"),
            kind: Kind::Policy,
            aliases: vec![s("can this user open a bank account")],
        },
    ];
    let mut predicates = StrMap::new();
    predicates.insert(
        s("age_over_18"),
        PredicateDef {
            evidence: vec![
                opt("AGE_ATTESTATION", AssuranceLevel::High),
                opt("GOVERNMENT_IDENTITY", AssuranceLevel::High),
            ],
            prefer: Some(s("AGE_ATTESTATION")),
        },
    );
    predicates.insert(
        s("identity_verified"),
        PredicateDef { evidence: vec![opt("GOVERNMENT_IDENTITY", AssuranceLevel::High)], prefer: None },
    );
    predicates.insert(
        s("eu_resident"),
        PredicateDef {
            evidence: vec![opt("RESIDENCE_CREDENTIAL", AssuranceLevel::Substantial)],
            prefer: None,
        },
    );
    predicates.insert(
        s("consent_valid"),
        PredicateDef { evidence: vec![opt("CONSENT_RECORD", AssuranceLevel::Substantial)], prefer: None },
    );
    let mut policies = StrMap::new();
    policies.insert(
        s("BANK_ACCOUNT_OPENING_V1"),
        PolicyDef {
            version: 1,
            requires: vec![s("identity_verified"), s("age_over_18"), s("eu_resident"), s("consent_valid")],
        },
    );
    Registry { questions, predicates, policies }
}

fn ev(t: &str, st: EvidenceState) -> Evidence {
    Evidence { evidence_type: t.to_string(), state: st }
}

#[test]
fn tier1_alias_and_canonical_and_miss() {
    let r = registry();
    // alias, with punctuation + case + whitespace normalization
    let res = resolution::resolve_tier1(&r, "  Is This User Over 18?  ").unwrap();
    assert_eq!(res.canonical, "age_over_18");
    assert_eq!(res.kind, Kind::Predicate);
    assert_eq!(res.resolved_by, ResolvedBy::Registry);

    // demo-friendly alias maps to same predicate
    assert_eq!(
        resolution::resolve_tier1(&r, "can this user buy alcohol").unwrap().canonical,
        "age_over_18"
    );

    // direct canonical id accepted
    assert_eq!(
        resolution::resolve_tier1(&r, "BANK_ACCOUNT_OPENING_V1").unwrap().canonical,
        "BANK_ACCOUNT_OPENING_V1"
    );

    // miss
    assert!(resolution::resolve_tier1(&r, "can this user pilot a plane").is_none());
}

#[test]
fn proposal_validation_membership_only() {
    let r = registry();
    let ok = resolution::validate_proposal(&r, "age_over_18").unwrap();
    assert_eq!(ok.resolved_by, ResolvedBy::LlmValidated);
    // unknown id rejected
    assert!(resolution::validate_proposal(&r, "pilot_a_plane").is_none());
}

#[test]
fn predicate_allow_unknown_deny() {
    let r = registry();
    let t = parse_eval_time(None).unwrap();

    let allow = policy::evaluate(
        &r,
        "age_over_18",
        Kind::Predicate,
        &[ev("AGE_ATTESTATION", EvidenceState::Available)],
        t,
    );
    assert_eq!(allow.decision, Decision::Allow);
    assert_eq!(allow.verified_claims.get("age_over_18"), Some(&true));
    // privacy: derived claim only, and no DOB anywhere
    let body = format!("{:?}", allow).to_lowercase();
    assert!(!body.contains("date_of_birth"));
    assert!(!body.contains("dob"));

    let unknown = policy::evaluate(&r, "age_over_18", Kind::Predicate, &[], t);
    assert_eq!(unknown.decision, Decision::Unknown);
    assert!(unknown.evidence_request_plan.is_some());

    let deny = policy::evaluate(
        &r,
        "age_over_18",
        Kind::Predicate,
        &[ev("AGE_ATTESTATION", EvidenceState::Revoked)],
        t,
    );
    assert_eq!(deny.decision, Decision::Deny);
}

#[test]
fn policy_unknown_then_allow_with_plan() {
    let r = registry();
    let t = parse_eval_time(None).unwrap();
    let partial = vec![
        ev("GOVERNMENT_IDENTITY", EvidenceState::Available),
        ev("AGE_ATTESTATION", EvidenceState::Available),
        ev("CONSENT_RECORD", EvidenceState::Available),
        // RESIDENCE_CREDENTIAL missing
    ];
    let u = policy::evaluate(&r, "BANK_ACCOUNT_OPENING_V1", Kind::Policy, &partial, t);
    assert_eq!(u.decision, Decision::Unknown);
    assert_eq!(u.missing_predicates, vec!["eu_resident".to_string()]);
    let plan = u.evidence_request_plan.unwrap();
    assert_eq!(plan.required_evidence, vec!["RESIDENCE_CREDENTIAL".to_string()]);
    assert_eq!(u.policy_version, Some(1));

    let mut full = partial.clone();
    full.push(ev("RESIDENCE_CREDENTIAL", EvidenceState::Available));
    let a = policy::evaluate(&r, "BANK_ACCOUNT_OPENING_V1", Kind::Policy, &full, t);
    assert_eq!(a.decision, Decision::Allow);
    assert!(a.missing_predicates.is_empty());
}

#[test]
fn age_prefers_privacy_minimal_evidence() {
    let r = registry();
    let t = parse_eval_time(None).unwrap();
    // Both AGE_ATTESTATION and GOVERNMENT_IDENTITY available -> uses the
    // privacy-minimal AGE_ATTESTATION, ignores GOVERNMENT_IDENTITY for this predicate.
    let d = policy::evaluate(
        &r,
        "age_over_18",
        Kind::Predicate,
        &[
            ev("AGE_ATTESTATION", EvidenceState::Available),
            ev("GOVERNMENT_IDENTITY", EvidenceState::Available),
        ],
        t,
    );
    assert_eq!(d.decision, Decision::Allow);
    assert_eq!(d.evidence_used.len(), 1);
    assert_eq!(d.evidence_used[0].evidence_type, "AGE_ATTESTATION");
}

#[test]
fn determinism_byte_identical() {
    let r = registry();
    // frozen clock
    let t = parse_eval_time(Some("2020-01-01T00:00:00Z")).unwrap();
    let evidence = vec![ev("AGE_ATTESTATION", EvidenceState::Available)];
    let a = policy::evaluate(&r, "age_over_18", Kind::Predicate, &evidence, t);
    let b = policy::evaluate(&r, "age_over_18", Kind::Predicate, &evidence, t);
    assert_eq!(format!("{:?}", a), format!("{:?}", b));
}
