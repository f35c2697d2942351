//! The decisions behind the engine's requests: question resolution, evidence
//! planning, evaluation with provenance, and presentation handling with
//! single-use nonce consumption. Transport, identifiers and clocks come from
//! the caller; everything decided here is a function of its arguments and the
//! stores it is handed.

use vstd::prelude::*;
use vstd::utf8::encode_utf8;
use crate::audit::{Audit, AuditLog};
use crate::clock::{format_rfc3339, representable, DateTime};
use crate::config::Registry;
use crate::domain::{Decision, Evidence, Kind};
use crate::crypto::{jwk_point, verifying_from_jwk};
use crate::evidence::{CheckResult, VerificationResult};
use crate::issuer::{demo_claim_views, demo_claims, IssuedCredential, Issuer, CREDENTIAL_TTL_SECONDS};
use crate::text::views;
use crate::inference::{
    build_plan, established_from_evidence, pred_established, required_preds, EvidenceRequestPlan,
};
use crate::policy::{evaluate, evidence_lookup, evidence_map, time_text, DecisionReport};
use crate::replay::{consume_step, Challenge, InMemoryReplayStore, NonceResult, ReplayStore, NONCE_TTL_SECONDS};
use crate::resolution::{
    question_matches, resolve_tier1, validate_proposal, first_match, Resolution, ResolvedBy,
};
use crate::{build_audit, build_replay_audit, build_verification_failure_audit, is_audit_of, is_bare_audit};

verus! {

/// Resolve a question: the registry first; otherwise a proposed canonical id,
/// accepted only if it is a known predicate or policy. `None`: unresolved.
pub fn resolve_question(registry: &Registry, question: &str, proposed: Option<&str>) -> (res: Option<Resolution>)
    ensures
        (exists|i: int| first_match(registry.questions@, question@, i)) ==> (res matches Some(r)
            && r.resolved_by == ResolvedBy::Registry && exists|i: int|
            first_match(registry.questions@, question@, i) && r.canonical@
                == registry.questions@[i].canonical@ && r.kind == registry.questions@[i].kind),
        !(exists|i: int| first_match(registry.questions@, question@, i)) ==> match proposed {
            Some(p) => match res {
                Some(r) => registry.spec_is_canonical(p@) && r.canonical@ == p@ && Some(r.kind)
                    == registry.spec_kind_of(p@) && r.resolved_by == ResolvedBy::LlmValidated,
                None => !registry.spec_is_canonical(p@),
            },
            None => res is None,
        },
{
    match resolve_tier1(registry, question) {
        Some(r) => Some(r),
        None => {
            proof {
                assert forall|i: int| !first_match(registry.questions@, question@, i) by {
                    if 0 <= i < registry.questions@.len() {
                        assert(!question_matches(registry.questions@[i], question@));
                    }
                }
            }
            match proposed {
                Some(p) => validate_proposal(registry, p),
                None => None,
            }
        },
    }
}

/// The predicates already established by known evidence, as a map over the
/// required predicates.
pub open spec fn known_established(
    registry: &Registry,
    canonical: Seq<char>,
    kind: Kind,
    ev: Map<Seq<char>, crate::domain::EvidenceState>,
) -> Map<Seq<char>, bool> {
    Map::new(
        |p: Seq<char>| required_preds(registry, canonical, kind).contains(p),
        |p: Seq<char>| pred_established(registry, p, ev),
    )
}

/// Plan what to request for a canonical id given the subject's known evidence:
/// `None` when the id is not a known predicate or policy.
pub fn plan_evidence(registry: &Registry, canonical: &str, known_evidence: &[Evidence]) -> (res: Option<(Kind, EvidenceRequestPlan)>)
    ensures
        res is None <==> registry.spec_kind_of(canonical@) is None,
        res matches Some((kind, plan)) ==> Some(kind) == registry.spec_kind_of(canonical@)
            && plan.is_plan_for(
            registry,
            canonical@,
            kind,
            known_established(registry, canonical@, kind, evidence_map(known_evidence@)),
        ),
{
    let kind = match registry.kind_of(canonical) {
        Some(k) => k,
        None => return None,
    };
    let ev = evidence_lookup(known_evidence);
    let established = established_from_evidence(registry, canonical, kind, &ev);
    assert(established@ =~= known_established(registry, canonical@, kind, evidence_map(known_evidence@)));
    let plan = build_plan(registry, canonical, kind, &established);
    Some((kind, plan))
}

/// The audience a challenge uses when the request names none.
pub open spec fn default_audience() -> Seq<char> {
    "relying-party-demo"@
}

/// A challenge for a planned request, expiring `NONCE_TTL_SECONDS` after
/// `now`; `None` when that expiry is not representable.
pub fn new_challenge(
    request_id: String,
    nonce: String,
    audience: Option<String>,
    now: DateTime,
    canonical: String,
    kind: Kind,
    subject_id: String,
    required_evidence: Vec<String>,
) -> (res: Option<Challenge>)
    ensures
        res is Some <==> representable(now.spec_unix() + NONCE_TTL_SECONDS, now.spec_nanos(), now.spec_offset()),
        res matches Some(c) ==> {
            &&& c.request_id == request_id
            &&& c.nonce == nonce
            &&& c.audience@ == match audience {
                Some(a) => a@,
                None => default_audience(),
            }
            &&& c.issued_at == now
            &&& c.expires_at.spec_unix() == now.spec_unix() + NONCE_TTL_SECONDS
            &&& c.expires_at.spec_nanos() == now.spec_nanos()
            &&& c.expires_at.spec_offset() == now.spec_offset()
            &&& c.canonical == canonical
            &&& c.kind == kind
            &&& c.subject_id == subject_id
            &&& c.required_evidence@ == required_evidence@
        },
{
    let expires_at = match now.checked_add_seconds(NONCE_TTL_SECONDS) {
        Some(t) => t,
        None => return None,
    };
    let audience = match audience {
        Some(a) => a,
        None => "relying-party-demo".to_owned(),
    };
    Some(
        Challenge {
            request_id,
            nonce,
            audience,
            issued_at: now,
            expires_at,
            canonical,
            kind,
            subject_id,
            required_evidence,
        },
    )
}

/// Evaluate a canonical id against evidence and build its audit. `None` when
/// the id is not a known predicate or policy.
pub fn evaluate_request(
    registry: &Registry,
    canonical: &str,
    evidence: &[Evidence],
    evaluation_time: DateTime,
    audit_id: String,
    question: String,
    resolved_by: Option<ResolvedBy>,
    llm_proposal: Option<String>,
) -> (res: Option<(DecisionReport, Audit)>)
    ensures
        res is None <==> registry.spec_kind_of(canonical@) is None,
        res matches Some((report, audit)) ==> Some(report.kind) == registry.spec_kind_of(canonical@)
            && report.is_evaluation_of(registry, canonical@, report.kind, evidence@, evaluation_time)
            && is_audit_of(audit, registry, audit_id, question, resolved_by, llm_proposal, &report)
            && audit.verification_checks@.len() == 0 && audit.disclosure_count is None,
{
    let kind = match registry.kind_of(canonical) {
        Some(k) => k,
        None => return None,
    };
    let report = evaluate(registry, canonical, kind, evidence, evaluation_time);
    let audit = build_audit(registry, audit_id, question, resolved_by, llm_proposal, &report);
    Some((report, audit))
}

/// Why an issuance request is refused.
#[derive(Debug, Clone, Copy, PartialEq, Eq, Structural)]
pub enum IssueError {
    /// The holder key is not an EC P-256 public JWK.
    InvalidHolderJwk,
    /// The credential's expiry lies outside the dates the clock represents.
    ExpiryOutOfRange,
}

/// Issue the demo PID credential for `subject_id`, bound to the holder key
/// `holder_jwk` (JSON text), valid from `now`. The holder key must be an EC
/// P-256 public JWK.
pub fn issue_credential(issuer: &Issuer, subject_id: &str, holder_jwk: &str, now: DateTime) -> (res: Result<
    IssuedCredential,
    IssueError,
>)
    ensures
        (res matches Err(e) && e == IssueError::InvalidHolderJwk) <==> jwk_point(encode_utf8(holder_jwk@)) is None,
        (res matches Err(e) && e == IssueError::ExpiryOutOfRange) <==> jwk_point(encode_utf8(holder_jwk@)) is Some
            && !representable(now.spec_unix() + CREDENTIAL_TTL_SECONDS, now.spec_nanos(), now.spec_offset()),
        res matches Ok(c) ==> issuer.is_issuance(demo_claim_views(), holder_jwk@, now, c)
            && issuer.reads_back(demo_claim_views(), holder_jwk@, now, c),
{
    if verifying_from_jwk(holder_jwk.as_bytes()).is_err() {
        return Err(IssueError::InvalidHolderJwk);
    }
    if now.checked_add_seconds(CREDENTIAL_TTL_SECONDS).is_none() {
        return Err(IssueError::ExpiryOutOfRange);
    }
    let claims = demo_claims(subject_id);
    Ok(issuer.issue(&claims, holder_jwk, now))
}

/// What handling a presentation comes to.
#[derive(Debug)]
pub enum PresentOutcome {
    /// A verification check failed: DENY; the nonce is not consumed.
    VerificationFailed { failed_check: String, checks: Vec<CheckResult>, disclosure_count: usize },
    /// The nonce was already consumed: REPLAY_DETECTED.
    Replay,
    /// The nonce was rejected for another reason (unknown, expired, wrong audience or request).
    NonceRejected { result: NonceResult },
    /// Verified, nonce consumed, evaluated.
    Decided { report: DecisionReport, checks: Vec<CheckResult>, disclosure_count: usize },
}

/// Handle a verified (or failed) presentation for `challenge`: a failed
/// verification is a DENY that leaves the nonce unconsumed; otherwise the nonce
/// is validated and consumed, and only then is the challenge's canonical id
/// evaluated on the verified evidence. Every time-sensitive judgement, the
/// nonce's expiry included, reads the injected `evaluation_time`, so a frozen
/// clock gives a fixed outcome. Every outcome except a rejected nonce records an
/// audit under `audit_id`.
pub fn present(
    store: &mut InMemoryReplayStore,
    log: &mut AuditLog,
    registry: &Registry,
    request_id: &str,
    challenge: &Challenge,
    vr: VerificationResult,
    evaluation_time: DateTime,
    audit_id: String,
    question: String,
    resolved_by: Option<ResolvedBy>,
    llm_proposal: Option<String>,
) -> (res: PresentOutcome)
    ensures
        final(log)@ == old(log)@ || final(log)@ == old(log)@.insert(audit_id@, final(log)@[audit_id@]),
        !vr.ok ==> {
            let a = final(log)@[audit_id@];
            &&& final(store).spec_view() == old(store).spec_view()
            &&& res matches PresentOutcome::VerificationFailed { failed_check, checks, disclosure_count }
                && checks@ == vr.checks@ && disclosure_count == vr.disclosure_count && failed_check@ == match vr.failed_check {
                Some(f) => f@,
                None => "VERIFICATION_FAILED"@,
            } && final(log)@.dom().contains(audit_id@) && views(a.reasons@) == seq![
                "verification failed: "@ + failed_check@,
            ]
            &&& is_bare_audit(a, audit_id@, challenge.canonical@, Decision::Deny)
            &&& a.verification_checks@ == vr.checks@
            &&& a.disclosure_count == Some(vr.disclosure_count)
            &&& a.evaluation_time@ == time_text(evaluation_time)
        },
        vr.ok ==> ({
            let (r, _c, after) = consume_step(
                old(store).spec_view(),
                request_id@,
                vr.nonce@,
                vr.audience@,
                evaluation_time,
            );
            let a = final(log)@[audit_id@];
            &&& final(store).spec_view() == after
            &&& r == NonceResult::NonceAlreadyConsumed ==> res is Replay && final(log)@.dom().contains(
                audit_id@,
            ) && is_bare_audit(a, audit_id@, challenge.canonical@, Decision::ReplayDetected) && views(a.reasons@)
                == seq!["NONCE_ALREADY_CONSUMED"@] && a.verification_checks@.len() == 0 && a.disclosure_count is None
            &&& r == NonceResult::Accepted ==> (res matches PresentOutcome::Decided {
                report,
                checks,
                disclosure_count,
            } && report.is_evaluation_of(
                registry,
                challenge.canonical@,
                challenge.kind,
                vr.verified_evidence@,
                evaluation_time,
            ) && checks@ == vr.checks@ && disclosure_count == vr.disclosure_count && final(log)@.dom().contains(
                audit_id@,
            ) && is_audit_of(a, registry, audit_id, question, resolved_by, llm_proposal, &report)
                && a.verification_checks@ == vr.checks@ && a.disclosure_count == Some(vr.disclosure_count))
            &&& (r != NonceResult::Accepted && r != NonceResult::NonceAlreadyConsumed) ==> res
                == PresentOutcome::NonceRejected { result: r } && final(log)@ == old(log)@
        }),
{
    if !vr.ok {
        let failed = match vr.failed_check {
            Some(f) => f,
            None => "VERIFICATION_FAILED".to_owned(),
        };
        proof {
            use_type_invariant(&evaluation_time);
        }
        let eval_text = match format_rfc3339(&evaluation_time) {
            Some(t) => t,
            None => String::new(),
        };
        let audit = build_verification_failure_audit(
            audit_id,
            challenge.canonical.clone(),
            failed.clone(),
            crate::evidence::clone_checks(&vr.checks),
            vr.disclosure_count,
            eval_text,
        );
        log.record(audit);
        return PresentOutcome::VerificationFailed {
            failed_check: failed,
            checks: vr.checks,
            disclosure_count: vr.disclosure_count,
        };
    }
    let (result, _c) = store.validate_and_consume(request_id, vr.nonce.as_str(), vr.audience.as_str(), evaluation_time);
    match result {
        NonceResult::Accepted => {},
        NonceResult::NonceAlreadyConsumed => {
            let audit = build_replay_audit(audit_id, challenge.canonical.clone(), "NONCE_ALREADY_CONSUMED".to_owned());
            log.record(audit);
            return PresentOutcome::Replay;
        },
        _ => {
            return PresentOutcome::NonceRejected { result };
        },
    }
    let report = evaluate(
        registry,
        challenge.canonical.as_str(),
        challenge.kind,
        vr.verified_evidence.as_slice(),
        evaluation_time,
    );
    let mut audit = build_audit(registry, audit_id, question, resolved_by, llm_proposal, &report);
    audit.verification_checks = crate::evidence::clone_checks(&vr.checks);
    audit.disclosure_count = Some(vr.disclosure_count);
    log.record(audit);
    PresentOutcome::Decided { report, checks: vr.checks, disclosure_count: vr.disclosure_count }
}

} // verus!
