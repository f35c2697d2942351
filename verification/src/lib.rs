//! Identity evidence inference engine: the deterministic decision core.

pub mod domain;
pub mod text;
pub mod strmap;
pub mod config;
pub mod resolution;
pub mod inference;
pub mod clock;
pub mod policy;
pub mod replay;
pub mod evidence;
pub mod json;
pub mod crypto;
pub mod issuer;
pub mod audit;
pub mod engine;
pub mod pipeline;

use vstd::prelude::*;
use crate::audit::Audit;
use crate::clock::{format_rfc3339, now_utc, parse_rfc3339, rfc3339_parsed, DateTime};
use crate::config::Registry;
use crate::domain::{state_name, Decision, EvidenceState, Kind};
use crate::evidence::CheckResult;
use crate::domain::{Evidence, PredicateState};
use crate::inference::{pred_established, required_predicates, required_preds};
use crate::policy::{
    eval_pred, evidence_map, evidence_views, law_satisfied_and_missing, lemma_eval_pred_by_options, option_refuting,
    time_text, DecisionReport, EvidenceView,
};
use crate::resolution::ResolvedBy;
use crate::strmap::StrMap;
use crate::text::{clone_strings, contains_string, lemma_views_push, views};

verus! {

/// Parse an optional RFC 3339 evaluation time; default to the current time.
pub fn parse_eval_time(s: Option<&str>) -> (res: Result<DateTime, String>)
    ensures
        match s {
            Some(v) => match res {
                Ok(t) => rfc3339_parsed(v@) == Some((t.spec_unix(), t.spec_nanos(), t.spec_offset())),
                Err(e) => rfc3339_parsed(v@) is None && e@.take(20) == "bad evaluationTime: "@,
            },
            None => res matches Ok(t) && t.spec_offset() == 0,
        },
{
    match s {
        Some(v) => match parse_rfc3339(v) {
            Ok(t) => Ok(t),
            Err(e) => {
                let mut m = "bad evaluationTime: ".to_owned();
                proof {
                    reveal_strlit("bad evaluationTime: ");
                }
                let ghost prefix = m@;
                m.append(e.as_str());
                assert(m@.take(20) =~= prefix);
                Err(m)
            },
        },
        None => Ok(now_utc()),
    }
}

/// The audit label of a predicate: TRUE if satisfied, else UNKNOWN if missing,
/// else FALSE.
pub open spec fn predicate_label(p: Seq<char>, satisfied: Seq<Seq<char>>, missing: Seq<Seq<char>>) -> Seq<char> {
    if satisfied.contains(p) {
        "TRUE"@
    } else if missing.contains(p) {
        "UNKNOWN"@
    } else {
        "FALSE"@
    }
}

/// Each required predicate mapped to its label.
pub open spec fn predicate_labels(preds: Seq<Seq<char>>, satisfied: Seq<Seq<char>>, missing: Seq<Seq<char>>) -> Map<Seq<char>, Seq<char>>
    decreases preds.len(),
{
    if preds.len() == 0 {
        Map::empty()
    } else {
        predicate_labels(preds.drop_last(), satisfied, missing).insert(
            preds.last(),
            predicate_label(preds.last(), satisfied, missing),
        )
    }
}

/// `TYPE:STATE` for each used piece of evidence.
pub open spec fn evidence_labels(used: Seq<EvidenceView>) -> Seq<Seq<char>> {
    used.map_values(|e: EvidenceView| e.0 + ":"@ + state_name(e.1))
}

pub open spec fn label_views(m: Map<Seq<char>, String>) -> Map<Seq<char>, Seq<char>> {
    m.map_values(|s: String| s@)
}

fn state_label(s: EvidenceState) -> (res: &'static str)
    ensures
        res@ == state_name(s),
{
    crate::domain::state_str(s)
}

/// `a` is the audit of the evaluation `report` under `audit_id`, for the
/// question and resolution provenance given: the canonical id (and policy with
/// its version), the decision, each required predicate's label, the evidence
/// used as `TYPE:STATE`, the still-missing evidence, the reasons and the
/// evaluation time.
pub open spec fn is_audit_of(
    a: Audit,
    registry: &Registry,
    audit_id: String,
    question: String,
    resolved_by: Option<ResolvedBy>,
    llm_proposal: Option<String>,
    report: &DecisionReport,
) -> bool {
    &&& a.audit_id == audit_id
    &&& a.question == question
    &&& a.canonical matches Some(c) && c@ == report.canonical@
    &&& a.policy_version == (match report.kind {
        Kind::Policy => report.policy_version,
        Kind::Predicate => None,
    })
    &&& match report.kind {
        Kind::Policy => a.policy matches Some(p) && p@ == report.canonical@,
        Kind::Predicate => a.policy is None,
    }
    &&& match resolved_by {
        Some(r) => a.resolved_by matches Some(s) && s@ == r.spec_name(),
        None => a.resolved_by is None,
    }
    &&& a.llm_proposal == llm_proposal
    &&& a.decision == report.decision
    &&& label_views(a.predicates@) == predicate_labels(
        required_preds(registry, report.canonical@, report.kind),
        views(report.satisfied_predicates@),
        views(report.missing_predicates@),
    )
    &&& views(a.evidence_used@) == evidence_labels(evidence_views(report.evidence_used@))
    &&& views(a.evidence_missing@) == match report.evidence_request_plan {
        Some(p) => views(p.required_evidence@),
        None => Seq::empty(),
    }
    &&& views(a.reasons@) == views(report.reasons@)
    &&& a.evaluation_time@ == report.evaluation_time@
}

proof fn lemma_predicate_labels(preds: Seq<Seq<char>>, sat: Seq<Seq<char>>, mis: Seq<Seq<char>>, p: Seq<char>)
    ensures
        predicate_labels(preds, sat, mis).dom().contains(p) <==> preds.contains(p),
        preds.contains(p) ==> predicate_labels(preds, sat, mis)[p] == predicate_label(p, sat, mis),
    decreases preds.len(),
{
    if preds.len() > 0 {
        let init = preds.drop_last();
        lemma_predicate_labels(init, sat, mis, p);
        if preds.contains(p) && p != preds.last() {
            let k = choose|k: int| 0 <= k < preds.len() && preds[k] == p;
            assert(init[k] == p);
        }
        if init.contains(p) {
            let k = choose|k: int| 0 <= k < init.len() && init[k] == p;
            assert(preds[k] == p);
        }
        assert(preds[preds.len() - 1] == preds.last());
    }
}

/// Audit labels follow the evaluation: each required predicate (and nothing
/// else) is labelled; TRUE exactly when one of its evidence types is
/// AVAILABLE, FALSE exactly when it is not established and some evidence type
/// it accepts is INVALID or REVOKED (refuted), and UNKNOWN exactly when it is
/// neither established nor refuted.
pub proof fn law_audit_labels_follow_evaluation(
    a: Audit,
    registry: &Registry,
    audit_id: String,
    question: String,
    resolved_by: Option<ResolvedBy>,
    llm_proposal: Option<String>,
    report: &DecisionReport,
    canonical: Seq<char>,
    kind: Kind,
    evidence: Seq<Evidence>,
    t: DateTime,
    p: Seq<char>,
)
    requires
        report.is_evaluation_of(registry, canonical, kind, evidence, t),
        is_audit_of(a, registry, audit_id, question, resolved_by, llm_proposal, report),
    ensures
        ({
            let preds = required_preds(registry, canonical, kind);
            let ev = evidence_map(evidence);
            let labels = label_views(a.predicates@);
            &&& labels.dom().contains(p) <==> preds.contains(p)
            &&& preds.contains(p) ==> {
                &&& labels[p] == "TRUE"@ <==> pred_established(registry, p, ev)
                &&& labels[p] == "FALSE"@ <==> !pred_established(registry, p, ev) && option_refuting(registry, p, ev)
                &&& labels[p] == "UNKNOWN"@ <==> !pred_established(registry, p, ev) && !option_refuting(
                    registry,
                    p,
                    ev,
                )
            }
        }),
{
    let preds = required_preds(registry, canonical, kind);
    let sat = views(report.satisfied_predicates@);
    let mis = views(report.missing_predicates@);
    lemma_predicate_labels(preds, sat, mis, p);
    law_satisfied_and_missing(report, registry, canonical, kind, evidence, t, p);
    reveal_strlit("TRUE");
    reveal_strlit("FALSE");
    reveal_strlit("UNKNOWN");
    assert("TRUE"@ != "FALSE"@ && "TRUE"@ != "UNKNOWN"@ && "FALSE"@ != "UNKNOWN"@) by {
        assert("TRUE"@[0] != "FALSE"@[0] && "TRUE"@[0] != "UNKNOWN"@[0] && "FALSE"@[0] != "UNKNOWN"@[0]);
    }
}

/// A DENY audit names its cause: some required predicate is labelled FALSE.
pub proof fn law_deny_audit_labels_a_refuted_predicate(
    a: Audit,
    registry: &Registry,
    audit_id: String,
    question: String,
    resolved_by: Option<ResolvedBy>,
    llm_proposal: Option<String>,
    report: &DecisionReport,
    canonical: Seq<char>,
    kind: Kind,
    evidence: Seq<Evidence>,
    t: DateTime,
)
    requires
        report.is_evaluation_of(registry, canonical, kind, evidence, t),
        is_audit_of(a, registry, audit_id, question, resolved_by, llm_proposal, report),
        a.decision == Decision::Deny,
    ensures
        exists|p: Seq<char>|
            required_preds(registry, canonical, kind).contains(p) && #[trigger] label_views(a.predicates@).dom().contains(p)
                && label_views(a.predicates@)[p] == "FALSE"@,
{
    let preds = required_preds(registry, canonical, kind);
    let ev = evidence_map(evidence);
    let i = choose|i: int| 0 <= i < preds.len() && #[trigger] eval_pred(registry, preds[i], ev).state
        == PredicateState::False;
    let p = preds[i];
    assert(preds.contains(p));
    lemma_eval_pred_by_options(registry, p, ev);
    law_audit_labels_follow_evaluation(
        a,
        registry,
        audit_id,
        question,
        resolved_by,
        llm_proposal,
        report,
        canonical,
        kind,
        evidence,
        t,
        p,
    );
}

/// Build the audit of an evaluation, with its resolution provenance.
pub fn build_audit(
    registry: &Registry,
    audit_id: String,
    question: String,
    resolved_by: Option<ResolvedBy>,
    llm_proposal: Option<String>,
    report: &DecisionReport,
) -> (res: Audit)
    ensures
        is_audit_of(res, registry, audit_id, question, resolved_by, llm_proposal, report),
        res.verification_checks@.len() == 0,
        res.disclosure_count is None,
{
    let preds = required_predicates(registry, report.canonical.as_str(), report.kind);
    let ghost pv = views(preds@);
    let ghost sat = views(report.satisfied_predicates@);
    let ghost mis = views(report.missing_predicates@);
    let mut predicates: StrMap<String> = StrMap::new();
    assert(label_views(predicates@) =~= Map::<Seq<char>, Seq<char>>::empty());
    let mut i: usize = 0;
    while i < preds.len()
        invariant
            i <= preds@.len(),
            pv == views(preds@),
            label_views(predicates@) == predicate_labels(pv.take(i as int), sat, mis),
            sat == views(report.satisfied_predicates@),
            mis == views(report.missing_predicates@),
        decreases preds@.len() - i,
    {
        let p = &preds[i];
        assert(pv.take(i + 1).drop_last() =~= pv.take(i as int));
        assert(pv.take(i + 1).last() == p@);
        let state = if contains_string(&report.satisfied_predicates, p) {
            "TRUE"
        } else if contains_string(&report.missing_predicates, p) {
            "UNKNOWN"
        } else {
            "FALSE"
        };
        let st = state.to_owned();
        proof {
            assert(label_views(predicates@.insert(p@, st)) =~= label_views(predicates@).insert(p@, st@));
        }
        predicates.insert(p.clone(), st);
        i = i + 1;
    }
    assert(pv.take(i as int) =~= pv);
    let mut evidence_used: Vec<String> = Vec::new();
    let ghost target = evidence_labels(evidence_views(report.evidence_used@));
    let mut k: usize = 0;
    while k < report.evidence_used.len()
        invariant
            k <= report.evidence_used@.len(),
            target == evidence_labels(evidence_views(report.evidence_used@)),
            views(evidence_used@) == target.take(k as int),
        decreases report.evidence_used@.len() - k,
    {
        let e = &report.evidence_used[k];
        let mut label = e.evidence_type.clone();
        label.append(":");
        label.append(state_label(e.state));
        proof {
            lemma_views_push(evidence_used@, label);
            assert(target.take(k + 1) =~= target.take(k as int).push(label@));
        }
        evidence_used.push(label);
        k = k + 1;
    }
    assert(target.take(k as int) =~= target);
    let evidence_missing = match &report.evidence_request_plan {
        Some(p) => clone_strings(&p.required_evidence),
        None => {
            let v: Vec<String> = Vec::new();
            assert(views(v@) =~= Seq::<Seq<char>>::empty());
            v
        },
    };
    let (policy, policy_version) = match report.kind {
        Kind::Policy => (Some(report.canonical.clone()), report.policy_version),
        Kind::Predicate => (None, None),
    };
    let resolved = match resolved_by {
        Some(r) => Some(r.as_str().to_owned()),
        None => None,
    };
    Audit {
        audit_id,
        question,
        canonical: Some(report.canonical.clone()),
        policy,
        policy_version,
        resolved_by: resolved,
        llm_proposal,
        decision: report.decision,
        predicates,
        evidence_used,
        evidence_missing,
        reasons: clone_strings(&report.reasons),
        verification_checks: Vec::new(),
        disclosure_count: None,
        evaluation_time: report.evaluation_time.clone(),
    }
}

/// `a` records a decision taken without evaluating evidence: its id, the
/// canonical id and the decision, with no question, provenance, predicates or
/// evidence.
pub open spec fn is_bare_audit(a: Audit, audit_id: Seq<char>, canonical: Seq<char>, decision: Decision) -> bool {
    &&& a.audit_id@ == audit_id
    &&& a.question@.len() == 0
    &&& a.canonical matches Some(c) && c@ == canonical
    &&& a.policy is None
    &&& a.policy_version is None
    &&& a.resolved_by is None
    &&& a.llm_proposal is None
    &&& a.decision == decision
    &&& a.predicates@ == Map::<Seq<char>, String>::empty()
    &&& a.evidence_used@.len() == 0
    &&& a.evidence_missing@.len() == 0
}

/// Audit for a replay-detected presentation (no evidence evaluated), stamped
/// with the current time in RFC 3339 (empty if it cannot be formatted).
pub fn build_replay_audit(audit_id: String, canonical: String, reason: String) -> (res: Audit)
    ensures
        is_bare_audit(res, audit_id@, canonical@, Decision::ReplayDetected),
        res.audit_id == audit_id,
        res.canonical == Some(canonical),
        views(res.reasons@) == seq![reason@],
        exists|t: DateTime| t.spec_offset() == 0 && res.evaluation_time@ == time_text(t),
        res.verification_checks@.len() == 0,
        res.disclosure_count is None,
{
    let now = now_utc();
    proof {
        use_type_invariant(&now);
    }
    let evaluation_time = match format_rfc3339(&now) {
        Some(t) => t,
        None => String::new(),
    };
    assert(evaluation_time@ == time_text(now));
    let mut reasons: Vec<String> = Vec::new();
    proof {
        lemma_views_push(reasons@, reason);
    }
    reasons.push(reason);
    assert(views(reasons@) =~= seq![reason@]);
    Audit {
        audit_id,
        question: String::new(),
        canonical: Some(canonical),
        policy: None,
        policy_version: None,
        resolved_by: None,
        llm_proposal: None,
        decision: Decision::ReplayDetected,
        predicates: StrMap::new(),
        evidence_used: Vec::new(),
        evidence_missing: Vec::new(),
        reasons,
        verification_checks: Vec::new(),
        disclosure_count: None,
        evaluation_time,
    }
}

/// Audit for a failed presentation verification (a check failed: DENY).
pub fn build_verification_failure_audit(
    audit_id: String,
    canonical: String,
    failed_check: String,
    checks: Vec<CheckResult>,
    disclosure_count: usize,
    evaluation_time: String,
) -> (res: Audit)
    ensures
        is_bare_audit(res, audit_id@, canonical@, Decision::Deny),
        res.audit_id == audit_id,
        res.canonical == Some(canonical),
        views(res.reasons@) == seq!["verification failed: "@ + failed_check@],
        res.verification_checks@ == checks@,
        res.disclosure_count == Some(disclosure_count),
        res.evaluation_time == evaluation_time,
{
    let mut reason = "verification failed: ".to_owned();
    reason.append(failed_check.as_str());
    let mut reasons: Vec<String> = Vec::new();
    proof {
        lemma_views_push(reasons@, reason);
    }
    reasons.push(reason);
    assert(views(reasons@) =~= seq!["verification failed: "@ + failed_check@]);
    Audit {
        audit_id,
        question: String::new(),
        canonical: Some(canonical),
        policy: None,
        policy_version: None,
        resolved_by: None,
        llm_proposal: None,
        decision: Decision::Deny,
        predicates: StrMap::new(),
        evidence_used: Vec::new(),
        evidence_missing: Vec::new(),
        reasons,
        verification_checks: checks,
        disclosure_count: Some(disclosure_count),
        evaluation_time,
    }
}

} // verus!
