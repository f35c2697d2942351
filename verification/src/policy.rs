//! Deterministic evaluation -> ALLOW | DENY | UNKNOWN.
//!
//! - DENY only when evidence affirmatively establishes falsity (INVALID/REVOKED).
//! - UNKNOWN when required evidence is missing, expired or unresolved; it is a
//!   first-class decision and comes with an evidence request plan.
//! - No randomness, an injected clock, deterministic ordering.

use vstd::prelude::*;
use crate::clock::{format_rfc3339, rfc3339_text, DateTime};
use crate::config::Registry;
use crate::domain::{state_name, state_str, Decision, Evidence, EvidenceState, Kind, PredicateState};
use crate::inference::{
    build_plan, has_type, law_privacy_order, option_views, pred_established, privacy_order,
    privacy_ordered, required_predicates, required_preds, out_views, EvidenceRequestPlan, OptionView,
};
use crate::strmap::StrMap;
use crate::text::{contains_string, is_subseq, lemma_subseq_push, lemma_subseq_push_both, lemma_views_push, views};

verus! {

/// The outcome of an evaluation.
#[derive(Debug)]
pub struct DecisionReport {
    pub decision: Decision,
    pub canonical: String,
    pub kind: Kind,
    pub predicate: Option<String>,
    pub policy_version: Option<u32>,
    /// Derived claims only (booleans). Never attribute values.
    pub verified_claims: StrMap<bool>,
    pub satisfied_predicates: Vec<String>,
    pub missing_predicates: Vec<String>,
    pub evidence_used: Vec<Evidence>,
    pub evidence_ignored: Vec<Evidence>,
    pub reasons: Vec<String>,
    pub evaluation_time: String,
    pub evidence_request_plan: Option<EvidenceRequestPlan>,
}

/// A piece of evidence as plain values.
pub type EvidenceView = (Seq<char>, EvidenceState);

pub open spec fn evidence_views(s: Seq<Evidence>) -> Seq<EvidenceView> {
    s.map_values(|e: Evidence| (e.evidence_type@, e.state))
}

/// The type -> state lookup built from a list (a later entry for a type wins).
pub open spec fn evidence_map(s: Seq<Evidence>) -> Map<Seq<char>, EvidenceState>
    decreases s.len(),
{
    if s.len() == 0 {
        Map::empty()
    } else {
        evidence_map(s.drop_last()).insert(s.last().evidence_type@, s.last().state)
    }
}

/// The state recorded for type `t`, MISSING when there is none.
pub open spec fn state_of(ev: Map<Seq<char>, EvidenceState>, t: Seq<char>) -> EvidenceState {
    if ev.dom().contains(t) {
        ev[t]
    } else {
        EvidenceState::Missing
    }
}

pub open spec fn refutes(s: EvidenceState) -> bool {
    s == EvidenceState::Invalid || s == EvidenceState::Revoked
}

/// The first option whose evidence is AVAILABLE.
pub open spec fn first_available(opts: Seq<OptionView>, ev: Map<Seq<char>, EvidenceState>) -> Option<Seq<char>>
    decreases opts.len(),
{
    if opts.len() == 0 {
        None
    } else if state_of(ev, opts[0].0) == EvidenceState::Available {
        Some(opts[0].0)
    } else {
        first_available(opts.drop_first(), ev)
    }
}

/// The first option whose evidence is INVALID or REVOKED, with that state.
pub open spec fn first_refuting(opts: Seq<OptionView>, ev: Map<Seq<char>, EvidenceState>) -> Option<
    (Seq<char>, EvidenceState),
>
    decreases opts.len(),
{
    if opts.len() == 0 {
        None
    } else if refutes(state_of(ev, opts[0].0)) {
        Some((opts[0].0, state_of(ev, opts[0].0)))
    } else {
        first_refuting(opts.drop_first(), ev)
    }
}

/// The evaluation of one predicate: its truth value, the evidence that decided
/// it, and the reason text.
pub struct PredEval {
    pub state: PredicateState,
    pub used: Option<EvidenceView>,
    pub reason: Seq<char>,
}

/// How predicate `pred` evaluates against the evidence states `ev`: TRUE by the
/// first AVAILABLE option (privacy order), else FALSE by the first INVALID or
/// REVOKED option, else UNKNOWN (reporting the preferred option's state).
pub open spec fn eval_pred(registry: &Registry, pred: Seq<char>, ev: Map<Seq<char>, EvidenceState>) -> PredEval {
    if !registry.predicates@.dom().contains(pred) {
        PredEval {
            state: PredicateState::Unknown,
            used: None,
            reason: pred + " is not a known predicate"@,
        }
    } else {
        let o = privacy_order(registry.predicates@[pred]);
        match first_available(o, ev) {
            Some(t) => PredEval {
                state: PredicateState::True,
                used: Some((t, EvidenceState::Available)),
                reason: pred + " established (evidence: "@ + t + ", state: AVAILABLE)"@,
            },
            None => match first_refuting(o, ev) {
                Some((t, s)) => PredEval {
                    state: PredicateState::False,
                    used: Some((t, s)),
                    reason: pred + " refuted (evidence: "@ + t + ", state: "@ + state_name(s) + ")"@,
                },
                None => {
                    let t = if o.len() > 0 { o[0].0 } else { "<none>"@ };
                    let s = if o.len() > 0 { state_of(ev, o[0].0) } else { EvidenceState::Missing };
                    PredEval {
                        state: PredicateState::Unknown,
                        used: None,
                        reason: pred + " cannot currently be established (evidence: "@ + t
                            + ", state: "@ + state_name(s) + ")"@,
                    }
                },
            },
        }
    }
}

struct PredicateEval {
    state: PredicateState,
    used: Option<Evidence>,
    reason: String,
}

fn evaluate_predicate(registry: &Registry, pred: &String, ev: &StrMap<EvidenceState>) -> (res:
    PredicateEval)
    ensures
        ({
            let e = eval_pred(registry, pred@, ev@);
            &&& res.state == e.state
            &&& res.reason@ == e.reason
            &&& match res.used {
                Some(u) => e.used == Some((u.evidence_type@, u.state)),
                None => e.used is None,
            }
        }),
{
    let def = match registry.predicates.get(pred.as_str()) {
        Some(d) => d,
        None => {
            let mut reason = pred.clone();
            reason.append(" is not a known predicate");
            return PredicateEval { state: PredicateState::Unknown, used: None, reason };
        },
    };
    let options = privacy_ordered(def);
    let ghost o = out_views(options@);
    let mut affirmative_false: Option<(String, EvidenceState)> = None;
    let mut i: usize = 0;
    assert(o.skip(0) =~= o);
    while i < options.len()
        invariant
            i <= options@.len(),
            o == out_views(options@),
            o == privacy_order(registry.predicates@[pred@]),
            registry.predicates@.dom().contains(pred@),
            first_available(o, ev@) == first_available(o.skip(i as int), ev@),
            match affirmative_false {
                Some((t, s)) => first_refuting(o, ev@) == Some((t@, s)),
                None => first_refuting(o, ev@) == first_refuting(o.skip(i as int), ev@),
            },
        decreases options@.len() - i,
    {
        assert(o.skip(i as int).drop_first() =~= o.skip(i + 1));
        assert(o.skip(i as int)[0] == o[i as int]);
        let t = &options[i].evidence_type;
        let st = match ev.get(t.as_str()) {
            Some(s) => *s,
            None => EvidenceState::Missing,
        };
        if st == EvidenceState::Available {
            let mut reason = pred.clone();
            reason.append(" established (evidence: ");
            reason.append(t.as_str());
            reason.append(", state: AVAILABLE)");
            return PredicateEval {
                state: PredicateState::True,
                used: Some(Evidence { evidence_type: t.clone(), state: EvidenceState::Available }),
                reason,
            };
        }
        if st == EvidenceState::Invalid || st == EvidenceState::Revoked {
            if affirmative_false.is_none() {
                affirmative_false = Some((t.clone(), st));
            }
        }
        i = i + 1;
    }
    assert(o.skip(i as int).len() == 0);
    if let Some((etype, state)) = affirmative_false {
        let mut reason = pred.clone();
        reason.append(" refuted (evidence: ");
        reason.append(etype.as_str());
        reason.append(", state: ");
        reason.append(state_str(state));
        reason.append(")");
        return PredicateEval {
            state: PredicateState::False,
            used: Some(Evidence { evidence_type: etype, state }),
            reason,
        };
    }
    let (etype, state) = if options.len() > 0 {
        let t = options[0].evidence_type.clone();
        let s = match ev.get(t.as_str()) {
            Some(s) => *s,
            None => EvidenceState::Missing,
        };
        (t, s)
    } else {
        ("<none>".to_owned(), EvidenceState::Missing)
    };
    let mut reason = pred.clone();
    reason.append(" cannot currently be established (evidence: ");
    reason.append(etype.as_str());
    reason.append(", state: ");
    reason.append(state_str(state));
    reason.append(")");
    PredicateEval { state: PredicateState::Unknown, used: None, reason }
}


/// The required predicates that evaluate TRUE, in order.
pub open spec fn satisfied_of(r: &Registry, preds: Seq<Seq<char>>, ev: Map<Seq<char>, EvidenceState>) -> Seq<Seq<char>>
    decreases preds.len(),
{
    if preds.len() == 0 {
        Seq::empty()
    } else {
        let prev = satisfied_of(r, preds.drop_last(), ev);
        if eval_pred(r, preds.last(), ev).state == PredicateState::True {
            prev.push(preds.last())
        } else {
            prev
        }
    }
}

/// The required predicates that evaluate UNKNOWN, in order.
pub open spec fn missing_of(r: &Registry, preds: Seq<Seq<char>>, ev: Map<Seq<char>, EvidenceState>) -> Seq<Seq<char>>
    decreases preds.len(),
{
    if preds.len() == 0 {
        Seq::empty()
    } else {
        let prev = missing_of(r, preds.drop_last(), ev);
        if eval_pred(r, preds.last(), ev).state == PredicateState::Unknown {
            prev.push(preds.last())
        } else {
            prev
        }
    }
}

/// The reasons of the required predicates, in order.
pub open spec fn reasons_of(r: &Registry, preds: Seq<Seq<char>>, ev: Map<Seq<char>, EvidenceState>) -> Seq<Seq<char>>
    decreases preds.len(),
{
    if preds.len() == 0 {
        Seq::empty()
    } else {
        reasons_of(r, preds.drop_last(), ev).push(eval_pred(r, preds.last(), ev).reason)
    }
}

/// The evidence that decided each TRUE or FALSE predicate, in order.
pub open spec fn used_of(r: &Registry, preds: Seq<Seq<char>>, ev: Map<Seq<char>, EvidenceState>) -> Seq<EvidenceView>
    decreases preds.len(),
{
    if preds.len() == 0 {
        Seq::empty()
    } else {
        let prev = used_of(r, preds.drop_last(), ev);
        match eval_pred(r, preds.last(), ev).used {
            Some(u) => prev.push(u),
            None => prev,
        }
    }
}

/// The derived claims: each TRUE predicate maps to `true`.
pub open spec fn claims_of(r: &Registry, preds: Seq<Seq<char>>, ev: Map<Seq<char>, EvidenceState>) -> Map<Seq<char>, bool>
    decreases preds.len(),
{
    if preds.len() == 0 {
        Map::empty()
    } else {
        let prev = claims_of(r, preds.drop_last(), ev);
        if eval_pred(r, preds.last(), ev).state == PredicateState::True {
            prev.insert(preds.last(), true)
        } else {
            prev
        }
    }
}

/// Each required predicate mapped to whether it evaluated TRUE.
pub open spec fn established_of(r: &Registry, preds: Seq<Seq<char>>, ev: Map<Seq<char>, EvidenceState>) -> Map<Seq<char>, bool>
    decreases preds.len(),
{
    if preds.len() == 0 {
        Map::empty()
    } else {
        established_of(r, preds.drop_last(), ev).insert(
            preds.last(),
            eval_pred(r, preds.last(), ev).state == PredicateState::True,
        )
    }
}

/// Some required predicate evaluates FALSE.
pub open spec fn any_refuted(r: &Registry, preds: Seq<Seq<char>>, ev: Map<Seq<char>, EvidenceState>) -> bool {
    exists|i: int| 0 <= i < preds.len() && #[trigger] eval_pred(r, preds[i], ev).state == PredicateState::False
}

/// DENY if some predicate is refuted, else ALLOW if none is unknown, else UNKNOWN.
pub open spec fn decision_of(r: &Registry, preds: Seq<Seq<char>>, ev: Map<Seq<char>, EvidenceState>) -> Decision {
    if any_refuted(r, preds, ev) {
        Decision::Deny
    } else if missing_of(r, preds, ev).len() == 0 {
        Decision::Allow
    } else {
        Decision::Unknown
    }
}

/// The supplied evidence whose type no predicate used, in order.
pub open spec fn ignored_of(evidence: Seq<Evidence>, used_types: Seq<Seq<char>>) -> Seq<EvidenceView>
    decreases evidence.len(),
{
    if evidence.len() == 0 {
        Seq::empty()
    } else {
        let prev = ignored_of(evidence.drop_last(), used_types);
        if used_types.contains(evidence.last().evidence_type@) {
            prev
        } else {
            prev.push((evidence.last().evidence_type@, evidence.last().state))
        }
    }
}

/// The RFC 3339 text of the evaluation time, empty if it cannot be formatted.
pub open spec fn time_text(t: DateTime) -> Seq<char> {
    match rfc3339_text(t.spec_unix(), t.spec_nanos(), t.spec_offset()) {
        Some(s) => s,
        None => Seq::empty(),
    }
}

impl DecisionReport {
    /// This report is the evaluation of `canonical` (of `kind`) against
    /// `evidence` at time `t`.
    pub open spec fn is_evaluation_of(
        &self,
        registry: &Registry,
        canonical: Seq<char>,
        kind: Kind,
        evidence: Seq<Evidence>,
        t: DateTime,
    ) -> bool {
        let preds = required_preds(registry, canonical, kind);
        let ev = evidence_map(evidence);
        let used = used_of(registry, preds, ev);
        &&& self.decision == decision_of(registry, preds, ev)
        &&& self.canonical@ == canonical
        &&& self.kind == kind
        &&& (match kind {
            Kind::Predicate => self.predicate matches Some(p) && p@ == canonical,
            Kind::Policy => self.predicate is None,
        })
        &&& self.policy_version == (match kind {
            Kind::Policy => if registry.policies@.dom().contains(canonical) {
                Some(registry.policies@[canonical].version)
            } else {
                None
            },
            Kind::Predicate => None,
        })
        &&& self.verified_claims@ == claims_of(registry, preds, ev)
        &&& views(self.satisfied_predicates@) == satisfied_of(registry, preds, ev)
        &&& views(self.missing_predicates@) == missing_of(registry, preds, ev)
        &&& evidence_views(self.evidence_used@) == used
        &&& evidence_views(self.evidence_ignored@) == ignored_of(
            evidence,
            used.map_values(|u: EvidenceView| u.0),
        )
        &&& views(self.reasons@) == reasons_of(registry, preds, ev)
        &&& self.evaluation_time@ == time_text(t)
        &&& (match self.evidence_request_plan {
            Some(plan) => self.decision == Decision::Unknown && plan.is_plan_for(
                registry,
                canonical,
                kind,
                established_of(registry, preds, ev),
            ),
            None => self.decision != Decision::Unknown,
        })
    }
}

proof fn lemma_evidence_views_push(s: Seq<Evidence>, x: Evidence)
    ensures
        evidence_views(s.push(x)) == evidence_views(s).push((x.evidence_type@, x.state)),
{
    assert(evidence_views(s.push(x)) =~= evidence_views(s).push((x.evidence_type@, x.state)));
}

/// The type -> state lookup for a list of evidence (a later entry wins).
pub fn evidence_lookup(evidence: &[Evidence]) -> (res: StrMap<EvidenceState>)
    ensures
        res@ == evidence_map(evidence@),
{
    let mut ev: StrMap<EvidenceState> = StrMap::new();
    let mut i: usize = 0;
    while i < evidence.len()
        invariant
            i <= evidence@.len(),
            ev@ == evidence_map(evidence@.take(i as int)),
        decreases evidence@.len() - i,
    {
        assert(evidence@.take(i + 1).drop_last() =~= evidence@.take(i as int));
        ev.insert(evidence[i].evidence_type.clone(), evidence[i].state);
        i = i + 1;
    }
    assert(evidence@.take(i as int) =~= evidence@);
    ev
}

/// Evaluate a resolved canonical id (predicate or policy) against the supplied
/// evidence at the injected time.
pub fn evaluate(
    registry: &Registry,
    canonical: &str,
    kind: Kind,
    evidence: &[Evidence],
    evaluation_time: DateTime,
) -> (res: DecisionReport)
    ensures
        res.is_evaluation_of(registry, canonical@, kind, evidence@, evaluation_time),
{
    let ev = evidence_lookup(evidence);
    let preds = required_predicates(registry, canonical, kind);
    let ghost pv = views(preds@);
    let mut satisfied: Vec<String> = Vec::new();
    let mut missing: Vec<String> = Vec::new();
    let mut any_false = false;
    let mut reasons: Vec<String> = Vec::new();
    let mut verified_claims: StrMap<bool> = StrMap::new();
    let mut used: Vec<Evidence> = Vec::new();
    let mut used_types: Vec<String> = Vec::new();
    let mut established: StrMap<bool> = StrMap::new();
    let mut i: usize = 0;
    while i < preds.len()
        invariant
            i <= preds@.len(),
            pv == views(preds@),
            pv == required_preds(registry, canonical@, kind),
            ev@ == evidence_map(evidence@),
            views(satisfied@) == satisfied_of(registry, pv.take(i as int), ev@),
            views(missing@) == missing_of(registry, pv.take(i as int), ev@),
            views(reasons@) == reasons_of(registry, pv.take(i as int), ev@),
            evidence_views(used@) == used_of(registry, pv.take(i as int), ev@),
            views(used_types@) == used_of(registry, pv.take(i as int), ev@).map_values(
                |u: EvidenceView| u.0,
            ),
            verified_claims@ == claims_of(registry, pv.take(i as int), ev@),
            established@ == established_of(registry, pv.take(i as int), ev@),
            any_false == any_refuted(registry, pv.take(i as int), ev@),
        decreases preds@.len() - i,
    {
        let pred = &preds[i];
        let ghost tk = pv.take(i as int);
        let ghost tk1 = pv.take(i + 1);
        assert(tk1.drop_last() =~= tk);
        assert(tk1.last() == pred@);
        let e = evaluate_predicate(registry, pred, &ev);
        let ghost pe = eval_pred(registry, pred@, ev@);
        let ghost old_used = used_of(registry, tk, ev@);
        proof {
            lemma_views_push(reasons@, e.reason);
        }
        reasons.push(e.reason);
        match e.state {
            PredicateState::True => {
                let p1 = pred.clone();
                proof {
                    lemma_views_push(satisfied@, p1);
                }
                satisfied.push(p1);
                verified_claims.insert(pred.clone(), true);
                established.insert(pred.clone(), true);
            },
            PredicateState::False => {
                any_false = true;
                established.insert(pred.clone(), false);
            },
            PredicateState::Unknown => {
                let p1 = pred.clone();
                proof {
                    lemma_views_push(missing@, p1);
                }
                missing.push(p1);
                established.insert(pred.clone(), false);
            },
        }
        match e.used {
            Some(u) => {
                let ut = u.evidence_type.clone();
                proof {
                    lemma_views_push(used_types@, ut);
                    lemma_evidence_views_push(used@, u);
                    assert(old_used.push((u.evidence_type@, u.state)).map_values(|x: EvidenceView| x.0)
                        =~= old_used.map_values(|x: EvidenceView| x.0).push(u.evidence_type@));
                }
                used_types.push(ut);
                used.push(u);
            },
            None => {},
        }
        proof {
            if pe.state == PredicateState::False {
                assert(tk1[i as int] == pred@);
                assert(eval_pred(registry, tk1[i as int], ev@).state == PredicateState::False);
            }
            if any_refuted(registry, tk, ev@) {
                let j = choose|j: int| 0 <= j < tk.len() && #[trigger] eval_pred(registry, tk[j], ev@).state == PredicateState::False;
                assert(tk1[j] == tk[j]);
            }
            if any_refuted(registry, tk1, ev@) {
                let j = choose|j: int| 0 <= j < tk1.len() && #[trigger] eval_pred(registry, tk1[j], ev@).state == PredicateState::False;
                if j < i {
                    assert(tk[j] == tk1[j]);
                }
            }
        }
        i = i + 1;
    }
    assert(pv.take(i as int) =~= pv);
    let decision = if any_false {
        Decision::Deny
    } else if missing.len() == 0 {
        Decision::Allow
    } else {
        Decision::Unknown
    };
    let ghost ut = used_of(registry, pv, ev@).map_values(|u: EvidenceView| u.0);
    let mut evidence_ignored: Vec<Evidence> = Vec::new();
    let mut k: usize = 0;
    while k < evidence.len()
        invariant
            k <= evidence@.len(),
            views(used_types@) == ut,
            evidence_views(evidence_ignored@) == ignored_of(evidence@.take(k as int), ut),
        decreases evidence@.len() - k,
    {
        assert(evidence@.take(k + 1).drop_last() =~= evidence@.take(k as int));
        if !contains_string(&used_types, &evidence[k].evidence_type) {
            let c = evidence[k].clone();
            proof {
                lemma_evidence_views_push(evidence_ignored@, c);
            }
            evidence_ignored.push(c);
        }
        k = k + 1;
    }
    assert(evidence@.take(k as int) =~= evidence@);
    let policy_version = match kind {
        Kind::Policy => match registry.policies.get(canonical) {
            Some(p) => Some(p.version),
            None => None,
        },
        Kind::Predicate => None,
    };
    let predicate = match kind {
        Kind::Predicate => Some(canonical.to_owned()),
        Kind::Policy => None,
    };
    let evidence_request_plan = if decision == Decision::Unknown {
        Some(build_plan(registry, canonical, kind, &established))
    } else {
        None
    };
    proof {
        use_type_invariant(&evaluation_time);
    }
    let evaluation_time = match format_rfc3339(&evaluation_time) {
        Some(s) => s,
        None => String::new(),
    };
    DecisionReport {
        decision,
        canonical: canonical.to_owned(),
        kind,
        predicate,
        policy_version,
        verified_claims,
        satisfied_predicates: satisfied,
        missing_predicates: missing,
        evidence_used: used,
        evidence_ignored,
        reasons,
        evaluation_time,
        evidence_request_plan,
    }
}


// ---------------------------------------------------------------------------
// Laws of evaluation.
// ---------------------------------------------------------------------------

proof fn lemma_first_refuting(opts: Seq<OptionView>, ev: Map<Seq<char>, EvidenceState>)
    ensures
        first_refuting(opts, ev) matches Some((t, s)) ==> refutes(s) && ev.dom().contains(t) && ev[t] == s,
    decreases opts.len(),
{
    if opts.len() > 0 {
        lemma_first_refuting(opts.drop_first(), ev);
    }
}

proof fn lemma_first_available(opts: Seq<OptionView>, ev: Map<Seq<char>, EvidenceState>)
    ensures
        first_available(opts, ev) matches Some(t) ==> ev.dom().contains(t) && ev[t] == EvidenceState::Available,
    decreases opts.len(),
{
    if opts.len() > 0 {
        lemma_first_available(opts.drop_first(), ev);
    }
}

/// A state recorded in the lookup came from some supplied piece of evidence.
proof fn lemma_evidence_map_source(e: Seq<Evidence>, t: Seq<char>)
    requires
        evidence_map(e).dom().contains(t),
    ensures
        exists|i: int| 0 <= i < e.len() && e[i].evidence_type@ == t && e[i].state == evidence_map(e)[t],
    decreases e.len(),
{
    if e.last().evidence_type@ == t {
        assert(e[e.len() - 1].evidence_type@ == t);
    } else {
        lemma_evidence_map_source(e.drop_last(), t);
        let i = choose|i: int| 0 <= i < e.len() - 1 && e.drop_last()[i].evidence_type@ == t
            && e.drop_last()[i].state == evidence_map(e.drop_last())[t];
        assert(e[i] == e.drop_last()[i]);
    }
}

/// The lookup is empty for no evidence.
proof fn lemma_evidence_map_empty(e: Seq<Evidence>)
    requires
        e.len() == 0,
    ensures
        evidence_map(e) == Map::<Seq<char>, EvidenceState>::empty(),
{
}

/// A predicate evaluates FALSE only on supplied INVALID or REVOKED evidence.
pub proof fn lemma_false_needs_refuting_evidence(r: &Registry, p: Seq<char>, evidence: Seq<Evidence>)
    requires
        eval_pred(r, p, evidence_map(evidence)).state == PredicateState::False,
    ensures
        exists|i: int| 0 <= i < evidence.len() && refutes(#[trigger] evidence[i].state),
{
    let ev = evidence_map(evidence);
    let o = privacy_order(r.predicates@[p]);
    lemma_first_refuting(o, ev);
    let (t, st) = first_refuting(o, ev)->0;
    lemma_evidence_map_source(evidence, t);
    let i = choose|i: int| 0 <= i < evidence.len() && evidence[i].evidence_type@ == t && evidence[i].state == ev[t];
    assert(refutes(evidence[i].state));
}

proof fn lemma_missing_of_empty(r: &Registry, preds: Seq<Seq<char>>, ev: Map<Seq<char>, EvidenceState>)
    ensures
        missing_of(r, preds, ev).len() == 0 <==> forall|j: int|
            0 <= j < preds.len() ==> #[trigger] eval_pred(r, preds[j], ev).state != PredicateState::Unknown,
    decreases preds.len(),
{
    if preds.len() > 0 {
        lemma_missing_of_empty(r, preds.drop_last(), ev);
        if missing_of(r, preds, ev).len() == 0 {
            assert forall|j: int| 0 <= j < preds.len() implies #[trigger] eval_pred(r, preds[j], ev).state
                != PredicateState::Unknown by {
                if j < preds.len() - 1 {
                    assert(preds.drop_last()[j] == preds[j]);
                }
            }
        }
        if forall|j: int| 0 <= j < preds.len() ==> #[trigger] eval_pred(r, preds[j], ev).state != PredicateState::Unknown {
            assert forall|j: int| 0 <= j < preds.drop_last().len() implies #[trigger] eval_pred(
                r,
                preds.drop_last()[j],
                ev,
            ).state != PredicateState::Unknown by {
                assert(preds.drop_last()[j] == preds[j]);
            }
            assert(eval_pred(r, preds[preds.len() - 1], ev).state != PredicateState::Unknown);
        }
    }
}

/// DENY only on affirmative falsity: an evaluation denies only when some
/// supplied evidence is INVALID or REVOKED. In particular missing, expired or
/// unknown evidence never yields DENY.
pub proof fn law_deny_requires_refuting_evidence(
    report: &DecisionReport,
    registry: &Registry,
    canonical: Seq<char>,
    kind: Kind,
    evidence: Seq<Evidence>,
    t: DateTime,
)
    requires
        report.is_evaluation_of(registry, canonical, kind, evidence, t),
        report.decision == Decision::Deny,
    ensures
        exists|i: int| 0 <= i < evidence.len() && refutes(#[trigger] evidence[i].state),
{
    let preds = required_preds(registry, canonical, kind);
    let ev = evidence_map(evidence);
    let j = choose|j: int| 0 <= j < preds.len() && #[trigger] eval_pred(registry, preds[j], ev).state == PredicateState::False;
    lemma_false_needs_refuting_evidence(registry, preds[j], evidence);
}

proof fn lemma_first_available_none(opts: Seq<OptionView>, ev: Map<Seq<char>, EvidenceState>)
    requires
        forall|j: int| 0 <= j < opts.len() ==> state_of(ev, (#[trigger] opts[j]).0) != EvidenceState::Available,
    ensures
        first_available(opts, ev) is None,
    decreases opts.len(),
{
    if opts.len() > 0 {
        let rest = opts.drop_first();
        assert forall|j: int| 0 <= j < rest.len() implies state_of(ev, (#[trigger] rest[j]).0)
            != EvidenceState::Available by {
            assert(rest[j] == opts[j + 1]);
        }
        assert(state_of(ev, opts[0].0) != EvidenceState::Available);
        lemma_first_available_none(rest, ev);
    }
}

proof fn lemma_first_refuting_some(opts: Seq<OptionView>, ev: Map<Seq<char>, EvidenceState>, k: int)
    requires
        0 <= k < opts.len(),
        refutes(state_of(ev, opts[k].0)),
    ensures
        first_refuting(opts, ev) is Some,
    decreases k,
{
    if k > 0 && !refutes(state_of(ev, opts[0].0)) {
        assert(opts.drop_first()[k - 1] == opts[k]);
        lemma_first_refuting_some(opts.drop_first(), ev, k - 1);
    }
}

/// Affirmative falsity denies: when a required predicate accepts an evidence
/// type that is supplied INVALID or REVOKED, and none of the types it accepts
/// is supplied AVAILABLE, the evaluation is DENY.
pub proof fn law_refuting_evidence_denies(
    report: &DecisionReport,
    registry: &Registry,
    canonical: Seq<char>,
    kind: Kind,
    evidence: Seq<Evidence>,
    t: DateTime,
    i: int,
    refuting_type: Seq<char>,
)
    requires
        report.is_evaluation_of(registry, canonical, kind, evidence, t),
        0 <= i < required_preds(registry, canonical, kind).len(),
        registry.predicates@.dom().contains(required_preds(registry, canonical, kind)[i]),
        has_type(
            option_views(registry.predicates@[required_preds(registry, canonical, kind)[i]].evidence@),
            refuting_type,
        ),
        refutes(state_of(evidence_map(evidence), refuting_type)),
        forall|j: int|
            0 <= j < registry.predicates@[required_preds(registry, canonical, kind)[i]].evidence@.len()
                ==> state_of(
                evidence_map(evidence),
                (#[trigger] registry.predicates@[required_preds(registry, canonical, kind)[i]].evidence@[j]).evidence_type@,
            ) != EvidenceState::Available,
    ensures
        report.decision == Decision::Deny,
{
    let preds = required_preds(registry, canonical, kind);
    let p = preds[i];
    let def = registry.predicates@[p];
    let ev = evidence_map(evidence);
    let opts = option_views(def.evidence@);
    let o = privacy_order(def);
    law_privacy_order(def);
    assert(has_type(o, refuting_type));
    let k = choose|k: int| 0 <= k < o.len() && o[k].0 == refuting_type;
    lemma_first_refuting_some(o, ev, k);
    assert forall|j: int| 0 <= j < o.len() implies state_of(ev, (#[trigger] o[j]).0) != EvidenceState::Available by {
        assert(opts.contains(o[j]));
        let m = choose|m: int| 0 <= m < opts.len() && opts[m] == o[j];
        assert(opts[m].0 == def.evidence@[m].evidence_type@);
    }
    lemma_first_available_none(o, ev);
    assert(eval_pred(registry, p, ev).state == PredicateState::False);
    assert(any_refuted(registry, preds, ev));
}

/// ALLOW exactly when every required predicate is established (TRUE).
pub proof fn law_allow_iff_all_established(
    report: &DecisionReport,
    registry: &Registry,
    canonical: Seq<char>,
    kind: Kind,
    evidence: Seq<Evidence>,
    t: DateTime,
)
    requires
        report.is_evaluation_of(registry, canonical, kind, evidence, t),
    ensures
        report.decision == Decision::Allow <==> forall|j: int|
            0 <= j < required_preds(registry, canonical, kind).len() ==> #[trigger] eval_pred(
                registry,
                required_preds(registry, canonical, kind)[j],
                evidence_map(evidence),
            ).state == PredicateState::True,
{
    let preds = required_preds(registry, canonical, kind);
    let ev = evidence_map(evidence);
    lemma_missing_of_empty(registry, preds, ev);
    if report.decision == Decision::Allow {
        assert forall|j: int| 0 <= j < preds.len() implies #[trigger] eval_pred(registry, preds[j], ev).state
            == PredicateState::True by {
            assert(eval_pred(registry, preds[j], ev).state != PredicateState::Unknown);
            if eval_pred(registry, preds[j], ev).state == PredicateState::False {
                assert(any_refuted(registry, preds, ev));
            }
        }
    }
    if forall|j: int| 0 <= j < preds.len() ==> #[trigger] eval_pred(registry, preds[j], ev).state == PredicateState::True {
        if any_refuted(registry, preds, ev) {
            let j = choose|j: int| 0 <= j < preds.len() && #[trigger] eval_pred(registry, preds[j], ev).state == PredicateState::False;
            assert(false);
        }
    }
}

/// With no evidence at all, a canonical id that requires some predicate is
/// UNKNOWN (never ALLOW, never DENY), and the report carries a request plan.
pub proof fn law_no_evidence_is_unknown(
    report: &DecisionReport,
    registry: &Registry,
    canonical: Seq<char>,
    kind: Kind,
    evidence: Seq<Evidence>,
    t: DateTime,
)
    requires
        report.is_evaluation_of(registry, canonical, kind, evidence, t),
        evidence.len() == 0,
        required_preds(registry, canonical, kind).len() > 0,
    ensures
        report.decision == Decision::Unknown,
        report.evidence_request_plan is Some,
{
    let preds = required_preds(registry, canonical, kind);
    let ev = evidence_map(evidence);
    lemma_evidence_map_empty(evidence);
    if report.decision == Decision::Deny {
        law_deny_requires_refuting_evidence(report, registry, canonical, kind, evidence, t);
    }
    lemma_missing_of_empty(registry, preds, ev);
    let p = preds[0];
    if registry.predicates@.dom().contains(p) {
        let o = privacy_order(registry.predicates@[p]);
        lemma_first_available(o, ev);
        lemma_first_refuting(o, ev);
    }
    assert(eval_pred(registry, preds[0], ev).state == PredicateState::Unknown);
}

/// Same question, same evidence, same clock: the same report (every field of
/// the two reports denotes the same values).
pub proof fn law_evaluation_deterministic(
    a: &DecisionReport,
    b: &DecisionReport,
    registry: &Registry,
    canonical: Seq<char>,
    kind: Kind,
    evidence: Seq<Evidence>,
    t: DateTime,
)
    requires
        a.is_evaluation_of(registry, canonical, kind, evidence, t),
        b.is_evaluation_of(registry, canonical, kind, evidence, t),
    ensures
        a.decision == b.decision,
        a.canonical@ == b.canonical@,
        a.kind == b.kind,
        a.policy_version == b.policy_version,
        a.verified_claims@ == b.verified_claims@,
        views(a.satisfied_predicates@) == views(b.satisfied_predicates@),
        views(a.missing_predicates@) == views(b.missing_predicates@),
        evidence_views(a.evidence_used@) == evidence_views(b.evidence_used@),
        evidence_views(a.evidence_ignored@) == evidence_views(b.evidence_ignored@),
        views(a.reasons@) == views(b.reasons@),
        a.evaluation_time@ == b.evaluation_time@,
        a.evidence_request_plan is Some == b.evidence_request_plan is Some,
{
}

proof fn lemma_claims_of(r: &Registry, preds: Seq<Seq<char>>, ev: Map<Seq<char>, EvidenceState>, k: Seq<char>)
    requires
        claims_of(r, preds, ev).dom().contains(k),
    ensures
        claims_of(r, preds, ev)[k],
        satisfied_of(r, preds, ev).contains(k),
    decreases preds.len(),
{
    let prev = preds.drop_last();
    if eval_pred(r, preds.last(), ev).state == PredicateState::True && k == preds.last() {
        assert(satisfied_of(r, preds, ev).last() == k);
    } else {
        lemma_claims_of(r, prev, ev, k);
        let sp = satisfied_of(r, prev, ev);
        let i = choose|i: int| 0 <= i < sp.len() && sp[i] == k;
        if eval_pred(r, preds.last(), ev).state == PredicateState::True {
            assert(satisfied_of(r, preds, ev)[i] == k);
        }
    }
}

/// Derived claims only: every verified claim is `true`, and only satisfied
/// predicates are claimed.
pub proof fn law_claims_are_satisfied_predicates(
    report: &DecisionReport,
    registry: &Registry,
    canonical: Seq<char>,
    kind: Kind,
    evidence: Seq<Evidence>,
    t: DateTime,
    k: Seq<char>,
)
    requires
        report.is_evaluation_of(registry, canonical, kind, evidence, t),
        report.verified_claims@.dom().contains(k),
    ensures
        report.verified_claims@[k],
        views(report.satisfied_predicates@).contains(k),
{
    lemma_claims_of(registry, required_preds(registry, canonical, kind), evidence_map(evidence), k);
}


proof fn lemma_satisfied_claimed(r: &Registry, preds: Seq<Seq<char>>, ev: Map<Seq<char>, EvidenceState>, k: Seq<char>)
    requires
        satisfied_of(r, preds, ev).contains(k),
    ensures
        claims_of(r, preds, ev).dom().contains(k),
        claims_of(r, preds, ev)[k],
    decreases preds.len(),
{
    let prev = preds.drop_last();
    let sp = satisfied_of(r, prev, ev);
    if eval_pred(r, preds.last(), ev).state == PredicateState::True && k == preds.last() {
    } else {
        if eval_pred(r, preds.last(), ev).state == PredicateState::True {
            let i = choose|i: int| 0 <= i < sp.push(preds.last()).len() && sp.push(preds.last())[i] == k;
            assert(sp[i] == k);
        }
        lemma_satisfied_claimed(r, prev, ev, k);
    }
}

/// Every satisfied predicate is a verified claim: the verified claims are
/// exactly the satisfied predicates, each mapped to `true`.
pub proof fn law_satisfied_predicates_are_claims(
    report: &DecisionReport,
    registry: &Registry,
    canonical: Seq<char>,
    kind: Kind,
    evidence: Seq<Evidence>,
    t: DateTime,
)
    requires
        report.is_evaluation_of(registry, canonical, kind, evidence, t),
    ensures
        report.verified_claims@.dom() == views(report.satisfied_predicates@).to_set(),
        forall|k: Seq<char>| #[trigger] report.verified_claims@.dom().contains(k) ==> report.verified_claims@[k],
{
    let preds = required_preds(registry, canonical, kind);
    let ev = evidence_map(evidence);
    let sat = views(report.satisfied_predicates@);
    assert forall|k: Seq<char>| #[trigger] report.verified_claims@.dom().contains(k) <==> sat.to_set().contains(k) by {
        if report.verified_claims@.dom().contains(k) {
            lemma_claims_of(registry, preds, ev, k);
        }
        if sat.contains(k) {
            lemma_satisfied_claimed(registry, preds, ev, k);
        }
    }
    assert(report.verified_claims@.dom() =~= sat.to_set());
    assert forall|k: Seq<char>| #[trigger] report.verified_claims@.dom().contains(k) implies report.verified_claims@[k] by {
        lemma_claims_of(registry, preds, ev, k);
    }
}


// ---------------------------------------------------------------------------
// The decision in terms of the evidence options.
// ---------------------------------------------------------------------------

/// Some evidence type that predicate `p` accepts is supplied INVALID or REVOKED.
pub open spec fn option_refuting(registry: &Registry, p: Seq<char>, ev: Map<Seq<char>, EvidenceState>) -> bool {
    registry.predicates@.dom().contains(p) && exists|j: int|
        0 <= j < registry.predicates@[p].evidence@.len() && refutes(
            state_of(ev, #[trigger] registry.predicates@[p].evidence@[j].evidence_type@),
        )
}

proof fn lemma_first_found_in(o: Seq<OptionView>, ev: Map<Seq<char>, EvidenceState>)
    ensures
        first_available(o, ev) matches Some(t) ==> has_type(o, t),
        first_refuting(o, ev) matches Some((t, s)) ==> has_type(o, t) && s == state_of(ev, t),
    decreases o.len(),
{
    if o.len() > 0 {
        lemma_first_found_in(o.drop_first(), ev);
        if let Some(t) = first_available(o.drop_first(), ev) {
            let k = choose|k: int| 0 <= k < o.drop_first().len() && o.drop_first()[k].0 == t;
            assert(o[k + 1] == o.drop_first()[k]);
        }
        if let Some((t, _s)) = first_refuting(o.drop_first(), ev) {
            let k = choose|k: int| 0 <= k < o.drop_first().len() && o.drop_first()[k].0 == t;
            assert(o[k + 1] == o.drop_first()[k]);
        }
    }
}

proof fn lemma_first_available_some(o: Seq<OptionView>, ev: Map<Seq<char>, EvidenceState>, k: int)
    requires
        0 <= k < o.len(),
        state_of(ev, o[k].0) == EvidenceState::Available,
    ensures
        first_available(o, ev) is Some,
    decreases k,
{
    if k > 0 && state_of(ev, o[0].0) != EvidenceState::Available {
        assert(o.drop_first()[k - 1] == o[k]);
        lemma_first_available_some(o.drop_first(), ev, k - 1);
    }
}

/// A predicate is TRUE exactly when one of its evidence types is AVAILABLE,
/// and FALSE exactly when none is but one is INVALID or REVOKED.
pub proof fn lemma_eval_pred_by_options(registry: &Registry, p: Seq<char>, ev: Map<Seq<char>, EvidenceState>)
    ensures
        eval_pred(registry, p, ev).state == PredicateState::True <==> pred_established(registry, p, ev),
        eval_pred(registry, p, ev).state == PredicateState::False <==> !pred_established(registry, p, ev)
            && option_refuting(registry, p, ev),
{
    if registry.predicates@.dom().contains(p) {
        let def = registry.predicates@[p];
        let opts = option_views(def.evidence@);
        let o = privacy_order(def);
        law_privacy_order(def);
        lemma_first_found_in(o, ev);
        lemma_first_available(o, ev);
        // an option of the predicate, by its type, is in the ranking and back
        assert forall|j: int| 0 <= j < def.evidence@.len() implies has_type(
            o,
            #[trigger] def.evidence@[j].evidence_type@,
        ) by {
            assert(opts[j].0 == def.evidence@[j].evidence_type@);
            assert(has_type(opts, def.evidence@[j].evidence_type@));
        }
        if let Some(t) = first_available(o, ev) {
            assert(has_type(opts, t));
            let j = choose|j: int| 0 <= j < opts.len() && opts[j].0 == t;
            assert(opts[j].0 == def.evidence@[j].evidence_type@);
            assert(ev.dom().contains(def.evidence@[j].evidence_type@));
        }
        if pred_established(registry, p, ev) {
            let j = choose|j: int|
                0 <= j < def.evidence@.len() && #[trigger] ev.dom().contains(def.evidence@[j].evidence_type@)
                    && ev[def.evidence@[j].evidence_type@] == EvidenceState::Available;
            let t = def.evidence@[j].evidence_type@;
            assert(has_type(o, t));
            let k = choose|k: int| 0 <= k < o.len() && o[k].0 == t;
            lemma_first_available_some(o, ev, k);
        }
        if let Some((t, s)) = first_refuting(o, ev) {
            lemma_first_refuting(o, ev);
            assert(has_type(opts, t));
            let j = choose|j: int| 0 <= j < opts.len() && opts[j].0 == t;
            assert(opts[j].0 == def.evidence@[j].evidence_type@);
            assert(refutes(state_of(ev, def.evidence@[j].evidence_type@)));
        }
        if option_refuting(registry, p, ev) {
            let j = choose|j: int|
                0 <= j < def.evidence@.len() && refutes(state_of(ev, #[trigger] def.evidence@[j].evidence_type@));
            let t = def.evidence@[j].evidence_type@;
            assert(has_type(o, t));
            let k = choose|k: int| 0 <= k < o.len() && o[k].0 == t;
            lemma_first_refuting_some(o, ev, k);
        }
    }
}

/// The decision in terms of the evidence options: DENY exactly when some
/// required predicate has no evidence type supplied AVAILABLE but one supplied
/// INVALID or REVOKED; ALLOW exactly when every required predicate has one of
/// its evidence types supplied AVAILABLE; UNKNOWN otherwise.
pub proof fn law_decision_by_options(
    report: &DecisionReport,
    registry: &Registry,
    canonical: Seq<char>,
    kind: Kind,
    evidence: Seq<Evidence>,
    t: DateTime,
)
    requires
        report.is_evaluation_of(registry, canonical, kind, evidence, t),
    ensures
        ({
            let preds = required_preds(registry, canonical, kind);
            let ev = evidence_map(evidence);
            let deny = exists|i: int|
                0 <= i < preds.len() && !pred_established(registry, #[trigger] preds[i], ev) && option_refuting(
                    registry,
                    preds[i],
                    ev,
                );
            let allow = forall|i: int| 0 <= i < preds.len() ==> pred_established(registry, #[trigger] preds[i], ev);
            &&& report.decision == Decision::Deny <==> deny
            &&& report.decision == Decision::Allow <==> allow
            &&& report.decision == Decision::Unknown <==> !deny && !allow
        }),
{
    let preds = required_preds(registry, canonical, kind);
    let ev = evidence_map(evidence);
    law_allow_iff_all_established(report, registry, canonical, kind, evidence, t);
    assert forall|i: int| 0 <= i < preds.len() implies {
        &&& (#[trigger] eval_pred(registry, preds[i], ev)).state == PredicateState::True <==> pred_established(
            registry,
            preds[i],
            ev,
        )
        &&& eval_pred(registry, preds[i], ev).state == PredicateState::False <==> !pred_established(
            registry,
            preds[i],
            ev,
        ) && option_refuting(registry, preds[i], ev)
    } by {
        lemma_eval_pred_by_options(registry, preds[i], ev);
    }
    if any_refuted(registry, preds, ev) {
        let i = choose|i: int| 0 <= i < preds.len() && #[trigger] eval_pred(registry, preds[i], ev).state
            == PredicateState::False;
        assert(!pred_established(registry, preds[i], ev) && option_refuting(registry, preds[i], ev));
    }
    if exists|i: int|
        0 <= i < preds.len() && !pred_established(registry, #[trigger] preds[i], ev) && option_refuting(
            registry,
            preds[i],
            ev,
        ) {
        let i = choose|i: int|
            0 <= i < preds.len() && !pred_established(registry, #[trigger] preds[i], ev) && option_refuting(
                registry,
                preds[i],
                ev,
            );
        assert(eval_pred(registry, preds[i], ev).state == PredicateState::False);
        assert(any_refuted(registry, preds, ev));
    }
    if report.decision == Decision::Allow {
        assert forall|i: int| 0 <= i < preds.len() implies pred_established(registry, #[trigger] preds[i], ev) by {
            assert(eval_pred(registry, preds[i], ev).state == PredicateState::True);
        }
    }
    if forall|i: int| 0 <= i < preds.len() ==> pred_established(registry, #[trigger] preds[i], ev) {
        assert forall|i: int| 0 <= i < preds.len() implies #[trigger] eval_pred(registry, preds[i], ev).state
            == PredicateState::True by {
            assert(pred_established(registry, preds[i], ev));
        }
    }
}

proof fn lemma_filters(r: &Registry, preds: Seq<Seq<char>>, ev: Map<Seq<char>, EvidenceState>, p: Seq<char>)
    ensures
        satisfied_of(r, preds, ev).contains(p) <==> preds.contains(p) && eval_pred(r, p, ev).state
            == PredicateState::True,
        missing_of(r, preds, ev).contains(p) <==> preds.contains(p) && eval_pred(r, p, ev).state
            == PredicateState::Unknown,
        is_subseq(satisfied_of(r, preds, ev), preds),
        is_subseq(missing_of(r, preds, ev), preds),
    decreases preds.len(),
{
    if preds.len() == 0 {
        assert(!preds.contains(p));
    } else {
        let init = preds.drop_last();
        let x = preds.last();
        lemma_filters(r, init, ev, p);
        assert(init.push(x) =~= preds);
        let s0 = satisfied_of(r, init, ev);
        let m0 = missing_of(r, init, ev);
        lemma_subseq_push(s0, init, x);
        lemma_subseq_push_both(s0, init, x);
        lemma_subseq_push(m0, init, x);
        lemma_subseq_push_both(m0, init, x);
        if preds.contains(p) {
            let k = choose|k: int| 0 <= k < preds.len() && preds[k] == p;
            if k < init.len() {
                assert(init[k] == p);
            }
        }
        if init.contains(p) {
            let k = choose|k: int| 0 <= k < init.len() && init[k] == p;
            assert(preds[k] == p);
        }
        if s0.push(x).contains(p) {
            let k = choose|k: int| 0 <= k < s0.push(x).len() && s0.push(x)[k] == p;
            if k < s0.len() {
                assert(s0[k] == p);
            }
        }
        if s0.contains(p) {
            let k = choose|k: int| 0 <= k < s0.len() && s0[k] == p;
            assert(s0.push(x)[k] == p);
        }
        if m0.push(x).contains(p) {
            let k = choose|k: int| 0 <= k < m0.push(x).len() && m0.push(x)[k] == p;
            if k < m0.len() {
                assert(m0[k] == p);
            }
        }
        if m0.contains(p) {
            let k = choose|k: int| 0 <= k < m0.len() && m0[k] == p;
            assert(m0.push(x)[k] == p);
        }
        assert(s0.push(x)[s0.len() as int] == x);
        assert(m0.push(x)[m0.len() as int] == x);
    }
}

/// The satisfied and the missing predicates are subsequences of the required
/// ones and share no predicate: a required predicate is satisfied exactly when
/// one of its evidence types is AVAILABLE, and missing exactly when it is
/// neither established nor refuted.
pub proof fn law_satisfied_and_missing(
    report: &DecisionReport,
    registry: &Registry,
    canonical: Seq<char>,
    kind: Kind,
    evidence: Seq<Evidence>,
    t: DateTime,
    p: Seq<char>,
)
    requires
        report.is_evaluation_of(registry, canonical, kind, evidence, t),
    ensures
        ({
            let preds = required_preds(registry, canonical, kind);
            let ev = evidence_map(evidence);
            let sat = views(report.satisfied_predicates@);
            let mis = views(report.missing_predicates@);
            &&& is_subseq(sat, preds)
            &&& is_subseq(mis, preds)
            &&& !(sat.contains(p) && mis.contains(p))
            &&& sat.contains(p) <==> preds.contains(p) && pred_established(registry, p, ev)
            &&& mis.contains(p) <==> preds.contains(p) && !pred_established(registry, p, ev) && !option_refuting(
                registry,
                p,
                ev,
            )
        }),
{
    let preds = required_preds(registry, canonical, kind);
    let ev = evidence_map(evidence);
    lemma_filters(registry, preds, ev, p);
    lemma_eval_pred_by_options(registry, p, ev);
}

/// The predicates established from the supplied evidence (as
/// `established_from_evidence` maps them) are exactly those the evaluation of
/// the same evidence counts as satisfied.
pub proof fn law_established_matches_satisfied(
    report: &DecisionReport,
    registry: &Registry,
    canonical: Seq<char>,
    kind: Kind,
    evidence: Seq<Evidence>,
    t: DateTime,
    established: Map<Seq<char>, bool>,
    p: Seq<char>,
)
    requires
        report.is_evaluation_of(registry, canonical, kind, evidence, t),
        forall|q: Seq<char>|
            #[trigger] established.dom().contains(q) <==> required_preds(registry, canonical, kind).contains(q),
        forall|q: Seq<char>|
            #[trigger] established.dom().contains(q) ==> established[q] == pred_established(
                registry,
                q,
                evidence_map(evidence),
            ),
        established.dom().contains(p),
    ensures
        established[p] == views(report.satisfied_predicates@).contains(p),
{
    law_satisfied_and_missing(report, registry, canonical, kind, evidence, t, p);
}

} // verus!
