//! Reverse inference: canonical question or policy -> required predicates ->
//! concrete evidence types (privacy-ranked) -> only what is still missing.

use vstd::prelude::*;
use crate::config::{EvidenceOption, PredicateDef, Registry};
use crate::domain::{AssuranceLevel, EvidenceState, Kind};
use crate::strmap::StrMap;
use crate::text::{clone_strings, is_subseq, lemma_subseq_push, lemma_subseq_push_both, lemma_views_push, views};

verus! {

/// An evidence option as plain values: its type and assurance level.
pub type OptionView = (Seq<char>, AssuranceLevel);

/// An evidence option in a plan.
#[derive(Debug)]
pub struct EvidenceOptionOut {
    pub evidence_type: String,
    pub assurance: AssuranceLevel,
}

/// The plan for one predicate that is not yet established.
#[derive(Debug)]
pub struct PredicatePlan {
    pub predicate: String,
    /// Privacy-ranked evidence options (preferred first).
    pub evidence_options: Vec<EvidenceOptionOut>,
    /// The single privacy-minimal type requested.
    pub preferred: String,
}

/// What to request for a canonical id, given what is already established.
#[derive(Debug)]
pub struct EvidenceRequestPlan {
    pub canonical: String,
    pub kind: Kind,
    /// Flat privacy-minimal list: the preferred type per still-missing predicate.
    pub required_evidence: Vec<String>,
    /// Per-predicate detail, in the order the predicates are required.
    pub predicates: Vec<PredicatePlan>,
}

pub open spec fn option_views(s: Seq<EvidenceOption>) -> Seq<OptionView> {
    s.map_values(|o: EvidenceOption| (o.evidence_type@, o.assurance))
}

pub open spec fn out_views(s: Seq<EvidenceOptionOut>) -> Seq<OptionView> {
    s.map_values(|o: EvidenceOptionOut| (o.evidence_type@, o.assurance))
}

/// Some option in `out` has type `t`.
pub open spec fn has_type(out: Seq<OptionView>, t: Seq<char>) -> bool {
    exists|i: int| 0 <= i < out.len() && out[i].0 == t
}

/// Append, in order, each option of `opts` whose type is not yet present.
pub open spec fn append_new(out: Seq<OptionView>, opts: Seq<OptionView>) -> Seq<OptionView>
    decreases opts.len(),
{
    if opts.len() == 0 {
        out
    } else {
        append_new(
            if has_type(out, opts[0].0) {
                out
            } else {
                out.push(opts[0])
            },
            opts.drop_first(),
        )
    }
}

/// The first option of type `t`.
pub open spec fn find_type(opts: Seq<OptionView>, t: Seq<char>) -> Option<OptionView>
    decreases opts.len(),
{
    if opts.len() == 0 {
        None
    } else if opts[0].0 == t {
        Some(opts[0])
    } else {
        find_type(opts.drop_first(), t)
    }
}

/// The `prefer`red option, if the predicate names one that it accepts.
pub open spec fn preferred_head(def: PredicateDef) -> Seq<OptionView> {
    match def.prefer {
        Some(p) => match find_type(option_views(def.evidence@), p@) {
            Some(o) => seq![o],
            None => Seq::empty(),
        },
        None => Seq::empty(),
    }
}

/// Evidence options privacy-first: the preferred option, then the others in
/// config order, each type once.
pub open spec fn privacy_order(def: PredicateDef) -> Seq<OptionView> {
    append_new(preferred_head(def), option_views(def.evidence@))
}

proof fn lemma_find_type(s: Seq<OptionView>, t: Seq<char>, k: int)
    requires
        0 <= k <= s.len(),
        forall|j: int| 0 <= j < k ==> s[j].0 != t,
    ensures
        k < s.len() && s[k].0 == t ==> find_type(s, t) == Some(s[k]),
        k == s.len() ==> find_type(s, t) is None,
    decreases k,
{
    if k > 0 {
        lemma_find_type(s.drop_first(), t, k - 1);
    }
}

fn out_has_type(out: &Vec<EvidenceOptionOut>, t: &String) -> (res: bool)
    ensures
        res == has_type(out_views(out@), t@),
{
    let mut i: usize = 0;
    while i < out.len()
        invariant
            i <= out@.len(),
            forall|j: int| 0 <= j < i ==> out_views(out@)[j].0 != t@,
        decreases out@.len() - i,
    {
        if out[i].evidence_type == *t {
            assert(out_views(out@)[i as int].0 == t@);
            return true;
        }
        i = i + 1;
    }
    false
}

proof fn lemma_out_views_push(s: Seq<EvidenceOptionOut>, x: EvidenceOptionOut)
    ensures
        out_views(s.push(x)) == out_views(s).push((x.evidence_type@, x.assurance)),
{
    assert(out_views(s.push(x)) =~= out_views(s).push((x.evidence_type@, x.assurance)));
}

/// Evidence options ordered privacy-first: the `prefer` type first, then config
/// order for the rest, each type once.
pub fn privacy_ordered(def: &PredicateDef) -> (res: Vec<EvidenceOptionOut>)
    ensures
        out_views(res@) == privacy_order(*def),
{
    let ghost opts = option_views(def.evidence@);
    let mut out: Vec<EvidenceOptionOut> = Vec::new();
    if let Some(pref) = &def.prefer {
        let mut k: usize = 0;
        while k < def.evidence.len()
            invariant
                k <= def.evidence@.len(),
                opts == option_views(def.evidence@),
                forall|j: int| 0 <= j < k ==> opts[j].0 != pref@,
                out@.len() == 0,
            ensures
                k <= def.evidence@.len(),
                forall|j: int| 0 <= j < k ==> opts[j].0 != pref@,
                k < def.evidence@.len() ==> opts[k as int].0 == pref@,
                out@.len() == 0,
            decreases def.evidence@.len() - k,
        {
            if def.evidence[k].evidence_type == *pref {
                break;
            }
            k = k + 1;
        }
        proof {
            lemma_find_type(opts, pref@, k as int);
        }
        if k < def.evidence.len() {
            let o = EvidenceOptionOut {
                evidence_type: def.evidence[k].evidence_type.clone(),
                assurance: def.evidence[k].assurance,
            };
            proof {
                lemma_out_views_push(out@, o);
                assert(opts[k as int] == (o.evidence_type@, o.assurance));
                assert(find_type(opts, pref@) == Some(opts[k as int]));
            }
            out.push(o);
            assert(out_views(out@) =~= seq![opts[k as int]]);
        } else {
            assert(out_views(out@) =~= preferred_head(*def));
        }
    } else {
        assert(out_views(out@) =~= preferred_head(*def));
    }
    let mut i: usize = 0;
    assert(opts.skip(0) =~= opts);
    while i < def.evidence.len()
        invariant
            i <= def.evidence@.len(),
            opts == option_views(def.evidence@),
            append_new(out_views(out@), opts.skip(i as int)) == privacy_order(*def),
        decreases def.evidence@.len() - i,
    {
        assert(opts.skip(i as int).drop_first() =~= opts.skip(i + 1));
        assert(opts.skip(i as int)[0] == opts[i as int]);
        let t = &def.evidence[i].evidence_type;
        if !out_has_type(&out, t) {
            let o = EvidenceOptionOut { evidence_type: t.clone(), assurance: def.evidence[i].assurance };
            proof {
                lemma_out_views_push(out@, o);
            }
            out.push(o);
        }
        i = i + 1;
    }
    out
}

/// The predicates a canonical id requires, in config order.
pub open spec fn required_preds(registry: &Registry, canonical: Seq<char>, kind: Kind) -> Seq<Seq<char>> {
    match kind {
        Kind::Predicate => seq![canonical],
        Kind::Policy => if registry.policies@.dom().contains(canonical) {
            views(registry.policies@[canonical].requires@)
        } else {
            Seq::empty()
        },
    }
}

/// The predicates a canonical id requires, in config order.
pub fn required_predicates(registry: &Registry, canonical: &str, kind: Kind) -> (res: Vec<String>)
    ensures
        views(res@) == required_preds(registry, canonical@, kind),
{
    match kind {
        Kind::Predicate => {
            let mut v: Vec<String> = Vec::new();
            let c = canonical.to_owned();
            proof {
                lemma_views_push(v@, c);
            }
            v.push(c);
            assert(views(v@) =~= seq![canonical@]);
            v
        },
        Kind::Policy => match registry.policies.get(canonical) {
            Some(p) => clone_strings(&p.requires),
            None => {
                let v: Vec<String> = Vec::new();
                assert(views(v@) =~= Seq::<Seq<char>>::empty());
                v
            },
        },
    }
}

/// A plan entry as plain values: predicate, ranked options, preferred type.
pub type PlanEntryView = (Seq<char>, Seq<OptionView>, Seq<char>);

pub open spec fn plan_views(s: Seq<PredicatePlan>) -> Seq<PlanEntryView> {
    s.map_values(|p: PredicatePlan| (p.predicate@, out_views(p.evidence_options@), p.preferred@))
}

/// `p` is already established according to `established` (absent means no).
pub open spec fn is_established(established: Map<Seq<char>, bool>, p: Seq<char>) -> bool {
    established.dom().contains(p) && established[p]
}

/// The plan entries for `preds`: each predicate not yet established and known
/// to the registry, with its privacy-ranked options and preferred type.
pub open spec fn plan_entries(
    registry: &Registry,
    preds: Seq<Seq<char>>,
    established: Map<Seq<char>, bool>,
) -> Seq<PlanEntryView>
    decreases preds.len(),
{
    if preds.len() == 0 {
        Seq::empty()
    } else {
        let prev = plan_entries(registry, preds.drop_last(), established);
        let p = preds.last();
        if is_established(established, p) || !registry.predicates@.dom().contains(p) {
            prev
        } else {
            let o = privacy_order(registry.predicates@[p]);
            prev.push((p, o, if o.len() > 0 { o[0].0 } else { Seq::empty() }))
        }
    }
}

/// The preferred types of the entries, skipping empty ones.
pub open spec fn requested_types(entries: Seq<PlanEntryView>) -> Seq<Seq<char>>
    decreases entries.len(),
{
    if entries.len() == 0 {
        Seq::empty()
    } else {
        let prev = requested_types(entries.drop_last());
        if entries.last().2.len() > 0 {
            prev.push(entries.last().2)
        } else {
            prev
        }
    }
}

proof fn lemma_plan_views_push(s: Seq<PredicatePlan>, x: PredicatePlan)
    ensures
        plan_views(s.push(x)) == plan_views(s).push(
            (x.predicate@, out_views(x.evidence_options@), x.preferred@),
        ),
{
    assert(plan_views(s.push(x)) =~= plan_views(s).push(
        (x.predicate@, out_views(x.evidence_options@), x.preferred@),
    ));
}

impl EvidenceRequestPlan {
    /// This is the plan for `canonical` given the `established` predicates: one
    /// entry per required predicate that is known and not yet established (in
    /// required order), and the non-empty preferred types of those entries.
    pub open spec fn is_plan_for(
        &self,
        registry: &Registry,
        canonical: Seq<char>,
        kind: Kind,
        established: Map<Seq<char>, bool>,
    ) -> bool {
        &&& self.canonical@ == canonical
        &&& self.kind == kind
        &&& plan_views(self.predicates@) == plan_entries(
            registry,
            required_preds(registry, canonical, kind),
            established,
        )
        &&& views(self.required_evidence@) == requested_types(
            plan_entries(registry, required_preds(registry, canonical, kind), established),
        )
    }
}

/// Build an evidence request plan listing only the predicates NOT yet
/// established (`established` names predicates already TRUE).
pub fn build_plan(
    registry: &Registry,
    canonical: &str,
    kind: Kind,
    established: &StrMap<bool>,
) -> (res: EvidenceRequestPlan)
    ensures
        res.is_plan_for(registry, canonical@, kind, established@),
{
    let preds = required_predicates(registry, canonical, kind);
    let ghost pv = views(preds@);
    let mut predicates: Vec<PredicatePlan> = Vec::new();
    let mut required_evidence: Vec<String> = Vec::new();
    let mut i: usize = 0;
    while i < preds.len()
        invariant
            i <= preds@.len(),
            pv == views(preds@),
            pv == required_preds(registry, canonical@, kind),
            plan_views(predicates@) == plan_entries(registry, pv.take(i as int), established@),
            views(required_evidence@) == requested_types(
                plan_entries(registry, pv.take(i as int), established@),
            ),
        decreases preds@.len() - i,
    {
        let pred = &preds[i];
        assert(pv.take(i + 1).drop_last() =~= pv.take(i as int));
        assert(pv.take(i + 1).last() == pred@);
        let done = match established.get(pred.as_str()) {
            Some(b) => *b,
            None => false,
        };
        let ghost prev = plan_entries(registry, pv.take(i as int), established@);
        if !done {
            if let Some(def) = registry.predicates.get(pred.as_str()) {
                let options = privacy_ordered(def);
                let preferred = if options.len() > 0 {
                    options[0].evidence_type.clone()
                } else {
                    String::new()
                };
                assert(preferred@ == if out_views(options@).len() > 0 {
                    out_views(options@)[0].0
                } else {
                    Seq::empty()
                });
                let ghost e = (pred@, out_views(options@), preferred@);
                assert(plan_entries(registry, pv.take(i + 1), established@) == prev.push(e));
                assert(prev.push(e).drop_last() =~= prev);
                if !preferred.as_str().is_empty() {
                    let r = preferred.clone();
                    proof {
                        lemma_views_push(required_evidence@, r);
                    }
                    required_evidence.push(r);
                }
                let pp = PredicatePlan { predicate: pred.clone(), evidence_options: options, preferred };
                proof {
                    lemma_plan_views_push(predicates@, pp);
                }
                predicates.push(pp);
            } else {
                assert(plan_entries(registry, pv.take(i + 1), established@) == prev);
            }
        } else {
            assert(plan_entries(registry, pv.take(i + 1), established@) == prev);
        }
        i = i + 1;
    }
    assert(pv.take(i as int) =~= pv);
    EvidenceRequestPlan {
        canonical: canonical.to_owned(),
        kind,
        required_evidence,
        predicates,
    }
}

/// Some evidence option of predicate `p` is AVAILABLE in `ev`.
pub open spec fn pred_established(
    registry: &Registry,
    p: Seq<char>,
    ev: Map<Seq<char>, EvidenceState>,
) -> bool {
    registry.predicates@.dom().contains(p) && exists|k: int|
        0 <= k < registry.predicates@[p].evidence@.len() && #[trigger] ev.dom().contains(
            registry.predicates@[p].evidence@[k].evidence_type@,
        ) && ev[registry.predicates@[p].evidence@[k].evidence_type@] == EvidenceState::Available
}

fn any_available(def: &PredicateDef, ev: &StrMap<EvidenceState>) -> (res: bool)
    ensures
        res == exists|k: int|
            0 <= k < def.evidence@.len() && #[trigger] ev@.dom().contains(
                def.evidence@[k].evidence_type@,
            ) && ev@[def.evidence@[k].evidence_type@] == EvidenceState::Available,
{
    let mut k: usize = 0;
    while k < def.evidence.len()
        invariant
            k <= def.evidence@.len(),
            forall|j: int|
                0 <= j < k ==> !(#[trigger] ev@.dom().contains(def.evidence@[j].evidence_type@)
                    && ev@[def.evidence@[j].evidence_type@] == EvidenceState::Available),
        decreases def.evidence@.len() - k,
    {
        match ev.get(def.evidence[k].evidence_type.as_str()) {
            Some(s) => {
                if *s == EvidenceState::Available {
                    return true;
                }
            },
            None => {},
        }
        k = k + 1;
    }
    false
}

/// Which required predicates are already established by the subject's known
/// evidence (an AVAILABLE piece of any of the predicate's evidence options)?
pub fn established_from_evidence(
    registry: &Registry,
    canonical: &str,
    kind: Kind,
    ev: &StrMap<EvidenceState>,
) -> (res: StrMap<bool>)
    ensures
        forall|p: Seq<char>|
            #[trigger] res@.dom().contains(p) <==> required_preds(registry, canonical@, kind).contains(p),
        forall|p: Seq<char>|
            #[trigger] res@.dom().contains(p) ==> res@[p] == pred_established(registry, p, ev@),
{
    let preds = required_predicates(registry, canonical, kind);
    let ghost pv = views(preds@);
    let mut out: StrMap<bool> = StrMap::new();
    let mut i: usize = 0;
    while i < preds.len()
        invariant
            i <= preds@.len(),
            pv == views(preds@),
            pv == required_preds(registry, canonical@, kind),
            forall|p: Seq<char>| #[trigger] out@.dom().contains(p) <==> pv.take(i as int).contains(p),
            forall|p: Seq<char>|
                #[trigger] out@.dom().contains(p) ==> out@[p] == pred_established(registry, p, ev@),
        decreases preds@.len() - i,
    {
        let pred = &preds[i];
        let est = match registry.predicates.get(pred.as_str()) {
            Some(def) => any_available(def, ev),
            None => false,
        };
        out.insert(pred.clone(), est);
        let ghost t0 = pv.take(i as int);
        let ghost t1 = pv.take(i + 1);
        assert(t1 =~= t0.push(pred@));
        assert forall|p: Seq<char>| #[trigger] out@.dom().contains(p) <==> t1.contains(p) by {
            if p == pred@ {
                assert(t1[i as int] == p);
            }
            if t1.contains(p) {
                let j = choose|j: int| 0 <= j < t1.len() && #[trigger] t1[j] == p;
                if j < i {
                    assert(t0[j] == p);
                }
            }
            if t0.contains(p) {
                let j = choose|j: int| 0 <= j < t0.len() && #[trigger] t0[j] == p;
                assert(t1[j] == p);
            }
        }
        i = i + 1;
    }
    assert(pv.take(i as int) =~= pv);
    out
}

// ---------------------------------------------------------------------------
// Laws of privacy ranking and of plan minimization.
// ---------------------------------------------------------------------------

/// No evidence type occurs twice.
pub open spec fn distinct_types(s: Seq<OptionView>) -> bool {
    forall|i: int, j: int| 0 <= i < j < s.len() ==> #[trigger] s[i].0 != #[trigger] s[j].0
}

proof fn lemma_has_type_push(s: Seq<OptionView>, x: OptionView, t: Seq<char>)
    ensures
        has_type(s.push(x), t) <==> has_type(s, t) || x.0 == t,
{
    if has_type(s, t) {
        let i = choose|i: int| 0 <= i < s.len() && s[i].0 == t;
        assert(s.push(x)[i] == s[i]);
    }
    if x.0 == t {
        assert(s.push(x)[s.len() as int] == x);
    }
    if has_type(s.push(x), t) {
        let i = choose|i: int| 0 <= i < s.push(x).len() && s.push(x)[i].0 == t;
        if i < s.len() {
            assert(s[i] == s.push(x)[i]);
        }
    }
}

proof fn lemma_has_type_first(s: Seq<OptionView>, t: Seq<char>)
    requires
        s.len() > 0,
    ensures
        has_type(s, t) <==> s[0].0 == t || has_type(s.drop_first(), t),
{
    if has_type(s, t) {
        let i = choose|i: int| 0 <= i < s.len() && s[i].0 == t;
        if i > 0 {
            assert(s.drop_first()[i - 1] == s[i]);
        }
    }
    if has_type(s.drop_first(), t) {
        let i = choose|i: int| 0 <= i < s.drop_first().len() && s.drop_first()[i].0 == t;
        assert(s[i + 1] == s.drop_first()[i]);
    }
}

/// `append_new` keeps what was there and adds only new types, each taken
/// from `opts`; every type of `opts` ends up present.
proof fn lemma_append_new(out: Seq<OptionView>, opts: Seq<OptionView>)
    ensures
        append_new(out, opts).len() >= out.len(),
        forall|i: int| 0 <= i < out.len() ==> #[trigger] append_new(out, opts)[i] == out[i],
        distinct_types(out) ==> distinct_types(append_new(out, opts)),
        forall|t: Seq<char>|
            #[trigger] has_type(append_new(out, opts), t) <==> has_type(out, t) || has_type(opts, t),
        forall|i: int|
            0 <= i < append_new(out, opts).len() ==> out.contains(#[trigger] append_new(out, opts)[i])
                || opts.contains(append_new(out, opts)[i]),
    decreases opts.len(),
{
    if opts.len() > 0 {
        let x = opts[0];
        let rest = opts.drop_first();
        let out2 = if has_type(out, x.0) {
            out
        } else {
            out.push(x)
        };
        lemma_append_new(out2, rest);
        let r = append_new(out, opts);
        assert(r == append_new(out2, rest));
        assert forall|i: int| 0 <= i < out.len() implies #[trigger] r[i] == out[i] by {
            assert(out2[i] == out[i]);
        }
        if distinct_types(out) && !has_type(out, x.0) {
            assert forall|i: int, j: int| 0 <= i < j < out2.len() implies #[trigger] out2[i].0
                != #[trigger] out2[j].0 by {
                if j == out.len() {
                    assert(out2[i] == out[i]);
                    assert(!(out[i].0 == x.0));
                }
            }
        }
        assert forall|t: Seq<char>| #[trigger] has_type(r, t) <==> has_type(out, t) || has_type(opts, t) by {
            lemma_has_type_first(opts, t);
            if !has_type(out, x.0) {
                lemma_has_type_push(out, x, t);
            }
        }
        assert forall|i: int| 0 <= i < r.len() implies out.contains(#[trigger] r[i]) || opts.contains(r[i]) by {
            if out2.contains(r[i]) {
                let k = choose|k: int| 0 <= k < out2.len() && out2[k] == r[i];
                if k < out.len() {
                    assert(out[k] == out2[k]);
                } else {
                    assert(opts[0] == r[i]);
                }
            } else {
                let k = choose|k: int| 0 <= k < rest.len() && rest[k] == r[i];
                assert(opts[k + 1] == rest[k]);
            }
        }
    }
}

proof fn lemma_find_type_some(s: Seq<OptionView>, t: Seq<char>)
    requires
        has_type(s, t),
    ensures
        find_type(s, t) matches Some(o) && o.0 == t && s.contains(o),
    decreases s.len(),
{
    lemma_has_type_first(s, t);
    if s[0].0 != t {
        lemma_find_type_some(s.drop_first(), t);
        let o = find_type(s.drop_first(), t)->0;
        let k = choose|k: int| 0 <= k < s.drop_first().len() && s.drop_first()[k] == o;
        assert(s[k + 1] == o);
    } else {
        assert(s.contains(s[0]));
    }
}

proof fn lemma_find_type_member(s: Seq<OptionView>, t: Seq<char>)
    ensures
        find_type(s, t) matches Some(o) ==> s.contains(o),
    decreases s.len(),
{
    if s.len() > 0 && s[0].0 != t {
        lemma_find_type_member(s.drop_first(), t);
        if let Some(o) = find_type(s.drop_first(), t) {
            let k = choose|k: int| 0 <= k < s.drop_first().len() && s.drop_first()[k] == o;
            assert(s[k + 1] == o);
        }
    } else if s.len() > 0 {
        assert(s.contains(s[0]));
    }
}

/// Privacy ranking: when the predicate's `prefer` names one of its evidence
/// types, that type is ranked first; every accepted type is ranked exactly
/// once, and nothing else is ranked.
pub proof fn law_privacy_order(def: PredicateDef)
    ensures
        def.prefer matches Some(p) ==> (has_type(option_views(def.evidence@), p@) ==> privacy_order(
            def,
        ).len() > 0 && privacy_order(def)[0].0 == p@),
        distinct_types(privacy_order(def)),
        forall|t: Seq<char>|
            #[trigger] has_type(privacy_order(def), t) <==> has_type(option_views(def.evidence@), t),
        forall|i: int|
            0 <= i < privacy_order(def).len() ==> option_views(def.evidence@).contains(
                #[trigger] privacy_order(def)[i],
            ),
{
    let opts = option_views(def.evidence@);
    let head = preferred_head(def);
    lemma_append_new(head, opts);
    if let Some(p) = def.prefer {
        lemma_find_type_member(opts, p@);
        if has_type(opts, p@) {
            lemma_find_type_some(opts, p@);
            assert(append_new(head, opts)[0] == head[0]);
        }
    }
    assert forall|t: Seq<char>| #[trigger] has_type(privacy_order(def), t) <==> has_type(opts, t) by {
        if has_type(head, t) {
            let k = choose|k: int| 0 <= k < head.len() && head[k].0 == t;
            assert(head[k] == head[0]);
            lemma_find_type_member(opts, def.prefer->0@);
            let j = choose|j: int| 0 <= j < opts.len() && opts[j] == head[0];
            assert(opts[j].0 == t);
        }
    }
    assert forall|i: int| 0 <= i < privacy_order(def).len() implies opts.contains(
        #[trigger] privacy_order(def)[i],
    ) by {
        if head.contains(privacy_order(def)[i]) {
            let k = choose|k: int| 0 <= k < head.len() && head[k] == privacy_order(def)[i];
            assert(head[k] == head[0]);
            lemma_find_type_member(opts, def.prefer->0@);
        }
    }
}

proof fn lemma_plan_entries(
    registry: &Registry,
    preds: Seq<Seq<char>>,
    established: Map<Seq<char>, bool>,
)
    ensures
        forall|i: int|
            0 <= i < plan_entries(registry, preds, established).len() ==> preds.contains(
                (#[trigger] plan_entries(registry, preds, established)[i]).0,
            ) && !is_established(established, plan_entries(registry, preds, established)[i].0)
                && registry.predicates@.dom().contains(plan_entries(registry, preds, established)[i].0),
        forall|p: Seq<char>|
            #![trigger preds.contains(p)]
            preds.contains(p) && !is_established(established, p) && registry.predicates@.dom().contains(p)
                ==> exists|i: int|
                0 <= i < plan_entries(registry, preds, established).len() && (
                #[trigger] plan_entries(registry, preds, established)[i]).0 == p,
    decreases preds.len(),
{
    if preds.len() > 0 {
        let init = preds.drop_last();
        let p = preds.last();
        lemma_plan_entries(registry, init, established);
        let prev = plan_entries(registry, init, established);
        let cur = plan_entries(registry, preds, established);
        assert forall|i: int| 0 <= i < cur.len() implies preds.contains((#[trigger] cur[i]).0)
            && !is_established(established, cur[i].0) && registry.predicates@.dom().contains(
            cur[i].0,
        ) by {
            if i < prev.len() {
                assert(cur[i] == prev[i]);
                let k = choose|k: int| 0 <= k < init.len() && init[k] == prev[i].0;
                assert(preds[k] == init[k]);
            } else {
                assert(preds[preds.len() - 1] == p);
            }
        }
        assert forall|q: Seq<char>|
            #![trigger preds.contains(q)]
            preds.contains(q) && !is_established(established, q) && registry.predicates@.dom().contains(q)
                implies exists|i: int| 0 <= i < cur.len() && (#[trigger] cur[i]).0 == q by {
            let k = choose|k: int| 0 <= k < preds.len() && preds[k] == q;
            if k < init.len() {
                assert(init[k] == q);
                assert(init.contains(q));
                let i = choose|i: int| 0 <= i < prev.len() && (#[trigger] prev[i]).0 == q;
                assert(cur[i] == prev[i]);
            } else {
                assert(cur[prev.len() as int].0 == q);
            }
        }
    }
}

/// Plan minimization: a plan lists exactly the required predicates that are
/// known and not yet established; in particular, once every required
/// predicate is established, nothing is requested.
pub proof fn law_plan_requests_only_unestablished(
    plan: &EvidenceRequestPlan,
    registry: &Registry,
    canonical: Seq<char>,
    kind: Kind,
    established: Map<Seq<char>, bool>,
)
    requires
        plan.is_plan_for(registry, canonical, kind, established),
    ensures
        forall|i: int|
            0 <= i < plan.predicates@.len() ==> required_preds(registry, canonical, kind).contains(
                (#[trigger] plan.predicates@[i]).predicate@,
            ) && !is_established(established, plan.predicates@[i].predicate@)
                && registry.predicates@.dom().contains(plan.predicates@[i].predicate@),
        forall|p: Seq<char>|
            #![trigger required_preds(registry, canonical, kind).contains(p)]
            required_preds(registry, canonical, kind).contains(p) && !is_established(established, p)
                && registry.predicates@.dom().contains(p) ==> exists|i: int|
                0 <= i < plan.predicates@.len() && (#[trigger] plan.predicates@[i]).predicate@ == p,
        (forall|p: Seq<char>|
            #![trigger required_preds(registry, canonical, kind).contains(p)]
            required_preds(registry, canonical, kind).contains(p) ==> is_established(established, p))
            ==> plan.predicates@.len() == 0 && plan.required_evidence@.len() == 0,
{
    let preds = required_preds(registry, canonical, kind);
    let entries = plan_entries(registry, preds, established);
    lemma_plan_entries(registry, preds, established);
    assert(plan_views(plan.predicates@) == entries);
    assert forall|i: int| 0 <= i < plan.predicates@.len() implies preds.contains(
        (#[trigger] plan.predicates@[i]).predicate@,
    ) && !is_established(established, plan.predicates@[i].predicate@)
        && registry.predicates@.dom().contains(plan.predicates@[i].predicate@) by {
        assert(entries[i] == plan_views(plan.predicates@)[i]);
    }
    assert forall|p: Seq<char>|
        #![trigger preds.contains(p)]
        preds.contains(p) && !is_established(established, p) && registry.predicates@.dom().contains(p)
            implies exists|i: int| 0 <= i < plan.predicates@.len() && (#[trigger] plan.predicates@[i]).predicate@
            == p by {
        let i = choose|i: int| 0 <= i < entries.len() && (#[trigger] entries[i]).0 == p;
        assert(entries[i] == plan_views(plan.predicates@)[i]);
    }
    if forall|p: Seq<char>| #![trigger preds.contains(p)] preds.contains(p) ==> is_established(established, p) {
        if entries.len() > 0 {
            assert(preds.contains(entries[0].0));
        }
        assert(requested_types(entries) =~= Seq::<Seq<char>>::empty());
        assert(views(plan.required_evidence@).len() == plan.required_evidence@.len());
    }
}


proof fn lemma_plan_entry_shape(registry: &Registry, preds: Seq<Seq<char>>, established: Map<Seq<char>, bool>)
    ensures
        forall|i: int|
            0 <= i < plan_entries(registry, preds, established).len() ==> {
                let e = #[trigger] plan_entries(registry, preds, established)[i];
                &&& registry.predicates@.dom().contains(e.0)
                &&& e.1 == privacy_order(registry.predicates@[e.0])
                &&& e.2 == if e.1.len() > 0 { e.1[0].0 } else { Seq::<char>::empty() }
            },
    decreases preds.len(),
{
    if preds.len() > 0 {
        let prev = plan_entries(registry, preds.drop_last(), established);
        lemma_plan_entry_shape(registry, preds.drop_last(), established);
        let cur = plan_entries(registry, preds, established);
        assert forall|i: int| 0 <= i < cur.len() implies ({
            let e = #[trigger] cur[i];
            &&& registry.predicates@.dom().contains(e.0)
            &&& e.1 == privacy_order(registry.predicates@[e.0])
            &&& e.2 == if e.1.len() > 0 { e.1[0].0 } else { Seq::<char>::empty() }
        }) by {
            if i < prev.len() {
                assert(cur[i] == prev[i]);
            }
        }
    }
}

proof fn lemma_requested_all(entries: Seq<PlanEntryView>)
    requires
        forall|i: int| 0 <= i < entries.len() ==> (#[trigger] entries[i]).2.len() > 0,
    ensures
        requested_types(entries) == entries.map_values(|e: PlanEntryView| e.2),
    decreases entries.len(),
{
    if entries.len() > 0 {
        let init = entries.drop_last();
        assert forall|i: int| 0 <= i < init.len() implies (#[trigger] init[i]).2.len() > 0 by {
            assert(init[i] == entries[i]);
        }
        lemma_requested_all(init);
        assert(entries[entries.len() - 1] == entries.last());
        assert(entries.map_values(|e: PlanEntryView| e.2) =~= init.map_values(|e: PlanEntryView| e.2).push(
            entries.last().2,
        ));
    }
}

proof fn lemma_requested_from_entries(entries: Seq<PlanEntryView>, j: int)
    requires
        0 <= j < requested_types(entries).len(),
    ensures
        exists|i: int| 0 <= i < entries.len() && (#[trigger] entries[i]).2 == requested_types(entries)[j],
        requested_types(entries)[j].len() > 0,
    decreases entries.len(),
{
    let init = entries.drop_last();
    let prev = requested_types(init);
    if j < prev.len() {
        lemma_requested_from_entries(init, j);
        let i = choose|i: int| 0 <= i < init.len() && (#[trigger] init[i]).2 == prev[j];
        assert(entries[i] == init[i]);
    } else {
        assert(entries[entries.len() - 1] == entries.last());
    }
}

/// What a plan requests: each entry's preferred type is the first of its
/// privacy-ranked evidence options (so the predicate's `prefer` type whenever
/// the predicate accepts it), and `required_evidence` lists preferred types of
/// entries only, all of them in entry order when every entry has one.
pub proof fn law_plan_requests_preferred_types(
    plan: &EvidenceRequestPlan,
    registry: &Registry,
    canonical: Seq<char>,
    kind: Kind,
    established: Map<Seq<char>, bool>,
)
    requires
        plan.is_plan_for(registry, canonical, kind, established),
    ensures
        forall|i: int|
            0 <= i < plan.predicates@.len() ==> {
                let e = #[trigger] plan.predicates@[i];
                &&& registry.predicates@.dom().contains(e.predicate@)
                &&& e.evidence_options@.len() > 0 ==> e.preferred@ == e.evidence_options@[0].evidence_type@
                &&& e.evidence_options@.len() == 0 ==> e.preferred@.len() == 0
                &&& out_views(e.evidence_options@) == privacy_order(registry.predicates@[e.predicate@])
                &&& match registry.predicates@[e.predicate@].prefer {
                    Some(t) => has_type(option_views(registry.predicates@[e.predicate@].evidence@), t@) ==> e.preferred@
                        == t@,
                    None => true,
                }
            },
        forall|j: int|
            0 <= j < plan.required_evidence@.len() ==> exists|i: int|
                0 <= i < plan.predicates@.len() && (#[trigger] plan.predicates@[i]).preferred@
                    == (#[trigger] plan.required_evidence@[j])@,
        (forall|i: int| 0 <= i < plan.predicates@.len() ==> (#[trigger] plan.predicates@[i]).preferred@.len() > 0)
            ==> plan.required_evidence@.len() == plan.predicates@.len() && forall|i: int|
            0 <= i < plan.predicates@.len() ==> (#[trigger] plan.required_evidence@[i])@
                == plan.predicates@[i].preferred@,
{
    let preds = required_preds(registry, canonical, kind);
    let entries = plan_entries(registry, preds, established);
    lemma_plan_entry_shape(registry, preds, established);
    let pv = plan_views(plan.predicates@);
    assert(pv == entries);
    assert forall|i: int| 0 <= i < plan.predicates@.len() implies ({
        let e = #[trigger] plan.predicates@[i];
        &&& registry.predicates@.dom().contains(e.predicate@)
        &&& e.evidence_options@.len() > 0 ==> e.preferred@ == e.evidence_options@[0].evidence_type@
        &&& e.evidence_options@.len() == 0 ==> e.preferred@.len() == 0
        &&& out_views(e.evidence_options@) == privacy_order(registry.predicates@[e.predicate@])
        &&& match registry.predicates@[e.predicate@].prefer {
            Some(t) => has_type(option_views(registry.predicates@[e.predicate@].evidence@), t@) ==> e.preferred@
                == t@,
            None => true,
        }
    }) by {
        let e = plan.predicates@[i];
        assert(pv[i] == entries[i]);
        assert(pv[i] == (e.predicate@, out_views(e.evidence_options@), e.preferred@));
        law_privacy_order(registry.predicates@[e.predicate@]);
        if e.evidence_options@.len() > 0 {
            assert(out_views(e.evidence_options@)[0].0 == e.evidence_options@[0].evidence_type@);
        }
    }
    let req = views(plan.required_evidence@);
    assert(req == requested_types(entries));
    assert forall|j: int| 0 <= j < plan.required_evidence@.len() implies exists|i: int|
        0 <= i < plan.predicates@.len() && (#[trigger] plan.predicates@[i]).preferred@
            == (#[trigger] plan.required_evidence@[j])@ by {
        lemma_requested_from_entries(entries, j);
        let i = choose|i: int| 0 <= i < entries.len() && (#[trigger] entries[i]).2 == requested_types(entries)[j];
        assert(pv[i] == entries[i]);
        assert(req[j] == plan.required_evidence@[j]@);
        assert(plan.predicates@[i].preferred@ == plan.required_evidence@[j]@);
    }
    if forall|i: int| 0 <= i < plan.predicates@.len() ==> (#[trigger] plan.predicates@[i]).preferred@.len() > 0 {
        assert forall|i: int| 0 <= i < entries.len() implies (#[trigger] entries[i]).2.len() > 0 by {
            assert(pv[i] == entries[i]);
            assert(plan.predicates@[i].preferred@.len() > 0);
        }
        lemma_requested_all(entries);
        assert(req.len() == plan.required_evidence@.len());
        assert(pv.len() == plan.predicates@.len());
        assert(req.len() == entries.len());
        assert forall|i: int| 0 <= i < plan.predicates@.len() implies (#[trigger] plan.required_evidence@[i])@
            == plan.predicates@[i].preferred@ by {
            assert(pv[i] == entries[i]);
            assert(req[i] == entries[i].2);
            assert(req[i] == plan.required_evidence@[i]@);
        }
    }
}

proof fn lemma_plan_entries_mono(
    registry: &Registry,
    preds: Seq<Seq<char>>,
    est1: Map<Seq<char>, bool>,
    est2: Map<Seq<char>, bool>,
)
    requires
        forall|q: Seq<char>| is_established(est1, q) ==> #[trigger] is_established(est2, q),
    ensures
        is_subseq(plan_entries(registry, preds, est2), plan_entries(registry, preds, est1)),
    decreases preds.len(),
{
    if preds.len() == 0 {
    } else {
        let init = preds.drop_last();
        let p = preds.last();
        lemma_plan_entries_mono(registry, init, est1, est2);
        let e1 = plan_entries(registry, init, est1);
        let e2 = plan_entries(registry, init, est2);
        let o = privacy_order(registry.predicates@[p]);
        let x = (p, o, if o.len() > 0 { o[0].0 } else { Seq::empty() });
        lemma_subseq_push(e2, e1, x);
        lemma_subseq_push_both(e2, e1, x);
    }
}

proof fn lemma_requested_subseq(a: Seq<PlanEntryView>, b: Seq<PlanEntryView>)
    requires
        is_subseq(a, b),
    ensures
        is_subseq(requested_types(a), requested_types(b)),
    decreases b.len(),
{
    if a.len() == 0 {
        assert(requested_types(a) =~= Seq::<Seq<char>>::empty());
    } else {
        let rb = requested_types(b.drop_last());
        if a.last() == b.last() && is_subseq(a.drop_last(), b.drop_last()) {
            lemma_requested_subseq(a.drop_last(), b.drop_last());
            let ra = requested_types(a.drop_last());
            if b.last().2.len() > 0 {
                lemma_subseq_push_both(ra, rb, b.last().2);
            }
        } else {
            lemma_requested_subseq(a, b.drop_last());
            if b.last().2.len() > 0 {
                lemma_subseq_push(requested_types(a), rb, b.last().2);
            }
        }
    }
}

/// Plans shrink as more is established: where every predicate established in
/// `est1` is established in `est2`, the plan for `est2` lists a subsequence of
/// the predicates and of the requested evidence types of the plan for `est1`.
pub proof fn law_plan_shrinks_as_established_grows(
    plan1: &EvidenceRequestPlan,
    plan2: &EvidenceRequestPlan,
    registry: &Registry,
    canonical: Seq<char>,
    kind: Kind,
    est1: Map<Seq<char>, bool>,
    est2: Map<Seq<char>, bool>,
)
    requires
        plan1.is_plan_for(registry, canonical, kind, est1),
        plan2.is_plan_for(registry, canonical, kind, est2),
        forall|q: Seq<char>| is_established(est1, q) ==> #[trigger] is_established(est2, q),
    ensures
        is_subseq(plan_views(plan2.predicates@), plan_views(plan1.predicates@)),
        is_subseq(views(plan2.required_evidence@), views(plan1.required_evidence@)),
{
    let preds = required_preds(registry, canonical, kind);
    lemma_plan_entries_mono(registry, preds, est1, est2);
    lemma_requested_subseq(plan_entries(registry, preds, est2), plan_entries(registry, preds, est1));
}


/// The index of the first option of type `t` (the length when there is none).
pub open spec fn first_index(opts: Seq<OptionView>, t: Seq<char>) -> int
    decreases opts.len(),
{
    if opts.len() == 0 {
        0
    } else if opts[0].0 == t {
        0
    } else {
        1 + first_index(opts.drop_first(), t)
    }
}

proof fn lemma_first_index(s: Seq<OptionView>, t: Seq<char>, k: int)
    requires
        0 <= k < s.len(),
        s[k].0 == t,
        forall|j: int| 0 <= j < k ==> s[j].0 != t,
    ensures
        first_index(s, t) == k,
    decreases k,
{
    if k > 0 {
        assert(s.drop_first()[k - 1] == s[k]);
        assert forall|j: int| 0 <= j < k - 1 implies s.drop_first()[j].0 != t by {
            assert(s.drop_first()[j] == s[j + 1]);
        }
        lemma_first_index(s.drop_first(), t, k - 1);
    }
}

/// What the ranking built so far keeps: each option is the first of its type
/// in `full`; past the preferred head, options come in order of first
/// occurrence, all before index `m`; every type occurring before `m` is in.
pub open spec fn rank_inv(out: Seq<OptionView>, full: Seq<OptionView>, m: int, h: int) -> bool {
    &&& 0 <= h <= out.len()
    &&& 0 <= m <= full.len()
    &&& forall|i: int| 0 <= i < out.len() ==> find_type(full, (#[trigger] out[i]).0) == Some(out[i])
    &&& forall|i: int| h <= i < out.len() ==> first_index(full, (#[trigger] out[i]).0) < m
    &&& forall|i: int, j: int|
        h <= i < j < out.len() ==> first_index(full, (#[trigger] out[i]).0) < first_index(full, (#[trigger] out[j]).0)
    &&& forall|k: int| 0 <= k < m ==> has_type(out, (#[trigger] full[k]).0)
}

proof fn lemma_append_new_order(out: Seq<OptionView>, full: Seq<OptionView>, m: int, h: int)
    requires
        rank_inv(out, full, m, h),
    ensures
        ({
            let r = append_new(out, full.skip(m));
            &&& forall|i: int| 0 <= i < r.len() ==> find_type(full, (#[trigger] r[i]).0) == Some(r[i])
            &&& forall|i: int, j: int|
                h <= i < j < r.len() ==> first_index(full, (#[trigger] r[i]).0) < first_index(
                    full,
                    (#[trigger] r[j]).0,
                )
        }),
    decreases full.len() - m,
{
    if m == full.len() {
        assert(full.skip(m) =~= Seq::<OptionView>::empty());
    } else {
        let x = full[m];
        assert(full.skip(m)[0] == x);
        assert(full.skip(m).drop_first() =~= full.skip(m + 1));
        if has_type(out, x.0) {
            assert forall|k: int| 0 <= k < m + 1 implies has_type(out, (#[trigger] full[k]).0) by {}
            lemma_append_new_order(out, full, m + 1, h);
        } else {
            let out2 = out.push(x);
            assert forall|j: int| 0 <= j < m implies full[j].0 != x.0 by {
                assert(has_type(out, full[j].0));
            }
            lemma_first_index(full, x.0, m);
            lemma_find_type(full, x.0, m);
            assert(out2[out.len() as int] == x);
            assert forall|i: int| 0 <= i < out2.len() implies find_type(full, (#[trigger] out2[i]).0) == Some(
                out2[i],
            ) by {
                if i < out.len() {
                    assert(out2[i] == out[i]);
                }
            }
            assert forall|i: int| h <= i < out2.len() implies first_index(full, (#[trigger] out2[i]).0) < m + 1 by {
                if i < out.len() {
                    assert(out2[i] == out[i]);
                }
            }
            assert forall|i: int, j: int| h <= i < j < out2.len() implies first_index(
                full,
                (#[trigger] out2[i]).0,
            ) < first_index(full, (#[trigger] out2[j]).0) by {
                assert(out2[i] == out[i]);
                if j < out.len() {
                    assert(out2[j] == out[j]);
                }
            }
            assert forall|k: int| 0 <= k < m + 1 implies has_type(out2, (#[trigger] full[k]).0) by {
                lemma_has_type_push(out, x, full[k].0);
            }
            lemma_append_new_order(out2, full, m + 1, h);
        }
    }
}

/// The whole privacy order: each ranked option is the first option of its
/// type in config order (so it carries that entry's assurance), and after the
/// preferred one the options follow the order in which their types first occur.
pub proof fn law_privacy_order_follows_config(def: PredicateDef)
    ensures
        ({
            let opts = option_views(def.evidence@);
            let o = privacy_order(def);
            let h = preferred_head(def).len() as int;
            &&& h <= 1
            &&& forall|i: int| 0 <= i < o.len() ==> find_type(opts, (#[trigger] o[i]).0) == Some(o[i])
            &&& forall|i: int, j: int|
                h <= i < j < o.len() ==> first_index(opts, (#[trigger] o[i]).0) < first_index(
                    opts,
                    (#[trigger] o[j]).0,
                )
        }),
{
    let opts = option_views(def.evidence@);
    let head = preferred_head(def);
    if let Some(p) = def.prefer {
        if let Some(o) = find_type(opts, p@) {
            lemma_find_type_member(opts, p@);
            lemma_find_type_has(opts, p@);
            assert(head[0] == o);
        }
    }
    assert(opts.skip(0) =~= opts);
    lemma_append_new_order(head, opts, 0, head.len() as int);
}

proof fn lemma_find_type_has(s: Seq<OptionView>, t: Seq<char>)
    ensures
        find_type(s, t) matches Some(o) ==> o.0 == t,
    decreases s.len(),
{
    if s.len() > 0 && s[0].0 != t {
        lemma_find_type_has(s.drop_first(), t);
    }
}

} // verus!
