//! Question resolution: the deterministic registry (tier 1), and validation of a
//! proposed canonical id (tier 2). A proposal is accepted only if it names a
//! member of the closed set of known predicates and policies.

use vstd::prelude::*;
use crate::config::{QuestionEntry, Registry};
use crate::domain::Kind;
use crate::text::{chars_of, collapse_whitespace, collapse_ws, is_ws, lowercase, trim_end_ws, trim_start_ws, skip_start_whitespace, string_of, strip_end_whitespace, strip_terminal_punct, to_lowercase, trim, trim_end_punct, trim_ws};

verus! {

/// How a question was resolved to its canonical id.
#[derive(Debug, Clone, Copy, PartialEq, Eq, Structural)]
pub enum ResolvedBy {
    Registry,
    LlmValidated,
}

impl ResolvedBy {
    /// The wire name of a resolution path.
    pub open spec fn spec_name(self) -> Seq<char> {
        match self {
            ResolvedBy::Registry => "REGISTRY"@,
            ResolvedBy::LlmValidated => "LLM_VALIDATED"@,
        }
    }

    /// The wire name of a resolution path (`REGISTRY` or `LLM_VALIDATED`).
    pub fn as_str(&self) -> (res: &'static str)
        ensures
            res@ == self.spec_name(),
    {
        proof {
            reveal_strlit("REGISTRY");
            reveal_strlit("LLM_VALIDATED");
        }
        match self {
            ResolvedBy::Registry => "REGISTRY",
            ResolvedBy::LlmValidated => "LLM_VALIDATED",
        }
    }
}

/// A question resolved to a canonical id.
#[derive(Debug)]
pub struct Resolution {
    pub canonical: String,
    pub kind: Kind,
    pub resolved_by: ResolvedBy,
}

/// Normal form of a question: lower-cased, whitespace runs collapsed to single
/// spaces, trailing `?`/`.`/`!` stripped, then trimmed.
pub open spec fn normalized(input: Seq<char>) -> Seq<char> {
    trim_ws(trim_end_punct(collapse_ws(lowercase(input))))
}

/// Normalize: lowercase -> collapse whitespace -> strip terminal `?.!` -> trim.
pub fn normalize(input: &str) -> (res: String)
    ensures
        res@ == normalized(input@),
{
    let lowered = to_lowercase(input);
    let cs = chars_of(lowered.as_str());
    let mut collapsed = collapse_whitespace(cs.as_slice());
    strip_terminal_punct(&mut collapsed);
    strip_end_whitespace(&mut collapsed);
    let t = skip_start_whitespace(collapsed.as_slice());
    string_of(t.as_slice())
}

/// Some alias of `q` normalizes to `norm`.
pub open spec fn alias_matches(q: QuestionEntry, norm: Seq<char>) -> bool {
    exists|k: int| 0 <= k < q.aliases@.len() && normalized(#[trigger] q.aliases@[k]@) == norm
}

/// Registry entry `q` answers `question`: by an alias, or because the trimmed
/// question is its canonical id.
pub open spec fn question_matches(q: QuestionEntry, question: Seq<char>) -> bool {
    alias_matches(q, normalized(question)) || q.canonical@ == trim_ws(question)
}

/// Entry `i` is the first registry entry that answers `question`.
pub open spec fn first_match(qs: Seq<QuestionEntry>, question: Seq<char>, i: int) -> bool {
    &&& 0 <= i < qs.len()
    &&& question_matches(qs[i], question)
    &&& forall|j: int| 0 <= j < i ==> !question_matches(#[trigger] qs[j], question)
}

fn alias_hit(q: &QuestionEntry, norm: &String) -> (res: bool)
    ensures
        res == alias_matches(*q, norm@),
{
    let mut k: usize = 0;
    while k < q.aliases.len()
        invariant
            k <= q.aliases@.len(),
            forall|m: int| 0 <= m < k ==> normalized(#[trigger] q.aliases@[m]@) != norm@,
        decreases q.aliases@.len() - k,
    {
        let a = normalize(q.aliases[k].as_str());
        if a == *norm {
            return true;
        }
        k = k + 1;
    }
    false
}

/// Tier 1: exact alias match after normalization, or direct canonical id.
/// `None` on a miss (the caller may fall through to a validated proposal).
pub fn resolve_tier1(registry: &Registry, question: &str) -> (res: Option<Resolution>)
    ensures
        res matches Some(r) ==> exists|i: int|
            first_match(registry.questions@, question@, i) && r.canonical@
                == registry.questions@[i].canonical@ && r.kind == registry.questions@[i].kind
                && r.resolved_by == ResolvedBy::Registry,
        res is None ==> forall|i: int|
            0 <= i < registry.questions@.len() ==> !question_matches(
                #[trigger] registry.questions@[i],
                question@,
            ),
{
    let norm = normalize(question);
    let trimmed = trim(question);
    let mut i: usize = 0;
    while i < registry.questions.len()
        invariant
            i <= registry.questions@.len(),
            norm@ == normalized(question@),
            trimmed@ == trim_ws(question@),
            forall|j: int| 0 <= j < i ==> !question_matches(#[trigger] registry.questions@[j], question@),
        decreases registry.questions@.len() - i,
    {
        let q = &registry.questions[i];
        if alias_hit(q, &norm) || q.canonical == trimmed {
            assert(first_match(registry.questions@, question@, i as int));
            return Some(
                Resolution {
                    canonical: q.canonical.clone(),
                    kind: q.kind,
                    resolved_by: ResolvedBy::Registry,
                },
            );
        }
        i = i + 1;
    }
    None
}

/// Validate a proposed canonical id: accepted only if it is a known predicate
/// or policy, with that kind.
pub fn validate_proposal(registry: &Registry, proposed: &str) -> (res: Option<Resolution>)
    ensures
        res is Some <==> registry.spec_is_canonical(proposed@),
        res matches Some(r) ==> r.canonical@ == proposed@ && Some(r.kind) == registry.spec_kind_of(
            proposed@,
        ) && r.resolved_by == ResolvedBy::LlmValidated,
{
    match registry.kind_of(proposed) {
        Some(kind) => Some(
            Resolution {
                canonical: proposed.to_owned(),
                kind,
                resolved_by: ResolvedBy::LlmValidated,
            },
        ),
        None => None,
    }
}


// ---------------------------------------------------------------------------
// The whitespace form of normalized questions.
// ---------------------------------------------------------------------------

/// Every whitespace character is a single space between two characters that
/// are not whitespace (so none leads, none trails, none doubles).
pub open spec fn single_spaced(s: Seq<char>) -> bool {
    forall|i: int|
        0 <= i < s.len() && is_ws(#[trigger] s[i]) ==> s[i] == ' ' && 0 < i && i + 1 < s.len() && !is_ws(s[i - 1])
            && !is_ws(s[i + 1])
}

/// Like `single_spaced`, but one space may trail.
pub open spec fn spaced_open_end(s: Seq<char>) -> bool {
    forall|i: int|
        0 <= i < s.len() && is_ws(#[trigger] s[i]) ==> s[i] == ' ' && 0 < i && !is_ws(s[i - 1]) && (i + 1 < s.len()
            ==> !is_ws(s[i + 1]))
}

proof fn lemma_collapse_single_spaced(x: Seq<char>)
    ensures
        single_spaced(collapse_ws(x)),
    decreases x.len(),
{
    if x.len() > 0 {
        let p = collapse_ws(x.drop_last());
        lemma_collapse_single_spaced(x.drop_last());
        let c = x.last();
        if !is_ws(c) {
            if p.len() > 0 {
                assert(!is_ws(p[p.len() - 1]));
            }
            if p.len() > 0 && is_ws(x[x.len() - 2]) {
                let r = p.push(' ').push(c);
                assert forall|i: int| 0 <= i < r.len() && is_ws(#[trigger] r[i]) implies r[i] == ' ' && 0 < i && i
                    + 1 < r.len() && !is_ws(r[i - 1]) && !is_ws(r[i + 1]) by {
                    if i < p.len() {
                        assert(r[i] == p[i]);
                        if i + 1 < p.len() {
                            assert(r[i + 1] == p[i + 1]);
                        }
                        if i > 0 {
                            assert(r[i - 1] == p[i - 1]);
                        }
                    } else if i == p.len() {
                        assert(r[i - 1] == p[p.len() - 1]);
                        assert(r[i + 1] == c);
                    }
                }
            } else {
                let r = p.push(c);
                assert forall|i: int| 0 <= i < r.len() && is_ws(#[trigger] r[i]) implies r[i] == ' ' && 0 < i && i
                    + 1 < r.len() && !is_ws(r[i - 1]) && !is_ws(r[i + 1]) by {
                    assert(r[i] == p[i]);
                    if i + 1 < p.len() {
                        assert(r[i + 1] == p[i + 1]);
                    }
                    if i > 0 {
                        assert(r[i - 1] == p[i - 1]);
                    }
                }
            }
        }
    }
}

proof fn lemma_trim_end_punct_prefix(s: Seq<char>)
    ensures
        trim_end_punct(s).len() <= s.len(),
        trim_end_punct(s) == s.take(trim_end_punct(s).len() as int),
    decreases s.len(),
{
    if s.len() > 0 && crate::text::is_terminal_punct(s.last()) {
        lemma_trim_end_punct_prefix(s.drop_last());
        assert(s.drop_last().take(trim_end_punct(s).len() as int) =~= s.take(trim_end_punct(s).len() as int));
    } else {
        assert(s.take(s.len() as int) =~= s);
    }
}

proof fn lemma_trim_end_ws_prefix(s: Seq<char>)
    ensures
        trim_end_ws(s).len() <= s.len(),
        trim_end_ws(s) == s.take(trim_end_ws(s).len() as int),
        trim_end_ws(s).len() > 0 ==> !is_ws(trim_end_ws(s).last()),
    decreases s.len(),
{
    if s.len() > 0 && is_ws(s.last()) {
        lemma_trim_end_ws_prefix(s.drop_last());
        assert(s.drop_last().take(trim_end_ws(s).len() as int) =~= s.take(trim_end_ws(s).len() as int));
    } else {
        assert(s.take(s.len() as int) =~= s);
    }
}

proof fn lemma_collapse_of_open_end(s: Seq<char>)
    requires
        spaced_open_end(s),
    ensures
        collapse_ws(s) == trim_end_ws(s),
    decreases s.len(),
{
    if s.len() > 0 {
        let init = s.drop_last();
        assert forall|i: int| 0 <= i < init.len() && is_ws(#[trigger] init[i]) implies init[i] == ' ' && 0 < i
            && !is_ws(init[i - 1]) && (i + 1 < init.len() ==> !is_ws(init[i + 1])) by {
            assert(init[i] == s[i]);
            assert(init[i - 1] == s[i - 1]);
            if i + 1 < init.len() {
                assert(init[i + 1] == s[i + 1]);
            }
        }
        lemma_collapse_of_open_end(init);
        let c = s.last();
        if !is_ws(c) {
            if init.len() > 0 && is_ws(s[s.len() - 2]) {
                let k = s.len() - 2;
                assert(init[k] == s[k]);
                assert(!is_ws(s[k - 1]));
                assert(init.drop_last() =~= init.take(k));
                assert(trim_end_ws(init.drop_last()) == init.drop_last());
                assert(trim_end_ws(init) == init.drop_last());
                assert(init.drop_last().push(' ').push(c) =~= s);
            } else {
                if init.len() > 0 {
                    assert(init.last() == s[s.len() - 2]);
                }
                assert(init.push(c) =~= s);
            }
        }
    }
}

/// Registry resolution is exact: an entry answers a question exactly when the
/// normalized question equals the normalized form of one of the entry's
/// aliases, or the trimmed question is the entry's canonical id; a question
/// that merely starts or ends like an alias does not match.
pub proof fn law_question_match_is_exact(q: QuestionEntry, question: Seq<char>)
    ensures
        question_matches(q, question) <==> (exists|k: int|
            0 <= k < q.aliases@.len() && normalized(#[trigger] q.aliases@[k]@) == normalized(question)) || q.canonical@
            == trim_ws(question),
{
}

/// A question whose normalized form differs from every normalized alias, and
/// whose trimmed form is no canonical id, has no registry match, so
/// `resolve_tier1` leaves it unresolved.
pub proof fn law_unmatched_question_is_unresolved(qs: Seq<QuestionEntry>, question: Seq<char>)
    requires
        forall|i: int, k: int|
            0 <= i < qs.len() && 0 <= k < qs[i].aliases@.len() ==> normalized(#[trigger] qs[i].aliases@[k]@)
                != normalized(question),
        forall|i: int| 0 <= i < qs.len() ==> (#[trigger] qs[i]).canonical@ != trim_ws(question),
    ensures
        forall|i: int| !first_match(qs, question, i),
{
    assert forall|i: int| !first_match(qs, question, i) by {
        if 0 <= i < qs.len() {
            law_question_match_is_exact(qs[i], question);
        }
    }
}

/// A normalized question is in single-spaced form: trimmed, with every
/// whitespace run collapsed to one space, so trimming or collapsing it again
/// changes nothing.
pub proof fn law_normalized_is_single_spaced(input: Seq<char>)
    ensures
        single_spaced(normalized(input)),
        trim_ws(normalized(input)) == normalized(input),
        collapse_ws(normalized(input)) == normalized(input),
{
    let c = collapse_ws(lowercase(input));
    lemma_collapse_single_spaced(lowercase(input));
    let t = trim_end_punct(c);
    lemma_trim_end_punct_prefix(c);
    let u = trim_end_ws(t);
    lemma_trim_end_ws_prefix(t);
    assert(u =~= c.take(u.len() as int));
    assert forall|i: int| 0 <= i < u.len() && is_ws(#[trigger] u[i]) implies u[i] == ' ' && 0 < i && i + 1 < u.len()
        && !is_ws(u[i - 1]) && !is_ws(u[i + 1]) by {
        assert(u[i] == c[i]);
        assert(is_ws(c[i]));
        assert(u[i - 1] == c[i - 1]);
        if i + 1 == u.len() {
            assert(u.last() == u[i]);
        }
        assert(u[i + 1] == c[i + 1]);
    }
    if u.len() > 0 {
        assert(!is_ws(u[0]));
    }
    assert(trim_start_ws(u) == u);
    let n = normalized(input);
    assert(n == u);
    lemma_trim_end_ws_prefix(n);
    if n.len() > 0 {
        assert(n.last() == n[n.len() - 1]);
        assert(!is_ws(n.last()));
    }
    assert(trim_end_ws(n) == n);
    lemma_collapse_of_open_end(n);
}

} // verus!
