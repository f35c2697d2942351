//! The deterministic knowledge base: question registry, predicate -> evidence
//! options, policy -> required predicates. Reading it from YAML happens at the
//! edge; the library holds it as plain values.

use vstd::prelude::*;
use crate::domain::{AssuranceLevel, Kind};
use crate::strmap::StrMap;
use crate::text::{sort_strings, sorted_strs, views};

verus! {

/// A canonical id with the natural-language aliases that resolve to it.
#[derive(Debug)]
pub struct QuestionEntry {
    pub canonical: String,
    pub kind: Kind,
    pub aliases: Vec<String>,
}

/// One acceptable kind of evidence for a predicate.
#[derive(Debug)]
pub struct EvidenceOption {
    pub evidence_type: String,
    pub assurance: AssuranceLevel,
}

/// A predicate: its acceptable evidence options (config order) and the
/// privacy-minimal option to prefer, if any.
#[derive(Debug)]
pub struct PredicateDef {
    pub evidence: Vec<EvidenceOption>,
    pub prefer: Option<String>,
}

/// A versioned policy: the predicates it requires, in significant order.
#[derive(Debug)]
pub struct PolicyDef {
    pub version: u32,
    pub requires: Vec<String>,
}

/// The complete knowledge base.
pub struct Registry {
    pub questions: Vec<QuestionEntry>,
    pub predicates: StrMap<PredicateDef>,
    pub policies: StrMap<PolicyDef>,
}

impl Registry {
    /// Whether `id` is a known predicate or policy.
    pub open spec fn spec_is_canonical(&self, id: Seq<char>) -> bool {
        self.predicates@.dom().contains(id) || self.policies@.dom().contains(id)
    }

    /// The kind of a known id; a policy id wins over a predicate id.
    pub open spec fn spec_kind_of(&self, id: Seq<char>) -> Option<Kind> {
        if self.policies@.dom().contains(id) {
            Some(Kind::Policy)
        } else if self.predicates@.dom().contains(id) {
            Some(Kind::Predicate)
        } else {
            None
        }
    }

    /// The canonical ids of the question registry, in registry order.
    pub open spec fn question_ids(&self) -> Seq<Seq<char>> {
        self.questions@.map_values(|q: QuestionEntry| q.canonical@)
    }

    /// True if `id` is a known canonical predicate or policy id.
    pub fn is_canonical(&self, id: &str) -> (res: bool)
        ensures
            res == self.spec_is_canonical(id@),
    {
        self.predicates.contains_key(id) || self.policies.contains_key(id)
    }

    /// Kind of a known canonical id.
    pub fn kind_of(&self, id: &str) -> (res: Option<Kind>)
        ensures
            res == self.spec_kind_of(id@),
    {
        if self.policies.contains_key(id) {
            Some(Kind::Policy)
        } else if self.predicates.contains_key(id) {
            Some(Kind::Predicate)
        } else {
            None
        }
    }

    /// All supported questions (canonical ids), sorted.
    pub fn supported_questions(&self) -> (res: Vec<String>)
        ensures
            views(res@).to_multiset() == self.question_ids().to_multiset(),
            sorted_strs(views(res@)),
    {
        let mut ids: Vec<String> = Vec::new();
        let mut i: usize = 0;
        while i < self.questions.len()
            invariant
                i <= self.questions@.len(),
                views(ids@) == self.question_ids().take(i as int),
            decreases self.questions@.len() - i,
        {
            let c = self.questions[i].canonical.clone();
            assert(c@ == self.question_ids()[i as int]);
            proof {
                crate::text::lemma_views_push(ids@, c);
                assert(self.question_ids().take(i + 1) =~= self.question_ids().take(i as int).push(c@));
            }
            ids.push(c);
            i = i + 1;
            assert(views(ids@) =~= self.question_ids().take(i as int));
        }
        assert(self.question_ids().take(i as int) =~= self.question_ids());
        sort_strings(&mut ids);
        ids
    }
}

} // verus!
