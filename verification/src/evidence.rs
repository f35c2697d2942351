//! Privacy-preserving verification of presentations.
//!
//! A raw attribute (e.g. a birth date) is consumed by the verifier, which emits
//! only a derived evidence state. Attribute values never leave this module.

use vstd::prelude::*;
use vstd::utf8::encode_utf8;
use crate::clock::{calendar_date, date_parsed, local_date, parse_date, DateTime};
use crate::crypto::{
    jwk_point, jws_verified_payload, jws_verify, sha256_b64url, sha256_b64url_text,
    b64url_bytes, b64url_decode, verifying_from_jwk, VerifyingKey,
};
use crate::domain::{Evidence, EvidenceState};
use crate::json::{
    json_i64_field, json_i64_member, json_parse_error, json_pointer, json_at_pointer, json_str_at,
    json_str_field, json_str_item, json_str_items, json_str_list, json_str_member, json_valid,
};
use crate::policy::{evidence_views, EvidenceView};
use crate::replay::Challenge;
use crate::strmap::StrMap;
use crate::text::{
    contains_string, count_nonempty, decimal, join, join_with, lemma_count_nonempty_le,
    lemma_views_push, split_char, split_on, usize_to_decimal, views,
};

verus! {

/// The kind of information an attribute conveys, used to enforce minimization.
#[derive(Debug, Clone, Copy, PartialEq, Eq, Structural)]
pub enum AttributeKind {
    /// e.g. a date of birth: must never appear in a business response.
    RawAttribute,
    /// e.g. age_over_18 = true: the minimal disclosure preferred.
    DerivedClaim,
}

/// A wallet presentation. `sd_jwt_vp` carries an SD-JWT VC presentation
/// (issuer JWT, selected disclosures, key-binding JWT); the `evidence`, `nonce`
/// and `audience` fields feed the mock verifier only.
#[derive(Debug)]
pub struct Presentation {
    pub request_id: String,
    pub nonce: String,
    pub audience: String,
    pub evidence: Vec<Evidence>,
    /// Opaque JSON text, carried through unread.
    pub signatures: String,
    /// `<issuer-jwt>~<disclosure>*~<kb-jwt>`.
    pub sd_jwt_vp: Option<String>,
}

impl Default for Presentation {
    fn default() -> (res: Self)
        ensures
            res.request_id@.len() == 0,
            res.nonce@.len() == 0,
            res.audience@.len() == 0,
            res.evidence@.len() == 0,
            res.signatures@ == "null"@,
            res.sd_jwt_vp is None,
    {
        Presentation {
            request_id: String::new(),
            nonce: String::new(),
            audience: String::new(),
            evidence: Vec::new(),
            signatures: "null".to_owned(),
            sd_jwt_vp: None,
        }
    }
}

/// One named verification check.
#[derive(Debug)]
pub struct CheckResult {
    pub name: String,
    pub ok: bool,
    pub detail: String,
}

/// A check result as plain values: (name, ok, detail).
pub type CheckView = (Seq<char>, bool, Seq<char>);

pub open spec fn check_views(s: Seq<CheckResult>) -> Seq<CheckView> {
    s.map_values(|c: CheckResult| (c.name@, c.ok, c.detail@))
}

impl Clone for CheckResult {
    fn clone(&self) -> (res: Self)
        ensures
            res == *self,
    {
        CheckResult { name: self.name.clone(), ok: self.ok, detail: self.detail.clone() }
    }
}

/// A copy of a list of check results.
pub fn clone_checks(v: &Vec<CheckResult>) -> (res: Vec<CheckResult>)
    ensures
        res@ == v@,
{
    let mut out: Vec<CheckResult> = Vec::new();
    let mut i: usize = 0;
    while i < v.len()
        invariant
            i <= v@.len(),
            out@ == v@.take(i as int),
        decreases v@.len() - i,
    {
        out.push(v[i].clone());
        i = i + 1;
        assert(out@ =~= v@.take(i as int));
    }
    assert(v@.take(i as int) =~= v@);
    out
}

impl CheckResult {
    fn pass(name: &str, detail: &str) -> (res: Self)
        ensures
            res.name@ == name@,
            res.ok,
            res.detail@ == detail@,
    {
        CheckResult { name: name.to_owned(), ok: true, detail: detail.to_owned() }
    }

    fn fail(name: &str, detail: &str) -> (res: Self)
        ensures
            res.name@ == name@,
            !res.ok,
            res.detail@ == detail@,
    {
        CheckResult { name: name.to_owned(), ok: false, detail: detail.to_owned() }
    }
}

/// The outcome of verifying a presentation.
#[derive(Debug)]
pub struct VerificationResult {
    /// True iff every check passed.
    pub ok: bool,
    /// The failing check's code when `ok` is false.
    pub failed_check: Option<String>,
    pub checks: Vec<CheckResult>,
    /// Evidence type and state derived from disclosures; no attribute values.
    pub verified_evidence: Vec<Evidence>,
    /// Nonce and audience taken from the verified key-binding JWT.
    pub nonce: String,
    pub audience: String,
    pub disclosure_count: usize,
}


/// The check outcome as plain values.
pub struct VerifyOutcome {
    pub ok: bool,
    pub failed_check: Option<Seq<char>>,
    pub checks: Seq<CheckView>,
    pub evidence: Seq<EvidenceView>,
    pub nonce: Seq<char>,
    pub audience: Seq<char>,
    pub disclosure_count: nat,
}

impl VerificationResult {
    /// This result, as plain values, is `o`.
    pub open spec fn is(&self, o: VerifyOutcome) -> bool {
        &&& self.ok == o.ok
        &&& match self.failed_check {
            Some(f) => o.failed_check == Some(f@),
            None => o.failed_check is None,
        }
        &&& check_views(self.checks@) == o.checks
        &&& evidence_views(self.verified_evidence@) == o.evidence
        &&& self.nonce@ == o.nonce
        &&& self.audience@ == o.audience
        &&& self.disclosure_count == o.disclosure_count
    }
}

/// Verification seam: `now` is the injected evaluation clock.
pub trait CredentialVerifier {
    fn verify(&self, presentation: &Presentation, challenge: &Challenge, now: DateTime) -> VerificationResult;
}

// ---------------------------------------------------------------------------
// Mock verifier (tests): no cryptography, trusts the presented states.
// ---------------------------------------------------------------------------

/// A verifier that trusts the presented evidence states (for tests).
pub struct MockCredentialVerifier;

/// The presented evidence that is AVAILABLE, in order.
pub open spec fn available_only(s: Seq<Evidence>) -> Seq<EvidenceView>
    decreases s.len(),
{
    if s.len() == 0 {
        Seq::empty()
    } else if s.last().state == EvidenceState::Available {
        available_only(s.drop_last()).push((s.last().evidence_type@, s.last().state))
    } else {
        available_only(s.drop_last())
    }
}

impl CredentialVerifier for MockCredentialVerifier {
    /// Passes every presentation, keeping the AVAILABLE evidence it carries.
    fn verify(&self, presentation: &Presentation, _challenge: &Challenge, _now: DateTime) -> (res:
        VerificationResult)
        ensures
            res.is(
                VerifyOutcome {
                    ok: true,
                    failed_check: None,
                    checks: seq![("MOCK_VERIFIER"@, true, "states trusted (test seam)"@)],
                    evidence: available_only(presentation.evidence@),
                    nonce: presentation.nonce@,
                    audience: presentation.audience@,
                    disclosure_count: 0,
                },
            ),
    {
        let mut verified: Vec<Evidence> = Vec::new();
        let mut i: usize = 0;
        while i < presentation.evidence.len()
            invariant
                i <= presentation.evidence@.len(),
                evidence_views(verified@) == available_only(presentation.evidence@.take(i as int)),
            decreases presentation.evidence@.len() - i,
        {
            assert(presentation.evidence@.take(i + 1).drop_last() =~= presentation.evidence@.take(i as int));
            if presentation.evidence[i].state == EvidenceState::Available {
                let e = presentation.evidence[i].clone();
                assert(evidence_views(verified@.push(e)) =~= evidence_views(verified@).push((e.evidence_type@, e.state)));
                verified.push(e);
            }
            i = i + 1;
        }
        assert(presentation.evidence@.take(i as int) =~= presentation.evidence@);
        let mut checks: Vec<CheckResult> = Vec::new();
        checks.push(CheckResult::pass("MOCK_VERIFIER", "states trusted (test seam)"));
        assert(check_views(checks@) =~= seq![("MOCK_VERIFIER"@, true, "states trusted (test seam)"@)]);
        VerificationResult {
            ok: true,
            failed_check: None,
            checks,
            verified_evidence: verified,
            nonce: presentation.nonce.clone(),
            audience: presentation.audience.clone(),
            disclosure_count: 0,
        }
    }
}

// ---------------------------------------------------------------------------
// Claim derivation: evidence STATES from disclosed claims, never values.
// ---------------------------------------------------------------------------

/// The SD-JWT claim that establishes an evidence type.
pub open spec fn required_claim(t: Seq<char>) -> Option<Seq<char>> {
    if t == "AGE_ATTESTATION"@ {
        Some("birth_date"@)
    } else if t == "GOVERNMENT_IDENTITY"@ {
        Some("family_name"@)
    } else if t == "RESIDENCE_CREDENTIAL"@ {
        Some("resident_country"@)
    } else {
        None
    }
}

fn required_claim_for(evidence_type: &String) -> (res: Option<&'static str>)
    ensures
        match res {
            Some(c) => required_claim(evidence_type@) == Some(c@),
            None => required_claim(evidence_type@) is None,
        },
{
    if *evidence_type == "AGE_ATTESTATION".to_owned() {
        Some("birth_date")
    } else if *evidence_type == "GOVERNMENT_IDENTITY".to_owned() {
        Some("family_name")
    } else if *evidence_type == "RESIDENCE_CREDENTIAL".to_owned() {
        Some("resident_country")
    } else {
        None
    }
}

/// The EU member states, by ISO 3166 alpha-2 code.
pub open spec fn eu_countries() -> Seq<Seq<char>> {
    seq![
        "AT"@, "BE"@, "BG"@, "HR"@, "CY"@, "CZ"@, "DK"@, "EE"@, "FI"@, "FR"@, "DE"@, "GR"@,
        "HU"@, "IE"@, "IT"@, "LV"@, "LT"@, "LU"@, "MT"@, "NL"@, "PL"@, "PT"@, "RO"@, "SK"@,
        "SI"@, "ES"@, "SE"@,
    ]
}

fn is_eu_country(c: &String) -> (res: bool)
    ensures
        res == eu_countries().contains(c@),
{
    let codes: Vec<String> = vec![
        "AT".to_owned(), "BE".to_owned(), "BG".to_owned(), "HR".to_owned(), "CY".to_owned(),
        "CZ".to_owned(), "DK".to_owned(), "EE".to_owned(), "FI".to_owned(), "FR".to_owned(),
        "DE".to_owned(), "GR".to_owned(), "HU".to_owned(), "IE".to_owned(), "IT".to_owned(),
        "LV".to_owned(), "LT".to_owned(), "LU".to_owned(), "MT".to_owned(), "NL".to_owned(),
        "PL".to_owned(), "PT".to_owned(), "RO".to_owned(), "SK".to_owned(), "SI".to_owned(),
        "ES".to_owned(), "SE".to_owned(),
    ];
    assert(views(codes@) =~= eu_countries());
    contains_string(&codes, c)
}

/// Age in whole years on `today` of someone born on `birth`, both (y, m, d).
pub open spec fn age_on(birth: (i32, u8, u8), today: (i32, u8, u8)) -> int {
    let before_birthday = today.1 < birth.1 || (today.1 == birth.1 && today.2 < birth.2);
    today.0 - birth.0 - if before_birthday { 1int } else { 0int }
}

/// Whether the `YYYY-MM-DD` birth date makes its holder at least 18 on the
/// calendar day of `now` (`None` when a date cannot be read).
pub open spec fn over_18(birth_date: Seq<char>, now: DateTime) -> Option<bool> {
    match date_parsed(birth_date, "[year]-[month]-[day]"@) {
        None => None,
        Some(b) => Some(age_on(b, local_date(now.spec_unix(), now.spec_nanos(), now.spec_offset())) >= 18),
    }
}

/// Calendar dates as (year, month, day), in order: `a` falls on or before `b`.
pub open spec fn date_on_or_before(a: (int, int, int), b: (int, int, int)) -> bool {
    a.0 < b.0 || (a.0 == b.0 && (a.1 < b.1 || (a.1 == b.1 && a.2 <= b.2)))
}

/// The birthday in year `year` of someone born on `birth`.
pub open spec fn birthday_in(birth: (i32, u8, u8), year: int) -> (int, int, int) {
    (year, birth.1 as int, birth.2 as int)
}

pub open spec fn as_date(d: (i32, u8, u8)) -> (int, int, int) {
    (d.0 as int, d.1 as int, d.2 as int)
}

/// Age counts whole years: on `today` the holder's birthday of the year
/// `birth.0 + age` has come, and the one a year later has not.
pub proof fn law_age_counts_birthdays_passed(birth: (i32, u8, u8), today: (i32, u8, u8))
    ensures
        date_on_or_before(birthday_in(birth, birth.0 + age_on(birth, today)), as_date(today)),
        !date_on_or_before(birthday_in(birth, birth.0 + age_on(birth, today) + 1), as_date(today)),
{
}

/// A readable birth date makes its holder at least 18 exactly when the 18th
/// birthday falls on or before the calendar day of `now`.
pub proof fn law_over_18_from_eighteenth_birthday(birth_date: Seq<char>, now: DateTime)
    ensures
        date_parsed(birth_date, "[year]-[month]-[day]"@) matches Some(b) ==> over_18(birth_date, now) == Some(
            date_on_or_before(
                birthday_in(b, b.0 + 18),
                as_date(local_date(now.spec_unix(), now.spec_nanos(), now.spec_offset())),
            ),
        ),
        date_parsed(birth_date, "[year]-[month]-[day]"@) is None ==> over_18(birth_date, now) is None,
{
    if let Some(b) = date_parsed(birth_date, "[year]-[month]-[day]"@) {
        law_age_counts_birthdays_passed(b, local_date(now.spec_unix(), now.spec_nanos(), now.spec_offset()));
    }
}

/// Age check against the injected clock.
fn is_over_18(birth_date: &str, now: &DateTime) -> (res: Result<bool, String>)
    ensures
        match res {
            Ok(b) => over_18(birth_date@, *now) == Some(b),
            Err(_) => over_18(birth_date@, *now) is None,
        },
{
    let bd = match parse_date(birth_date, "[year]-[month]-[day]") {
        Some(d) => d,
        None => return Err("birth_date: not a [year]-[month]-[day] date".to_owned()),
    };
    proof {
        use_type_invariant(now);
    }
    let today = match calendar_date(now) {
        Some(d) => d,
        None => return Err("evaluation time out of range".to_owned()),
    };
    let mut years: i64 = (today.0 as i64) - (bd.0 as i64);
    if today.1 < bd.1 || (today.1 == bd.1 && today.2 < bd.2) {
        years = years - 1;
    }
    Ok(years >= 18)
}

/// The state an evidence type takes from the value disclosed for its claim
/// (`Some(text)` when that value is a JSON string).
pub open spec fn derived_state(t: Seq<char>, value: Option<Seq<char>>, now: DateTime) -> EvidenceState {
    if t == "AGE_ATTESTATION"@ {
        match value {
            Some(s) => match over_18(s, now) {
                Some(true) => EvidenceState::Available,
                Some(false) => EvidenceState::Invalid,
                None => EvidenceState::Unknown,
            },
            None => EvidenceState::Unknown,
        }
    } else if t == "RESIDENCE_CREDENTIAL"@ {
        match value {
            Some(c) => if eu_countries().contains(c) {
                EvidenceState::Available
            } else {
                EvidenceState::Invalid
            },
            None => EvidenceState::Unknown,
        }
    } else {
        EvidenceState::Available
    }
}

fn derive_state(evidence_type: &String, value: &Option<String>, now: &DateTime) -> (res: EvidenceState)
    ensures
        res == derived_state(evidence_type@, opt_view(*value), *now),
{
    if *evidence_type == "AGE_ATTESTATION".to_owned() {
        match value {
            Some(s) => match is_over_18(s.as_str(), now) {
                Ok(true) => EvidenceState::Available,
                Ok(false) => EvidenceState::Invalid,
                Err(_) => EvidenceState::Unknown,
            },
            None => EvidenceState::Unknown,
        }
    } else if *evidence_type == "RESIDENCE_CREDENTIAL".to_owned() {
        match value {
            Some(c) => if is_eu_country(c) {
                EvidenceState::Available
            } else {
                EvidenceState::Invalid
            },
            None => EvidenceState::Unknown,
        }
    } else {
        EvidenceState::Available
    }
}

pub open spec fn opt_view(o: Option<String>) -> Option<Seq<char>> {
    match o {
        Some(s) => Some(s@),
        None => None,
    }
}

/// Disclosed claims: name -> string value (if the value is a JSON string).
pub type DisclosedView = Map<Seq<char>, Option<Seq<char>>>;

pub open spec fn disclosed_view(m: Map<Seq<char>, Option<String>>) -> DisclosedView {
    m.map_values(|o: Option<String>| opt_view(o))
}

/// The state derived for each required evidence type, in order: MISSING when
/// the establishing claim was not disclosed (or the type has none).
pub open spec fn derived_evidence(required: Seq<Seq<char>>, disclosed: DisclosedView, now: DateTime) -> Seq<EvidenceView> {
    required.map_values(|t: Seq<char>| (t, match required_claim(t) {
        Some(c) => if disclosed.dom().contains(c) {
            derived_state(t, disclosed[c], now)
        } else {
            EvidenceState::Missing
        },
        None => EvidenceState::Missing,
    }))
}

fn derive_evidence(required: &Vec<String>, disclosed: &StrMap<Option<String>>, now: &DateTime) -> (res: Vec<Evidence>)
    ensures
        evidence_views(res@) == derived_evidence(views(required@), disclosed_view(disclosed@), *now),
{
    let ghost target = derived_evidence(views(required@), disclosed_view(disclosed@), *now);
    let mut out: Vec<Evidence> = Vec::new();
    let mut i: usize = 0;
    while i < required.len()
        invariant
            i <= required@.len(),
            target == derived_evidence(views(required@), disclosed_view(disclosed@), *now),
            evidence_views(out@) == target.take(i as int),
        decreases required@.len() - i,
    {
        let et = &required[i];
        let state = match required_claim_for(et) {
            Some(claim) => match disclosed.get(claim) {
                None => EvidenceState::Missing,
                Some(value) => derive_state(et, value, now),
            },
            None => EvidenceState::Missing,
        };
        let e = Evidence { evidence_type: et.clone(), state };
        assert(views(required@)[i as int] == et@);
        assert(evidence_views(out@.push(e)) =~= evidence_views(out@).push((e.evidence_type@, e.state)));
        out.push(e);
        i = i + 1;
        assert(evidence_views(out@) =~= target.take(i as int));
    }
    assert(target.take(i as int) =~= target);
    out
}


// ---------------------------------------------------------------------------
// SD-JWT VC verifier.
// ---------------------------------------------------------------------------

/// One disclosure `d` (base64url of the JSON array `[salt, name, value]`):
/// its digest must be listed in `_sd`, it must decode to JSON, and its name
/// must be a non-empty string. Gives the name and the value (if a string), or
/// the reason for rejecting it.
pub open spec fn disclosure_step(d: Seq<char>, sd: Seq<Seq<char>>) -> Result<(Seq<char>, Option<Seq<char>>), Seq<char>> {
    if !sd.contains(sha256_b64url_text(encode_utf8(d))) {
        Err("disclosure digest not in _sd"@)
    } else {
        match b64url_bytes(d) {
            None => Err("disclosure not base64url"@),
            Some(raw) => if !json_valid(raw) {
                Err("disclosure not JSON"@)
            } else {
                let name = match json_str_item(raw, 1) {
                    Some(n) => n,
                    None => Seq::empty(),
                };
                if name.len() == 0 {
                    Err("malformed disclosure array"@)
                } else {
                    Ok((name, json_str_item(raw, 2)))
                }
            },
        }
    }
}

/// Process the disclosures in order (skipping empty ones): the claims they
/// disclose (a later disclosure of a name wins), or the first rejection.
pub open spec fn disclosures_outcome(ds: Seq<Seq<char>>, sd: Seq<Seq<char>>, acc: DisclosedView) -> Result<DisclosedView, Seq<char>>
    decreases ds.len(),
{
    if ds.len() == 0 {
        Ok(acc)
    } else if ds[0].len() == 0 {
        disclosures_outcome(ds.drop_first(), sd, acc)
    } else {
        match disclosure_step(ds[0], sd) {
            Err(e) => Err(e),
            Ok((n, v)) => disclosures_outcome(ds.drop_first(), sd, acc.insert(n, v)),
        }
    }
}

/// A failed verification after the checks `checks`.
pub open spec fn fail_outcome(code: Seq<char>, detail: Seq<char>, checks: Seq<CheckView>, dcount: nat) -> VerifyOutcome {
    VerifyOutcome {
        ok: false,
        failed_check: Some(code),
        checks: checks.push((code, false, detail)),
        evidence: Seq::empty(),
        nonce: Seq::empty(),
        audience: Seq::empty(),
        disclosure_count: dcount,
    }
}

pub open spec fn str_or_empty(o: Option<Seq<char>>) -> Seq<char> {
    match o {
        Some(s) => s,
        None => Seq::empty(),
    }
}

/// What the verifier concludes once the issuer JWT, issuer identity and
/// disclosures have passed: expiry, key binding, nonce, then claim derivation.
pub open spec fn binding_outcome(
    parts: Seq<Seq<char>>,
    dcount: nat,
    payload: Seq<u8>,
    disclosed: DisclosedView,
    c1: Seq<CheckView>,
    ch_nonce: Seq<char>,
    ch_aud: Seq<char>,
    required: Seq<Seq<char>>,
    now: DateTime,
) -> VerifyOutcome {
    let c2 = c1.push(("DISCLOSURE_DIGESTS"@, true, decimal(dcount) + " disclosure(s) matched _sd"@));
    let exp = match json_i64_member(payload, "exp"@) {
        Some(e) => e as int,
        None => 0,
    };
    if now.spec_unix() > exp {
        fail_outcome("EXPIRED_CREDENTIAL"@, "credential exp is in the past"@, c2, dcount)
    } else {
        let c3 = c2.push(("CREDENTIAL_VALIDITY"@, true, "not expired at evaluationTime"@));
        match json_at_pointer(payload, "/cnf/jwk"@) {
            None => fail_outcome("KEY_BINDING_MISMATCH"@, "missing cnf.jwk"@, c3, dcount),
            Some(jwk) => match jwk_point(jwk) {
                None => fail_outcome("KEY_BINDING_MISMATCH"@, "invalid cnf.jwk"@, c3, dcount),
                Some((hx, hy)) => match jws_verified_payload(hx, hy, parts.last()) {
                    None => fail_outcome("KEY_BINDING_MISMATCH"@, "KB-JWT signature invalid"@, c3, dcount),
                    Some(kb) => {
                        let aud = str_or_empty(json_str_member(kb, "aud"@));
                        let presented = join_with(parts.take(parts.len() - 1), "~"@) + "~"@;
                        let sd_hash = str_or_empty(json_str_member(kb, "sd_hash"@));
                        let nonce = str_or_empty(json_str_member(kb, "nonce"@));
                        if aud != ch_aud {
                            fail_outcome("KEY_BINDING_MISMATCH"@, "KB-JWT aud mismatch"@, c3, dcount)
                        } else if sd_hash != sha256_b64url_text(encode_utf8(presented)) {
                            fail_outcome("KEY_BINDING_MISMATCH"@, "KB-JWT sd_hash mismatch"@, c3, dcount)
                        } else {
                            let c4 = c3.push(("KEY_BINDING"@, true, "KB-JWT signature, aud, sd_hash valid"@));
                            if nonce != ch_nonce {
                                fail_outcome("NONCE_MISMATCH"@, "KB-JWT nonce != request nonce"@, c4, dcount)
                            } else {
                                let c5 = c4.push(("NONCE_BINDING"@, true, "KB-JWT nonce matches request"@));
                                VerifyOutcome {
                                    ok: true,
                                    failed_check: None,
                                    checks: c5.push(("CLAIM_DERIVATION"@, true, "derived boolean claims (raw values discarded)"@)),
                                    evidence: derived_evidence(required, disclosed, now),
                                    nonce,
                                    audience: aud,
                                    disclosure_count: dcount,
                                }
                            }
                        }
                    },
                },
            },
        }
    }
}

/// What the verifier concludes about the presentation `vp`, for an issuer with
/// public key (ix, iy) and identifier `iss`, against a challenge's nonce,
/// audience and required evidence, at time `now`.
pub open spec fn sd_jwt_outcome(
    ix: Seq<u8>,
    iy: Seq<u8>,
    iss: Seq<char>,
    vp: Option<Seq<char>>,
    ch_nonce: Seq<char>,
    ch_aud: Seq<char>,
    required: Seq<Seq<char>>,
    now: DateTime,
) -> VerifyOutcome {
    let c0 = Seq::<CheckView>::empty();
    match vp {
        None => fail_outcome("MISSING_SD_JWT_VP"@, "no SD-JWT VP present"@, c0, 0),
        Some(v) => if v.len() == 0 {
            fail_outcome("MISSING_SD_JWT_VP"@, "no SD-JWT VP present"@, c0, 0)
        } else {
            let parts = split_on(v, '~');
            if parts.len() < 2 {
                fail_outcome("MALFORMED_VP"@, "expected issuer JWT and KB-JWT"@, c0, 0)
            } else if parts.last().len() == 0 {
                fail_outcome("MALFORMED_VP"@, "missing KB-JWT (presentation not key-bound)"@, c0, 0)
            } else {
                let ds = parts.subrange(1, parts.len() - 1);
                let dcount = count_nonempty(ds);
                match jws_verified_payload(ix, iy, parts[0]) {
                    None => fail_outcome("INVALID_SIGNATURE"@, "issuer JWT signature invalid"@, c0, dcount),
                    Some(payload) => {
                        let c1 = c0.push(("ISSUER_SIGNATURE"@, true, "valid against issuer JWKS"@));
                        if json_str_member(payload, "iss"@) != Some(iss) {
                            fail_outcome("UNTRUSTED_ISSUER"@, "iss does not match trust anchor"@, c1, dcount)
                        } else {
                            match disclosures_outcome(ds, json_str_items(payload, "_sd"@), Map::empty()) {
                                Err(e) => fail_outcome("UNKNOWN_DISCLOSURE"@, e, c1, dcount),
                                Ok(m) => binding_outcome(parts, dcount, payload, m, c1, ch_nonce, ch_aud, required, now),
                            }
                        }
                    },
                }
            }
        },
    }
}

/// The outcome is a failure that names its check, or a pass of every check.
pub open spec fn fails_closed(o: VerifyOutcome) -> bool {
    &&& o.ok <==> o.failed_check is None
    &&& !o.ok ==> o.evidence.len() == 0 && o.checks.len() > 0 && o.checks.last().1 == false
        && Some(o.checks.last().0) == o.failed_check
        && forall|i: int| 0 <= i < o.checks.len() - 1 ==> (#[trigger] o.checks[i]).1
    &&& o.ok ==> forall|i: int| 0 <= i < o.checks.len() ==> (#[trigger] o.checks[i]).1
}

proof fn lemma_fail_outcome_closed(code: Seq<char>, detail: Seq<char>, checks: Seq<CheckView>, dcount: nat)
    requires
        forall|i: int| 0 <= i < checks.len() ==> (#[trigger] checks[i]).1,
    ensures
        fails_closed(fail_outcome(code, detail, checks, dcount)),
{
    let o = fail_outcome(code, detail, checks, dcount);
    assert forall|i: int| 0 <= i < o.checks.len() - 1 implies (#[trigger] o.checks[i]).1 by {
        assert(o.checks[i] == checks[i]);
    }
}

proof fn lemma_passed_push(checks: Seq<CheckView>, c: CheckView)
    requires
        forall|i: int| 0 <= i < checks.len() ==> (#[trigger] checks[i]).1,
        c.1,
    ensures
        forall|i: int| 0 <= i < checks.push(c).len() ==> (#[trigger] checks.push(c)[i]).1,
{
    assert forall|i: int| 0 <= i < checks.push(c).len() implies (#[trigger] checks.push(c)[i]).1 by {
        if i < checks.len() {
            assert(checks.push(c)[i] == checks[i]);
        }
    }
}

/// Verification fails closed: a presentation either passes every check, with
/// no failed check named, or fails at exactly one named check, the last one
/// recorded, after only passed checks, and then yields no evidence at all.
pub proof fn law_verification_fails_closed(
    ix: Seq<u8>,
    iy: Seq<u8>,
    iss: Seq<char>,
    vp: Option<Seq<char>>,
    ch_nonce: Seq<char>,
    ch_aud: Seq<char>,
    required: Seq<Seq<char>>,
    now: DateTime,
)
    ensures
        fails_closed(sd_jwt_outcome(ix, iy, iss, vp, ch_nonce, ch_aud, required, now)),
{
    let c0 = Seq::<CheckView>::empty();
    let c1 = c0.push(("ISSUER_SIGNATURE"@, true, "valid against issuer JWKS"@));
    lemma_passed_push(c0, ("ISSUER_SIGNATURE"@, true, "valid against issuer JWKS"@));
    match vp {
        None => lemma_fail_outcome_closed("MISSING_SD_JWT_VP"@, "no SD-JWT VP present"@, c0, 0),
        Some(v) => {
            if v.len() == 0 {
                lemma_fail_outcome_closed("MISSING_SD_JWT_VP"@, "no SD-JWT VP present"@, c0, 0);
            } else {
                let parts = split_on(v, '~');
                let ds = parts.subrange(1, parts.len() - 1);
                let dcount = count_nonempty(ds);
                if parts.len() < 2 {
                    lemma_fail_outcome_closed("MALFORMED_VP"@, "expected issuer JWT and KB-JWT"@, c0, 0);
                } else if parts.last().len() == 0 {
                    lemma_fail_outcome_closed(
                        "MALFORMED_VP"@,
                        "missing KB-JWT (presentation not key-bound)"@,
                        c0,
                        0,
                    );
                } else {
                    match jws_verified_payload(ix, iy, parts[0]) {
                        None => lemma_fail_outcome_closed(
                            "INVALID_SIGNATURE"@,
                            "issuer JWT signature invalid"@,
                            c0,
                            dcount,
                        ),
                        Some(payload) => {
                            if json_str_member(payload, "iss"@) != Some(iss) {
                                lemma_fail_outcome_closed(
                                    "UNTRUSTED_ISSUER"@,
                                    "iss does not match trust anchor"@,
                                    c1,
                                    dcount,
                                );
                            } else {
                                match disclosures_outcome(ds, json_str_items(payload, "_sd"@), Map::empty()) {
                                    Err(e) => lemma_fail_outcome_closed("UNKNOWN_DISCLOSURE"@, e, c1, dcount),
                                    Ok(m) => lemma_binding_closed(
                                        parts,
                                        dcount,
                                        payload,
                                        m,
                                        c1,
                                        ch_nonce,
                                        ch_aud,
                                        required,
                                        now,
                                    ),
                                }
                            }
                        },
                    }
                }
            }
        },
    }
}

proof fn lemma_binding_closed(
    parts: Seq<Seq<char>>,
    dcount: nat,
    payload: Seq<u8>,
    disclosed: DisclosedView,
    c1: Seq<CheckView>,
    ch_nonce: Seq<char>,
    ch_aud: Seq<char>,
    required: Seq<Seq<char>>,
    now: DateTime,
)
    requires
        forall|i: int| 0 <= i < c1.len() ==> (#[trigger] c1[i]).1,
    ensures
        fails_closed(binding_outcome(parts, dcount, payload, disclosed, c1, ch_nonce, ch_aud, required, now)),
{
    let c2 = c1.push(("DISCLOSURE_DIGESTS"@, true, decimal(dcount) + " disclosure(s) matched _sd"@));
    lemma_passed_push(c1, ("DISCLOSURE_DIGESTS"@, true, decimal(dcount) + " disclosure(s) matched _sd"@));
    let c3 = c2.push(("CREDENTIAL_VALIDITY"@, true, "not expired at evaluationTime"@));
    lemma_passed_push(c2, ("CREDENTIAL_VALIDITY"@, true, "not expired at evaluationTime"@));
    let c4 = c3.push(("KEY_BINDING"@, true, "KB-JWT signature, aud, sd_hash valid"@));
    lemma_passed_push(c3, ("KEY_BINDING"@, true, "KB-JWT signature, aud, sd_hash valid"@));
    let c5 = c4.push(("NONCE_BINDING"@, true, "KB-JWT nonce matches request"@));
    lemma_passed_push(c4, ("NONCE_BINDING"@, true, "KB-JWT nonce matches request"@));
    lemma_passed_push(c5, ("CLAIM_DERIVATION"@, true, "derived boolean claims (raw values discarded)"@));
    lemma_fail_outcome_closed("EXPIRED_CREDENTIAL"@, "credential exp is in the past"@, c2, dcount);
    lemma_fail_outcome_closed("KEY_BINDING_MISMATCH"@, "missing cnf.jwk"@, c3, dcount);
    lemma_fail_outcome_closed("KEY_BINDING_MISMATCH"@, "invalid cnf.jwk"@, c3, dcount);
    lemma_fail_outcome_closed("KEY_BINDING_MISMATCH"@, "KB-JWT signature invalid"@, c3, dcount);
    lemma_fail_outcome_closed("KEY_BINDING_MISMATCH"@, "KB-JWT aud mismatch"@, c3, dcount);
    lemma_fail_outcome_closed("KEY_BINDING_MISMATCH"@, "KB-JWT sd_hash mismatch"@, c3, dcount);
    lemma_fail_outcome_closed("NONCE_MISMATCH"@, "KB-JWT nonce != request nonce"@, c4, dcount);
}

/// Only derived states cross the boundary: a passing verification yields one
/// piece of evidence per required type, in the challenge's order, each holding
/// just that type and a state; a failing one yields none.
pub proof fn law_evidence_is_required_types_only(
    ix: Seq<u8>,
    iy: Seq<u8>,
    iss: Seq<char>,
    vp: Option<Seq<char>>,
    ch_nonce: Seq<char>,
    ch_aud: Seq<char>,
    required: Seq<Seq<char>>,
    now: DateTime,
)
    ensures
        ({
            let o = sd_jwt_outcome(ix, iy, iss, vp, ch_nonce, ch_aud, required, now);
            &&& o.ok ==> o.evidence.len() == required.len() && forall|i: int|
                0 <= i < required.len() ==> (#[trigger] o.evidence[i]).0 == required[i]
            &&& !o.ok ==> o.evidence.len() == 0
        }),
{
    law_verification_fails_closed(ix, iy, iss, vp, ch_nonce, ch_aud, required, now);
    let o = sd_jwt_outcome(ix, iy, iss, vp, ch_nonce, ch_aud, required, now);
    if o.ok {
        let v = vp->0;
        let parts = split_on(v, '~');
        let ds = parts.subrange(1, parts.len() - 1);
        let payload = jws_verified_payload(ix, iy, parts[0])->0;
        let m = disclosures_outcome(ds, json_str_items(payload, "_sd"@), Map::empty())->Ok_0;
        let dcount = count_nonempty(ds);
        let c1 = Seq::<CheckView>::empty().push(("ISSUER_SIGNATURE"@, true, "valid against issuer JWKS"@));
        assert(o == binding_outcome(parts, dcount, payload, m, c1, ch_nonce, ch_aud, required, now));
        assert(o.evidence == derived_evidence(required, m, now));
    }
}

/// Claim derivation: each required evidence type gets, in order, a state and
/// nothing else: MISSING when the type has no establishing claim or that claim
/// was not disclosed; for an age attestation, AVAILABLE or INVALID as the
/// disclosed birth date makes its holder at least 18 on the clock's day or not
/// (UNKNOWN when it cannot be read); for a residence credential, AVAILABLE for
/// an EU country code and INVALID for another string (UNKNOWN for a value that
/// is no string); for any other type, AVAILABLE once its claim is disclosed.
pub proof fn law_derived_states(required: Seq<Seq<char>>, disclosed: DisclosedView, now: DateTime, i: int)
    requires
        0 <= i < required.len(),
    ensures
        ({
            let e = derived_evidence(required, disclosed, now);
            let t = required[i];
            &&& e.len() == required.len()
            &&& e[i].0 == t
            &&& match required_claim(t) {
                None => e[i].1 == EvidenceState::Missing,
                Some(c) => if !disclosed.dom().contains(c) {
                    e[i].1 == EvidenceState::Missing
                } else if t == "AGE_ATTESTATION"@ {
                    e[i].1 == match disclosed[c] {
                        Some(v) => match over_18(v, now) {
                            Some(true) => EvidenceState::Available,
                            Some(false) => EvidenceState::Invalid,
                            None => EvidenceState::Unknown,
                        },
                        None => EvidenceState::Unknown,
                    }
                } else if t == "RESIDENCE_CREDENTIAL"@ {
                    e[i].1 == match disclosed[c] {
                        Some(v) => if eu_countries().contains(v) {
                            EvidenceState::Available
                        } else {
                            EvidenceState::Invalid
                        },
                        None => EvidenceState::Unknown,
                    }
                } else {
                    e[i].1 == EvidenceState::Available
                },
            }
        }),
{
}

/// Determinism: verifying the same presentation against the same issuer key,
/// issuer identity and challenge at the same clock gives the same result.
pub proof fn law_verification_deterministic(
    a: &VerificationResult,
    b: &VerificationResult,
    ix: Seq<u8>,
    iy: Seq<u8>,
    iss: Seq<char>,
    vp: Option<Seq<char>>,
    ch_nonce: Seq<char>,
    ch_aud: Seq<char>,
    required: Seq<Seq<char>>,
    now: DateTime,
)
    requires
        a.is(sd_jwt_outcome(ix, iy, iss, vp, ch_nonce, ch_aud, required, now)),
        b.is(sd_jwt_outcome(ix, iy, iss, vp, ch_nonce, ch_aud, required, now)),
    ensures
        a.ok == b.ok,
        opt_view(a.failed_check) == opt_view(b.failed_check),
        check_views(a.checks@) == check_views(b.checks@),
        evidence_views(a.verified_evidence@) == evidence_views(b.verified_evidence@),
        a.nonce@ == b.nonce@,
        a.audience@ == b.audience@,
        a.disclosure_count == b.disclosure_count,
{
}

/// Build a failed result after the checks so far.
fn fail(code: &str, detail: &str, checks: Vec<CheckResult>, dcount: usize) -> (res: VerificationResult)
    ensures
        res.is(fail_outcome(code@, detail@, check_views(checks@), dcount as nat)),
{
    let mut checks = checks;
    let c = CheckResult::fail(code, detail);
    assert(check_views(checks@.push(c)) =~= check_views(checks@).push((c.name@, c.ok, c.detail@)));
    checks.push(c);
    let verified_evidence: Vec<Evidence> = Vec::new();
    assert(evidence_views(verified_evidence@) =~= Seq::<EvidenceView>::empty());
    VerificationResult {
        ok: false,
        failed_check: Some(code.to_owned()),
        checks,
        verified_evidence,
        nonce: String::new(),
        audience: String::new(),
        disclosure_count: dcount,
    }
}

fn push_pass(checks: &mut Vec<CheckResult>, name: &str, detail: &str)
    ensures
        check_views(final(checks)@) == check_views(old(checks)@).push((name@, true, detail@)),
{
    let c = CheckResult::pass(name, detail);
    assert(check_views(checks@.push(c)) =~= check_views(checks@).push((c.name@, c.ok, c.detail@)));
    checks.push(c);
}

fn sd_contains(sd: &Vec<String>, digest: &String) -> (res: bool)
    ensures
        res == views(sd@).contains(digest@),
{
    contains_string(sd, digest)
}

/// Process the disclosures: map claim name -> string value, or the rejection.
fn collect_disclosures(ds: &Vec<String>, sd: &Vec<String>) -> (res: Result<StrMap<Option<String>>, &'static str>)
    ensures
        match res {
            Ok(m) => disclosures_outcome(views(ds@), views(sd@), Map::empty()) == Ok::<DisclosedView, Seq<char>>(disclosed_view(m@)),
            Err(e) => disclosures_outcome(views(ds@), views(sd@), Map::empty()) == Err::<DisclosedView, Seq<char>>(e@),
        },
{
    let ghost dv = views(ds@);
    let mut m: StrMap<Option<String>> = StrMap::new();
    proof {
        assert(disclosed_view(m@) =~= Map::<Seq<char>, Option<Seq<char>>>::empty());
        assert(dv.skip(0) =~= dv);
    }
    let mut i: usize = 0;
    while i < ds.len()
        invariant
            i <= ds@.len(),
            dv == views(ds@),
            disclosures_outcome(dv, views(sd@), Map::empty()) == disclosures_outcome(
                dv.skip(i as int),
                views(sd@),
                disclosed_view(m@),
            ),
        decreases ds@.len() - i,
    {
        let d = &ds[i];
        assert(dv.skip(i as int).drop_first() =~= dv.skip(i + 1));
        assert(dv.skip(i as int)[0] == d@);
        if d.as_str().is_empty() {
            i = i + 1;
            continue;
        }
        let digest = sha256_b64url(d.as_str().as_bytes());
        if !sd_contains(sd, &digest) {
            proof { reveal_strlit("disclosure digest not in _sd"); }
            return Err("disclosure digest not in _sd");
        }
        let raw = match b64url_decode(d.as_str()) {
            Ok(b) => b,
            Err(_) => return Err("disclosure not base64url"),
        };
        if json_parse_error(raw.as_slice()).is_some() {
            return Err("disclosure not JSON");
        }
        let name = match json_str_at(raw.as_slice(), 1) {
            Some(n) => n,
            None => String::new(),
        };
        if name.as_str().is_empty() {
            return Err("malformed disclosure array");
        }
        let value = json_str_at(raw.as_slice(), 2);
        proof {
            assert(disclosed_view(m@.insert(name@, value)) =~= disclosed_view(m@).insert(name@, opt_view(value)));
        }
        m.insert(name, value);
        i = i + 1;
    }
    Ok(m)
}

/// Verifies SD-JWT VC presentations with ES256. The issuer public key is pinned
/// at construction (standing in for a trust list).
pub struct SdJwtCredentialVerifier {
    issuer_vk: VerifyingKey,
    issuer_iss: String,
}

impl SdJwtCredentialVerifier {
    pub closed spec fn spec_issuer_key(&self) -> VerifyingKey {
        self.issuer_vk
    }

    pub closed spec fn spec_issuer_iss(&self) -> Seq<char> {
        self.issuer_iss@
    }

    /// A verifier pinned to this issuer key and identifier.
    pub fn new(issuer_vk: VerifyingKey, issuer_iss: String) -> (res: Self)
        ensures
            res.spec_issuer_key() == issuer_vk,
            res.spec_issuer_iss() == issuer_iss@,
    {
        SdJwtCredentialVerifier { issuer_vk, issuer_iss }
    }
}


fn string_or_empty(o: Option<String>) -> (res: String)
    ensures
        res@ == str_or_empty(opt_view(o)),
{
    match o {
        Some(s) => s,
        None => String::new(),
    }
}

/// Expiry, key binding, nonce binding and claim derivation.
fn binding_stage(
    parts: &Vec<String>,
    dcount: usize,
    payload: &Vec<u8>,
    disclosed: &StrMap<Option<String>>,
    checks: Vec<CheckResult>,
    challenge: &Challenge,
    now: &DateTime,
) -> (res: VerificationResult)
    requires
        parts@.len() >= 2,
    ensures
        res.is(
            binding_outcome(
                views(parts@),
                dcount as nat,
                payload@,
                disclosed_view(disclosed@),
                check_views(checks@),
                challenge.nonce@,
                challenge.audience@,
                views(challenge.required_evidence@),
                *now,
            ),
        ),
{
    let mut checks = checks;
    let mut detail = usize_to_decimal(dcount);
    detail.append(" disclosure(s) matched _sd");
    push_pass(&mut checks, "DISCLOSURE_DIGESTS", detail.as_str());
    let exp = match json_i64_field(payload.as_slice(), "exp") {
        Some(e) => e,
        None => 0,
    };
    if now.unix_timestamp() > exp {
        return fail("EXPIRED_CREDENTIAL", "credential exp is in the past", checks, dcount);
    }
    push_pass(&mut checks, "CREDENTIAL_VALIDITY", "not expired at evaluationTime");
    let jwk = match json_pointer(payload.as_slice(), "/cnf/jwk") {
        Some(j) => j,
        None => return fail("KEY_BINDING_MISMATCH", "missing cnf.jwk", checks, dcount),
    };
    let holder_vk = match verifying_from_jwk(jwk.as_slice()) {
        Ok(k) => k,
        Err(_) => return fail("KEY_BINDING_MISMATCH", "invalid cnf.jwk", checks, dcount),
    };
    let n = parts.len();
    assert(views(parts@).last() == parts@[n - 1]@);
    let kb = match jws_verify(&holder_vk, parts[n - 1].as_str()) {
        Ok(p) => p,
        Err(_) => return fail("KEY_BINDING_MISMATCH", "KB-JWT signature invalid", checks, dcount),
    };
    let aud = string_or_empty(json_str_field(kb.as_slice(), "aud"));
    if aud != challenge.audience {
        return fail("KEY_BINDING_MISMATCH", "KB-JWT aud mismatch", checks, dcount);
    }
    let mut head: Vec<String> = Vec::new();
    let mut i: usize = 0;
    while i < n - 1
        invariant
            n == parts@.len(),
            i <= n - 1,
            views(head@) == views(parts@).take(i as int),
        decreases n - 1 - i,
    {
        let c = parts[i].clone();
        proof {
            lemma_views_push(head@, c);
            assert(views(parts@).take(i + 1) =~= views(parts@).take(i as int).push(c@));
        }
        head.push(c);
        i = i + 1;
    }
    let mut presented = join(head.as_slice(), "~");
    presented.append("~");
    let expected = sha256_b64url(presented.as_str().as_bytes());
    let sd_hash = string_or_empty(json_str_field(kb.as_slice(), "sd_hash"));
    if sd_hash != expected {
        return fail("KEY_BINDING_MISMATCH", "KB-JWT sd_hash mismatch", checks, dcount);
    }
    push_pass(&mut checks, "KEY_BINDING", "KB-JWT signature, aud, sd_hash valid");
    let nonce = string_or_empty(json_str_field(kb.as_slice(), "nonce"));
    if nonce != challenge.nonce {
        return fail("NONCE_MISMATCH", "KB-JWT nonce != request nonce", checks, dcount);
    }
    push_pass(&mut checks, "NONCE_BINDING", "KB-JWT nonce matches request");
    let verified_evidence = derive_evidence(&challenge.required_evidence, disclosed, now);
    push_pass(&mut checks, "CLAIM_DERIVATION", "derived boolean claims (raw values discarded)");
    VerificationResult {
        ok: true,
        failed_check: None,
        checks,
        verified_evidence,
        nonce,
        audience: aud,
        disclosure_count: dcount,
    }
}

impl CredentialVerifier for SdJwtCredentialVerifier {
    /// Verify an SD-JWT VC presentation: issuer signature, issuer identity,
    /// disclosure digests, credential expiry, key binding, nonce binding; then
    /// derive evidence states from the disclosed claims.
    fn verify(&self, presentation: &Presentation, challenge: &Challenge, now: DateTime) -> (res:
        VerificationResult)
        ensures
            res.is(
                sd_jwt_outcome(
                    self.spec_issuer_key().spec_x(),
                    self.spec_issuer_key().spec_y(),
                    self.spec_issuer_iss(),
                    opt_view(presentation.sd_jwt_vp),
                    challenge.nonce@,
                    challenge.audience@,
                    views(challenge.required_evidence@),
                    now,
                ),
            ),
    {
        let checks: Vec<CheckResult> = Vec::new();
        assert(check_views(checks@) =~= Seq::<CheckView>::empty());
        let vp = match &presentation.sd_jwt_vp {
            Some(v) => v,
            None => return fail("MISSING_SD_JWT_VP", "no SD-JWT VP present", checks, 0),
        };
        if vp.as_str().is_empty() {
            return fail("MISSING_SD_JWT_VP", "no SD-JWT VP present", checks, 0);
        }
        let parts = split_char(vp.as_str(), '~');
        let n = parts.len();
        if n < 2 {
            return fail("MALFORMED_VP", "expected issuer JWT and KB-JWT", checks, 0);
        }
        assert(views(parts@).last() == parts@[n - 1]@);
        if parts[n - 1].as_str().is_empty() {
            return fail("MALFORMED_VP", "missing KB-JWT (presentation not key-bound)", checks, 0);
        }
        let ghost pv = views(parts@);
        let mut ds: Vec<String> = Vec::new();
        let mut dcount: usize = 0;
        let mut i: usize = 1;
        while i < n - 1
            invariant
                n == parts@.len(),
                n >= 2,
                pv == views(parts@),
                1 <= i <= n - 1,
                views(ds@) == pv.subrange(1, i as int),
                dcount == count_nonempty(views(ds@)),
                ds@.len() == i - 1,
            decreases n - 1 - i,
        {
            let d = parts[i].clone();
            proof {
                lemma_views_push(ds@, d);
                assert(pv.subrange(1, i + 1) =~= pv.subrange(1, i as int).push(d@));
                assert(views(ds@.push(d)).drop_last() =~= views(ds@));
                lemma_count_nonempty_le(views(ds@));
            }
            let empty = d.as_str().is_empty();
            ds.push(d);
            if !empty {
                dcount = dcount + 1;
            }
            i = i + 1;
        }
        assert(views(parts@)[0] == parts@[0]@);
        let payload = match jws_verify(&self.issuer_vk, parts[0].as_str()) {
            Ok(p) => p,
            Err(_) => return fail("INVALID_SIGNATURE", "issuer JWT signature invalid", checks, dcount),
        };
        let mut checks = checks;
        push_pass(&mut checks, "ISSUER_SIGNATURE", "valid against issuer JWKS");
        let iss_ok = match json_str_field(payload.as_slice(), "iss") {
            Some(iss) => iss == self.issuer_iss,
            None => false,
        };
        if !iss_ok {
            return fail("UNTRUSTED_ISSUER", "iss does not match trust anchor", checks, dcount);
        }
        let sd = json_str_list(payload.as_slice(), "_sd");
        let disclosed = match collect_disclosures(&ds, &sd) {
            Ok(m) => m,
            Err(e) => return fail("UNKNOWN_DISCLOSURE", e, checks, dcount),
        };
        binding_stage(&parts, dcount, &payload, &disclosed, checks, challenge, &now)
    }
}

} // verus!
