//! Encodings, ES256 JWS, JWK conversion, issuance and the SD-JWT verifier's
//! claim derivation and failure codes, on concrete values.

use engine::clock::DateTime;
use engine::crypto::{
    b64url, b64url_decode, generate_key, jwk_from_verifying, jws_payload_unverified, jws_sign, jws_verify,
    sha256, sha256_b64url, verifying_from_jwk, SigningKey,
};
use engine::domain::{EvidenceState, Kind};
use engine::engine::{issue_credential, IssueError};
use engine::evidence::{CredentialVerifier, Presentation, SdJwtCredentialVerifier};
use engine::issuer::{demo_claims, IssuedCredential, Issuer, VCT};
use engine::json::{json_str_list, JsonArg};
use engine::replay::Challenge;

fn s(x: &str) -> String {
    x.to_string()
}

fn june() -> DateTime {
    engine::parse_eval_time(Some("2025-06-01T00:00:00Z")).unwrap()
}

fn obj(entries: &[(&str, serde_json::Value)]) -> String {
    let mut m = serde_json::Map::new();
    for (k, v) in entries {
        m.insert(s(k), v.clone());
    }
    serde_json::Value::Object(m).to_string()
}

fn build_vp(issued: &IssuedCredential, holder: &SigningKey, select: &[&str], nonce: &str, aud: &str) -> String {
    let mut presented = issued.sd_jwt.clone();
    for d in &issued.disclosures {
        if select.contains(&d.claim.as_str()) {
            presented.push('~');
            presented.push_str(&d.disclosure);
        }
    }
    presented.push('~');
    let sd_hash = sha256_b64url(presented.as_bytes());
    let header = obj(&[("alg", "ES256".into()), ("typ", "kb+jwt".into())]);
    let payload = obj(&[
        ("iat", june().unix_timestamp().into()),
        ("aud", aud.into()),
        ("nonce", nonce.into()),
        ("sd_hash", sd_hash.into()),
    ]);
    let kb = jws_sign(holder, &header, &payload);
    format!("{presented}{kb}")
}

fn challenge(required: &[&str]) -> Challenge {
    Challenge {
        request_id: s("req-1"),
        nonce: s("nonce-1"),
        audience: s("relying-party-demo"),
        issued_at: june(),
        expires_at: june().checked_add_seconds(300).unwrap(),
        canonical: s("age_over_18"),
        kind: Kind::Predicate,
        subject_id: s("user-123"),
        required_evidence: required.iter().map(|t| s(t)).collect(),
    }
}

fn pres(vp: &str) -> Presentation {
    Presentation { sd_jwt_vp: Some(s(vp)), ..Default::default() }
}

struct Setup {
    issuer: Issuer,
    holder: SigningKey,
    verifier: SdJwtCredentialVerifier,
}

fn setup() -> Setup {
    let issuer = Issuer::new();
    let holder = generate_key();
    let verifier = SdJwtCredentialVerifier::new(issuer.verifying_key(), issuer.iss.clone());
    Setup { issuer, holder, verifier }
}

fn issue_with(st: &Setup, claims: &Vec<(String, JsonArg)>) -> IssuedCredential {
    let jwk = jwk_from_verifying(st.holder.verifying_key());
    st.issuer.issue(claims, &jwk, june())
}

// ---- encodings and hashing -------------------------------------------------

#[test]
fn base64url_and_sha256_exact_values() {
    assert_eq!(b64url(b"hello"), "aGVsbG8");
    assert_eq!(b64url(&[0xfb, 0xff]), "-_8");
    assert_eq!(b64url_decode("aGVsbG8").unwrap(), b"hello".to_vec());
    assert!(b64url_decode("aGVsbG8=").is_err());
    assert!(b64url_decode("a").is_err());
    assert_eq!(sha256_b64url(b"abc"), "ungWv48Bz-pBQUDeXa4iI7ADYaOWF3qctBD_YfIAFa0");
    assert_eq!(sha256(b"abc")[0], 0xba);
}

// ---- JWS and JWK -----------------------------------------------------------

#[test]
fn jws_round_trip_and_wrong_key() {
    let sk = generate_key();
    let other = generate_key();
    let payload = obj(&[("sub", "x".into()), ("n", 7.into())]);
    let jwt = jws_sign(&sk, &obj(&[("alg", "ES256".into())]), &payload);
    assert_eq!(jwt.split('.').count(), 3);
    assert_eq!(jws_verify(sk.verifying_key(), &jwt).unwrap(), payload.as_bytes().to_vec());
    assert!(jws_verify(other.verifying_key(), &jwt).is_err());
    assert_eq!(jws_payload_unverified(&jwt).unwrap(), payload.as_bytes().to_vec());
    assert!(jws_payload_unverified("a.b").is_err());
    // a payload that is base64url but not JSON
    let not_json = format!("e30.{}.c2ln", b64url(b"not json"));
    assert!(jws_payload_unverified(&not_json).is_err());
    assert_eq!(jws_payload_unverified(&format!("e30.{}.c2ln", b64url(b"{}"))).unwrap(), b"{}".to_vec());
    assert!(jws_verify(sk.verifying_key(), "a.b.c.d").is_err());
}

#[test]
fn jwk_round_trip_and_rejections() {
    let sk = generate_key();
    let vk = sk.verifying_key();
    let jwk = jwk_from_verifying(vk);
    let v: serde_json::Value = serde_json::from_str(&jwk).unwrap();
    assert_eq!(v["kty"], "EC");
    assert_eq!(v["crv"], "P-256");
    let back = verifying_from_jwk(jwk.as_bytes()).unwrap();
    assert_eq!(back.x(), vk.x());
    assert_eq!(back.y(), vk.y());
    assert!(verifying_from_jwk(br#"{"kty":"EC","y":"AA"}"#).is_err());
    assert!(verifying_from_jwk(br#"{"x":"AA","y":"AA"}"#).is_err());
    // 32-byte coordinates that are not a point on the curve
    let zero = b64url(&[0u8; 32]);
    let bad = obj(&[("x", zero.clone().into()), ("y", zero.into())]);
    assert!(verifying_from_jwk(bad.as_bytes()).is_err());
}

#[test]
fn json_string_list_skips_non_strings() {
    let doc = br#"{"_sd":["a",1,"b",null],"other":"x"}"#;
    assert_eq!(json_str_list(doc, "_sd"), vec![s("a"), s("b")]);
    assert!(json_str_list(doc, "other").is_empty());
    assert!(json_str_list(b"not json", "_sd").is_empty());
}

// ---- issuance --------------------------------------------------------------

#[test]
fn issued_credential_shape() {
    let st = setup();
    let issued = issue_with(&st, &demo_claims("user-123"));
    assert_eq!(issued.vct, VCT);
    assert_eq!(issued.expires_at, "2025-06-02T00:00:00Z");
    let names: Vec<String> = issued.disclosures.iter().map(|d| d.claim.clone()).collect();
    assert_eq!(names, vec![s("given_name"), s("family_name"), s("birth_date"), s("resident_country")]);
    let mut expect = issued.sd_jwt.clone();
    for d in &issued.disclosures {
        expect.push('~');
        expect.push_str(&d.disclosure);
    }
    expect.push('~');
    assert_eq!(issued.combined, expect);
    // the disclosure is base64url JSON [salt, name, value]
    let raw = b64url_decode(&issued.disclosures[2].disclosure).unwrap();
    let arr: serde_json::Value = serde_json::from_slice(&raw).unwrap();
    assert_eq!(arr[1], "birth_date");
    assert_eq!(arr[2], "1984-01-26");
    assert_eq!(b64url_decode(arr[0].as_str().unwrap()).unwrap().len(), 16);
    // _sd holds the sorted digests of all disclosures
    let payload = jws_verify(&st.issuer.verifying_key(), &issued.sd_jwt).unwrap();
    let sd = json_str_list(&payload, "_sd");
    let mut digests: Vec<String> = issued.disclosures.iter().map(|d| sha256_b64url(d.disclosure.as_bytes())).collect();
    digests.sort();
    assert_eq!(sd, digests);
    let p: serde_json::Value = serde_json::from_slice(&payload).unwrap();
    assert_eq!(p["exp"].as_i64().unwrap() - p["iat"].as_i64().unwrap(), 86400);
    assert_eq!(p["iss"], "https://issuer.eudi-demo.local");
    assert_eq!(p["_sd_alg"], "sha-256");
}

#[test]
fn issue_credential_checks_holder_key_and_expiry() {
    let st = setup();
    let jwk = jwk_from_verifying(st.holder.verifying_key());
    let ok = issue_credential(&st.issuer, "user-123", &jwk, june()).unwrap();
    assert_eq!(ok.disclosures.len(), 4);
    assert_eq!(
        issue_credential(&st.issuer, "user-123", r#"{"kty":"EC"}"#, june()).unwrap_err(),
        IssueError::InvalidHolderJwk
    );
    let far = engine::parse_eval_time(Some("9999-12-31T00:00:00Z")).unwrap();
    assert_eq!(issue_credential(&st.issuer, "user-123", &jwk, far).unwrap_err(), IssueError::ExpiryOutOfRange);
}

// ---- verification ----------------------------------------------------------

#[test]
fn under_age_birth_date_yields_invalid_evidence() {
    let st = setup();
    let claims = vec![(s("birth_date"), JsonArg::Str(s("2015-03-04")))];
    let issued = issue_with(&st, &claims);
    let vp = build_vp(&issued, &st.holder, &["birth_date"], "nonce-1", "relying-party-demo");
    let vr = st.verifier.verify(&pres(&vp), &challenge(&["AGE_ATTESTATION"]), june());
    assert!(vr.ok);
    assert_eq!(vr.verified_evidence[0].state, EvidenceState::Invalid);
}

#[test]
fn eighteenth_birthday_counts_on_the_day() {
    let st = setup();
    let claims = vec![(s("birth_date"), JsonArg::Str(s("2007-06-01")))];
    let issued = issue_with(&st, &claims);
    let vp = build_vp(&issued, &st.holder, &["birth_date"], "nonce-1", "relying-party-demo");
    let vr = st.verifier.verify(&pres(&vp), &challenge(&["AGE_ATTESTATION"]), june());
    assert_eq!(vr.verified_evidence[0].state, EvidenceState::Available);
    let claims2 = vec![(s("birth_date"), JsonArg::Str(s("2007-06-02")))];
    let issued2 = issue_with(&st, &claims2);
    let vp2 = build_vp(&issued2, &st.holder, &["birth_date"], "nonce-1", "relying-party-demo");
    let vr2 = st.verifier.verify(&pres(&vp2), &challenge(&["AGE_ATTESTATION"]), june());
    assert_eq!(vr2.verified_evidence[0].state, EvidenceState::Invalid);
}

#[test]
fn residence_and_undisclosed_claims() {
    let st = setup();
    let issued = issue_with(&st, &demo_claims("user-123"));
    let ch = challenge(&["RESIDENCE_CREDENTIAL", "AGE_ATTESTATION", "GOVERNMENT_IDENTITY", "CONSENT_RECORD"]);
    let vp = build_vp(&issued, &st.holder, &["resident_country"], "nonce-1", "relying-party-demo");
    let vr = st.verifier.verify(&pres(&vp), &ch, june());
    assert!(vr.ok, "{:?}", vr.checks);
    let states: Vec<EvidenceState> = vr.verified_evidence.iter().map(|e| e.state).collect();
    // DE is in the EU; birth_date and family_name were withheld; consent has no claim
    assert_eq!(
        states,
        vec![EvidenceState::Available, EvidenceState::Missing, EvidenceState::Missing, EvidenceState::Missing]
    );
    assert_eq!(vr.disclosure_count, 1);
    let names: Vec<String> = vr.checks.iter().map(|c| c.name.clone()).collect();
    assert_eq!(
        names,
        vec![
            s("ISSUER_SIGNATURE"),
            s("DISCLOSURE_DIGESTS"),
            s("CREDENTIAL_VALIDITY"),
            s("KEY_BINDING"),
            s("NONCE_BINDING"),
            s("CLAIM_DERIVATION")
        ]
    );
    assert_eq!(vr.checks[1].detail, "1 disclosure(s) matched _sd");
    assert_eq!(vr.nonce, "nonce-1");
    assert_eq!(vr.audience, "relying-party-demo");

    let outside = vec![(s("resident_country"), JsonArg::Str(s("US")))];
    let issued2 = issue_with(&st, &outside);
    let vp2 = build_vp(&issued2, &st.holder, &["resident_country"], "nonce-1", "relying-party-demo");
    let vr2 = st.verifier.verify(&pres(&vp2), &challenge(&["RESIDENCE_CREDENTIAL"]), june());
    assert_eq!(vr2.verified_evidence[0].state, EvidenceState::Invalid);
}

#[test]
fn structural_failures() {
    let st = setup();
    let ch = challenge(&["AGE_ATTESTATION"]);
    let none = st.verifier.verify(&Presentation::default(), &ch, june());
    assert_eq!(none.failed_check.as_deref(), Some("MISSING_SD_JWT_VP"));
    assert!(none.verified_evidence.is_empty());
    assert_eq!(st.verifier.verify(&pres(""), &ch, june()).failed_check.as_deref(), Some("MISSING_SD_JWT_VP"));
    assert_eq!(st.verifier.verify(&pres("abc"), &ch, june()).failed_check.as_deref(), Some("MALFORMED_VP"));
    let unbound = st.verifier.verify(&pres("a.b.c~d~"), &ch, june());
    assert_eq!(unbound.failed_check.as_deref(), Some("MALFORMED_VP"));
    assert_eq!(unbound.checks.len(), 1);
    assert!(!unbound.checks[0].ok);
    assert_eq!(unbound.checks[0].detail, "missing KB-JWT (presentation not key-bound)");
}

#[test]
fn untrusted_issuer_is_rejected() {
    let st = setup();
    let issued = issue_with(&st, &demo_claims("user-123"));
    let vp = build_vp(&issued, &st.holder, &["birth_date"], "nonce-1", "relying-party-demo");
    let other = SdJwtCredentialVerifier::new(st.issuer.verifying_key(), s("https://someone-else"));
    let vr = other.verify(&pres(&vp), &challenge(&["AGE_ATTESTATION"]), june());
    assert_eq!(vr.failed_check.as_deref(), Some("UNTRUSTED_ISSUER"));
    assert_eq!(vr.checks[0].name, "ISSUER_SIGNATURE");
    assert!(vr.checks[0].ok);
}

#[test]
fn tampered_sd_hash_is_key_binding_mismatch() {
    let st = setup();
    let issued = issue_with(&st, &demo_claims("user-123"));
    // the key-binding JWT covers only birth_date; adding a disclosure breaks sd_hash
    let vp = build_vp(&issued, &st.holder, &["birth_date"], "nonce-1", "relying-party-demo");
    let kb_at = vp.rfind('~').unwrap();
    let given = &issued.disclosures[0].disclosure;
    let widened = format!("{}~{}{}", &vp[..kb_at], given, &vp[kb_at..]);
    let vr = st.verifier.verify(&pres(&widened), &challenge(&["AGE_ATTESTATION"]), june());
    assert_eq!(vr.failed_check.as_deref(), Some("KEY_BINDING_MISMATCH"));
    assert_eq!(vr.checks.last().unwrap().detail, "KB-JWT sd_hash mismatch");
}

#[test]
fn any_selection_of_issued_disclosures_verifies() {
    let st = setup();
    let issued = issue_with(&st, &demo_claims("user-123"));
    let ch = challenge(&["AGE_ATTESTATION", "RESIDENCE_CREDENTIAL", "GOVERNMENT_IDENTITY"]);
    // every disclosure, in issuance order
    let all = build_vp(
        &issued,
        &st.holder,
        &["given_name", "family_name", "birth_date", "resident_country"],
        "nonce-1",
        "relying-party-demo",
    );
    let vr = st.verifier.verify(&pres(&all), &ch, june());
    assert!(vr.ok, "{:?}", vr.checks);
    assert_eq!(vr.disclosure_count, 4);
    let states: Vec<EvidenceState> = vr.verified_evidence.iter().map(|e| e.state).collect();
    assert_eq!(states, vec![EvidenceState::Available, EvidenceState::Available, EvidenceState::Available]);
    // no disclosure at all: still key-bound and valid, nothing established
    let none = build_vp(&issued, &st.holder, &[], "nonce-1", "relying-party-demo");
    let vr0 = st.verifier.verify(&pres(&none), &ch, june());
    assert!(vr0.ok, "{:?}", vr0.checks);
    assert_eq!(vr0.disclosure_count, 0);
    assert!(vr0.verified_evidence.iter().all(|e| e.state == EvidenceState::Missing));
    // at the expiry instant the credential is still valid
    let at_exp = june().checked_add_seconds(86400).unwrap();
    let vr1 = st.verifier.verify(&pres(&all), &ch, at_exp);
    assert!(vr1.ok, "{:?}", vr1.checks);
}

#[test]
fn jws_error_texts() {
    let sk = generate_key();
    let other = generate_key();
    let payload = obj(&[("sub", "x".into())]);
    let jwt = jws_sign(&sk, &obj(&[("alg", "ES256".into())]), &payload);
    assert_eq!(jws_verify(sk.verifying_key(), "a.b.c.d").unwrap_err(), "jws: expected 3 parts");
    assert_eq!(jws_verify(other.verifying_key(), &jwt).unwrap_err(), "jws: signature verification failed");
    // a signature that is not 64 bytes is refused as a signature
    let mut parts = jwt.split('.');
    let short = format!("{}.{}.c2ln", parts.next().unwrap(), parts.next().unwrap());
    assert!(jws_verify(sk.verifying_key(), &short).unwrap_err().starts_with("jws sig: "));
    let not_json = format!("e30.{}.c2ln", b64url(b"not json"));
    assert!(jws_payload_unverified(&not_json).unwrap_err().starts_with("jws payload: "));
}

#[test]
fn digest_text_is_43_url_safe_characters() {
    assert_eq!(sha256_b64url(b""), "47DEQpj8HBSa-_TImW-5JCeuQeRkm5NMpJWZG3hSuFU");
    let d = sha256_b64url(b"any bytes at all");
    assert_eq!(d.len(), 43);
    assert!(d.chars().all(|c| c.is_ascii_alphanumeric() || c == '-' || c == '_'));
    assert_eq!(b64url(&[0u8; 1]).len(), 2);
    assert_eq!(b64url(&[0u8; 2]).len(), 3);
    assert_eq!(b64url(&[0u8; 3]).len(), 4);
}
