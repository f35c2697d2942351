//! Demo PID issuer: holds an ES256 key pair generated at start-up and issues
//! SD-JWT VCs: an issuer-signed JWT carrying `_sd` digests, plus one disclosure
//! per selectively disclosable claim. Key binding (`cnf`) binds the credential
//! to the holder's public key.

use vstd::prelude::*;
use vstd::utf8::encode_utf8;
use crate::clock::{format_rfc3339, representable, rfc3339_text, DateTime};
use crate::crypto::{
    b64url, b64url_bytes, b64url_char, b64url_text, generate_key,
    jws_chars, jws_compact, jws_sign, jws_verified_payload, p256_public, random_bytes, sha256_b64url,
    sha256_b64url_text, SigningKey, VerifyingKey,
};
use crate::json::{
    all_strings, arg_depth, arg_views, canonical_json, embedded_canonical, entries_within, entry_views,
    items_within, json_array, json_array_member, json_array_text, json_at_pointer, json_depth, json_i64_member,
    json_object, json_object_text, json_str_item, json_str_items, json_str_member, json_valid, last_value,
    lemma_strings_only_all, max_read_depth, pointer_token, JsonArg, JsonArgView,
};
use crate::text::{lemma_views_push, sort_strings, sorted_strs, views};

verus! {

/// Credential validity: 24 hours.
pub const CREDENTIAL_TTL_SECONDS: i64 = 86400;

/// The verifiable credential type of the PID.
pub const VCT: &'static str = "urn:eu.europa.ec.eudi:pid:1";

/// The issuer: its signing key, key id and issuer identifier.
pub struct Issuer {
    signing: SigningKey,
    pub kid: String,
    pub iss: String,
}

/// One disclosure, as handed to the wallet.
#[derive(Debug)]
pub struct DisclosureOut {
    pub claim: String,
    /// base64url(JSON `[salt, name, value]`).
    pub disclosure: String,
}

impl Clone for DisclosureOut {
    fn clone(&self) -> (res: Self)
        ensures
            res == *self,
    {
        DisclosureOut { claim: self.claim.clone(), disclosure: self.disclosure.clone() }
    }
}

/// An issued SD-JWT VC.
#[derive(Debug)]
pub struct IssuedCredential {
    /// The issuer-signed JWT (no disclosures appended).
    pub sd_jwt: String,
    /// One entry per selectively disclosable claim.
    pub disclosures: Vec<DisclosureOut>,
    /// The issuer JWT and all disclosures, `~`-joined, with a trailing `~`.
    pub combined: String,
    pub vct: String,
    pub expires_at: String,
}

impl Clone for IssuedCredential {
    fn clone(&self) -> (res: Self)
        ensures
            res.sd_jwt == self.sd_jwt,
            res.disclosures@ == self.disclosures@,
            res.combined == self.combined,
            res.vct == self.vct,
            res.expires_at == self.expires_at,
    {
        let mut ds: Vec<DisclosureOut> = Vec::new();
        let mut i: usize = 0;
        while i < self.disclosures.len()
            invariant
                i <= self.disclosures@.len(),
                ds@ == self.disclosures@.take(i as int),
            decreases self.disclosures@.len() - i,
        {
            ds.push(self.disclosures[i].clone());
            i = i + 1;
            assert(ds@ =~= self.disclosures@.take(i as int));
        }
        assert(self.disclosures@.take(i as int) =~= self.disclosures@);
        IssuedCredential {
            sd_jwt: self.sd_jwt.clone(),
            disclosures: ds,
            combined: self.combined.clone(),
            vct: self.vct.clone(),
            expires_at: self.expires_at.clone(),
        }
    }
}

/// The JSON array `[salt, name, value]` of a disclosure, as text.
pub open spec fn disclosure_json(salt: Seq<char>, name: Seq<char>, value: JsonArgView) -> Seq<char> {
    json_array_text(seq![JsonArgView::Str(salt), JsonArgView::Str(name), value])
}

/// The disclosure text for claim `name` with `value` and salt text `salt`.
pub open spec fn disclosure_text(salt: Seq<char>, name: Seq<char>, value: JsonArgView) -> Seq<char> {
    b64url_text(encode_utf8(disclosure_json(salt, name, value)))
}

/// `d` is the disclosure of claim `name` with `value` under the 16 random
/// bytes `salt`, and decodes back to its JSON array.
pub open spec fn salted_disclosure(d: Seq<char>, name: Seq<char>, value: JsonArgView, salt: Seq<u8>) -> bool {
    &&& salt.len() == 16
    &&& d == disclosure_text(b64url_text(salt), name, value)
    &&& b64url_bytes(d) == Some(encode_utf8(disclosure_json(b64url_text(salt), name, value)))
}

/// The `_sd` digest of a disclosure.
pub open spec fn disclosure_digest(d: Seq<char>) -> Seq<char> {
    sha256_b64url_text(encode_utf8(d))
}

/// The issuer JWT header for key id `kid`.
pub open spec fn header_text(kid: Seq<char>) -> Seq<char> {
    json_object_text(
        seq![
            ("alg"@, JsonArgView::Str("ES256"@)),
            ("typ"@, JsonArgView::Str("dc+sd-jwt"@)),
            ("kid"@, JsonArgView::Str(kid)),
        ],
    )
}

/// The issuer JWT payload.
pub open spec fn payload_text(
    iss: Seq<char>,
    iat: i64,
    exp: i64,
    holder_jwk: Seq<char>,
    digests: Seq<Seq<char>>,
) -> Seq<char> {
    json_object_text(
        seq![
            ("iss"@, JsonArgView::Str(iss)),
            ("iat"@, JsonArgView::Int(iat)),
            ("exp"@, JsonArgView::Int(exp)),
            ("vct"@, JsonArgView::Str(VCT@)),
            ("_sd_alg"@, JsonArgView::Str("sha-256"@)),
            ("cnf"@, JsonArgView::Json(json_object_text(seq![("jwk"@, JsonArgView::Json(holder_jwk))]))),
            ("_sd"@, JsonArgView::StrList(digests)),
        ],
    )
}

/// `~d` for each disclosure text `d`, in order.
pub open spec fn tilde_joined(ds: Seq<Seq<char>>) -> Seq<char>
    decreases ds.len(),
{
    if ds.len() == 0 {
        Seq::empty()
    } else {
        tilde_joined(ds.drop_last()) + "~"@ + ds.last()
    }
}

/// The JWKS document holding the issuer key (x, y) under key id `kid`.
pub open spec fn jwks_text(x: Seq<u8>, y: Seq<u8>, kid: Seq<char>) -> Seq<char> {
    let jwk = json_object_text(
        seq![
            ("kty"@, JsonArgView::Str("EC"@)),
            ("crv"@, JsonArgView::Str("P-256"@)),
            ("x"@, JsonArgView::Str(b64url_text(x))),
            ("y"@, JsonArgView::Str(b64url_text(y))),
            ("kid"@, JsonArgView::Str(kid)),
            ("use"@, JsonArgView::Str("sig"@)),
            ("alg"@, JsonArgView::Str("ES256"@)),
        ],
    );
    json_object_text(seq![("keys"@, JsonArgView::Json(json_array_text(seq![JsonArgView::Json(jwk)])))])
}

pub open spec fn claim_views(c: Seq<(String, JsonArg)>) -> Seq<(Seq<char>, JsonArgView)> {
    c.map_values(|e: (String, JsonArg)| (e.0@, e.1@))
}

pub open spec fn disclosure_texts(ds: Seq<DisclosureOut>) -> Seq<Seq<char>> {
    ds.map_values(|d: DisclosureOut| d.disclosure@)
}

pub open spec fn disclosure_digests(ds: Seq<DisclosureOut>) -> Seq<Seq<char>> {
    ds.map_values(|d: DisclosureOut| disclosure_digest(d.disclosure@))
}

impl Issuer {
    pub closed spec fn spec_signing(&self) -> SigningKey {
        self.signing
    }

    pub closed spec fn spec_kid(&self) -> Seq<char> {
        self.kid@
    }

    pub closed spec fn spec_iss(&self) -> Seq<char> {
        self.iss@
    }

    /// A new issuer with a fresh key pair.
    pub fn new() -> (res: Self)
        ensures
            res.spec_kid() == "demo-issuer-key-1"@,
            res.spec_iss() == "https://issuer.eudi-demo.local"@,
    {
        Issuer {
            signing: generate_key(),
            kid: "demo-issuer-key-1".to_owned(),
            iss: "https://issuer.eudi-demo.local".to_owned(),
        }
    }

    /// The issuer's public key: the P-256 point of its signing scalar.
    pub fn verifying_key(&self) -> (res: VerifyingKey)
        ensures
            res.spec_x() == self.spec_signing().spec_public().spec_x(),
            res.spec_y() == self.spec_signing().spec_public().spec_y(),
            (res.spec_x(), res.spec_y()) == p256_public(self.spec_signing().spec_scalar()),
    {
        self.signing.verifying_key().copy()
    }
}



/// What a verifier reads back from a disclosure `d` of claim `name` with
/// `value`: non-empty base64url text that decodes; and, when the value nests
/// shallowly enough for the JSON parser to read the array back, a JSON array
/// holding the name at index 1 and, for a string value, that string at index 2.
pub open spec fn disclosure_reads_back(d: Seq<char>, name: Seq<char>, value: JsonArgView) -> bool {
    &&& d.len() > 0
    &&& forall|j: int| 0 <= j < d.len() ==> b64url_char(#[trigger] d[j])
    &&& b64url_bytes(d) matches Some(raw) && (arg_depth(value) < max_read_depth() ==> json_valid(raw)
        && json_str_item(raw, 1) == Some(name) && (value matches JsonArgView::Str(v) ==> json_str_item(raw, 2)
        == Some(v)))
}

/// What a verifier reads back from an issuer JWT payload `p`: the issuer, the
/// issue and expiry times, the credential type, the digest algorithm, the
/// `_sd` digests (in sorted order, as a multiset the given ones) and, when the
/// holder key was given in canonical form, that key at `/cnf/jwk`.
pub open spec fn payload_reads_back(
    p: Seq<u8>,
    iss: Seq<char>,
    iat: i64,
    exp: i64,
    digests: Seq<Seq<char>>,
    holder_jwk: Seq<char>,
) -> bool {
    &&& json_str_member(p, "iss"@) == Some(iss)
    &&& json_i64_member(p, "iat"@) == Some(iat)
    &&& json_i64_member(p, "exp"@) == Some(exp)
    &&& json_str_member(p, "vct"@) == Some(VCT@)
    &&& json_str_member(p, "_sd_alg"@) == Some("sha-256"@)
    &&& sorted_strs(json_str_items(p, "_sd"@))
    &&& json_str_items(p, "_sd"@).to_multiset() == digests.to_multiset()
    &&& canonical_json(holder_jwk) ==> json_at_pointer(p, "/cnf/jwk"@) == Some(encode_utf8(holder_jwk))
}

impl Issuer {
    /// `res` is an issuance by this issuer of `claims` (name, value), bound to
    /// the holder key `holder_jwk` (JSON text), at `now`: one disclosure per
    /// claim, in order, each `[salt, name, value]` with a 16-byte random salt;
    /// an issuer JWT signed with the issuer key whose `_sd` lists the
    /// disclosures' digests in sorted order and whose `exp` is 24 hours on.
    pub open spec fn is_issuance(
        &self,
        claims: Seq<(Seq<char>, JsonArgView)>,
        holder_jwk: Seq<char>,
        now: DateTime,
        res: IssuedCredential,
    ) -> bool {
        &&& res.disclosures@.len() == claims.len()
        &&& forall|i: int|
            0 <= i < claims.len() ==> #[trigger] res.disclosures@[i].claim@ == claims[i].0
                && exists|salt: Seq<u8>|
                salted_disclosure(res.disclosures@[i].disclosure@, claims[i].0, claims[i].1, salt)
        &&& exists|ds: Seq<Seq<char>>|
            sorted_strs(ds) && ds.to_multiset() == disclosure_digests(res.disclosures@).to_multiset()
                && res.sd_jwt@ == jws_compact(
                self.spec_signing().spec_scalar(),
                header_text(self.spec_kid()),
                payload_text(
                    self.spec_iss(),
                    now.spec_unix(),
                    (now.spec_unix() + CREDENTIAL_TTL_SECONDS) as i64,
                    holder_jwk,
                    ds,
                ),
            )
        &&& res.combined@ == res.sd_jwt@ + tilde_joined(disclosure_texts(res.disclosures@)) + "~"@
        &&& res.vct@ == VCT@
        &&& res.expires_at@ == match rfc3339_text(
            (now.spec_unix() + CREDENTIAL_TTL_SECONDS) as i64,
            now.spec_nanos(),
            now.spec_offset(),
        ) {
            Some(t) => t,
            None => Seq::empty(),
        }
    }
}

impl Issuer {
    /// What a verifier pinned to this issuer's key reads back from `res`: an
    /// issuer JWT of base64url parts that, when the holder key nests shallowly
    /// enough for the JSON parser to read the payload back (the payload puts it
    /// two levels down), verifies and carries the issuer, the expiry, the
    /// digests and the holder key; and each disclosure's claim.
    pub open spec fn reads_back(
        &self,
        claims: Seq<(Seq<char>, JsonArgView)>,
        holder_jwk: Seq<char>,
        now: DateTime,
        res: IssuedCredential,
    ) -> bool {
        let (ix, iy) = p256_public(self.spec_signing().spec_scalar());
        &&& jws_chars(res.sd_jwt@)
        &&& res.sd_jwt@.len() > 0
        &&& json_depth(holder_jwk) + 2 <= max_read_depth() ==> (jws_verified_payload(ix, iy, res.sd_jwt@) matches Some(
            p,
        ) && payload_reads_back(
            p,
            self.spec_iss(),
            now.spec_unix(),
            (now.spec_unix() + CREDENTIAL_TTL_SECONDS) as i64,
            disclosure_digests(res.disclosures@),
            holder_jwk,
        ))
        &&& forall|i: int|
            0 <= i < claims.len() ==> disclosure_reads_back(
                (#[trigger] res.disclosures@[i]).disclosure@,
                claims[i].0,
                claims[i].1,
            )
    }
}

impl Default for Issuer {
    /// A new issuer with a fresh key pair (as `Issuer::new`).
    fn default() -> (res: Self)
        ensures
            res.spec_kid() == "demo-issuer-key-1"@,
            res.spec_iss() == "https://issuer.eudi-demo.local"@,
    {
        Issuer::new()
    }
}

impl Issuer {
    /// The JWKS document (`{"keys": [jwk]}`) publishing the issuer key, as JSON text.
    pub fn jwks(&self) -> (res: String)
        ensures
            res@ == jwks_text(
                self.spec_signing().spec_public().spec_x(),
                self.spec_signing().spec_public().spec_y(),
                self.spec_kid(),
            ),
    {
        let vk = self.signing.verifying_key();
        let mut entries: Vec<(String, JsonArg)> = Vec::new();
        entries.push(("kty".to_owned(), JsonArg::Str("EC".to_owned())));
        entries.push(("crv".to_owned(), JsonArg::Str("P-256".to_owned())));
        entries.push(("x".to_owned(), JsonArg::Str(b64url(vk.x().as_slice()))));
        entries.push(("y".to_owned(), JsonArg::Str(b64url(vk.y().as_slice()))));
        entries.push(("kid".to_owned(), JsonArg::Str(self.kid.clone())));
        entries.push(("use".to_owned(), JsonArg::Str("sig".to_owned())));
        entries.push(("alg".to_owned(), JsonArg::Str("ES256".to_owned())));
        let jwk = json_object(&entries);
        let mut items: Vec<JsonArg> = Vec::new();
        items.push(JsonArg::Json(jwk));
        let keys = json_array(&items);
        let mut outer: Vec<(String, JsonArg)> = Vec::new();
        outer.push(("keys".to_owned(), JsonArg::Json(keys)));
        proof {
            assert(entry_views(entries@) =~= seq![
                ("kty"@, JsonArgView::Str("EC"@)),
                ("crv"@, JsonArgView::Str("P-256"@)),
                ("x"@, JsonArgView::Str(b64url_text(vk.spec_x()))),
                ("y"@, JsonArgView::Str(b64url_text(vk.spec_y()))),
                ("kid"@, JsonArgView::Str(self.kid@)),
                ("use"@, JsonArgView::Str("sig"@)),
                ("alg"@, JsonArgView::Str("ES256"@)),
            ]);
            assert(arg_views(items@) =~= seq![JsonArgView::Json(jwk@)]);
            assert(entry_views(outer@) =~= seq![("keys"@, JsonArgView::Json(keys@))]);
        }
        json_object(&outer)
    }

    /// Issue an SD-JWT VC: each claim becomes a salted disclosure whose digest
    /// is listed (sorted) in `_sd`; `holder_jwk` (JSON text) is bound via
    /// `cnf`; the credential is valid for 24 hours from `now`.
    pub fn issue(&self, claims: &Vec<(String, JsonArg)>, holder_jwk: &str, now: DateTime) -> (res: IssuedCredential)
        requires
            representable(now.spec_unix() + CREDENTIAL_TTL_SECONDS, now.spec_nanos(), now.spec_offset()),
        ensures
            self.is_issuance(claim_views(claims@), holder_jwk@, now, res),
            self.reads_back(claim_views(claims@), holder_jwk@, now, res),
    {
        let iat = now.unix_timestamp();
        let exp_dt = now.checked_add_seconds(CREDENTIAL_TTL_SECONDS).unwrap();
        let exp = exp_dt.unix_timestamp();
        let mut disclosures: Vec<DisclosureOut> = Vec::new();
        let mut digests: Vec<String> = Vec::new();
        let mut i: usize = 0;
        while i < claims.len()
            invariant
                i <= claims@.len(),
                disclosures@.len() == i,
                views(digests@) == disclosure_digests(disclosures@),
                forall|j: int|
                    0 <= j < i ==> #[trigger] disclosures@[j].claim@ == claims@[j].0@ && exists|salt: Seq<u8>|
                        salted_disclosure(disclosures@[j].disclosure@, claims@[j].0@, claims@[j].1@, salt),
                forall|j: int|
                    0 <= j < i ==> disclosure_reads_back(
                        (#[trigger] disclosures@[j]).disclosure@,
                        claims@[j].0@,
                        claims@[j].1@,
                    ),
            decreases claims@.len() - i,
        {
            let (name, value) = &claims[i];
            let salt_bytes = random_bytes(16);
            let salt = b64url(salt_bytes.as_slice());
            let mut items: Vec<JsonArg> = Vec::new();
            items.push(JsonArg::Str(salt));
            items.push(JsonArg::Str(name.clone()));
            items.push(value.clone());
            assert(arg_views(items@) =~= seq![
                JsonArgView::Str(b64url_text(salt_bytes@)),
                JsonArgView::Str(name@),
                value@,
            ]);
            let arr = json_array(&items);
            let disclosure_b64 = b64url(arr.as_str().as_bytes());
            proof {
                if arg_depth(value@) < max_read_depth() {
                    let av = arg_views(items@);
                    assert forall|j: int| 0 <= j < av.len() implies arg_depth(#[trigger] av[j]) <= (max_read_depth()
                        - 1) as nat by {
                        assert(j == 0 || j == 1 || j == 2);
                    }
                    assert(items_within(av, (max_read_depth() - 1) as nat));
                    assert(json_str_item(encode_utf8(arr@), 1usize) == Some(name@));
                    if let JsonArgView::Str(v) = value@ {
                        assert(json_str_item(encode_utf8(arr@), 2usize) == Some(v));
                    }
                }
                assert(encode_utf8(arr@).len() > 0);
                assert(disclosure_reads_back(disclosure_b64@, name@, value@));
                assert(arr@ == disclosure_json(salt@, name@, value@));
                assert(salted_disclosure(disclosure_b64@, name@, value@, salt_bytes@));
            }
            let digest = sha256_b64url(disclosure_b64.as_str().as_bytes());
            let d = DisclosureOut { claim: name.clone(), disclosure: disclosure_b64 };
            proof {
                lemma_views_push(digests@, digest);
                assert(disclosure_digests(disclosures@.push(d)) =~= disclosure_digests(disclosures@).push(disclosure_digest(d.disclosure@)));
            }
            digests.push(digest);
            disclosures.push(d);
            i = i + 1;
        }
        let ghost cv = claim_views(claims@);
        assert forall|j: int| 0 <= j < cv.len() implies #[trigger] disclosures@[j].claim@ == cv[j].0
            && exists|salt: Seq<u8>| salted_disclosure(disclosures@[j].disclosure@, cv[j].0, cv[j].1, salt) by {
            assert(cv[j] == (claims@[j].0@, claims@[j].1@));
            assert(disclosures@[j].claim@ == claims@[j].0@);
            let salt = choose|salt: Seq<u8>|
                salted_disclosure(disclosures@[j].disclosure@, claims@[j].0@, claims@[j].1@, salt);
            assert(salted_disclosure(disclosures@[j].disclosure@, cv[j].0, cv[j].1, salt));
        }
        sort_strings(&mut digests);
        let mut cnf: Vec<(String, JsonArg)> = Vec::new();
        cnf.push(("jwk".to_owned(), JsonArg::Json(holder_jwk.to_owned())));
        let cnf_text = json_object(&cnf);
        let mut fields: Vec<(String, JsonArg)> = Vec::new();
        fields.push(("iss".to_owned(), JsonArg::Str(self.iss.clone())));
        fields.push(("iat".to_owned(), JsonArg::Int(iat)));
        fields.push(("exp".to_owned(), JsonArg::Int(exp)));
        fields.push(("vct".to_owned(), JsonArg::Str(VCT.to_owned())));
        fields.push(("_sd_alg".to_owned(), JsonArg::Str("sha-256".to_owned())));
        fields.push(("cnf".to_owned(), JsonArg::Json(cnf_text)));
        let sorted = crate::text::clone_strings(&digests);
        fields.push(("_sd".to_owned(), JsonArg::StrList(sorted)));
        proof {
            assert(entry_views(cnf@) =~= seq![("jwk"@, JsonArgView::Json(holder_jwk@))]);
            assert(entry_views(fields@) =~= seq![
                ("iss"@, JsonArgView::Str(self.iss@)),
                ("iat"@, JsonArgView::Int(iat)),
                ("exp"@, JsonArgView::Int(exp)),
                ("vct"@, JsonArgView::Str(VCT@)),
                ("_sd_alg"@, JsonArgView::Str("sha-256"@)),
                ("cnf"@, JsonArgView::Json(json_object_text(seq![("jwk"@, JsonArgView::Json(holder_jwk@))]))),
                ("_sd"@, JsonArgView::StrList(views(digests@))),
            ]);
        }
        let payload = json_object(&fields);
        proof {
            reveal_strlit("iss");
            reveal_strlit("iat");
            reveal_strlit("exp");
            reveal_strlit("vct");
            reveal_strlit("_sd_alg");
            reveal_strlit("cnf");
            reveal_strlit("_sd");
            reveal_strlit("jwk");
            reveal_strlit("/");
            reveal_strlit("/jwk");
            reveal_strlit("/cnf/jwk");
            let fv = entry_views(fields@);
            let pb = encode_utf8(payload@);
            reveal_with_fuel(last_value, 8);
            assert("_sd"@[0] != "cnf"@[0] && "_sd"@[0] != "exp"@[0] && "_sd"@[0] != "iss"@[0]);
            assert("_sd_alg"@[0] != "cnf"@[0] && "_sd_alg"@[0] != "exp"@[0] && "_sd_alg"@[0] != "iss"@[0]);
            assert("vct"@[0] != "exp"@[0] && "vct"@[0] != "iss"@[0] && "cnf"@[0] != "exp"@[0]);
            assert("cnf"@[0] != "iss"@[0] && "exp"@[0] != "iss"@[0] && "iat"@[1] != "iss"@[1]);
            assert("_sd"@.len() != "_sd_alg"@.len());
            assert(last_value(fv, "_sd"@) == Some(JsonArgView::StrList(views(digests@))));
            assert(last_value(fv, "cnf"@) == Some(JsonArgView::Json(cnf_text@)));
            assert(last_value(fv, "exp"@) == Some(JsonArgView::Int(exp)));
            assert(last_value(fv, "iss"@) == Some(JsonArgView::Str(self.iss@)));
            if json_depth(holder_jwk@) + 2 <= max_read_depth() {
                let cv = entry_views(cnf@);
                assert forall|j: int| 0 <= j < cv.len() implies arg_depth((#[trigger] cv[j]).1) <= json_depth(
                    holder_jwk@,
                ) by {
                    assert(cv[j] == ("jwk"@, JsonArgView::Json(holder_jwk@)));
                }
                assert(entries_within(cv, json_depth(holder_jwk@)));
                assert(json_depth(cnf_text@) <= json_depth(holder_jwk@) + 1);
                assert forall|j: int| 0 <= j < fv.len() implies arg_depth((#[trigger] fv[j]).1) <= (max_read_depth()
                    - 1) as nat by {
                    assert(0 <= j < 7);
                }
                assert(entries_within(fv, (max_read_depth() - 1) as nat));
                assert(json_str_member(pb, "iss"@) == Some(self.iss@));
                reveal_strlit("urn:eu.europa.ec.eudi:pid:1");
                reveal_strlit("sha-256");
                assert("iat"@[0] != "_sd"@[0] && "iat"@[0] != "cnf"@[0] && "iat"@[0] != "_sd_alg"@[0]);
                assert("iat"@[0] != "vct"@[0] && "iat"@[0] != "exp"@[0]);
                assert("vct"@[0] != "_sd"@[0] && "vct"@[0] != "cnf"@[0] && "vct"@[0] != "_sd_alg"@[0]);
                assert("_sd_alg"@[0] != "cnf"@[0]);
                assert(last_value(fv, "iat"@) == Some(JsonArgView::Int(iat)));
                assert(last_value(fv, "vct"@) == Some(JsonArgView::Str(VCT@)));
                assert(last_value(fv, "_sd_alg"@) == Some(JsonArgView::Str("sha-256"@)));
                assert(json_i64_member(pb, "iat"@) == Some(iat));
                assert(json_str_member(pb, "vct"@) == Some(VCT@));
                assert(json_str_member(pb, "_sd_alg"@) == Some("sha-256"@));
                assert(json_i64_member(pb, "exp"@) == Some(exp));
                assert(json_array_member(pb, "_sd"@) == Some(all_strings(views(digests@))));
                lemma_strings_only_all(views(digests@));
                assert(json_str_items(pb, "_sd"@) == views(digests@));
                if canonical_json(holder_jwk@) {
                    let cv = entry_views(cnf@);
                    assert forall|i: int| 0 <= i < cv.len() implies ((#[trigger] cv[i]).1 matches JsonArgView::Json(t)
                        ==> canonical_json(t)) by {
                        assert(cv[i] == ("jwk"@, JsonArgView::Json(holder_jwk@)));
                    }
                    assert(embedded_canonical(cv));
                    assert(canonical_json(cnf_text@));
                    assert(last_value(entry_views(cnf@), "jwk"@) == Some(JsonArgView::Json(holder_jwk@)));
                    assert("jwk"@ =~= seq!['j', 'w', 'k']);
                    assert(pointer_token("jwk"@));
                    assert("cnf"@ =~= seq!['c', 'n', 'f']);
                    assert(pointer_token("cnf"@));
                    assert("/jwk"@ =~= "/"@ + "jwk"@);
                    assert(json_at_pointer(encode_utf8(cnf_text@), "/"@ + "jwk"@) == Some(encode_utf8(holder_jwk@)));
                    assert("/cnf/jwk"@ =~= "/"@ + "cnf"@ + "/jwk"@);
                    assert(json_at_pointer(pb, "/"@ + "cnf"@ + "/jwk"@) == json_at_pointer(encode_utf8(cnf_text@), "/jwk"@));
                }
            }
        }
        let mut hdr: Vec<(String, JsonArg)> = Vec::new();
        hdr.push(("alg".to_owned(), JsonArg::Str("ES256".to_owned())));
        hdr.push(("typ".to_owned(), JsonArg::Str("dc+sd-jwt".to_owned())));
        hdr.push(("kid".to_owned(), JsonArg::Str(self.kid.clone())));
        assert(entry_views(hdr@) =~= seq![
            ("alg"@, JsonArgView::Str("ES256"@)),
            ("typ"@, JsonArgView::Str("dc+sd-jwt"@)),
            ("kid"@, JsonArgView::Str(self.kid@)),
        ]);
        let header = json_object(&hdr);
        let sd_jwt = jws_sign(&self.signing, header.as_str(), payload.as_str());
        let mut combined = sd_jwt.clone();
        let mut k: usize = 0;
        while k < disclosures.len()
            invariant
                k <= disclosures@.len(),
                combined@ == sd_jwt@ + tilde_joined(disclosure_texts(disclosures@).take(k as int)),
            decreases disclosures@.len() - k,
        {
            assert(disclosure_texts(disclosures@).take(k + 1).drop_last() =~= disclosure_texts(disclosures@).take(k as int));
            combined.append("~");
            combined.append(disclosures[k].disclosure.as_str());
            k = k + 1;
        }
        assert(disclosure_texts(disclosures@).take(k as int) =~= disclosure_texts(disclosures@));
        combined.append("~");
        proof {
            use_type_invariant(&exp_dt);
        }
        let expires_at = match format_rfc3339(&exp_dt) {
            Some(t) => t,
            None => String::new(),
        };
        IssuedCredential { sd_jwt, disclosures, combined, vct: VCT.to_owned(), expires_at }
    }
}

/// The demo PID attributes: given and family name, date of birth, country.
pub open spec fn demo_claim_views() -> Seq<(Seq<char>, JsonArgView)> {
    seq![
        ("given_name"@, JsonArgView::Str("Erika"@)),
        ("family_name"@, JsonArgView::Str("Mustermann"@)),
        ("birth_date"@, JsonArgView::Str("1984-01-26"@)),
        ("resident_country"@, JsonArgView::Str("DE"@)),
    ]
}

/// Demo PID attributes for a subject; each is selectively disclosable.
pub fn demo_claims(_subject_id: &str) -> (res: Vec<(String, JsonArg)>)
    ensures
        claim_views(res@) == demo_claim_views(),
{
    let mut v: Vec<(String, JsonArg)> = Vec::new();
    v.push(("given_name".to_owned(), JsonArg::Str("Erika".to_owned())));
    v.push(("family_name".to_owned(), JsonArg::Str("Mustermann".to_owned())));
    v.push(("birth_date".to_owned(), JsonArg::Str("1984-01-26".to_owned())));
    v.push(("resident_country".to_owned(), JsonArg::Str("DE".to_owned())));
    assert(claim_views(v@) =~= demo_claim_views());
    v
}

} // verus!
