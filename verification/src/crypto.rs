//! ES256 (P-256) primitives for SD-JWT VC: compact JWS signing and
//! verification, JWK conversion, SHA-256, base64url. The curve arithmetic,
//! hashing and encoding are done by RustCrypto `p256`/`sha2` and `base64`.

use vstd::prelude::*;
use vstd::utf8::encode_utf8;
use base64::Engine;
use sha2::Digest;
use p256::ecdsa::signature::{Signer, Verifier};
use rand_core::RngCore;
use crate::json::{
    canonical_json, embedded_canonical, entry_views, json_object, json_object_text, json_parse_error, json_str_field, json_str_member,
    json_valid, last_value, arg_depth, entries_within, json_depth, JsonArg, JsonArgView,
};
use crate::text::{join_with, split_char, split_on, views};

verus! {

// ---------------------------------------------------------------------------
// Encodings and hashing.
// ---------------------------------------------------------------------------

/// The unpadded URL-safe base64 text of `bytes`.
pub uninterp spec fn b64url_text(bytes: Seq<u8>) -> Seq<char>;

/// The bytes that unpadded URL-safe base64 text `s` decodes to, `None` if it is
/// not valid unpadded base64url.
pub uninterp spec fn b64url_bytes(s: Seq<char>) -> Option<Seq<u8>>;

/// The SHA-256 digest of `bytes`.
pub uninterp spec fn sha256_digest(bytes: Seq<u8>) -> Seq<u8>;

/// A character of the URL-safe base64 alphabet.
pub open spec fn b64url_char(c: char) -> bool {
    ('A' <= c && c <= 'Z') || ('a' <= c && c <= 'z') || ('0' <= c && c <= '9') || c == '-' || c == '_'
}

/// `URL_SAFE_NO_PAD.encode` (base64 crate): the text uses only the URL-safe
/// alphabet, has one character per six bits with no `=` padding (4n/3 rounded
/// up for n bytes), and decodes back to the bytes.
#[verifier::external_body]
pub fn b64url(bytes: &[u8]) -> (res: String)
    ensures
        res@ == b64url_text(bytes@),
        b64url_bytes(res@) == Some(bytes@),
        forall|i: int| 0 <= i < res@.len() ==> b64url_char(#[trigger] res@[i]),
        res@.len() == (4 * bytes@.len() + 2) / 3,
{
    base64::engine::general_purpose::URL_SAFE_NO_PAD.encode(bytes)
}

/// `URL_SAFE_NO_PAD.decode` (base64 crate).
#[verifier::external_body]
pub fn b64url_decode(s: &str) -> (res: Result<Vec<u8>, String>)
    ensures
        res matches Ok(v) ==> b64url_bytes(s@) == Some(v@),
        res is Err ==> b64url_bytes(s@) is None,
{
    base64::engine::general_purpose::URL_SAFE_NO_PAD.decode(s.as_bytes()).map_err(|e| format!("base64url: {e}"))
}

/// `Sha256::digest` (sha2 crate).
#[verifier::external_body]
pub fn sha256(bytes: &[u8]) -> (res: [u8; 32])
    ensures
        res@ == sha256_digest(bytes@),
{
    sha2::Sha256::digest(bytes).into()
}

/// The base64url text of the SHA-256 digest of `bytes`.
pub open spec fn sha256_b64url_text(bytes: Seq<u8>) -> Seq<char> {
    b64url_text(sha256_digest(bytes))
}

/// base64url(SHA-256(bytes)): 43 characters of the URL-safe alphabet.
pub fn sha256_b64url(bytes: &[u8]) -> (res: String)
    ensures
        res@ == sha256_b64url_text(bytes@),
        res@.len() == 43,
        forall|i: int| 0 <= i < res@.len() ==> b64url_char(#[trigger] res@[i]),
{
    let d = sha256(bytes);
    assert(d@.len() == 32);
    b64url(&d)
}

/// `RngCore::fill_bytes` on `OsRng`: `n` bytes from the operating system's
/// secure random source (no claim on their values).
#[verifier::external_body]
pub(crate) fn random_bytes(n: usize) -> (res: Vec<u8>)
    ensures
        res@.len() == n,
{
    let mut b = vec![0u8; n];
    rand_core::OsRng.fill_bytes(&mut b);
    b
}

// ---------------------------------------------------------------------------
// P-256 keys and ES256 signatures.
// ---------------------------------------------------------------------------

/// `d` is a valid P-256 secret scalar (32 big-endian bytes, in 1..n).
pub uninterp spec fn is_p256_secret(d: Seq<u8>) -> bool;

/// (x, y) are the 32-byte affine coordinates of a point on P-256.
pub uninterp spec fn is_p256_point(x: Seq<u8>, y: Seq<u8>) -> bool;

/// The public point (x, y) of secret scalar `d`.
pub uninterp spec fn p256_public(d: Seq<u8>) -> (Seq<u8>, Seq<u8>);

/// The ES256 signature (`r || s`, RFC 6979 deterministic) of `msg` under `d`.
pub uninterp spec fn es256_signature(d: Seq<u8>, msg: Seq<u8>) -> Seq<u8>;

/// `sig` is a valid ES256 signature of `msg` under public point (x, y).
pub uninterp spec fn es256_valid(x: Seq<u8>, y: Seq<u8>, msg: Seq<u8>, sig: Seq<u8>) -> bool;

/// A P-256 public key, as affine coordinates.
#[derive(Debug)]
pub struct VerifyingKey {
    x: Vec<u8>,
    y: Vec<u8>,
}

impl VerifyingKey {
    #[verifier::type_invariant]
    closed spec fn wf(self) -> bool {
        self.x@.len() == 32 && self.y@.len() == 32 && is_p256_point(self.x@, self.y@)
    }

    pub closed spec fn spec_x(&self) -> Seq<u8> {
        self.x@
    }

    pub closed spec fn spec_y(&self) -> Seq<u8> {
        self.y@
    }

    /// A copy of the key.
    pub fn copy(&self) -> (res: VerifyingKey)
        ensures
            res.spec_x() == self.spec_x(),
            res.spec_y() == self.spec_y(),
    {
        proof {
            use_type_invariant(self);
        }
        let x = copy_bytes(&self.x);
        let y = copy_bytes(&self.y);
        VerifyingKey { x, y }
    }

    /// The x coordinate (32 bytes, big-endian).
    pub fn x(&self) -> (res: &Vec<u8>)
        ensures
            res@ == self.spec_x(),
    {
        &self.x
    }

    /// The y coordinate (32 bytes, big-endian).
    pub fn y(&self) -> (res: &Vec<u8>)
        ensures
            res@ == self.spec_y(),
    {
        &self.y
    }
}

/// A copy of a byte vector.
pub fn copy_bytes(v: &Vec<u8>) -> (res: Vec<u8>)
    ensures
        res@ == v@,
{
    let mut out: Vec<u8> = Vec::new();
    let mut i: usize = 0;
    while i < v.len()
        invariant
            i <= v@.len(),
            out@ == v@.take(i as int),
        decreases v@.len() - i,
    {
        out.push(v[i]);
        i = i + 1;
        assert(out@ =~= v@.take(i as int));
    }
    assert(v@.take(i as int) =~= v@);
    out
}

/// A P-256 signing key (secret scalar) with its public key.
pub struct SigningKey {
    scalar: Vec<u8>,
    public: VerifyingKey,
}

impl SigningKey {
    #[verifier::type_invariant]
    closed spec fn wf(self) -> bool {
        &&& is_p256_secret(self.scalar@)
        &&& p256_public(self.scalar@) == (self.public.spec_x(), self.public.spec_y())
    }

    pub closed spec fn spec_scalar(&self) -> Seq<u8> {
        self.scalar@
    }

    pub closed spec fn spec_public(&self) -> VerifyingKey {
        self.public
    }

    /// The public key of this signing key.
    pub fn verifying_key(&self) -> (res: &VerifyingKey)
        ensures
            *res == self.spec_public(),
            (res.spec_x(), res.spec_y()) == p256_public(self.spec_scalar()),
    {
        proof {
            use_type_invariant(self);
        }
        &self.public
    }
}

/// `SigningKey::random(&mut OsRng)`: a fresh signing key (no claim on which).
#[verifier::external_body]
pub fn generate_key() -> (res: SigningKey)
    ensures
        is_p256_secret(res.spec_scalar()),
        p256_public(res.spec_scalar()) == (res.spec_public().spec_x(), res.spec_public().spec_y()),
{
    let sk = p256::ecdsa::SigningKey::random(&mut rand_core::OsRng);
    let ep = sk.verifying_key().to_encoded_point(false);
    let public = VerifyingKey { x: ep.x().unwrap().to_vec(), y: ep.y().unwrap().to_vec() };
    SigningKey { scalar: sk.to_bytes().to_vec(), public }
}

/// `Signer::sign` of `p256::ecdsa::SigningKey`: the ES256 signature, as the
/// 64-byte `r || s` encoding, which verifies under the key's public point.
#[verifier::external_body]
fn es256_sign(sk: &SigningKey, msg: &[u8]) -> (res: Vec<u8>)
    requires
        is_p256_secret(sk.spec_scalar()),
    ensures
        res@ == es256_signature(sk.spec_scalar(), msg@),
        es256_valid(p256_public(sk.spec_scalar()).0, p256_public(sk.spec_scalar()).1, msg@, res@),
{
    let key = p256::ecdsa::SigningKey::from_slice(&sk.scalar).unwrap();
    let sig: p256::ecdsa::Signature = key.sign(msg);
    sig.to_bytes().to_vec()
}

/// `Verifier::verify` of `p256::ecdsa::VerifyingKey`, after
/// `Signature::from_slice` (a `sig` that is not a 64-byte `r || s` is invalid).
#[verifier::external_body]
fn es256_verify(vk: &VerifyingKey, msg: &[u8], sig: &[u8]) -> (res: bool)
    requires
        vk.spec_x().len() == 32,
        vk.spec_y().len() == 32,
    ensures
        res == es256_valid(vk.spec_x(), vk.spec_y(), msg@, sig@),
{
    let ep = p256::EncodedPoint::from_affine_coordinates(
        p256::FieldBytes::from_slice(&vk.x), p256::FieldBytes::from_slice(&vk.y), false);
    let Ok(key) = p256::ecdsa::VerifyingKey::from_encoded_point(&ep) else { return false };
    let Ok(sig) = p256::ecdsa::Signature::from_slice(sig) else { return false };
    key.verify(msg, &sig).is_ok()
}

/// `Signature::from_slice` (p256 crate): the text of its error when `sig` is
/// not a 64-byte `r || s` signature with scalars in range, `None` when it is.
/// Nothing is stated of it: it only words the refusal of a signature that
/// `es256_verify` has already found invalid.
#[verifier::external_body]
fn signature_error(sig: &[u8]) -> (res: Option<String>) {
    p256::ecdsa::Signature::from_slice(sig).err().map(|e| e.to_string())
}

/// `VerifyingKey::from_encoded_point` accepts the uncompressed point (x, y).
#[verifier::external_body]
fn p256_point_valid(x: &[u8], y: &[u8]) -> (res: bool)
    requires
        x@.len() == 32,
        y@.len() == 32,
    ensures
        res == is_p256_point(x@, y@),
{
    let ep = p256::EncodedPoint::from_affine_coordinates(
        p256::FieldBytes::from_slice(x), p256::FieldBytes::from_slice(y), false);
    p256::ecdsa::VerifyingKey::from_encoded_point(&ep).is_ok()
}


// ---------------------------------------------------------------------------
// Compact JWS (ES256) and JWK.
// ---------------------------------------------------------------------------

/// The signing input of a compact JWS: base64url(header) "." base64url(payload).
pub open spec fn jws_signing_input(header: Seq<char>, payload: Seq<char>) -> Seq<char> {
    b64url_text(encode_utf8(header)) + "."@ + b64url_text(encode_utf8(payload))
}

/// The compact ES256 JWS of the JSON texts `header` and `payload` under secret `d`.
pub open spec fn jws_compact(d: Seq<u8>, header: Seq<char>, payload: Seq<char>) -> Seq<char> {
    let input = jws_signing_input(header, payload);
    input + "."@ + b64url_text(es256_signature(d, encode_utf8(input)))
}

/// The payload bytes of compact JWS `jwt` when it has three parts, its
/// signature verifies under (x, y), and its payload decodes to JSON.
pub open spec fn jws_verified_payload(x: Seq<u8>, y: Seq<u8>, jwt: Seq<char>) -> Option<Seq<u8>> {
    let parts = split_on(jwt, '.');
    if parts.len() != 3 {
        None
    } else {
        match b64url_bytes(parts[2]) {
            None => None,
            Some(sig) => if !es256_valid(x, y, encode_utf8(parts[0] + "."@ + parts[1]), sig) {
                None
            } else {
                match b64url_bytes(parts[1]) {
                    Some(p) => if json_valid(p) { Some(p) } else { None },
                    None => None,
                }
            },
        }
    }
}

/// The payload bytes of compact JWS `jwt`, read without checking the signature.
pub open spec fn jws_unverified_payload(jwt: Seq<char>) -> Option<Seq<u8>> {
    let parts = split_on(jwt, '.');
    if parts.len() != 3 {
        None
    } else {
        match b64url_bytes(parts[1]) {
            Some(p) => if json_valid(p) { Some(p) } else { None },
            None => None,
        }
    }
}

/// Text of base64url characters and dots only.
pub open spec fn jws_chars(s: Seq<char>) -> bool {
    forall|i: int| 0 <= i < s.len() ==> b64url_char(#[trigger] s[i]) || s[i] == '.'
}

/// Text of base64url characters and dots holds no other character `c`.
pub proof fn lemma_no_sep(s: Seq<char>, c: char)
    requires
        forall|i: int| 0 <= i < s.len() ==> b64url_char(#[trigger] s[i]) || s[i] == '.',
        !b64url_char(c),
        c != '.',
    ensures
        !s.contains(c),
{
    if s.contains(c) {
        let i = choose|i: int| 0 <= i < s.len() && s[i] == c;
        assert(b64url_char(s[i]) || s[i] == '.');
    }
}

proof fn lemma_b64_free(s: Seq<char>, c: char)
    requires
        forall|i: int| 0 <= i < s.len() ==> b64url_char(#[trigger] s[i]),
        !b64url_char(c),
    ensures
        !s.contains(c),
{
    if s.contains(c) {
        let i = choose|i: int| 0 <= i < s.len() && s[i] == c;
        assert(b64url_char(s[i]));
    }
}

/// Sign a compact JWS (ES256): b64url(header).b64url(payload).b64url(sig),
/// where `header` and `payload` are JSON texts. The result verifies under the
/// signing key's public point and gives back the payload, when that is JSON.
pub fn jws_sign(sk: &SigningKey, header: &str, payload: &str) -> (res: String)
    ensures
        res@ == jws_compact(sk.spec_scalar(), header@, payload@),
        json_valid(encode_utf8(payload@)) ==> jws_verified_payload(
            p256_public(sk.spec_scalar()).0,
            p256_public(sk.spec_scalar()).1,
            res@,
        ) == Some(encode_utf8(payload@)),
        jws_chars(res@),
        res@.len() > 0,
{
    let h = b64url(header.as_bytes());
    let mut input = h.clone();
    input.append(".");
    let p = b64url(payload.as_bytes());
    input.append(p.as_str());
    proof {
        use_type_invariant(sk);
    }
    let sig = es256_sign(sk, input.as_str().as_bytes());
    let s = b64url(sig.as_slice());
    let mut out = input.clone();
    out.append(".");
    out.append(s.as_str());
    proof {
        reveal_strlit(".");
        assert("."@ =~= seq!['.']);
        assert(forall|i: int| 0 <= i < h@.len() ==> b64url_char(#[trigger] h@[i]));
        lemma_b64_free(h@, '.');
        lemma_b64_free(p@, '.');
        lemma_b64_free(s@, '.');
        let parts = seq![h@, p@, s@];
        assert forall|i: int| 0 <= i < parts.len() implies !(#[trigger] parts[i]).contains('.') by {
            if i == 0 {
                assert(parts[i] == h@);
            } else if i == 1 {
                assert(parts[i] == p@);
            } else {
                assert(parts[i] == s@);
            }
        }
        let two = parts.drop_last();
        assert(two =~= seq![h@, p@]);
        assert(two.drop_last() =~= seq![h@]);
        assert(join_with(two.drop_last(), seq!['.']) == h@);
        assert(two.last() == p@);
        assert(join_with(two, seq!['.']) =~= h@ + seq!['.'] + p@);
        assert(parts.last() == s@);
        assert(join_with(parts, seq!['.']) =~= out@);
        crate::text::lemma_split_join(parts, '.');
        assert(split_on(out@, '.') == parts);
        assert(parts[0] + "."@ + parts[1] =~= input@);
        assert forall|i: int| 0 <= i < out@.len() implies b64url_char(#[trigger] out@[i]) || out@[i] == '.' by {
            if i < h@.len() {
                assert(out@[i] == h@[i]);
            } else if i == h@.len() {
                assert(out@[i] == '.');
            } else if i < h@.len() + 1 + p@.len() {
                assert(out@[i] == p@[i - h@.len() - 1]);
            } else if i == h@.len() + 1 + p@.len() {
                assert(out@[i] == '.');
            } else {
                assert(out@[i] == s@[i - h@.len() - 2 - p@.len()]);
            }
        }
    }
    out
}

/// Verify a compact JWS against a verifying key; return the payload bytes.
pub fn jws_verify(vk: &VerifyingKey, jwt: &str) -> (res: Result<Vec<u8>, String>)
    ensures
        res matches Ok(p) ==> jws_verified_payload(vk.spec_x(), vk.spec_y(), jwt@) == Some(p@),
        res is Err ==> jws_verified_payload(vk.spec_x(), vk.spec_y(), jwt@) is None,
{
    let parts = split_char(jwt, '.');
    if parts.len() != 3 {
        return Err("jws: expected 3 parts".to_owned());
    }
    assert(views(parts@)[0] == parts@[0]@ && views(parts@)[1] == parts@[1]@ && views(parts@)[2] == parts@[2]@);
    let mut input = parts[0].clone();
    input.append(".");
    input.append(parts[1].as_str());
    let sig = match b64url_decode(parts[2].as_str()) {
        Ok(s) => s,
        Err(e) => return Err(e),
    };
    proof {
        use_type_invariant(vk);
    }
    if !es256_verify(vk, input.as_str().as_bytes(), sig.as_slice()) {
        return match signature_error(sig.as_slice()) {
            Some(e) => Err(prefixed("jws sig: ", e)),
            None => Err("jws: signature verification failed".to_owned()),
        };
    }
    let payload = match b64url_decode(parts[1].as_str()) {
        Ok(p) => p,
        Err(e) => return Err(e),
    };
    match json_parse_error(payload.as_slice()) {
        Some(e) => Err(prefixed("jws payload: ", e)),
        None => Ok(payload),
    }
}

/// `prefix` followed by `detail`.
fn prefixed(prefix: &str, detail: String) -> (res: String)
    ensures
        res@ == prefix@ + detail@,
{
    let mut m = prefix.to_owned();
    m.append(detail.as_str());
    m
}

/// Decode a JWS payload WITHOUT verifying it. Never trust it until verified.
pub fn jws_payload_unverified(jwt: &str) -> (res: Result<Vec<u8>, String>)
    ensures
        res matches Ok(p) ==> jws_unverified_payload(jwt@) == Some(p@),
        res is Err ==> jws_unverified_payload(jwt@) is None,
{
    let parts = split_char(jwt, '.');
    if parts.len() != 3 {
        return Err("jws: expected 3 parts".to_owned());
    }
    assert(views(parts@)[1] == parts@[1]@);
    let payload = match b64url_decode(parts[1].as_str()) {
        Ok(p) => p,
        Err(e) => return Err(e),
    };
    match json_parse_error(payload.as_slice()) {
        Some(e) => Err(prefixed("jws payload: ", e)),
        None => Ok(payload),
    }
}

/// The public JWK `{kty, crv, x, y}` of the point (x, y), as JSON text.
pub open spec fn jwk_text(x: Seq<u8>, y: Seq<u8>) -> Seq<char> {
    json_object_text(
        seq![
            ("kty"@, JsonArgView::Str("EC"@)),
            ("crv"@, JsonArgView::Str("P-256"@)),
            ("x"@, JsonArgView::Str(b64url_text(x))),
            ("y"@, JsonArgView::Str(b64url_text(y))),
        ],
    )
}

/// Public JWK (`{kty, crv, x, y}`) of a verifying key, as JSON text; it reads
/// back as the key's point.
pub fn jwk_from_verifying(vk: &VerifyingKey) -> (res: String)
    ensures
        res@ == jwk_text(vk.spec_x(), vk.spec_y()),
        canonical_json(res@),
        json_depth(res@) <= 1,
        jwk_point(encode_utf8(res@)) == Some((vk.spec_x(), vk.spec_y())),
{
    let mut entries: Vec<(String, JsonArg)> = Vec::new();
    entries.push(("kty".to_owned(), JsonArg::Str("EC".to_owned())));
    entries.push(("crv".to_owned(), JsonArg::Str("P-256".to_owned())));
    let xs = b64url(vk.x().as_slice());
    let ys = b64url(vk.y().as_slice());
    entries.push(("x".to_owned(), JsonArg::Str(xs)));
    entries.push(("y".to_owned(), JsonArg::Str(ys)));
    let res = json_object(&entries);
    let ghost ev = entry_views(entries@);
    assert(ev =~= seq![
        ("kty"@, JsonArgView::Str("EC"@)),
        ("crv"@, JsonArgView::Str("P-256"@)),
        ("x"@, JsonArgView::Str(b64url_text(vk.spec_x()))),
        ("y"@, JsonArgView::Str(b64url_text(vk.spec_y()))),
    ]);
    proof {
        assert forall|i: int| 0 <= i < ev.len() implies ((#[trigger] ev[i]).1 matches JsonArgView::Json(t)
            ==> canonical_json(t)) by {
            assert(ev[i].1 is Str);
        }
        assert(embedded_canonical(ev));
        assert forall|i: int| 0 <= i < ev.len() implies arg_depth((#[trigger] ev[i]).1) <= 0 by {
            assert(ev[i].1 is Str);
        }
        assert(entries_within(ev, 0));
        use_type_invariant(vk);
        reveal_strlit("x");
        reveal_strlit("y");
        assert("x"@ != "y"@) by {
            assert("x"@[0] != "y"@[0]);
        }
        assert(ev.last().0 == "y"@);
        assert(last_value(ev, "y"@) == Some(JsonArgView::Str(ys@)));
        assert(ev.drop_last().last().0 == "x"@);
        assert(last_value(ev.drop_last(), "x"@) == Some(JsonArgView::Str(xs@)));
        assert(last_value(ev, "x"@) == Some(JsonArgView::Str(xs@)));
        assert(json_str_member(encode_utf8(res@), "x"@) == Some(xs@));
        assert(json_str_member(encode_utf8(res@), "y"@) == Some(ys@));
    }
    res
}

/// The point a JSON JWK names: its `x` and `y` members decode from base64url
/// to 32 bytes each and lie on P-256.
pub open spec fn jwk_point(jwk: Seq<u8>) -> Option<(Seq<u8>, Seq<u8>)> {
    match (json_str_member(jwk, "x"@), json_str_member(jwk, "y"@)) {
        (Some(xs), Some(ys)) => match (b64url_bytes(xs), b64url_bytes(ys)) {
            (Some(x), Some(y)) => if x.len() == 32 && y.len() == 32 && is_p256_point(x, y) {
                Some((x, y))
            } else {
                None
            },
            _ => None,
        },
        _ => None,
    }
}

/// Reconstruct a verifying key from an EC P-256 JWK given as JSON bytes.
pub fn verifying_from_jwk(jwk: &[u8]) -> (res: Result<VerifyingKey, String>)
    ensures
        res matches Ok(k) ==> jwk_point(jwk@) == Some((k.spec_x(), k.spec_y())),
        res is Err ==> jwk_point(jwk@) is None,
{
    let x = match json_str_field(jwk, "x") {
        Some(x) => x,
        None => return Err("jwk missing x".to_owned()),
    };
    let y = match json_str_field(jwk, "y") {
        Some(y) => y,
        None => return Err("jwk missing y".to_owned()),
    };
    let xb = match b64url_decode(x.as_str()) {
        Ok(b) => b,
        Err(e) => return Err(e),
    };
    let yb = match b64url_decode(y.as_str()) {
        Ok(b) => b,
        Err(e) => return Err(e),
    };
    if xb.len() != 32 || yb.len() != 32 {
        return Err("jwk coordinate length != 32".to_owned());
    }
    if !p256_point_valid(xb.as_slice(), yb.as_slice()) {
        return Err("invalid P-256 point in jwk".to_owned());
    }
    Ok(VerifyingKey { x: xb, y: yb })
}

} // verus!
