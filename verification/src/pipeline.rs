//! The end-to-end law of the SD-JWT pipeline: a credential as the issuer
//! issues it, presented with any selection of its disclosures and a
//! key-binding JWT signed by the bound holder key, passes every verification
//! check and yields evidence derived from exactly the disclosed claims.

use vstd::prelude::*;
use vstd::utf8::encode_utf8;
use crate::clock::DateTime;
use crate::crypto::{jwk_point, jws_verified_payload, lemma_no_sep, p256_public, sha256_b64url_text};
use crate::evidence::{derived_evidence, disclosures_outcome, sd_jwt_outcome, DisclosedView};
use crate::issuer::{
    disclosure_digest, disclosure_digests, disclosure_reads_back, payload_reads_back, IssuedCredential, Issuer,
    CREDENTIAL_TTL_SECONDS,
};
use crate::json::{canonical_json, json_depth, json_str_member, max_read_depth, JsonArgView};
use crate::text::{count_nonempty, join_with, lemma_split_join, split_on};

verus! {

/// The text of a string value (`None` for other JSON values).
pub open spec fn str_value(v: JsonArgView) -> Option<Seq<char>> {
    match v {
        JsonArgView::Str(s) => Some(s),
        _ => None,
    }
}

/// The claims disclosed by presenting the disclosures `sel` (indices into the
/// claims, in presentation order) on top of `acc`; a later one wins.
pub open spec fn disclose(acc: DisclosedView, claims: Seq<(Seq<char>, JsonArgView)>, sel: Seq<int>) -> DisclosedView
    decreases sel.len(),
{
    if sel.len() == 0 {
        acc
    } else {
        disclose(acc.insert(claims[sel[0]].0, str_value(claims[sel[0]].1)), claims, sel.drop_first())
    }
}

/// The disclosures `sel` of a credential, in presentation order.
pub open spec fn selected(cred: IssuedCredential, sel: Seq<int>) -> Seq<Seq<char>> {
    sel.map_values(|j: int| cred.disclosures@[j].disclosure@)
}

/// The issuer JWT followed by the selected disclosures.
pub open spec fn presented_parts(cred: IssuedCredential, sel: Seq<int>) -> Seq<Seq<char>> {
    seq![cred.sd_jwt@] + selected(cred, sel)
}

/// The presented part of a presentation: `<issuer-jwt>~<disclosure>*~`, the
/// text whose digest the key-binding JWT carries as `sd_hash`.
pub open spec fn presented_text(cred: IssuedCredential, sel: Seq<int>) -> Seq<char> {
    join_with(presented_parts(cred, sel), "~"@) + "~"@
}

proof fn lemma_count_all_nonempty(v: Seq<Seq<char>>)
    requires
        forall|i: int| 0 <= i < v.len() ==> (#[trigger] v[i]).len() > 0,
    ensures
        count_nonempty(v) == v.len(),
    decreases v.len(),
{
    if v.len() > 0 {
        let init = v.drop_last();
        assert forall|i: int| 0 <= i < init.len() implies (#[trigger] init[i]).len() > 0 by {
            assert(init[i] == v[i]);
        }
        lemma_count_all_nonempty(init);
        assert(v.last() == v[v.len() - 1]);
    }
}

proof fn lemma_disclosures(
    claims: Seq<(Seq<char>, JsonArgView)>,
    cred: IssuedCredential,
    sel: Seq<int>,
    sd: Seq<Seq<char>>,
    acc: DisclosedView,
)
    requires
        cred.disclosures@.len() == claims.len(),
        forall|i: int|
            0 <= i < claims.len() ==> disclosure_reads_back(
                (#[trigger] cred.disclosures@[i]).disclosure@,
                claims[i].0,
                claims[i].1,
            ),
        forall|i: int| 0 <= i < claims.len() ==> (#[trigger] claims[i]).0.len() > 0 && claims[i].1 is Str,
        forall|k: int| 0 <= k < sel.len() ==> 0 <= #[trigger] sel[k] < claims.len(),
        sd.to_multiset() == disclosure_digests(cred.disclosures@).to_multiset(),
    ensures
        disclosures_outcome(selected(cred, sel), sd, acc) == Ok::<DisclosedView, Seq<char>>(disclose(acc, claims, sel)),
    decreases sel.len(),
{
    let ds = selected(cred, sel);
    if sel.len() > 0 {
        let j = sel[0];
        assert(0 <= j < claims.len());
        let d = cred.disclosures@[j].disclosure@;
        assert(ds[0] == d);
        assert(disclosure_reads_back(d, claims[j].0, claims[j].1));
        assert(claims[j].0.len() > 0 && claims[j].1 is Str);
        let all = disclosure_digests(cred.disclosures@);
        assert(all[j] == disclosure_digest(d));
        all.to_multiset_ensures();
        sd.to_multiset_ensures();
        let x = disclosure_digest(d);
        assert(all.contains(x));
        assert(all.to_multiset().count(x) > 0);
        assert(sd.to_multiset().count(x) > 0);
        assert(sd.contains(sha256_b64url_text(encode_utf8(d))));
        let rest = sel.drop_first();
        assert forall|k: int| 0 <= k < rest.len() implies 0 <= #[trigger] rest[k] < claims.len() by {
            assert(rest[k] == sel[k + 1]);
        }
        assert(ds.drop_first() =~= selected(cred, rest));
        lemma_disclosures(claims, cred, rest, sd, acc.insert(claims[j].0, str_value(claims[j].1)));
    }
}

/// Issuance and verification agree: whatever the issuer issues for claims
/// with non-empty names and string values, bound to a holder key given in
/// canonical JWK form that nests shallowly enough for the JSON parser to read
/// the issuer payload back (as every JWK of a key pair does), passes verification by a verifier pinned to the
/// issuer's key and identifier, for any selection of its disclosures, when
/// the key-binding JWT is signed by that holder key over the challenge's
/// audience and nonce and the digest of the presented part, and the clock is
/// not past the credential's expiry. The evidence then derives from exactly
/// the selected claims, and every selected disclosure is counted.
pub proof fn law_issued_credential_verifies(
    issuer: &Issuer,
    claims: Seq<(Seq<char>, JsonArgView)>,
    holder_jwk: Seq<char>,
    hx: Seq<u8>,
    hy: Seq<u8>,
    now: DateTime,
    cred: IssuedCredential,
    sel: Seq<int>,
    kb: Seq<char>,
    kb_payload: Seq<u8>,
    nonce: Seq<char>,
    aud: Seq<char>,
    required: Seq<Seq<char>>,
    t: DateTime,
)
    requires
        issuer.is_issuance(claims, holder_jwk, now, cred),
        issuer.reads_back(claims, holder_jwk, now, cred),
        canonical_json(holder_jwk),
        json_depth(holder_jwk) + 2 <= max_read_depth(),
        jwk_point(encode_utf8(holder_jwk)) == Some((hx, hy)),
        forall|i: int| 0 <= i < claims.len() ==> (#[trigger] claims[i]).0.len() > 0 && claims[i].1 is Str,
        forall|k: int| 0 <= k < sel.len() ==> 0 <= #[trigger] sel[k] < claims.len(),
        !kb.contains('~'),
        kb.len() > 0,
        jws_verified_payload(hx, hy, kb) == Some(kb_payload),
        json_str_member(kb_payload, "aud"@) == Some(aud),
        json_str_member(kb_payload, "nonce"@) == Some(nonce),
        json_str_member(kb_payload, "sd_hash"@) == Some(sha256_b64url_text(encode_utf8(presented_text(cred, sel)))),
        t.spec_unix() <= (now.spec_unix() + CREDENTIAL_TTL_SECONDS) as i64,
    ensures
        ({
            let o = sd_jwt_outcome(
                p256_public(issuer.spec_signing().spec_scalar()).0,
                p256_public(issuer.spec_signing().spec_scalar()).1,
                issuer.spec_iss(),
                Some(presented_text(cred, sel) + kb),
                nonce,
                aud,
                required,
                t,
            );
            &&& o.ok
            &&& o.evidence == derived_evidence(required, disclose(Map::empty(), claims, sel), t)
            &&& o.nonce == nonce
            &&& o.audience == aud
            &&& o.disclosure_count == sel.len()
        }),
{
    reveal_strlit("~");
    assert("~"@ =~= seq!['~']);
    let pp = presented_parts(cred, sel);
    let parts = pp.push(kb);
    let vp = presented_text(cred, sel) + kb;
    let dsel = selected(cred, sel);
    // The presentation splits back into its parts.
    assert(parts.drop_last() =~= pp);
    assert(join_with(parts, "~"@) =~= vp);
    lemma_no_sep(cred.sd_jwt@, '~');
    assert forall|i: int| 0 <= i < parts.len() implies !(#[trigger] parts[i]).contains('~') by {
        if i == 0 {
            assert(parts[i] == cred.sd_jwt@);
        } else if i < parts.len() - 1 {
            let j = sel[i - 1];
            assert(parts[i] == cred.disclosures@[j].disclosure@);
            assert(disclosure_reads_back(cred.disclosures@[j].disclosure@, claims[j].0, claims[j].1));
            let d = parts[i];
            if d.contains('~') {
                let k = choose|k: int| 0 <= k < d.len() && d[k] == '~';
                assert(crate::crypto::b64url_char(d[k]));
            }
        } else {
            assert(parts[i] == kb);
        }
    }
    lemma_split_join(parts, '~');
    assert(split_on(vp, '~') == parts);
    assert(vp.len() > 0);
    assert(parts.last() == kb);
    // The disclosures are the selected ones, all non-empty.
    assert(parts.subrange(1, parts.len() - 1) =~= dsel);
    assert forall|i: int| 0 <= i < dsel.len() implies (#[trigger] dsel[i]).len() > 0 by {
        let j = sel[i];
        assert(disclosure_reads_back(cred.disclosures@[j].disclosure@, claims[j].0, claims[j].1));
    }
    lemma_count_all_nonempty(dsel);
    // The issuer JWT verifies and reads back.
    let (ix, iy) = p256_public(issuer.spec_signing().spec_scalar());
    assert(parts[0] == cred.sd_jwt@);
    let p = jws_verified_payload(ix, iy, cred.sd_jwt@)->0;
    assert(payload_reads_back(
        p,
        issuer.spec_iss(),
        now.spec_unix(),
        (now.spec_unix() + CREDENTIAL_TTL_SECONDS) as i64,
        disclosure_digests(cred.disclosures@),
        holder_jwk,
    ));
    lemma_disclosures(
        claims,
        cred,
        sel,
        crate::json::json_str_items(p, "_sd"@),
        Map::empty(),
    );
    // The key binding: the presented part is what the verifier rebuilds.
    assert(parts.take(parts.len() - 1) =~= pp);
}

} // verus!
