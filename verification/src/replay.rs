//! Replay protection. Each evidence request creates a challenge with a
//! single-use nonce and a short time-to-live. A presentation must echo the
//! request id, nonce and audience; the nonce is consumed on first success.

use vstd::prelude::*;
use crate::clock::DateTime;
use crate::domain::Kind;
use crate::strmap::StrMap;
use crate::text::{clone_strings, string_of, views};

verus! {

/// Nonce time-to-live: 5 minutes.
pub const NONCE_TTL_SECONDS: i64 = 300;

/// A challenge bound to a resolved question or policy and a subject.
#[derive(Debug)]
pub struct Challenge {
    pub request_id: String,
    pub nonce: String,
    pub audience: String,
    pub issued_at: DateTime,
    pub expires_at: DateTime,
    pub canonical: String,
    pub kind: Kind,
    pub subject_id: String,
    pub required_evidence: Vec<String>,
}

/// A challenge as plain values.
pub struct ChallengeView {
    pub request_id: Seq<char>,
    pub nonce: Seq<char>,
    pub audience: Seq<char>,
    pub issued_at: DateTime,
    pub expires_at: DateTime,
    pub canonical: Seq<char>,
    pub kind: Kind,
    pub subject_id: Seq<char>,
    pub required_evidence: Seq<Seq<char>>,
}

impl View for Challenge {
    type V = ChallengeView;

    open spec fn view(&self) -> ChallengeView {
        ChallengeView {
            request_id: self.request_id@,
            nonce: self.nonce@,
            audience: self.audience@,
            issued_at: self.issued_at,
            expires_at: self.expires_at,
            canonical: self.canonical@,
            kind: self.kind,
            subject_id: self.subject_id@,
            required_evidence: views(self.required_evidence@),
        }
    }
}

impl Clone for Challenge {
    fn clone(&self) -> (res: Self)
        ensures
            res@ == self@,
    {
        Challenge {
            request_id: self.request_id.clone(),
            nonce: self.nonce.clone(),
            audience: self.audience.clone(),
            issued_at: self.issued_at,
            expires_at: self.expires_at,
            canonical: self.canonical.clone(),
            kind: self.kind,
            subject_id: self.subject_id.clone(),
            required_evidence: clone_strings(&self.required_evidence),
        }
    }
}

/// Outcome of validating (and consuming) a nonce.
#[derive(Debug, Clone, Copy, PartialEq, Eq, Structural)]
pub enum NonceResult {
    Accepted,
    UnknownNonce,
    ExpiredNonce,
    NonceAlreadyConsumed,
    WrongAudience,
    WrongRequestId,
}

/// A stored challenge and whether its nonce was consumed.
#[derive(Debug)]
pub struct Entry {
    pub challenge: Challenge,
    pub consumed: bool,
}

/// The store as plain values: request id -> (challenge, consumed).
pub type StoreView = Map<Seq<char>, (ChallengeView, bool)>;

/// What validating `(request_id, nonce, audience)` at `now` answers against the
/// store `s`, and the store afterwards (only a successful check changes it,
/// marking the nonce consumed).
pub open spec fn consume_step(
    s: StoreView,
    request_id: Seq<char>,
    nonce: Seq<char>,
    audience: Seq<char>,
    now: DateTime,
) -> (NonceResult, Option<ChallengeView>, StoreView) {
    if !s.dom().contains(request_id) {
        (NonceResult::UnknownNonce, None, s)
    } else {
        let (c, consumed) = s[request_id];
        if c.nonce != nonce {
            (NonceResult::UnknownNonce, None, s)
        } else if c.request_id != request_id {
            (NonceResult::WrongRequestId, None, s)
        } else if c.audience != audience {
            (NonceResult::WrongAudience, None, s)
        } else if now.spec_after(c.expires_at) {
            (NonceResult::ExpiredNonce, Some(c), s)
        } else if consumed {
            (NonceResult::NonceAlreadyConsumed, Some(c), s)
        } else {
            (NonceResult::Accepted, Some(c), s.insert(request_id, (c, true)))
        }
    }
}

/// Single use: once a nonce has been accepted, presenting the same request id,
/// nonce and audience again is never accepted and leaves the store unchanged;
/// at a time not past the challenge's expiry it is answered
/// NONCE_ALREADY_CONSUMED.
pub proof fn law_nonce_single_use(
    s: StoreView,
    request_id: Seq<char>,
    nonce: Seq<char>,
    audience: Seq<char>,
    first: DateTime,
    again: DateTime,
)
    requires
        consume_step(s, request_id, nonce, audience, first).0 == NonceResult::Accepted,
    ensures
        ({
            let after = consume_step(s, request_id, nonce, audience, first).2;
            let replay = consume_step(after, request_id, nonce, audience, again);
            &&& replay.0 != NonceResult::Accepted
            &&& replay.2 == after
            &&& !again.spec_after(s[request_id].0.expires_at) ==> replay.0 == NonceResult::NonceAlreadyConsumed
        }),
{
}

/// Only an accepted check changes the store; every other answer leaves it as
/// it was, and an expired or unknown nonce is never accepted.
pub proof fn law_consume_only_on_accept(
    s: StoreView,
    request_id: Seq<char>,
    nonce: Seq<char>,
    audience: Seq<char>,
    now: DateTime,
)
    ensures
        ({
            let (r, _c, after) = consume_step(s, request_id, nonce, audience, now);
            &&& r != NonceResult::Accepted ==> after == s
            &&& !s.dom().contains(request_id) ==> r == NonceResult::UnknownNonce
            &&& s.dom().contains(request_id) && now.spec_after(s[request_id].0.expires_at)
                ==> r != NonceResult::Accepted
            &&& r == NonceResult::Accepted ==> after == s.insert(request_id, (s[request_id].0, true))
        }),
{
}

/// A lower-case hexadecimal digit.
pub open spec fn hex_digit(n: nat) -> char {
    if n < 10 {
        (('0' as u32) + n) as char
    } else {
        (('a' as u32) + n - 10) as char
    }
}

/// Lower-case hexadecimal text of bytes, two digits per byte.
pub open spec fn hex_lower(b: Seq<u8>) -> Seq<char>
    decreases b.len(),
{
    if b.len() == 0 {
        Seq::empty()
    } else {
        hex_lower(b.drop_last()).push(hex_digit(b.last() as nat / 16)).push(
            hex_digit(b.last() as nat % 16),
        )
    }
}

fn hex_char(n: u8) -> (c: char)
    requires
        n < 16,
    ensures
        c == hex_digit(n as nat),
{
    match n {
        0 => '0',
        1 => '1',
        2 => '2',
        3 => '3',
        4 => '4',
        5 => '5',
        6 => '6',
        7 => '7',
        8 => '8',
        9 => '9',
        10 => 'a',
        11 => 'b',
        12 => 'c',
        13 => 'd',
        14 => 'e',
        _ => 'f',
    }
}

/// Lower-case hexadecimal text of bytes (`format!("{b:02x}")` per byte).
pub fn to_hex(bytes: &[u8]) -> (res: String)
    ensures
        res@ == hex_lower(bytes@),
{
    let mut cs: Vec<char> = Vec::new();
    let mut i: usize = 0;
    while i < bytes.len()
        invariant
            i <= bytes@.len(),
            cs@ == hex_lower(bytes@.take(i as int)),
        decreases bytes@.len() - i,
    {
        assert(bytes@.take(i + 1).drop_last() =~= bytes@.take(i as int));
        let b = bytes[i];
        cs.push(hex_char(b / 16));
        cs.push(hex_char(b % 16));
        i = i + 1;
    }
    assert(bytes@.take(i as int) =~= bytes@);
    string_of(cs.as_slice())
}

/// `RngCore::fill_bytes` on `rand::rngs::OsRng`: 32 bytes from the operating
/// system's secure random source (no claim on their values).
#[verifier::external_body]
fn os_random_32() -> (res: Vec<u8>)
    ensures
        res@.len() == 32,
{
    let mut b = vec![0u8; 32];
    rand::RngCore::fill_bytes(&mut rand::rngs::OsRng, &mut b);
    b
}

/// Generate a secure nonce: 32 random bytes (256 bits) as lower-case hex.
pub fn generate_nonce() -> (res: String)
    ensures
        exists|b: Seq<u8>| b.len() == 32 && res@ == hex_lower(b),
{
    let bytes = os_random_32();
    to_hex(bytes.as_slice())
}

/// The replay store interface.
pub trait ReplayStore {
    fn put(&mut self, challenge: Challenge);

    fn get(&self, request_id: &str) -> Option<Challenge>;

    /// Validate and, on success, consume the nonce.
    fn validate_and_consume(
        &mut self,
        request_id: &str,
        nonce: &str,
        audience: &str,
        now: DateTime,
    ) -> (NonceResult, Option<Challenge>);
}

/// An in-memory replay store.
pub struct InMemoryReplayStore {
    inner: StrMap<Entry>,
}

impl InMemoryReplayStore {
    pub closed spec fn spec_view(&self) -> StoreView {
        Map::new(
            |k: Seq<char>| self.inner@.dom().contains(k),
            |k: Seq<char>| (self.inner@[k].challenge@, self.inner@[k].consumed),
        )
    }

    /// An empty store.
    pub fn new() -> (res: Self)
        ensures
            res.spec_view() == Map::<Seq<char>, (ChallengeView, bool)>::empty(),
    {
        let res = InMemoryReplayStore { inner: StrMap::new() };
        assert(res.spec_view() =~= Map::<Seq<char>, (ChallengeView, bool)>::empty());
        res
    }
}

impl Default for InMemoryReplayStore {
    /// An empty store.
    fn default() -> (res: Self)
        ensures
            res.spec_view() == Map::<Seq<char>, (ChallengeView, bool)>::empty(),
    {
        InMemoryReplayStore::new()
    }
}

impl ReplayStore for InMemoryReplayStore {
    /// Store a challenge under its request id (replacing any earlier one),
    /// not yet consumed.
    fn put(&mut self, challenge: Challenge)
        ensures
            final(self).spec_view() == old(self).spec_view().insert(
                challenge.request_id@,
                (challenge@, false),
            ),
    {
        let key = challenge.request_id.clone();
        self.inner.insert(key, Entry { challenge, consumed: false });
        assert(self.spec_view() =~= old(self).spec_view().insert(
            challenge.request_id@,
            (challenge@, false),
        ));
    }

    /// The challenge stored under `request_id`.
    fn get(&self, request_id: &str) -> (res: Option<Challenge>)
        ensures
            res matches Some(c) ==> self.spec_view().dom().contains(request_id@) && c@
                == self.spec_view()[request_id@].0,
            res is None ==> !self.spec_view().dom().contains(request_id@),
    {
        match self.inner.get(request_id) {
            Some(e) => Some(e.challenge.clone()),
            None => None,
        }
    }

    /// Validate the nonce, audience and expiry, and consume the nonce on success.
    fn validate_and_consume(
        &mut self,
        request_id: &str,
        nonce: &str,
        audience: &str,
        now: DateTime,
    ) -> (res: (NonceResult, Option<Challenge>))
        ensures
            ({
                let (r, c, s) = consume_step(old(self).spec_view(), request_id@, nonce@, audience@, now);
                &&& res.0 == r
                &&& final(self).spec_view() == s
                &&& match res.1 {
                    Some(x) => c == Some(x@),
                    None => c is None,
                }
            }),
    {
        let entry = match self.inner.get(request_id) {
            Some(e) => e,
            None => return (NonceResult::UnknownNonce, None),
        };
        if entry.challenge.nonce != nonce.to_owned() {
            return (NonceResult::UnknownNonce, None);
        }
        if entry.challenge.request_id != request_id.to_owned() {
            return (NonceResult::WrongRequestId, None);
        }
        if entry.challenge.audience != audience.to_owned() {
            return (NonceResult::WrongAudience, None);
        }
        if now.is_after(&entry.challenge.expires_at) {
            return (NonceResult::ExpiredNonce, Some(entry.challenge.clone()));
        }
        if entry.consumed {
            return (NonceResult::NonceAlreadyConsumed, Some(entry.challenge.clone()));
        }
        let c = entry.challenge.clone();
        let stored = entry.challenge.clone();
        self.inner.insert(request_id.to_owned(), Entry { challenge: stored, consumed: true });
        assert(self.spec_view() =~= old(self).spec_view().insert(request_id@, (c@, true)));
        (NonceResult::Accepted, Some(c))
    }
}

} // verus!
