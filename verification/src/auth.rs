//! Challenge-response sign-in to the server, and the tokens it issues.
//!
//! A client sends its user id (its ed25519 public key) and gets a random challenge; it
//! signs the challenge and sends the signature; the server takes the challenge back (it
//! is good once, and for 30 seconds), checks the signature and issues a signed token
//! (HS256) naming the user. Requests after that carry the token as a bearer token.

use vstd::prelude::*;
use crate::basic::room::now_millis;
use crate::basic::user::{base64_bytes, base64_decode, base64_encode, base64_text, random_bytes, UserId};
use crate::identity::{check_signature, ed25519_key_accepted, ed25519_verifies, SignatureCheck};
use crate::tui::text::{trim_text, trimmed};

verus! {

/// How long a challenge can be answered, in seconds.
pub const CHALLENGE_TTL_SECS: u64 = 30;

/// How long an issued token is valid when nothing else is set, in seconds (a day).
pub const JWT_TTL_SECS_DEFAULT: u64 = 86_400;

/// `tokio`'s monotonic instant.
#[verifier::external_type_specification]
#[verifier::external_body]
pub struct ExInstant(tokio::time::Instant);

/// `dashmap`'s concurrent map.
#[verifier::external_type_specification]
#[verifier::external_body]
#[verifier::reject_recursive_types(K)]
#[verifier::reject_recursive_types(V)]
#[verifier::reject_recursive_types(S)]
pub struct ExDashMap<K, V, S>(dashmap::DashMap<K, V, S>);

/// The error of `jsonwebtoken`.
#[verifier::external_type_specification]
#[verifier::external_body]
pub struct ExJwtError(jsonwebtoken::errors::Error);

/// A challenge handed out, and when.
pub struct ChallengeEntry {
    pub challenge: [u8; 32],
    pub issued_at: tokio::time::Instant,
}

/// What a map of challenges holds: the challenge of each user id.
pub uninterp spec fn challenges(m: dashmap::DashMap<[u8; 32], ChallengeEntry>) -> Map<Seq<u8>, Seq<u8>>;

/// An empty map, by `DashMap::new`.
#[verifier::external_body]
fn challenge_map_new() -> (r: dashmap::DashMap<[u8; 32], ChallengeEntry>)
    ensures
        challenges(r).dom() == Set::<Seq<u8>>::empty(),
{
    dashmap::DashMap::new()
}

/// Stores the entry under the key, replacing any earlier one, by `DashMap::insert`.
#[verifier::external_body]
fn challenge_map_insert(m: &mut dashmap::DashMap<[u8; 32], ChallengeEntry>, key: [u8; 32], entry: ChallengeEntry)
    ensures
        challenges(*final(m)) == challenges(*old(m)).insert(key@, entry.challenge@),
{
    m.insert(key, entry);
}

/// Takes the entry of the key out, by `DashMap::remove`: the key and its entry when
/// there is one.
#[verifier::external_body]
fn challenge_map_remove(m: &mut dashmap::DashMap<[u8; 32], ChallengeEntry>, key: &[u8; 32]) -> (r: Option<
    ([u8; 32], ChallengeEntry),
>)
    ensures
        challenges(*final(m)) == challenges(*old(m)).remove(key@),
        challenges(*old(m)).contains_key(key@) <==> r is Some,
        r matches Some(p) ==> p.0@ == key@ && p.1.challenge@ == challenges(*old(m))[key@],
{
    m.remove(key)
}

/// The current instant, by `tokio::time::Instant::now`: the clock's.
#[verifier::external_body]
fn instant_now() -> (t: tokio::time::Instant) {
    tokio::time::Instant::now()
}

/// The nanoseconds since an instant, by `Instant::elapsed`: the clock's.
#[verifier::external_body]
fn elapsed_nanos(t: &tokio::time::Instant) -> (n: u128) {
    t.elapsed().as_nanos()
}

/// The challenges handed out and not yet answered, one per user id.
pub struct ChallengeStore {
    entries: dashmap::DashMap<[u8; 32], ChallengeEntry>,
}

/// A challenge handed out `elapsed` nanoseconds ago, if it can still be answered: for
/// 30 seconds.
pub open spec fn fresh_challenge(challenge: Seq<u8>, elapsed: u128) -> Option<Seq<u8>> {
    if elapsed > CHALLENGE_TTL_SECS * 1_000_000_000 {
        None
    } else {
        Some(challenge)
    }
}

/// The challenge, if it was handed out no more than 30 seconds (`elapsed_nanos`
/// nanoseconds) ago.
pub fn challenge_if_fresh(challenge: [u8; 32], elapsed_nanos: u128) -> (r: Option<[u8; 32]>)
    ensures
        r == (if elapsed_nanos > CHALLENGE_TTL_SECS * 1_000_000_000 {
            None
        } else {
            Some(challenge)
        }),
        challenge_view(r) == fresh_challenge(challenge@, elapsed_nanos),
{
    if elapsed_nanos > (CHALLENGE_TTL_SECS as u128) * 1_000_000_000 {
        None
    } else {
        Some(challenge)
    }
}

impl View for ChallengeStore {
    type V = Map<Seq<u8>, Seq<u8>>;

    closed spec fn view(&self) -> Map<Seq<u8>, Seq<u8>> {
        challenges(self.entries)
    }
}

impl ChallengeStore {
    /// A store with no challenge.
    pub fn new() -> (s: ChallengeStore)
        ensures
            s@ == Map::<Seq<u8>, Seq<u8>>::empty(),
    {
        ChallengeStore { entries: challenge_map_new() }
    }

    /// A new random challenge for the user, replacing any the user had not answered.
    pub fn insert(&mut self, user_id: UserId) -> (c: [u8; 32])
        ensures
            final(self)@ == old(self)@.insert(user_id@, c@),
    {
        let challenge = random_bytes();
        let entry = ChallengeEntry { challenge, issued_at: instant_now() };
        challenge_map_insert(&mut self.entries, *user_id.as_bytes(), entry);
        challenge
    }

    /// Takes the user's challenge out: it is good once. None when the user has none, or
    /// when it was handed out more than 30 seconds ago: the challenge given back is
    /// `fresh_challenge` of the stored one and the time elapsed since it was handed out,
    /// as the clock tells it.
    pub fn take(&mut self, user_id: &UserId) -> (r: Option<[u8; 32]>)
        ensures
            final(self)@ == old(self)@.remove(user_id@),
            !old(self)@.contains_key(user_id@) ==> r is None,
            old(self)@.contains_key(user_id@) ==> exists|elapsed: u128|
                challenge_view(r) == fresh_challenge(old(self)@[user_id@], elapsed),
    {
        match challenge_map_remove(&mut self.entries, user_id.as_bytes()) {
            None => None,
            Some((_, entry)) => {
                let elapsed = elapsed_nanos(&entry.issued_at);
                let r = challenge_if_fresh(entry.challenge, elapsed);
                assert(challenge_view(r) == fresh_challenge(old(self)@[user_id@], elapsed));
                r
            },
        }
    }
}

/// The token (HS256, default header) whose claims are the subject `sub` and the expiry
/// `exp`, in that order, signed with `secret`.
pub uninterp spec fn jwt_token(sub: Seq<char>, exp: u64, secret: Seq<u8>) -> Seq<char>;

/// The subject claim of a token.
pub uninterp spec fn jwt_sub(token: Seq<char>) -> Seq<char>;

/// The token is signed with `secret`: it has the form `header.payload.signature`, its
/// header names HS256, and its signature is the HS256 signature of `header.payload`
/// under the secret.
pub uninterp spec fn jwt_signed(token: Seq<char>, secret: Seq<u8>) -> bool;

/// Signs the claims `sub` and `exp` (kept in that order) into a token, by
/// `jsonwebtoken::encode` with the default header and `EncodingKey::from_secret`. Claims
/// that the token is the named one, that its subject claim is `sub`, and that encoding
/// succeeds: in the crate's source `encode` fails only when the key's algorithm family
/// differs from the header's (here both are HMAC), when a part does not serialize to JSON
/// (a header, and a map of a string and a number, always do), or when signing fails
/// (HMAC signing does not). The token it makes is signed with the secret: the default
/// header names HS256, and the signature is the HS256 signature of the first two parts.
#[verifier::external_body]
fn jwt_encode(sub: &str, exp: u64, secret: &[u8]) -> (r: Result<String, jsonwebtoken::errors::Error>)
    ensures
        r is Ok,
        r->Ok_0@ == jwt_token(sub@, exp, secret@),
        jwt_sub(r->Ok_0@) == sub@,
        jwt_signed(r->Ok_0@, secret@),
{
    let mut claims = serde_json::Map::new();
    claims.insert("sub".to_string(), serde_json::Value::from(sub));
    claims.insert("exp".to_string(), serde_json::Value::from(exp));
    jsonwebtoken::encode(&jsonwebtoken::Header::default(), &claims, &jsonwebtoken::EncodingKey::from_secret(secret))
}

/// The subject of a token, by `jsonwebtoken::decode` with `DecodingKey::from_secret` and
/// the default validation (HS256 signature, unexpired `exp`). Claims that a subject given
/// back is the token's, and that the token was signed with the secret: `decode` refuses a
/// token whose header does not name HS256 or whose signature differs from the HS256
/// signature of its first two parts under the key. Whether an accepted token is also
/// unexpired depends on the clock, and is not claimed.
#[verifier::external_body]
fn jwt_decode_sub(token: &str, secret: &[u8]) -> (r: Option<String>)
    ensures
        r matches Some(s) ==> s@ == jwt_sub(token@),
        r is Some ==> jwt_signed(token@, secret@),
{
    let data = jsonwebtoken::decode::<serde_json::Map<String, serde_json::Value>>(
        token,
        &jsonwebtoken::DecodingKey::from_secret(secret),
        &jsonwebtoken::Validation::default(),
    ).ok()?;
    data.claims.get("sub").and_then(|v| v.as_str()).map(|s| s.to_string())
}

/// The token was issued for the user: signed with the secret, naming the user's id as
/// standard base64, with some expiry.
pub open spec fn issued_for(token: Seq<char>, user_id: Seq<u8>, secret: Seq<u8>) -> bool {
    &&& exists|exp: u64| token == jwt_token(base64_text(user_id), exp, secret)
    &&& base64_bytes(jwt_sub(token)) == Some(user_id)
    &&& jwt_signed(token, secret)
}

/// The expiry of a token made at `now_ms` (Unix milliseconds) and valid for `ttl_secs`
/// seconds: the whole seconds since the epoch (none before it), plus `ttl_secs`, at most
/// the largest `u64`.
pub open spec fn expiry_of(now_ms: i64, ttl_secs: u64) -> u64 {
    let secs: int = if now_ms < 0 {
        0
    } else {
        now_ms as int / 1000
    };
    if secs + ttl_secs > u64::MAX {
        u64::MAX
    } else {
        (secs + ttl_secs) as u64
    }
}

/// The expiry of a token made at `now_ms` and valid for `ttl_secs` seconds.
pub fn token_expiry(now_ms: i64, ttl_secs: u64) -> (e: u64)
    ensures
        e == expiry_of(now_ms, ttl_secs),
{
    let secs: u64 = if now_ms < 0 {
        0
    } else {
        (now_ms / 1000) as u64
    };
    secs.saturating_add(ttl_secs)
}

/// A token for the user, valid for `ttl_secs` from now (the expiry is `expiry_of` the
/// clock's time); making it does not fail.
pub fn issue_jwt(user_id: &UserId, secret: &[u8], ttl_secs: u64) -> (r: Result<String, jsonwebtoken::errors::Error>)
    ensures
        r matches Ok(t) && issued_for(t@, user_id@, secret@)
            && exists|now: i64| t@ == jwt_token(base64_text(user_id@), expiry_of(now, ttl_secs), secret@),
{
    let now = now_millis();
    let exp = token_expiry(now, ttl_secs);
    let sub = user_id.to_base64();
    jwt_encode(sub.as_str(), exp, secret)
}

/// The user named by the subject of a token, if the token was accepted (None when it was
/// not): the subject must be the standard base64 text of 32 bytes.
pub fn user_of_subject(sub: Option<String>) -> (r: Option<UserId>)
    ensures
        match sub {
            Some(s) => match user_id_of(s@) {
                Some(b) => r matches Some(id) && id@ == b,
                None => r is None,
            },
            None => r is None,
        },
{
    match sub {
        Some(s) => match UserId::parse(s.as_str()) {
            Ok(id) => Some(id),
            Err(_) => None,
        },
        None => None,
    }
}

/// The user a token names, if it is accepted: signed with the secret and unexpired.
/// Whether it is unexpired is the clock's; a token not signed with the secret, or whose
/// subject is no user id, is never accepted.
pub fn verify_jwt(token: &str, secret: &[u8]) -> (r: Option<UserId>)
    ensures
        r matches Some(id) ==> base64_bytes(jwt_sub(token@)) == Some(id@),
        r is Some ==> jwt_signed(token@, secret@),
        !jwt_signed(token@, secret@) ==> r is None,
        user_id_of(jwt_sub(token@)) is None ==> r is None,
{
    user_of_subject(jwt_decode_sub(token, secret))
}

/// A token accepted by `verify_jwt` gives back the user it was issued for.
pub proof fn lemma_token_gives_its_user(token: Seq<char>, issued: UserId, secret: Seq<u8>, got: UserId)
    requires
        issued_for(token, issued@, secret),
        base64_bytes(jwt_sub(token)) == Some(got@),
    ensures
        got == issued,
{
    UserId::lemma_view_eq(got, issued);
}

/// Why a sign-in request is refused, as the HTTP status it is answered with.
#[derive(Debug, Clone, Copy, PartialEq, Eq, Structural)]
pub enum AuthRejection {
    /// 400: the request is malformed.
    BadRequest,
    /// 401: no good challenge, or a wrong signature.
    Unauthorized,
    /// 500: the token could not be made.
    InternalError,
}

/// The bytes of a user id text, when it is one: standard base64 of 32 bytes.
pub open spec fn user_id_of(text: Seq<char>) -> Option<Seq<u8>> {
    match base64_bytes(text) {
        Some(b) => if b.len() == 32 { Some(b) } else { None },
        None => None,
    }
}

/// The verdict on a signed challenge: no challenge is unauthorized; a signature that is
/// not base64 of 64 bytes, or a user id that is no curve point, is a bad request; a
/// signature that does not verify is unauthorized.
pub open spec fn signature_verdict(user_id: Seq<u8>, challenge: Option<Seq<u8>>, signature: Seq<char>) -> Result<(), AuthRejection> {
    match challenge {
        None => Err(AuthRejection::Unauthorized),
        Some(c) => match base64_bytes(signature) {
            None => Err(AuthRejection::BadRequest),
            Some(sig) => if sig.len() != 64 {
                Err(AuthRejection::BadRequest)
            } else if !ed25519_key_accepted(user_id) {
                Err(AuthRejection::BadRequest)
            } else if !ed25519_verifies(user_id, c, sig) {
                Err(AuthRejection::Unauthorized)
            } else {
                Ok(())
            },
        },
    }
}

/// The view of a challenge taken from the store.
pub open spec fn challenge_view(c: Option<[u8; 32]>) -> Option<Seq<u8>> {
    match c {
        Some(b) => Some(b@),
        None => None,
    }
}

/// Judges a signed challenge: the challenge taken for the user (if any) and the
/// signature sent, as standard base64.
pub fn check_signed_challenge(user_id: &UserId, challenge: Option<[u8; 32]>, signature: &str) -> (r: Result<(), AuthRejection>)
    ensures
        r == signature_verdict(user_id@, challenge_view(challenge), signature@),
{
    let c = match challenge {
        Some(c) => c,
        None => return Err(AuthRejection::Unauthorized),
    };
    let sig_bytes = match base64_decode(signature) {
        Ok(b) => b,
        Err(_) => return Err(AuthRejection::BadRequest),
    };
    if sig_bytes.len() != 64 {
        return Err(AuthRejection::BadRequest);
    }
    let mut sig = [0u8; 64];
    let mut i: usize = 0;
    while i < 64
        invariant
            i <= 64,
            sig_bytes@.len() == 64,
            forall|j: int| 0 <= j < i ==> sig@[j] == sig_bytes@[j],
        decreases 64 - i,
    {
        sig.set(i, sig_bytes[i]);
        i = i + 1;
    }
    assert(sig@ =~= sig_bytes@);
    match check_signature(user_id.as_bytes(), &c, &sig) {
        SignatureCheck::BadKey => Err(AuthRejection::BadRequest),
        SignatureCheck::Invalid => Err(AuthRejection::Unauthorized),
        SignatureCheck::Valid => Ok(()),
    }
}

/// Hands out a challenge to the user named by `user_id` (standard base64 of the public
/// key), and returns it as standard base64; a text that is no user id is a bad request.
pub fn challenge_request(store: &mut ChallengeStore, user_id: &str) -> (r: Result<String, AuthRejection>)
    ensures
        user_id_of(user_id@) is None ==> r == Err::<String, AuthRejection>(AuthRejection::BadRequest) && final(store)@ == old(store)@,
        user_id_of(user_id@) matches Some(id) ==> r matches Ok(text) && final(store)@.contains_key(id)
            && final(store)@ == old(store)@.insert(id, final(store)@[id])
            && base64_bytes(text@) == Some(final(store)@[id]),
{
    let id = match UserId::parse(user_id) {
        Ok(id) => id,
        Err(_) => return Err(AuthRejection::BadRequest),
    };
    let c = store.insert(id);
    Ok(base64_encode(&c))
}

/// The answer to a sign-in of the user `id` with `signature`, given the challenge taken
/// out for it (None when it had none, or its challenge was too old) and the expiry of a
/// token issued now: the signature's verdict when it refuses, otherwise the token for
/// the user with that expiry.
pub open spec fn answer_is(
    r: Result<String, AuthRejection>,
    id: Seq<u8>,
    challenge: Option<Seq<u8>>,
    signature: Seq<char>,
    secret: Seq<u8>,
    exp: u64,
) -> bool {
    match signature_verdict(id, challenge, signature) {
        Ok(()) => r matches Ok(t) && t@ == jwt_token(base64_text(id), exp, secret) && issued_for(t@, id, secret),
        Err(e) => r == Err::<String, AuthRejection>(e),
    }
}

/// What a sign-in attempt with `user_id` and `signature` answers, and what it leaves of
/// the challenges: a text that is no user id is a bad request and changes nothing;
/// otherwise the user's challenge is taken out, and the answer is `answer_is` for the
/// challenge if it is still fresh (by the time elapsed since it was handed out) and a
/// token valid for `ttl_secs` from now (both times as the clock tells them).
pub open spec fn sign_in_answered(
    old: Map<Seq<u8>, Seq<u8>>,
    new: Map<Seq<u8>, Seq<u8>>,
    user_id: Seq<char>,
    signature: Seq<char>,
    secret: Seq<u8>,
    ttl_secs: u64,
    r: Result<String, AuthRejection>,
) -> bool {
    &&& user_id_of(user_id) is None ==> r == Err::<String, AuthRejection>(AuthRejection::BadRequest) && new == old
    &&& user_id_of(user_id) matches Some(id) ==> {
        &&& new == old.remove(id)
        &&& exists|elapsed: u128, now: i64|
            answer_is(
                r,
                id,
                if old.contains_key(id) {
                    fresh_challenge(old[id], elapsed)
                } else {
                    None
                },
                signature,
                secret,
                expiry_of(now, ttl_secs),
            )
    }
}

/// Answers a signed challenge: takes the user's challenge out of the store, checks the
/// signature, and issues a token for the user valid for `ttl_secs`.
pub fn verify_request(store: &mut ChallengeStore, user_id: &str, signature: &str, secret: &[u8], ttl_secs: u64) -> (r: Result<String, AuthRejection>)
    ensures
        sign_in_answered(old(store)@, final(store)@, user_id@, signature@, secret@, ttl_secs, r),
{
    let id = match UserId::parse(user_id) {
        Ok(id) => id,
        Err(_) => return Err(AuthRejection::BadRequest),
    };
    let ghost before = store@;
    let challenge = store.take(&id);
    let ghost elapsed: u128 = if before.contains_key(id@) {
        choose|e: u128| challenge_view(challenge) == fresh_challenge(before[id@], e)
    } else {
        0
    };
    let ghost taken = if before.contains_key(id@) {
        fresh_challenge(before[id@], elapsed)
    } else {
        None
    };
    assert(challenge_view(challenge) == taken);
    match check_signed_challenge(&id, challenge, signature) {
        Ok(()) => {},
        Err(e) => {
            assert(answer_is(Err(e), id@, taken, signature@, secret@, expiry_of(0, ttl_secs)));
            return Err(e);
        },
    }
    match issue_jwt(&id, secret, ttl_secs) {
        Ok(t) => {
            let ghost now = choose|now: i64| t@ == jwt_token(base64_text(id@), expiry_of(now, ttl_secs), secret@);
            assert(answer_is(Ok(t), id@, taken, signature@, secret@, expiry_of(now, ttl_secs)));
            Ok(t)
        },
        Err(_) => Err(AuthRejection::InternalError),
    }
}

/// A challenge is good once: when a user's sign-in attempt follows another by the same
/// user with no challenge handed out in between, the second is refused as unauthorized,
/// whatever its signature.
pub proof fn lemma_challenge_good_once(
    s0: Map<Seq<u8>, Seq<u8>>,
    s1: Map<Seq<u8>, Seq<u8>>,
    s2: Map<Seq<u8>, Seq<u8>>,
    user_id: Seq<char>,
    first_signature: Seq<char>,
    second_signature: Seq<char>,
    secret: Seq<u8>,
    ttl_secs: u64,
    first: Result<String, AuthRejection>,
    second: Result<String, AuthRejection>,
)
    requires
        user_id_of(user_id) is Some,
        sign_in_answered(s0, s1, user_id, first_signature, secret, ttl_secs, first),
        sign_in_answered(s1, s2, user_id, second_signature, secret, ttl_secs, second),
    ensures
        second == Err::<String, AuthRejection>(AuthRejection::Unauthorized),
{
    let id = user_id_of(user_id)->0;
    assert(!s1.contains_key(id));
    let (elapsed, now) = choose|elapsed: u128, now: i64|
        answer_is(
            second,
            id,
            if s1.contains_key(id) {
                fresh_challenge(s1[id], elapsed)
            } else {
                None
            },
            second_signature,
            secret,
            expiry_of(now, ttl_secs),
        );
    assert(signature_verdict(id, None, second_signature) == Err::<(), AuthRejection>(AuthRejection::Unauthorized));
}

/// `t` occurs in `s`.
pub open spec fn has_infix(s: Seq<char>, t: Seq<char>) -> bool {
    exists|i: int| 0 <= i && i + t.len() <= s.len() && #[trigger] s.subrange(i, i + t.len()) == t
}

/// Whether `t` occurs in `s`.
fn contains_text(s: &str, t: &str) -> (r: bool)
    ensures
        r == has_infix(s@, t@),
{
    let n = s.unicode_len();
    let m = t.unicode_len();
    if m > n {
        return false;
    }
    let mut i: usize = 0;
    while i <= n - m
        invariant
            n == s@.len(),
            m == t@.len(),
            m <= n,
            i <= n - m + 1,
            forall|k: int| 0 <= k < i ==> #[trigger] s@.subrange(k, k + m) != t@,
        decreases n - m + 1 - i,
    {
        let mut j: usize = 0;
        let mut same = true;
        while j < m
            invariant
                n == s@.len(),
                m == t@.len(),
                i + m <= n,
                j <= m,
                same == forall|q: int| 0 <= q < j ==> s@[i + q] == t@[q],
            decreases m - j,
        {
            if s.get_char(i + j) != t.get_char(j) {
                same = false;
            }
            j = j + 1;
        }
        if same {
            assert(s@.subrange(i as int, i + m) =~= t@);
            return true;
        }
        assert(s@.subrange(i as int, i + m) != t@) by {
            let q = choose|q: int| 0 <= q < m && s@[i + q] != t@[q];
            assert(s@.subrange(i as int, i + m)[q] == s@[i + q]);
        }
        i = i + 1;
    }
    proof {
        assert forall|k: int| 0 <= k && k + m <= n implies #[trigger] s@.subrange(k, k + m) != t@ by {
            assert(k < i);
        }
    }
    false
}

/// The token of an authorization header: what follows "Bearer ", without surrounding
/// white space; None when the header does not start with "Bearer ".
pub open spec fn bearer_token(header: Seq<char>) -> Option<Seq<char>> {
    if header.len() >= 7 && header.subrange(0, 7) == "Bearer "@ {
        Some(trimmed(header.subrange(7, header.len() as int)))
    } else {
        None
    }
}

/// What the guard of the room routes decides about a request.
#[derive(Debug, Clone, Copy, PartialEq, Eq)]
pub enum AccessDecision {
    /// A sign-in route: it needs no token.
    Open,
    /// The request comes from this user.
    User(UserId),
    /// 401: no token, or one that is not accepted.
    Refused,
}

/// Decides about a request from its path and its authorization header: the sign-in
/// routes (a path holding "/auth/") are open; the others need a bearer token that
/// `verify_jwt` accepts, and come from the user it names.
pub fn authorize(path: &str, authorization: Option<&str>, secret: &[u8]) -> (r: AccessDecision)
    ensures
        has_infix(path@, "/auth/"@) <==> r is Open,
        !has_infix(path@, "/auth/"@) ==> match authorization {
            None => r is Refused,
            Some(h) => match bearer_token(h@) {
                None => r is Refused,
                Some(tok) => r matches AccessDecision::User(id) ==> base64_bytes(jwt_sub(tok)) == Some(id@)
                    && jwt_signed(tok, secret@),
            },
        },
{
    if contains_text(path, "/auth/") {
        return AccessDecision::Open;
    }
    let h = match authorization {
        Some(h) => h,
        None => return AccessDecision::Refused,
    };
    let prefix = "Bearer ";
    proof {
        reveal_strlit("Bearer ");
    }
    let n = h.unicode_len();
    if n < 7 {
        return AccessDecision::Refused;
    }
    let mut j: usize = 0;
    while j < 7
        invariant
            n == h@.len(),
            n >= 7,
            prefix@ == "Bearer "@,
            prefix@.len() == 7,
            !has_infix(path@, "/auth/"@),
            j <= 7,
            forall|q: int| 0 <= q < j ==> h@[q] == prefix@[q],
        decreases 7 - j,
    {
        if h.get_char(j) != prefix.get_char(j) {
            assert(h@.subrange(0, 7)[j as int] != "Bearer "@[j as int]);
            return AccessDecision::Refused;
        }
        j = j + 1;
    }
    assert(h@.subrange(0, 7) =~= "Bearer "@);
    let rest = h.substring_char(7, n);
    let token = trim_text(rest);
    match verify_jwt(token, secret) {
        Some(id) => AccessDecision::User(id),
        None => AccessDecision::Refused,
    }
}

/// A text without its trailing slashes.
pub open spec fn without_trailing_slashes(s: Seq<char>) -> Seq<char>
    decreases s.len(),
{
    if s.len() > 0 && s.last() == '/' {
        without_trailing_slashes(s.drop_last())
    } else {
        s
    }
}

/// The address of a route of the server: its base address without trailing slashes,
/// then the route's path.
pub fn endpoint_url(base_url: &str, path: &str) -> (r: String)
    ensures
        r@ == without_trailing_slashes(base_url@) + path@,
{
    let mut n = base_url.unicode_len();
    assert(base_url@.subrange(0, n as int) =~= base_url@);
    while n > 0 && base_url.get_char(n - 1) == '/'
        invariant
            n <= base_url@.len(),
            without_trailing_slashes(base_url@.subrange(0, n as int)) == without_trailing_slashes(base_url@),
        decreases n,
    {
        assert(base_url@.subrange(0, n as int).drop_last() =~= base_url@.subrange(0, n - 1));
        n = n - 1;
    }
    let head = base_url.substring_char(0, n);
    let mut r = String::from_str(head);
    r.append(path);
    proof {
        let h = base_url@.subrange(0, n as int);
        assert(!(h.len() > 0 && h.last() == '/'));
    }
    r
}

} // verus!
