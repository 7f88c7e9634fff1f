//! A user's identity: an ed25519 key pair whose public key is the user id, the fields of
//! the file that keeps it, and the signature that proves it to a server.
//!
//! The key pair is held as its 32-byte secret (the ed25519 seed); the public key, and
//! signatures, are computed from it by `ed25519-dalek`.

use vstd::prelude::*;
use base64::Engine;
use ed25519_dalek::Signer;
use crate::basic::room::{decimal, usize_to_decimal};
use crate::basic::user::{base64_bytes, base64_decode, base64_encode, base64_text, random_bytes, User, UserId};

verus! {

/// The ed25519 public key of a 32-byte secret key.
pub uninterp spec fn ed25519_public(secret: Seq<u8>) -> Seq<u8>;

/// The ed25519 signature of a message under a 32-byte secret key (RFC 8032 signing is
/// deterministic).
pub uninterp spec fn ed25519_signature(secret: Seq<u8>, msg: Seq<u8>) -> Seq<u8>;

/// Whether 32 bytes are a public key that `VerifyingKey::from_bytes` accepts (the
/// compressed form of a curve point).
pub uninterp spec fn ed25519_key_accepted(key: Seq<u8>) -> bool;

/// Whether `Verifier::verify` accepts a 64-byte signature of a message under an
/// accepted public key.
pub uninterp spec fn ed25519_verifies(key: Seq<u8>, msg: Seq<u8>, sig: Seq<u8>) -> bool;

/// The URL-safe base64 text of some bytes, without padding.
pub uninterp spec fn base64url_text(bytes: Seq<u8>) -> Seq<char>;

/// The public key of a secret key, by `SigningKey::from_bytes`, `SigningKey::verifying_key`
/// and `VerifyingKey::to_bytes`. Claims that it is the named public key of the secret,
/// and that `VerifyingKey::from_bytes` accepts it (it is the compression of the point
/// the secret scalar gives).
#[verifier::external_body]
fn public_key_of(secret: &[u8; 32]) -> (pk: [u8; 32])
    ensures
        pk@ == ed25519_public(secret@),
        ed25519_key_accepted(pk@),
{
    ed25519_dalek::SigningKey::from_bytes(secret).verifying_key().to_bytes()
}

/// Signs a message, by `Signer::sign` on `SigningKey::from_bytes(secret)`, and
/// `Signature::to_bytes`. Claims that the signature is the named one of the secret and
/// the message, and, as the crate documents for every signing key, that it verifies
/// under the key's public key.
#[verifier::external_body]
fn sign_bytes(secret: &[u8; 32], msg: &[u8]) -> (sig: [u8; 64])
    ensures
        sig@ == ed25519_signature(secret@, msg@),
        ed25519_verifies(ed25519_public(secret@), msg@, sig@),
{
    ed25519_dalek::SigningKey::from_bytes(secret).sign(msg).to_bytes()
}

/// What checking a signature found.
#[derive(Debug, Clone, Copy, PartialEq, Eq, Structural)]
pub enum SignatureCheck {
    /// The public key is not a curve point.
    BadKey,
    /// The signature does not verify.
    Invalid,
    Valid,
}

/// Checks a signature, by `VerifyingKey::from_bytes` on the key, then `Verifier::verify`
/// with `Signature::from_bytes` of the 64 bytes. Claims that the key is refused exactly
/// when it is not an accepted key, and that the signature is valid exactly when the
/// named check holds.
#[verifier::external_body]
pub(crate) fn check_signature(key: &[u8; 32], msg: &[u8], sig: &[u8; 64]) -> (r: SignatureCheck)
    ensures
        (r == SignatureCheck::BadKey) == !ed25519_key_accepted(key@),
        (r == SignatureCheck::Valid) == (ed25519_key_accepted(key@) && ed25519_verifies(key@, msg@, sig@)),
{
    match ed25519_dalek::VerifyingKey::from_bytes(key) {
        Err(_) => SignatureCheck::BadKey,
        Ok(k) => match ed25519_dalek::Verifier::verify(&k, msg, &ed25519_dalek::Signature::from_bytes(sig)) {
            Ok(()) => SignatureCheck::Valid,
            Err(_) => SignatureCheck::Invalid,
        },
    }
}

/// Encodes bytes with `base64::prelude::BASE64_URL_SAFE_NO_PAD`; claims the named text.
#[verifier::external_body]
fn base64url_encode(bytes: &[u8]) -> (s: String)
    ensures
        s@ == base64url_text(bytes@),
{
    base64::prelude::BASE64_URL_SAFE_NO_PAD.encode(bytes)
}

/// A number drawn by `rand::random_range` from `lo..=hi`: chance, within the bounds.
#[verifier::external_body]
fn random_between(lo: u32, hi: u32) -> (n: u32)
    requires
        lo <= hi,
    ensures
        lo <= n <= hi,
{
    rand::random_range(lo..=hi)
}

/// An identity: a secret key and the user it stands for.
#[derive(Debug, Clone)]
pub struct KeyPair {
    secret: [u8; 32],
    pub user: User,
}

/// Why the fields of an identity file do not make an identity.
#[derive(Debug)]
pub enum KeyFileError {
    /// The secret key is not standard base64.
    Base64(base64::DecodeError),
    /// The secret key does not decode to 32 bytes; it decodes to this many.
    WrongLength(usize),
    /// The user id of the file is not the public key of the secret key; both as base64.
    UserIdMismatch { expected: String, actual: String },
}

/// The secret key that an identity file's text gives: its standard base64 decoding,
/// when that is 32 bytes long.
pub open spec fn file_secret(secret_text: Seq<char>) -> Option<Seq<u8>> {
    match base64_bytes(secret_text) {
        Some(b) => if b.len() == 32 { Some(b) } else { None },
        None => None,
    }
}

impl KeyPair {
    /// The secret key.
    pub closed spec fn secret(&self) -> Seq<u8> {
        self.secret@
    }

    /// The user the identity stands for.
    pub closed spec fn owner(&self) -> User {
        self.user
    }

    /// A new identity with a random secret key, for a user with this nickname.
    pub fn generate(nickname: String) -> (kp: KeyPair)
        ensures
            kp.secret().len() == 32,
            kp.owner().id@ == ed25519_public(kp.secret()),
            kp.owner().nickname == nickname,
            kp.owner().avatar_url is None,
            !kp.owner().is_bot,
    {
        let secret = random_bytes();
        let id = UserId::from_bytes(public_key_of(&secret));
        KeyPair { secret, user: User { id, nickname, avatar_url: None, is_bot: false } }
    }

    /// The user id: the public key of the secret key.
    pub fn user_id(&self) -> (id: UserId)
        ensures
            id@ == ed25519_public(self.secret()),
    {
        UserId::from_bytes(public_key_of(&self.secret))
    }

    /// The user this identity stands for, borrowed.
    pub fn user(&self) -> (u: &User)
        ensures
            *u == self.owner(),
    {
        &self.user
    }

    /// The user this identity stands for.
    pub fn to_user(&self) -> (u: User)
        ensures
            u == self.owner(),
    {
        self.user.copy()
    }

    /// The secret key as standard base64, as an identity file keeps it.
    pub fn secret_key_text(&self) -> (s: String)
        ensures
            s@ == base64_text(self.secret()),
            base64_bytes(s@) == Some(self.secret()),
    {
        base64_encode(&self.secret)
    }

    /// The identity an identity file describes: the secret key as standard base64 and
    /// the user. The key must decode to 32 bytes whose public key is the user's id.
    pub fn from_file_fields(secret_key: &str, user: User) -> (r: Result<KeyPair, KeyFileError>)
        ensures
            base64_bytes(secret_key@) is None <==> r matches Err(KeyFileError::Base64(_)),
            ({
                let b = base64_bytes(secret_key@).unwrap();
                base64_bytes(secret_key@) is Some && b.len() != 32 ==> (r matches Err(KeyFileError::WrongLength(n))
                    && n == b.len())
            }),
            ({
                let b = file_secret(secret_key@).unwrap();
                file_secret(secret_key@) is Some && ed25519_public(b) != user.id@ ==> (r matches Err(
                    KeyFileError::UserIdMismatch { expected, actual },
                ) && expected@ == base64_text(ed25519_public(b)) && actual@ == base64_text(user.id@))
            }),
            ({
                let b = file_secret(secret_key@).unwrap();
                file_secret(secret_key@) is Some && ed25519_public(b) == user.id@ <==> (r matches Ok(kp)
                    && kp.secret() == b && kp.owner() == user)
            }),
    {
        let bytes = match base64_decode(secret_key) {
            Ok(b) => b,
            Err(e) => return Err(KeyFileError::Base64(e)),
        };
        if bytes.len() != 32 {
            return Err(KeyFileError::WrongLength(bytes.len()));
        }
        let mut secret = [0u8; 32];
        let mut i: usize = 0;
        while i < 32
            invariant
                i <= 32,
                bytes@.len() == 32,
                forall|j: int| 0 <= j < i ==> secret@[j] == bytes@[j],
            decreases 32 - i,
        {
            secret.set(i, bytes[i]);
            i = i + 1;
        }
        assert(secret@ =~= bytes@);
        let expected = UserId::from_bytes(public_key_of(&secret));
        if !expected.same(&user.id) {
            proof {
                if ed25519_public(secret@) == user.id@ {
                    UserId::lemma_view_eq(expected, user.id);
                }
            }
            return Err(KeyFileError::UserIdMismatch { expected: expected.to_base64(), actual: user.id.to_base64() });
        }
        Ok(KeyPair { secret, user })
    }

    /// Signs a challenge sent by a server as standard base64, and returns the signature
    /// as standard base64; the error is that of a challenge that is not base64. The
    /// server's check of that signature, for this identity's user id and that challenge,
    /// passes.
    pub fn sign_challenge(&self, challenge: &str) -> (r: Result<String, base64::DecodeError>)
        ensures
            base64_bytes(challenge@) is None <==> r is Err,
            base64_bytes(challenge@) matches Some(c) ==> r matches Ok(s)
                && s@ == base64_text(ed25519_signature(self.secret(), c))
                && base64_bytes(s@) == Some(ed25519_signature(self.secret(), c))
                && crate::auth::signature_verdict(ed25519_public(self.secret()), Some(c), s@) == Ok::<(), crate::auth::AuthRejection>(()),
    {
        let bytes = match base64_decode(challenge) {
            Ok(b) => b,
            Err(e) => return Err(e),
        };
        let _public = public_key_of(&self.secret);
        let sig = sign_bytes(&self.secret, bytes.as_slice());
        Ok(base64_encode(&sig))
    }
}

/// The name of the file that keeps an identity: the user id as URL-safe base64 without
/// padding, then ".json".
pub fn identity_filename(user_id: &UserId) -> (s: String)
    ensures
        s@ == base64url_text(user_id@) + ".json"@,
{
    let mut s = base64url_encode(user_id.as_bytes());
    s.append(".json");
    s
}

/// A random nickname: "player-" and a number of six digits.
pub fn random_nickname() -> (s: String)
    ensures
        exists|n: nat| 100_000 <= n <= 999_999 && s@ == "player-"@ + decimal(n),
{
    let n = random_between(100_000, 999_999);
    let mut s = String::from_str("player-");
    let digits = usize_to_decimal(n as usize);
    s.append(digits.as_str());
    assert(s@ == "player-"@ + decimal(n as nat));
    s
}

} // verus!
