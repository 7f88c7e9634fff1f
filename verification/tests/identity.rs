use openplay::basic::user::{UserId, UserIdParseError};

#[test]
fn user_id_base64_round_trip() {
    let id = UserId::from_bytes([0u8; 32]);
    let text = id.to_base64();
    assert_eq!(text, "AAAAAAAAAAAAAAAAAAAAAAAAAAAAAAAAAAAAAAAAAAA=");
    let back = UserId::parse(&text).unwrap();
    assert_eq!(back, id);
    let mut bytes = [0u8; 32];
    bytes[0] = 0xfb;
    bytes[31] = 0x01;
    let id2 = UserId::from_bytes(bytes);
    let t2 = id2.to_base64();
    assert!(t2.starts_with("+w"));
    assert_eq!(UserId::parse(&t2).unwrap().as_bytes(), &bytes);
    assert!(id.same(&back));
    assert!(!id.same(&id2));
}

#[test]
fn user_id_parse_errors() {
    assert!(matches!(UserId::parse("not base64!"), Err(UserIdParseError::Base64Error(_))));
    match UserId::parse("AAAA") {
        Err(UserIdParseError::InvalidLength { expected, got }) => {
            assert_eq!(expected, 32);
            assert_eq!(got, 3);
        }
        other => panic!("unexpected {:?}", other),
    }
}

#[test]
fn random_user_ids_differ() {
    let a = UserId::random();
    let b = UserId::random();
    assert_ne!(a, b);
    assert_eq!(a.as_bytes().len(), 32);
}

use openplay::auth::{
    authorize, challenge_request, check_signed_challenge, issue_jwt, user_of_subject, verify_jwt, verify_request,
    AccessDecision,
    AuthRejection, ChallengeStore,
};
use openplay::identity::{identity_filename, random_nickname, KeyFileError, KeyPair};

#[test]
fn generated_identity_names_its_public_key() {
    let kp = KeyPair::generate("amy".to_string());
    assert_eq!(kp.user.nickname, "amy");
    assert_eq!(kp.user_id(), kp.user.id);
    assert!(!kp.user.is_bot);
    assert_eq!(kp.to_user().id, kp.user.id);
    let other = KeyPair::generate("amy".to_string());
    assert_ne!(kp.user_id(), other.user_id());
}

#[test]
fn identity_file_fields_round_trip() {
    let kp = KeyPair::generate("bo".to_string());
    let text = kp.secret_key_text();
    let back = KeyPair::from_file_fields(&text, kp.to_user()).unwrap();
    assert_eq!(back.user_id(), kp.user_id());
    assert_eq!(back.secret_key_text(), text);
    let stranger = KeyPair::generate("cy".to_string());
    match KeyPair::from_file_fields(&text, stranger.to_user()) {
        Err(KeyFileError::UserIdMismatch { expected, actual }) => {
            assert_eq!(expected, kp.user_id().to_base64());
            assert_eq!(actual, stranger.user_id().to_base64());
        }
        other => panic!("unexpected {:?}", other.map(|k| k.user_id())),
    }
    assert!(matches!(KeyPair::from_file_fields("AAAA", kp.to_user()), Err(KeyFileError::WrongLength(3))));
    assert!(matches!(KeyPair::from_file_fields("%%%", kp.to_user()), Err(KeyFileError::Base64(_))));
}

#[test]
fn identity_file_is_named_by_url_safe_id() {
    let mut bytes = [0u8; 32];
    bytes[0] = 0xfb;
    bytes[1] = 0xff;
    let name = identity_filename(&UserId::from_bytes(bytes));
    assert!(name.ends_with(".json"));
    assert_eq!(name.len(), 43 + 5);
    assert!(name.starts_with("-_"));
    assert!(!name.contains('='));
}

#[test]
fn random_nicknames_have_six_digits() {
    let n = random_nickname();
    assert!(n.starts_with("player-"));
    let digits = &n["player-".len()..];
    assert_eq!(digits.len(), 6);
    let v: u32 = digits.parse().unwrap();
    assert!((100_000..=999_999).contains(&v));
}

#[test]
fn signed_challenge_is_accepted_once() {
    let secret = b"server secret".to_vec();
    let kp = KeyPair::generate("amy".to_string());
    let id_text = kp.user_id().to_base64();
    let mut store = ChallengeStore::new();
    let challenge = challenge_request(&mut store, &id_text).unwrap();
    let signature = kp.sign_challenge(&challenge).unwrap();
    let token = verify_request(&mut store, &id_text, &signature, &secret, 3600).unwrap();
    assert_eq!(verify_jwt(&token, &secret), Some(kp.user_id()));
    assert_eq!(verify_jwt(&token, b"another secret"), None);
    // the challenge is good once
    assert_eq!(verify_request(&mut store, &id_text, &signature, &secret, 3600), Err(AuthRejection::Unauthorized));
}

#[test]
fn bad_sign_in_requests_are_refused() {
    let secret = b"s".to_vec();
    let kp = KeyPair::generate("amy".to_string());
    let id_text = kp.user_id().to_base64();
    let mut store = ChallengeStore::new();
    assert_eq!(challenge_request(&mut store, "AAAA"), Err(AuthRejection::BadRequest));
    assert_eq!(verify_request(&mut store, "not base64", "x", &secret, 10), Err(AuthRejection::BadRequest));
    // no challenge handed out
    assert_eq!(verify_request(&mut store, &id_text, "AAAA", &secret, 10), Err(AuthRejection::Unauthorized));
    // a signature that is not base64, or not 64 bytes
    challenge_request(&mut store, &id_text).unwrap();
    assert_eq!(verify_request(&mut store, &id_text, "%%", &secret, 10), Err(AuthRejection::BadRequest));
    challenge_request(&mut store, &id_text).unwrap();
    assert_eq!(verify_request(&mut store, &id_text, "AAAA", &secret, 10), Err(AuthRejection::BadRequest));
    // a signature of another challenge
    let other = kp.sign_challenge("AAAA").unwrap();
    challenge_request(&mut store, &id_text).unwrap();
    assert_eq!(verify_request(&mut store, &id_text, &other, &secret, 10), Err(AuthRejection::Unauthorized));
    assert!(kp.sign_challenge("%%").is_err());
}

#[test]
fn signature_check_of_a_taken_challenge() {
    let kp = KeyPair::generate("amy".to_string());
    let c = [7u8; 32];
    let c_text = UserId::from_bytes(c).to_base64();
    let sig = kp.sign_challenge(&c_text).unwrap();
    assert_eq!(check_signed_challenge(&kp.user_id(), Some(c), &sig), Ok(()));
    assert_eq!(check_signed_challenge(&kp.user_id(), None, &sig), Err(AuthRejection::Unauthorized));
    assert_eq!(check_signed_challenge(&kp.user_id(), Some([8u8; 32]), &sig), Err(AuthRejection::Unauthorized));
    let mut store = ChallengeStore::new();
    let first = store.insert(kp.user_id());
    let second = store.insert(kp.user_id());
    assert_ne!(first, second);
    assert_eq!(store.take(&kp.user_id()), Some(second));
    assert_eq!(store.take(&kp.user_id()), None);
}

#[test]
fn guard_opens_sign_in_routes_and_checks_tokens() {
    let secret = b"guard".to_vec();
    let id = UserId::from_bytes([3u8; 32]);
    let token = issue_jwt(&id, &secret, 60).unwrap();
    assert_eq!(authorize("/room/auth/challenge", None, &secret), AccessDecision::Open);
    assert_eq!(authorize("/room/ua", None, &secret), AccessDecision::Refused);
    assert_eq!(authorize("/room/ua", Some(&format!("Bearer {}", token)), &secret), AccessDecision::User(id));
    assert_eq!(authorize("/room/ua", Some(&format!("Bearer   {}  ", token)), &secret), AccessDecision::User(id));
    assert_eq!(authorize("/room/ua", Some(&format!("Basic {}", token)), &secret), AccessDecision::Refused);
    assert_eq!(authorize("/room/ua", Some("Bearer nonsense"), &secret), AccessDecision::Refused);
    assert_eq!(authorize("/room/ua", Some(&format!("Bearer {}", token)), b"other"), AccessDecision::Refused);
}

#[test]
fn routes_are_joined_to_the_base_address() {
    use_endpoint();
}

fn use_endpoint() {
    assert_eq!(openplay::auth::endpoint_url("http://h:3000/", "/room/ua"), "http://h:3000/room/ua");
    assert_eq!(openplay::auth::endpoint_url("http://h:3000//", "/x"), "http://h:3000/x");
    assert_eq!(openplay::auth::endpoint_url("http://h", "/x"), "http://h/x");
}

#[test]
fn token_claims_are_subject_then_expiry() {
    let id = UserId::from_bytes([9u8; 32]);
    let token = issue_jwt(&id, b"secret", 60).unwrap();
    let parts: Vec<&str> = token.split('.').collect();
    assert_eq!(parts.len(), 3);
    let payload = base64::Engine::decode(&base64::engine::general_purpose::URL_SAFE_NO_PAD, parts[1]).unwrap();
    let text = String::from_utf8(payload).unwrap();
    let expected_start = format!("{{\"sub\":\"{}\",\"exp\":", id.to_base64());
    assert!(text.starts_with(&expected_start), "{}", text);
}

#[test]
fn token_subject_names_a_user_only_when_it_is_a_user_id() {
    let id = UserId::from_bytes([5u8; 32]);
    assert_eq!(user_of_subject(Some(id.to_base64())), Some(id));
    assert_eq!(user_of_subject(None), None);
    assert_eq!(user_of_subject(Some("not base64!".to_string())), None);
    assert_eq!(user_of_subject(Some("AAAA".to_string())), None);
    let token = issue_jwt(&id, b"k", 60).unwrap();
    assert_eq!(verify_jwt(&token, b"k"), Some(id));
    assert_eq!(verify_jwt(&token, b"other"), None);
}

#[test]
fn token_expiry_and_challenge_freshness() {
    assert_eq!(openplay::auth::token_expiry(1_700_000_000_999, 60), 1_700_000_060);
    assert_eq!(openplay::auth::token_expiry(-5, 60), 60);
    assert_eq!(openplay::auth::token_expiry(i64::MAX, u64::MAX), u64::MAX);
    let c = [7u8; 32];
    assert_eq!(openplay::auth::challenge_if_fresh(c, 30_000_000_000), Some(c));
    assert_eq!(openplay::auth::challenge_if_fresh(c, 30_000_000_001), None);
    assert_eq!(openplay::auth::challenge_if_fresh(c, 0), Some(c));
}
