use session_auth::session::{same_bytes, SessionError, SessionManager, ID_LEN, KEY_LEN};

fn key() -> Vec<u8> {
    (0u8..64).collect()
}

fn id() -> Vec<u8> {
    (100u8..116).collect()
}

#[test]
fn token_is_tag_then_identifier_in_hex() {
    let mut sessions = SessionManager::new(key(), 60);
    let token = sessions.issue(7, id(), 0).unwrap();
    let expected = "b7ff0ed476edc8bf3cdbf97391c3bf59b833421a079a72520e19d6841ef714cb\
                    6465666768696a6b6c6d6e6f70717273";
    assert_eq!(token, expected.as_bytes().to_vec());
}

#[test]
fn token_depends_on_the_key() {
    let mut sessions = SessionManager::new(b"kkkkkkkk".to_vec(), 60);
    let token = sessions.issue(7, id(), 0).unwrap();
    let expected = "c98bb71b7cf55f269706abf22a46f1e71a75dd3338557545f535f347e16db669\
                    6465666768696a6b6c6d6e6f70717273";
    assert_eq!(token, expected.as_bytes().to_vec());
}

#[test]
fn issued_token_resolves_to_its_user() {
    let mut sessions = SessionManager::new(key(), 60);
    let token = sessions.issue(7, id(), 100).unwrap();
    assert_eq!(sessions.resolve(&token, 100), Some(7));
    assert_eq!(sessions.resolve(&token, 159), Some(7));
    assert_eq!(sessions.len(), 1);
}

#[test]
fn session_expires_at_now_plus_ttl() {
    let mut sessions = SessionManager::new(key(), 60);
    let token = sessions.issue(7, id(), 100).unwrap();
    assert_eq!(sessions.resolve(&token, 160), None);
    assert_eq!(sessions.resolve(&token, u64::MAX), None);
}

#[test]
fn expiry_stops_at_the_largest_moment() {
    let mut sessions = SessionManager::new(key(), 60);
    let token = sessions.issue(7, id(), u64::MAX - 10).unwrap();
    assert_eq!(sessions.resolve(&token, u64::MAX - 1), Some(7));
    assert_eq!(sessions.resolve(&token, u64::MAX), None);
}

#[test]
fn zero_lifetime_never_resolves() {
    let mut sessions = SessionManager::new(key(), 0);
    let token = sessions.issue(7, id(), 5).unwrap();
    assert_eq!(sessions.resolve(&token, 5), None);
    assert_eq!(sessions.resolve(&token, 4), Some(7));
}

#[test]
fn short_identifier_is_refused() {
    let mut sessions = SessionManager::new(key(), 60);
    assert_eq!(sessions.issue(7, vec![1; ID_LEN - 1], 0), Err(SessionError::ShortId));
    assert_eq!(sessions.issue(7, vec![], 0), Err(SessionError::ShortId));
    assert_eq!(sessions.len(), 0);
    assert!(sessions.issue(7, vec![1; ID_LEN], 0).is_ok());
    assert!(sessions.issue(7, vec![1; ID_LEN + 9], 0).is_ok());
}

#[test]
fn identifier_in_use_is_refused() {
    let mut sessions = SessionManager::new(key(), 60);
    let token = sessions.issue(7, id(), 0).unwrap();
    assert_eq!(sessions.issue(8, id(), 0), Err(SessionError::Collision));
    assert_eq!(sessions.resolve(&token, 1), Some(7));
    assert_eq!(sessions.len(), 1);
}

#[test]
fn destroy_ends_the_session() {
    let mut sessions = SessionManager::new(key(), 60);
    let token = sessions.issue(7, id(), 0).unwrap();
    let other = sessions.issue(8, vec![9; 16], 0).unwrap();
    sessions.destroy(&token);
    assert_eq!(sessions.resolve(&token, 1), None);
    assert_eq!(sessions.resolve(&other, 1), Some(8));
    assert_eq!(sessions.len(), 1);
}

#[test]
fn destroy_twice_is_destroy_once() {
    let mut sessions = SessionManager::new(key(), 60);
    let token = sessions.issue(7, id(), 0).unwrap();
    let other = sessions.issue(8, vec![9; 16], 0).unwrap();
    sessions.destroy(&token);
    sessions.destroy(&token);
    assert_eq!(sessions.len(), 1);
    assert_eq!(sessions.resolve(&other, 1), Some(8));
}

#[test]
fn destroy_of_unknown_or_altered_token_changes_nothing() {
    let mut sessions = SessionManager::new(key(), 60);
    let token = sessions.issue(7, id(), 0).unwrap();
    sessions.destroy(b"");
    sessions.destroy(b"not a token");
    let mut altered = token.clone();
    altered[0] = if altered[0] == b'0' { b'1' } else { b'0' };
    sessions.destroy(&altered);
    // A token signed under another key names the same identifier, but is not intact here.
    let mut elsewhere = SessionManager::new(b"another key".to_vec(), 60);
    let foreign = elsewhere.issue(7, id(), 0).unwrap();
    sessions.destroy(&foreign);
    assert_eq!(sessions.len(), 1);
    assert_eq!(sessions.resolve(&token, 1), Some(7));
}

#[test]
fn altering_any_single_byte_makes_the_token_anonymous() {
    let mut sessions = SessionManager::new(key(), 60);
    let token = sessions.issue(7, id(), 0).unwrap();
    let other = sessions.issue(8, vec![9; 16], 0).unwrap();
    assert_eq!(sessions.resolve(&other, 1), Some(8));
    for at in 0..token.len() {
        for replacement in [b'0', b'1', b'9', b'a', b'f', b'A', b'g', b' ', 0u8, 255u8] {
            if replacement == token[at] {
                continue;
            }
            let mut altered = token.clone();
            altered[at] = replacement;
            assert_eq!(sessions.resolve(&altered, 1), None, "byte {} set to {}", at, replacement);
        }
    }
    assert_eq!(sessions.resolve(&token, 1), Some(7));
}

#[test]
fn malformed_tokens_are_anonymous() {
    let mut sessions = SessionManager::new(key(), 60);
    let token = sessions.issue(7, id(), 0).unwrap();
    assert_eq!(sessions.resolve(b"", 1), None);
    assert_eq!(sessions.resolve(b"zz", 1), None);
    assert_eq!(sessions.resolve(&token[..95], 1), None);
    assert_eq!(sessions.resolve(&token[..64], 1), None);
    assert_eq!(sessions.resolve(&token[..62], 1), None);
    assert_eq!(sessions.resolve(&token[64..], 1), None);
    let mut longer = token.clone();
    longer.extend_from_slice(b"00");
    assert_eq!(sessions.resolve(&longer, 1), None);
    let upper: Vec<u8> = token.iter().map(|c| c.to_ascii_uppercase()).collect();
    assert_eq!(sessions.resolve(&upper, 1), None);
}

#[test]
fn token_of_another_key_is_anonymous() {
    let mut ours = SessionManager::new(key(), 60);
    let mut theirs = SessionManager::new(b"another key".to_vec(), 60);
    let token = ours.issue(7, id(), 0).unwrap();
    let foreign = theirs.issue(7, id(), 0).unwrap();
    assert_ne!(token, foreign);
    assert_eq!(ours.resolve(&foreign, 1), None);
    assert_eq!(theirs.resolve(&token, 1), None);
}

#[test]
fn purge_drops_expired_sessions_only() {
    let mut sessions = SessionManager::new(key(), 60);
    let early = sessions.issue(1, vec![1; 16], 0).unwrap();
    let middle = sessions.issue(2, vec![2; 16], 30).unwrap();
    let late = sessions.issue(3, vec![3; 16], 50).unwrap();
    assert_eq!(sessions.len(), 3);
    sessions.purge(59);
    assert_eq!(sessions.len(), 3);
    sessions.purge(60);
    assert_eq!(sessions.len(), 2);
    assert_eq!(sessions.resolve(&early, 0), None);
    assert_eq!(sessions.resolve(&middle, 60), Some(2));
    sessions.purge(100);
    assert_eq!(sessions.len(), 1);
    assert_eq!(sessions.resolve(&late, 100), Some(3));
    sessions.purge(u64::MAX);
    assert_eq!(sessions.len(), 0);
    // An identifier is free again once its session is gone.
    assert!(sessions.issue(1, vec![1; 16], 0).is_ok());
}

#[test]
fn create_draws_a_fresh_identifier_each_time() {
    let mut sessions = SessionManager::new(key(), 60);
    let first = sessions.create(7, 0).unwrap();
    let second = sessions.create(7, 0).unwrap();
    assert_eq!(first.len(), 2 * (32 + ID_LEN));
    assert_eq!(second.len(), 2 * (32 + ID_LEN));
    assert_ne!(first, second);
    assert_ne!(first[64..], second[64..]);
    assert_ne!(&first[64..], "00000000000000000000000000000000".as_bytes());
    assert_eq!(sessions.resolve(&first, 1), Some(7));
    assert_eq!(sessions.resolve(&second, 1), Some(7));
    assert_eq!(sessions.len(), 2);
}

#[test]
fn generated_managers_have_their_own_keys() {
    let mut one = SessionManager::generate(60).unwrap();
    let mut two = SessionManager::generate(60).unwrap();
    assert_eq!(one.len(), 0);
    let token_one = one.issue(7, id(), 0).unwrap();
    let token_two = two.issue(7, id(), 0).unwrap();
    assert_ne!(token_one, token_two);
    assert_eq!(two.resolve(&token_one, 1), None);
    assert_eq!(one.resolve(&token_one, 1), Some(7));
    assert_eq!(KEY_LEN, 64);
}

#[test]
fn same_bytes_compares_whole_strings() {
    assert!(same_bytes(b"", b""));
    assert!(same_bytes(b"abc", b"abc"));
    assert!(!same_bytes(b"abc", b"abd"));
    assert!(!same_bytes(b"xbc", b"abc"));
    assert!(!same_bytes(b"abc", b"ab"));
    assert!(!same_bytes(b"", b"a"));
}
